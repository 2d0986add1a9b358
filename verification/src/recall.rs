//! Retrieving past turns, of this session and of ones that ended long ago.
use crate::ask;
use crate::calendar;
use crate::data::{none_of, put, Dup};
use crate::events::{
    LoggedEvent, LoggedEventView, SessionEvent, SessionEventView, ToolCall, ToolCallView,
    ToolResult,
};
use crate::text;
use crate::text::{blank, ellipsize, join, lit, lower, number, read_u64, same, split, split_words};
use vstd::prelude::*;

verus! {

/// One turn, as it can be searched.
#[derive(Debug, PartialEq, Eq)]
pub struct Turn {
    pub session: String,
    pub turn: u64,
    /// When its session began, in milliseconds.
    pub started: u64,
    /// Everything said in it, in lower case.
    pub hay: String,
    pub asked: String,
    pub answered: String,
}

/// What a [`Turn`] holds.
#[verifier::ext_equal]
pub struct TurnView {
    pub session: Seq<char>,
    pub turn: u64,
    pub started: u64,
    pub hay: Seq<char>,
    pub asked: Seq<char>,
    pub answered: Seq<char>,
}

impl DeepView for Turn {
    type V = TurnView;

    open spec fn deep_view(&self) -> TurnView {
        TurnView {
            session: self.session.deep_view(),
            turn: self.turn.deep_view(),
            started: self.started.deep_view(),
            hay: self.hay.deep_view(),
            asked: self.asked.deep_view(),
            answered: self.answered.deep_view(),
        }
    }
}

impl Dup for Turn {
    fn dup(&self) -> (r: Self) {
        Turn {
            session: self.session.dup(),
            turn: self.turn.dup(),
            started: self.started.dup(),
            hay: self.hay.dup(),
            asked: self.asked.dup(),
            answered: self.answered.dup(),
        }
    }
}

impl Clone for Turn {
    fn clone(&self) -> (r: Self)
        ensures
            r.deep_view() == self.deep_view(),
    {
        self.dup()
    }
}

/// A turn that matches, and how well: lower ranks are better.
#[derive(Debug, PartialEq, Eq)]
pub struct Hit {
    pub rank: u64,
    pub turn: Turn,
}

/// What a [`Hit`] holds.
#[verifier::ext_equal]
pub struct HitView {
    pub rank: u64,
    pub turn: TurnView,
}

impl DeepView for Hit {
    type V = HitView;

    open spec fn deep_view(&self) -> HitView {
        HitView {
            rank: self.rank.deep_view(),
            turn: self.turn.deep_view(),
        }
    }
}

impl Dup for Hit {
    fn dup(&self) -> (r: Self) {
        Hit {
            rank: self.rank.dup(),
            turn: self.turn.dup(),
        }
    }
}

impl Clone for Hit {
    fn clone(&self) -> (r: Self)
        ensures
            r.deep_view() == self.deep_view(),
    {
        self.dup()
    }
}

pub const DEFAULT_LIMIT: usize = 6;

pub const MOST: usize = 30;

/// How many sessions back to read.
pub const MAX_SESSIONS: usize = 60;

/// When a session began: its id begins with that.
pub open spec fn began(id: Seq<char>) -> u64 {
    match text::number_within(text::pieces(id, '-')[0], u64::MAX as nat) {
        Some(n) => n as u64,
        None => 0,
    }
}

pub fn started_at(id: &str) -> (n: u64)
    ensures
        n == began(id@),
{
    let parts = split(id, '-');
    assert(text::pieces(id@, '-').len() > 0);
    assert(parts.deep_view()[0] == parts@[0]@);
    match read_u64(parts[0].as_str()) {
        Some(n) => n,
        None => 0,
    }
}

// ---- folding a log into turns ---------------------------------------------

pub open spec fn call_text(calls: Seq<ToolCallView>) -> Seq<char>
    decreases calls.len(),
{
    if calls.len() == 0 {
        Seq::empty()
    } else {
        call_text(calls.drop_last()) + " "@ + calls.last().name + " "@ + calls.last().arguments
    }
}

/// What a fact adds to its turn. Streamed chunks add nothing: the message they make
/// holds the same text.
pub open spec fn searchable(e: SessionEventView) -> Option<(u64, Seq<char>)> {
    match e {
        SessionEventView::UserMessage { turn, text, .. } => Some((turn, text)),
        SessionEventView::AssistantMessage { turn, text, reasoning, tool_calls, .. } => Some(
            (turn, text + " "@ + reasoning + call_text(tool_calls)),
        ),
        SessionEventView::ToolResultLogged { turn, content, .. } => Some((turn, content)),
        SessionEventView::Injected { turn, text, .. } => Some((turn, text)),
        _ => None,
    }
}

/// Where a turn stands; the length where it does not.
pub open spec fn place(turns: Seq<TurnView>, turn: u64) -> nat
    decreases turns.len(),
{
    if turns.len() == 0 || turns[0].turn == turn {
        0
    } else {
        1 + place(turns.skip(1), turn)
    }
}

proof fn lemma_place(turns: Seq<TurnView>, turn: u64, k: int)
    requires
        0 <= k <= turns.len(),
        forall|i: int| 0 <= i < k ==> (#[trigger] turns[i]).turn != turn,
        k < turns.len() ==> turns[k].turn == turn,
    ensures
        place(turns, turn) == k,
    decreases turns.len(),
{
    if k > 0 {
        assert(turns[0].turn != turn);
        let rest = turns.skip(1);
        assert forall|i: int| 0 <= i < k - 1 implies (#[trigger] rest[i]).turn != turn by {
            assert(rest[i] == turns[i + 1]);
        }
        lemma_place(rest, turn, k - 1);
    }
}

/// The turns with room for this one.
pub open spec fn opened(turns: Seq<TurnView>, session: Seq<char>, turn: u64) -> Seq<TurnView> {
    if place(turns, turn) < turns.len() {
        turns
    } else {
        turns.push(
            TurnView {
                session,
                turn,
                started: began(session),
                hay: Seq::empty(),
                asked: Seq::empty(),
                answered: Seq::empty(),
            },
        )
    }
}

/// A turn with one more fact.
pub open spec fn deepened(t: TurnView, e: SessionEventView, said: Seq<char>) -> TurnView {
    let t = TurnView { hay: t.hay + " "@ + text::lowered(said), ..t };
    match e {
        SessionEventView::UserMessage { text, .. } => if t.asked.len() == 0 {
            TurnView { asked: text, ..t }
        } else {
            t
        },
        SessionEventView::AssistantMessage { text, .. } => if t.answered.len() == 0
            && !text::is_blank(text) {
            TurnView { answered: text, ..t }
        } else {
            t
        },
        _ => t,
    }
}

pub open spec fn folded(turns: Seq<TurnView>, session: Seq<char>, e: SessionEventView) -> Seq<
    TurnView,
> {
    match searchable(e) {
        None => turns,
        Some((turn, said)) => {
            let open = opened(turns, session, turn);
            let k = place(turns, turn) as int;
            open.update(k, deepened(open[k], e, said))
        },
    }
}

/// The turns of a session, in the order they first said something.
pub open spec fn turns_in(session: Seq<char>, events: Seq<LoggedEventView>) -> Seq<TurnView>
    decreases events.len(),
{
    if events.len() == 0 {
        Seq::empty()
    } else {
        folded(turns_in(session, events.drop_last()), session, events.last().event)
    }
}

fn write_calls(out: &mut String, calls: &Vec<ToolCall>)
    ensures
        final(out)@ == old(out)@ + call_text(calls.deep_view()),
{
    let ghost start = out@;
    let ghost all = calls.deep_view();
    let mut i: usize = 0;
    assert(all.take(0) =~= Seq::<ToolCallView>::empty());
    assert(out@ =~= start + call_text(all.take(0)));
    while i < calls.len()
        invariant
            i <= calls.len(),
            all == calls.deep_view(),
            out@ == start + call_text(all.take(i as int)),
        decreases calls.len() - i,
    {
        assert(all.take(i + 1).drop_last() =~= all.take(i as int));
        assert(all.take(i + 1).last() == calls@[i as int].deep_view());
        out.append(" ");
        out.append(calls[i].name.as_str());
        out.append(" ");
        out.append(calls[i].arguments.as_str());
        assert(out@ =~= start + call_text(all.take(i + 1)));
        i = i + 1;
    }
    assert(all.take(i as int) =~= all);
}

fn find_place(turns: &Vec<Turn>, turn: u64) -> (k: usize)
    ensures
        k == place(turns.deep_view(), turn),
        k <= turns.len(),
{
    let ghost all = turns.deep_view();
    let mut i: usize = 0;
    while i < turns.len() && turns[i].turn != turn
        invariant
            i <= turns.len(),
            all == turns.deep_view(),
            forall|k: int| 0 <= k < i ==> (#[trigger] all[k]).turn != turn,
        decreases turns.len() - i,
    {
        assert(all[i as int] == turns@[i as int].deep_view());
        i = i + 1;
    }
    proof {
        if i < all.len() {
            assert(all[i as int] == turns@[i as int].deep_view());
        }
        lemma_place(all, turn, i as int);
    }
    i
}

fn read(e: &SessionEvent) -> (r: Option<(u64, String)>)
    ensures
        r.deep_view() == searchable(e.deep_view()),
{
    match e {
        SessionEvent::UserMessage { turn, text, .. } => Some((*turn, text.clone())),
        SessionEvent::AssistantMessage { turn, text, reasoning, tool_calls, .. } => {
            let mut all = text.clone().concat(" ").concat(reasoning.as_str());
            write_calls(&mut all, tool_calls);
            Some((*turn, all))
        },
        SessionEvent::ToolResultLogged { turn, content, .. } => Some((*turn, content.clone())),
        SessionEvent::Injected { turn, text, .. } => Some((*turn, text.clone())),
        _ => None,
    }
}

impl Turn {
    fn deepen(self, e: &SessionEvent, said: &str) -> (t: Turn)
        ensures
            t.deep_view() == deepened(self.deep_view(), e.deep_view(), said@),
    {
        let hay = self.hay.clone().concat(" ").concat(lower(said).as_str());
        let t = Turn { hay, ..self };
        match e {
            SessionEvent::UserMessage { text, .. } => {
                if t.asked.as_str().is_empty() {
                    Turn { asked: text.clone(), ..t }
                } else {
                    t
                }
            },
            SessionEvent::AssistantMessage { text, .. } => {
                if t.answered.as_str().is_empty() && !blank(text.as_str()) {
                    Turn { answered: text.clone(), ..t }
                } else {
                    t
                }
            },
            _ => t,
        }
    }
}

/// Folds one session's log into searchable turns.
pub fn turns_of(session: &str, events: &Vec<LoggedEvent>) -> (out: Vec<Turn>)
    ensures
        out.deep_view() == turns_in(session@, events.deep_view()),
{
    let started = started_at(session);
    let ghost all = events.deep_view();
    let mut out: Vec<Turn> = none_of();
    let mut i: usize = 0;
    assert(all.take(0) =~= Seq::<LoggedEventView>::empty());
    while i < events.len()
        invariant
            i <= events.len(),
            started == began(session@),
            all == events.deep_view(),
            out.deep_view() == turns_in(session@, all.take(i as int)),
        decreases events.len() - i,
    {
        assert(all.take(i + 1).drop_last() =~= all.take(i as int));
        assert(all.take(i + 1).last() == events@[i as int].deep_view());
        let e = &events[i].event;
        match read(e) {
            None => {},
            Some((turn, said)) => {
                let ghost before = out.deep_view();
                let k = find_place(&out, turn);
                if k >= out.len() {
                    put(
                        &mut out,
                        Turn {
                            session: lit(session),
                            turn,
                            started,
                            hay: String::new(),
                            asked: String::new(),
                            answered: String::new(),
                        },
                    );
                }
                let ghost open = out.deep_view();
                assert(open == opened(before, session@, turn));
                assert(open[k as int] == out@[k as int].deep_view());
                let t = out[k].clone().deepen(e, said.as_str());
                let ghost tv = t.deep_view();
                out.set(k, t);
                assert(out.deep_view() =~= open.update(k as int, tv));
            },
        }
        i = i + 1;
    }
    assert(all.take(i as int) =~= all);
    out
}

/// The stored sessions to read: the newest ones, without the live one, whose log is at
/// hand.
pub open spec fn others(ids: Seq<Seq<char>>, live: Option<Seq<char>>) -> Seq<Seq<char>>
    decreases ids.len(),
{
    if ids.len() == 0 {
        Seq::empty()
    } else if live == Some(ids.last()) {
        others(ids.drop_last(), live)
    } else {
        others(ids.drop_last(), live).push(ids.last())
    }
}

pub open spec fn to_read(ids: Seq<Seq<char>>, live: Option<Seq<char>>) -> Seq<Seq<char>> {
    others(
        if ids.len() <= MAX_SESSIONS {
            ids
        } else {
            ids.take(MAX_SESSIONS as int)
        },
        live,
    )
}

pub fn sessions_to_read(ids: &Vec<String>, live: &Option<String>) -> (out: Vec<String>)
    ensures
        out.deep_view() == to_read(ids.deep_view(), live.deep_view()),
{
    let n = if ids.len() <= MAX_SESSIONS {
        ids.len()
    } else {
        MAX_SESSIONS
    };
    let ghost all = ids.deep_view().take(n as int);
    let mut out: Vec<String> = none_of();
    let mut i: usize = 0;
    assert(all.take(0) =~= Seq::<Seq<char>>::empty());
    assert(n == ids.len() ==> all =~= ids.deep_view());
    while i < n
        invariant
            i <= n <= ids.len(),
            all == ids.deep_view().take(n as int),
            out.deep_view() == others(all.take(i as int), live.deep_view()),
        decreases n - i,
    {
        assert(all.take(i + 1).drop_last() =~= all.take(i as int));
        assert(all.take(i + 1).last() == ids@[i as int]@);
        let is_live = match live {
            Some(l) => same(l.as_str(), ids[i].as_str()),
            None => false,
        };
        if !is_live {
            put(&mut out, ids[i].clone());
        }
        i = i + 1;
    }
    assert(all.take(i as int) =~= all);
    out
}

// ---- ranking --------------------------------------------------------------

/// `a` comes no later than `b`: better ranks first, then newer sessions, then later
/// turns.
pub open spec fn no_later(a: HitView, b: HitView) -> bool {
    if a.rank != b.rank {
        a.rank < b.rank
    } else if a.turn.started != b.turn.started {
        a.turn.started > b.turn.started
    } else {
        a.turn.turn >= b.turn.turn
    }
}

/// A ranked list with one more, behind everything that comes no later.
pub open spec fn placed(list: Seq<HitView>, h: HitView) -> Seq<HitView>
    decreases list.len(),
{
    if list.len() > 0 && !no_later(list.last(), h) {
        placed(list.drop_last(), h).push(list.last())
    } else {
        list.push(h)
    }
}

/// The hits, best first; where two are alike, as they came.
pub open spec fn ranked(hits: Seq<HitView>) -> Seq<HitView>
    decreases hits.len(),
{
    if hits.len() == 0 {
        Seq::empty()
    } else {
        placed(ranked(hits.drop_last()), hits.last())
    }
}

proof fn lemma_placed(list: Seq<HitView>, h: HitView, k: int)
    requires
        0 <= k <= list.len(),
        forall|i: int| k <= i < list.len() ==> !no_later(#[trigger] list[i], h),
        k > 0 ==> no_later(list[k - 1], h),
    ensures
        placed(list, h) == list.insert(k, h),
    decreases list.len(),
{
    if k < list.len() {
        assert(!no_later(list[list.len() - 1], h));
        let front = list.drop_last();
        assert forall|i: int| k <= i < front.len() implies !no_later(#[trigger] front[i], h) by {
            assert(front[i] == list[i]);
        }
        lemma_placed(front, h, k);
        assert(front.insert(k, h).push(list.last()) =~= list.insert(k, h));
    } else {
        if list.len() > 0 {
            assert(list.last() == list[k - 1]);
        }
        assert(list.push(h) =~= list.insert(k, h));
    }
}

fn comes_no_later(a: &Hit, b: &Hit) -> (r: bool)
    ensures
        r == no_later(a.deep_view(), b.deep_view()),
{
    if a.rank != b.rank {
        a.rank < b.rank
    } else if a.turn.started != b.turn.started {
        a.turn.started > b.turn.started
    } else {
        a.turn.turn >= b.turn.turn
    }
}

fn put_ranked(list: &mut Vec<Hit>, h: Hit)
    ensures
        final(list).deep_view() == placed(old(list).deep_view(), h.deep_view()),
{
    let ghost all = list.deep_view();
    let ghost v = h.deep_view();
    let mut k: usize = list.len();
    while k > 0 && !comes_no_later(&list[k - 1], &h)
        invariant
            k <= list.len(),
            *list == *old(list),
            all == list.deep_view(),
            v == h.deep_view(),
            forall|i: int| k <= i < all.len() ==> !no_later(#[trigger] all[i], v),
        decreases k,
    {
        assert(all[k - 1] == list@[k - 1].deep_view());
        k = k - 1;
    }
    proof {
        if k > 0 {
            assert(all[k - 1] == list@[k - 1].deep_view());
        }
        lemma_placed(all, v, k as int);
    }
    list.insert(k, h);
    assert(list.deep_view() =~= all.insert(k as int, v));
}

pub fn rank(hits: Vec<Hit>) -> (out: Vec<Hit>)
    ensures
        out.deep_view() == ranked(hits.deep_view()),
{
    let ghost all = hits.deep_view();
    let mut out: Vec<Hit> = none_of();
    let mut i: usize = 0;
    assert(all.take(0) =~= Seq::<HitView>::empty());
    while i < hits.len()
        invariant
            i <= hits.len(),
            all == hits.deep_view(),
            out.deep_view() == ranked(all.take(i as int)),
        decreases hits.len() - i,
    {
        assert(all.take(i + 1).drop_last() =~= all.take(i as int));
        assert(all.take(i + 1).last() == hits@[i as int].deep_view());
        put_ranked(&mut out, hits[i].clone());
        i = i + 1;
    }
    assert(all.take(i as int) =~= all);
    out
}

// ---- what the model reads -------------------------------------------------

/// A text on one line, of at most so many characters.
pub open spec fn clipped(s: Seq<char>, cells: int) -> Seq<char> {
    text::ellipsized(text::joined(text::words(s), " "@), cells)
}

pub fn clip(s: &str, cells: usize) -> (r: String)
    ensures
        r@ == clipped(s@, cells as int),
{
    ellipsize(join(&split_words(s), " ").as_str(), cells)
}

pub open spec fn found_line(t: TurnView) -> Seq<char> {
    "\n— "@ + calendar::day_of(t.started) + " · session "@ + t.session + " · turn "@
        + text::decimal(t.turn as nat) + "\n  asked:  "@ + clipped(t.asked, 160)
        + "\n  answered: "@ + clipped(t.answered, 240) + "\n"@
}

pub open spec fn limit_of(limit: Option<usize>) -> usize {
    match limit {
        Some(n) => if n < 1 {
            1
        } else if n > MOST {
            MOST
        } else {
            n
        },
        None => DEFAULT_LIMIT,
    }
}

pub open spec fn found_lines(hits: Seq<HitView>) -> Seq<Seq<char>> {
    Seq::new(hits.len(), |i: int| found_line(hits[i].turn))
}

/// The answer to a search.
pub open spec fn recalled(query: Seq<char>, hits: Seq<HitView>, limit: Option<usize>) -> Seq<char> {
    if hits.len() == 0 {
        "No past turn in this project matches “"@ + query
            + "”. Say so plainly rather than inventing one."@
    } else {
        let best = ranked(hits);
        let n = if best.len() <= limit_of(limit) {
            best.len() as int
        } else {
            limit_of(limit) as int
        };
        text::decimal(n as nat) + " matching turn(s), best first:\n"@ + text::strung(
            found_lines(best.take(n)),
        )
    }
}

/// The answer to a search, once every turn was matched.
pub fn recall(query: &str, hits: Vec<Hit>, limit: Option<usize>) -> (r: ToolResult)
    ensures
        r.deep_view() == ask::said(recalled(query@, hits.deep_view(), limit), false),
{
    if hits.len() == 0 {
        return ask::ok(
            lit("No past turn in this project matches “").concat(query).concat(
                "”. Say so plainly rather than inventing one.",
            ),
        );
    }
    let ghost hv = hits.deep_view();
    proof {
        lemma_ranked_len(hv);
    }
    let most: usize = match limit {
        Some(n) => {
            if n < 1 {
                1
            } else if n > MOST {
                MOST
            } else {
                n
            }
        },
        None => DEFAULT_LIMIT,
    };
    let best = rank(hits);
    let n = if best.len() <= most {
        best.len()
    } else {
        most
    };
    let mut out = number(n as u64).concat(" matching turn(s), best first:\n");
    let ghost head = out@;
    let ghost all = found_lines(best.deep_view().take(n as int));
    let mut i: usize = 0;
    assert(all.take(0) =~= Seq::<Seq<char>>::empty());
    assert(out@ =~= head + text::strung(all.take(0)));
    while i < n
        invariant
            i <= n <= best.len(),
            all == found_lines(best.deep_view().take(n as int)),
            out@ == head + text::strung(all.take(i as int)),
        decreases n - i,
    {
        assert(all.take(i + 1).drop_last() =~= all.take(i as int));
        assert(all.take(i + 1).last() == found_line(best@[i as int].turn.deep_view()));
        let t = &best[i].turn;
        let line = lit("\n— ").concat(calendar::when(t.started).as_str()).concat(
            " · session ",
        ).concat(t.session.as_str()).concat(" · turn ").concat(number(t.turn).as_str()).concat(
            "\n  asked:  ",
        ).concat(clip(t.asked.as_str(), 160).as_str()).concat("\n  answered: ").concat(
            clip(t.answered.as_str(), 240).as_str(),
        ).concat("\n");
        out.append(line.as_str());
        assert(out@ =~= head + text::strung(all.take(i + 1)));
        i = i + 1;
    }
    assert(all.take(i as int) =~= all);
    ask::ok(out)
}

/// Why a search was not run.
pub const NO_TERMS: &'static str = "recall: the query has no searchable terms.";

pub const NO_HISTORY: &'static str = "recall: nothing is persisted in this tree, so there is no history to search.";

// ---- laws -----------------------------------------------------------------

proof fn lemma_placed_len(list: Seq<HitView>, h: HitView)
    ensures
        placed(list, h).len() == list.len() + 1,
    decreases list.len(),
{
    if list.len() > 0 && !no_later(list.last(), h) {
        lemma_placed_len(list.drop_last(), h);
    }
}

proof fn lemma_placed_keeps(list: Seq<HitView>, h: HitView)
    ensures
        placed(list, h).to_multiset() == list.to_multiset().insert(h),
    decreases list.len(),
{
    broadcast use vstd::seq_lib::group_to_multiset_ensures;

    if list.len() > 0 && !no_later(list.last(), h) {
        let front = list.drop_last();
        lemma_placed_keeps(front, h);
        assert(front.push(list.last()) =~= list);
        assert(front.to_multiset().insert(h).insert(list.last())
            =~= front.to_multiset().insert(list.last()).insert(h));
    }
}

proof fn lemma_ranked_len(hits: Seq<HitView>)
    ensures
        ranked(hits).len() == hits.len(),
    decreases hits.len(),
{
    if hits.len() > 0 {
        lemma_ranked_len(hits.drop_last());
        lemma_placed_len(ranked(hits.drop_last()), hits.last());
    }
}

proof fn lemma_placed_in_order(list: Seq<HitView>, h: HitView)
    requires
        forall|i: int, j: int|
            0 <= i < j < list.len() ==> no_later(#[trigger] list[i], #[trigger] list[j]),
    ensures
        forall|i: int, j: int|
            0 <= i < j < placed(list, h).len() ==> no_later(
                #[trigger] placed(list, h)[i],
                #[trigger] placed(list, h)[j],
            ),
        forall|i: int|
            0 <= i < placed(list, h).len() ==> #[trigger] placed(list, h)[i] == h || list.contains(
                placed(list, h)[i],
            ),
    decreases list.len(),
{
    let now = placed(list, h);
    if list.len() > 0 && !no_later(list.last(), h) {
        let front = list.drop_last();
        assert forall|i: int, j: int| 0 <= i < j < front.len() implies no_later(
            #[trigger] front[i],
            #[trigger] front[j],
        ) by {
            assert(front[i] == list[i]);
            assert(front[j] == list[j]);
        }
        lemma_placed_in_order(front, h);
        lemma_placed_len(front, h);
        let before = placed(front, h);
        assert forall|i: int| 0 <= i < before.len() implies no_later(
            #[trigger] before[i],
            list.last(),
        ) && (before[i] == h || list.contains(before[i])) by {
            if before[i] != h {
                let k = choose|k: int| 0 <= k < front.len() && front[k] == before[i];
                assert(list[k] == before[i]);
                assert(no_later(list[k], list[list.len() - 1]));
            }
        }
        assert forall|i: int, j: int| 0 <= i < j < now.len() implies no_later(
            #[trigger] now[i],
            #[trigger] now[j],
        ) by {
            if j < before.len() {
                assert(now[i] == before[i] && now[j] == before[j]);
            } else {
                assert(now[i] == before[i]);
            }
        }
        assert forall|i: int| 0 <= i < now.len() implies #[trigger] now[i] == h || list.contains(
            now[i],
        ) by {
            if i < before.len() {
                assert(now[i] == before[i]);
            } else {
                assert(list[list.len() - 1] == now[i]);
            }
        }
    } else {
        assert forall|i: int, j: int| 0 <= i < j < now.len() implies no_later(
            #[trigger] now[i],
            #[trigger] now[j],
        ) by {
            if j == list.len() && list.len() > 0 {
                assert(now[i] == list[i]);
                if i < list.len() - 1 {
                    assert(no_later(list[i], list[list.len() - 1]));
                }
            } else {
                assert(now[i] == list[i] && now[j] == list[j]);
            }
        }
        assert forall|i: int| 0 <= i < now.len() implies #[trigger] now[i] == h || list.contains(
            now[i],
        ) by {
            if i < list.len() {
                assert(list[i] == now[i]);
            }
        }
    }
}

/// The best come first: no hit stands before one that is better, none is lost and none
/// comes twice that came once.
pub proof fn law_best_first(hits: Seq<HitView>)
    ensures
        ranked(hits).len() == hits.len(),
        forall|i: int, j: int|
            0 <= i < j < ranked(hits).len() ==> no_later(
                #[trigger] ranked(hits)[i],
                #[trigger] ranked(hits)[j],
            ),
        ranked(hits).to_multiset() == hits.to_multiset(),
        forall|i: int| 0 <= i < ranked(hits).len() ==> hits.contains(#[trigger] ranked(hits)[i]),
    decreases hits.len(),
{
    broadcast use vstd::seq_lib::group_to_multiset_ensures;

    if hits.len() > 0 {
        let front = hits.drop_last();
        law_best_first(front);
        lemma_placed_keeps(ranked(front), hits.last());
        assert(front.push(hits.last()) =~= hits);
        lemma_placed_in_order(ranked(front), hits.last());
        lemma_placed_len(ranked(front), hits.last());
        assert forall|i: int| 0 <= i < ranked(hits).len() implies hits.contains(
            #[trigger] ranked(hits)[i],
        ) by {
            let x = ranked(hits)[i];
            if x == hits.last() {
                assert(hits[hits.len() - 1] == x);
            } else {
                let k = choose|k: int| 0 <= k < ranked(front).len() && ranked(front)[k] == x;
                assert(front.contains(ranked(front)[k]));
                let j = choose|j: int| 0 <= j < front.len() && front[j] == x;
                assert(hits[j] == x);
            }
        }
    }
}

/// At most thirty turns come back, and at least one where there is any.
pub proof fn law_the_limit_holds(limit: Option<usize>)
    ensures
        1 <= limit_of(limit) <= 30,
{
}

// ---- the tool -------------------------------------------------------------

/// The turns that matched, each with its rank.
pub open spec fn matched(turns: Seq<TurnView>, ranks: Seq<Option<u64>>) -> Seq<HitView>
    decreases turns.len(),
{
    if turns.len() == 0 {
        Seq::empty()
    } else {
        let before = matched(turns.drop_last(), ranks);
        match ranks[turns.len() - 1] {
            Some(rank) => before.push(HitView { rank, turn: turns.last() }),
            None => before,
        }
    }
}

/// The `recall` tool.
#[derive(Clone, Copy, Debug, PartialEq, Eq, Structural)]
pub struct RecallTool;

impl RecallTool {
    /// What a search is refused with before anything is read: it needs something to
    /// look for, and somewhere to look.
    pub fn screen(&self, terms: usize, has_store: bool) -> (r: Option<ToolResult>)
        ensures
            r.deep_view() == (if terms == 0 {
                Some(ask::said(NO_TERMS@, true))
            } else if !has_store {
                Some(ask::said(NO_HISTORY@, true))
            } else {
                None
            }),
    {
        if terms == 0 {
            Some(ask::fail(lit(NO_TERMS)))
        } else if !has_store {
            Some(ask::fail(lit(NO_HISTORY)))
        } else {
            None
        }
    }

    /// The answer, once every turn was scored: `ranks` holds one for each turn that
    /// matched, and lower is better.
    pub fn answer(
        &self,
        query: &str,
        turns: &Vec<Turn>,
        ranks: &Vec<Option<u64>>,
        limit: Option<usize>,
    ) -> (r: ToolResult)
        requires
            ranks@.len() == turns@.len(),
        ensures
            r.deep_view() == ask::said(
                recalled(query@, matched(turns.deep_view(), ranks@), limit),
                false,
            ),
    {
        let ghost all = turns.deep_view();
        let mut hits: Vec<Hit> = none_of();
        let mut i: usize = 0;
        assert(all.take(0).len() == 0);
        while i < turns.len()
            invariant
                i <= turns.len(),
                ranks@.len() == turns@.len(),
                all == turns.deep_view(),
                hits.deep_view() == matched(all.take(i as int), ranks@),
            decreases turns.len() - i,
        {
            assert(all.take(i + 1).drop_last() =~= all.take(i as int));
            assert(all.take(i + 1).last() == turns@[i as int].deep_view());
            match ranks[i] {
                Some(rank) => {
                    put(&mut hits, Hit { rank, turn: turns[i].clone() });
                },
                None => {},
            }
            i = i + 1;
        }
        assert(all.take(i as int) =~= all);
        recall(query, hits, limit)
    }
}

// ---- what the model is told ------------------------------------------------

/// What `recall` is for.
pub const DESCRIPTION: &'static str = "Search this project's past sessions — including earlier turns of the current one that have since been compacted out of view. Use it when the user refers to something you have no record of (\"the thing we decided last week\", \"that bug from yesterday\"), instead of saying you cannot remember. Returns the matching turns with their session id and date.";

/// The arguments of `recall`, as JSON Schema.
pub const SCHEMA: &'static str = "{\"properties\":{\"limit\":{\"description\":\"How many turns to return (default 6)\",\"type\":\"integer\"},\"query\":{\"description\":\"Words to look for. Works with Chinese without spaces.\",\"type\":\"string\"}},\"required\":[\"query\"],\"type\":\"object\"}";

/// What is said of it.
pub const NOTE: &'static str = "RECALL. `recall {query, limit}` searches every past session of this project, plus earlier turns of this one that compaction has removed from view. Chinese works without spaces. When someone refers to something you have no record of, search before saying you do not remember.";

/// The refusal where the arguments cannot be read.
pub fn bad_arguments(e: &str) -> (r: ToolResult)
    ensures
        r.deep_view() == ask::said("recall: invalid arguments: "@ + e@, true),
{
    ask::fail(lit("recall: invalid arguments: ").concat(e))
}

/// The refusal where the store cannot say which sessions there are.
pub fn no_listing(e: &str) -> (r: ToolResult)
    ensures
        r.deep_view() == ask::said("recall: cannot list sessions: "@ + e@, true),
{
    ask::fail(lit("recall: cannot list sessions: ").concat(e))
}

} // verus!
