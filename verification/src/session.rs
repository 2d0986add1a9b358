//! What is kept of a session: folds over its log, and the log as lines of text.
use crate::data::{none_of, put, Dup};
use crate::events::{SessionEvent, SessionEventView, StopReason, TokenUsage};
use crate::json;
use crate::json::{Json, JsonView};
use crate::order;
use crate::order::sort;
use crate::text;
use crate::text::{blank, chars_of, join, lines_of, lit, number};
use vstd::prelude::*;

verus! {

/// One turn, as the log bounds it.
#[derive(Debug, PartialEq, Eq)]
pub struct TurnMark {
    pub turn: u64,
    pub rounds: u64,
    pub stop: Option<StopReason>,
}

/// What a [`TurnMark`] holds.
#[verifier::ext_equal]
pub struct TurnMarkView {
    pub turn: u64,
    pub rounds: u64,
    pub stop: Option<StopReason>,
}

impl DeepView for TurnMark {
    type V = TurnMarkView;

    open spec fn deep_view(&self) -> TurnMarkView {
        TurnMarkView {
            turn: self.turn.deep_view(),
            rounds: self.rounds.deep_view(),
            stop: self.stop.deep_view(),
        }
    }
}

impl Dup for TurnMark {
    fn dup(&self) -> (r: Self) {
        TurnMark {
            turn: self.turn.dup(),
            rounds: self.rounds.dup(),
            stop: self.stop.dup(),
        }
    }
}

impl Clone for TurnMark {
    fn clone(&self) -> (r: Self)
        ensures
            r.deep_view() == self.deep_view(),
    {
        self.dup()
    }
}

/// The turns of a log.
#[derive(Debug, PartialEq, Eq)]
pub struct TurnBoundary {
    pub turns: Vec<TurnMark>,
}

/// What a [`TurnBoundary`] holds.
#[verifier::ext_equal]
pub struct TurnBoundaryView {
    pub turns: Seq<TurnMarkView>,
}

impl DeepView for TurnBoundary {
    type V = TurnBoundaryView;

    open spec fn deep_view(&self) -> TurnBoundaryView {
        TurnBoundaryView {
            turns: self.turns.deep_view(),
        }
    }
}

impl Dup for TurnBoundary {
    fn dup(&self) -> (r: Self) {
        TurnBoundary {
            turns: self.turns.dup(),
        }
    }
}

impl Clone for TurnBoundary {
    fn clone(&self) -> (r: Self)
        ensures
            r.deep_view() == self.deep_view(),
    {
        self.dup()
    }
}

/// Cumulative token usage.
#[derive(Clone, Copy, Debug, PartialEq, Eq, Structural)]
pub struct TokenTotals {
    pub prompt: u64,
    pub completion: u64,
    pub cached: u64,
}

impl DeepView for TokenTotals {
    type V = TokenTotals;

    open spec fn deep_view(&self) -> TokenTotals {
        *self
    }
}

impl Dup for TokenTotals {
    fn dup(&self) -> (r: Self) {
        *self
    }
}

/// One stored event: its line, its number, and the event as JSON text.
#[derive(Debug, PartialEq, Eq)]
pub struct Frame {
    pub line: usize,
    pub seq: u64,
    pub event: String,
}

/// What a [`Frame`] holds.
#[verifier::ext_equal]
pub struct FrameView {
    pub line: usize,
    pub seq: u64,
    pub event: Seq<char>,
}

impl DeepView for Frame {
    type V = FrameView;

    open spec fn deep_view(&self) -> FrameView {
        FrameView {
            line: self.line.deep_view(),
            seq: self.seq.deep_view(),
            event: self.event.deep_view(),
        }
    }
}

impl Dup for Frame {
    fn dup(&self) -> (r: Self) {
        Frame {
            line: self.line.dup(),
            seq: self.seq.dup(),
            event: self.event.dup(),
        }
    }
}

impl Clone for Frame {
    fn clone(&self) -> (r: Self)
        ensures
            r.deep_view() == self.deep_view(),
    {
        self.dup()
    }
}

/// What a stored header says of a session's start.
#[derive(Debug, PartialEq, Eq)]
pub struct HeaderFacts {
    pub created_at: u64,
    pub cwd: Option<String>,
    pub parent: Option<String>,
    pub inherited: u64,
}

/// What a [`HeaderFacts`] holds.
#[verifier::ext_equal]
pub struct HeaderFactsView {
    pub created_at: u64,
    pub cwd: Option<Seq<char>>,
    pub parent: Option<Seq<char>>,
    pub inherited: u64,
}

impl DeepView for HeaderFacts {
    type V = HeaderFactsView;

    open spec fn deep_view(&self) -> HeaderFactsView {
        HeaderFactsView {
            created_at: self.created_at.deep_view(),
            cwd: self.cwd.deep_view(),
            parent: self.parent.deep_view(),
            inherited: self.inherited.deep_view(),
        }
    }
}

impl Dup for HeaderFacts {
    fn dup(&self) -> (r: Self) {
        HeaderFacts {
            created_at: self.created_at.dup(),
            cwd: self.cwd.dup(),
            parent: self.parent.dup(),
            inherited: self.inherited.dup(),
        }
    }
}

impl Clone for HeaderFacts {
    fn clone(&self) -> (r: Self)
        ensures
            r.deep_view() == self.deep_view(),
    {
        self.dup()
    }
}

// ---- folds ----------------------------------------------------------------

pub open spec fn sum(a: u64, b: int) -> u64 {
    if a + b > u64::MAX {
        u64::MAX
    } else {
        (a + b) as u64
    }
}

/// The turns after one more fact: a start opens one, a request counts a round of the
/// last, and an end closes it.
pub open spec fn bounded(turns: Seq<TurnMarkView>, e: SessionEventView) -> Seq<TurnMarkView> {
    match e {
        SessionEventView::TurnStart { turn } => turns.push(
            TurnMarkView { turn, rounds: 0, stop: None },
        ),
        SessionEventView::RequestHeader { .. } => if turns.len() == 0 {
            turns
        } else {
            turns.update(
                turns.len() - 1,
                TurnMarkView { rounds: sum(turns.last().rounds, 1), ..turns.last() },
            )
        },
        SessionEventView::TurnEnd { stop, .. } => if turns.len() == 0 {
            turns
        } else {
            turns.update(turns.len() - 1, TurnMarkView { stop: Some(stop), ..turns.last() })
        },
        _ => turns,
    }
}

impl TurnBoundary {
    pub fn new() -> (b: Self)
        ensures
            b.deep_view().turns == Seq::<TurnMarkView>::empty(),
    {
        TurnBoundary { turns: none_of() }
    }

    pub fn fold(&mut self, event: &SessionEvent)
        ensures
            final(self).deep_view().turns == bounded(
                old(self).deep_view().turns,
                event.deep_view(),
            ),
    {
        let ghost before = self.turns.deep_view();
        let n = self.turns.len();
        match event {
            SessionEvent::TurnStart { turn } => {
                put(&mut self.turns, TurnMark { turn: *turn, rounds: 0, stop: None });
            },
            SessionEvent::RequestHeader { .. } => {
                if n > 0 {
                    assert(before.last() == self.turns@[n - 1].deep_view());
                    let last = self.turns[n - 1].clone();
                    let rounds = last.rounds.saturating_add(1);
                    self.turns.set(n - 1, TurnMark { rounds, ..last });
                    assert(self.turns.deep_view() =~= bounded(before, event.deep_view()));
                }
            },
            SessionEvent::TurnEnd { stop, .. } => {
                if n > 0 {
                    assert(before.last() == self.turns@[n - 1].deep_view());
                    let last = self.turns[n - 1].clone();
                    self.turns.set(n - 1, TurnMark { stop: Some(*stop), ..last });
                    assert(self.turns.deep_view() =~= bounded(before, event.deep_view()));
                }
            },
            _ => {},
        }
    }
}

pub open spec fn tallied(t: TokenTotals, e: SessionEventView) -> TokenTotals {
    match e {
        SessionEventView::Usage { usage, .. } => TokenTotals {
            prompt: sum(t.prompt, usage.prompt as int),
            completion: sum(t.completion, usage.completion as int),
            cached: sum(t.cached, usage.cached as int),
        },
        _ => t,
    }
}

impl TokenTotals {
    pub fn new() -> (t: Self)
        ensures
            t == (TokenTotals { prompt: 0, completion: 0, cached: 0 }),
    {
        TokenTotals { prompt: 0, completion: 0, cached: 0 }
    }

    pub fn fold(&mut self, event: &SessionEvent)
        ensures
            *final(self) == tallied(*old(self), event.deep_view()),
    {
        match event {
            SessionEvent::Usage { usage, .. } => {
                self.prompt = self.prompt.saturating_add(usage.prompt as u64);
                self.completion = self.completion.saturating_add(usage.completion as u64);
                self.cached = self.cached.saturating_add(usage.cached as u64);
            },
            _ => {},
        }
    }

    /// The totals as JSON text.
    pub fn shown(&self) -> (r: String)
        ensures
            r@ == "{\"cached\":"@ + text::decimal(self.cached as nat) + ",\"completion\":"@
                + text::decimal(self.completion as nat) + ",\"prompt\":"@ + text::decimal(
                self.prompt as nat,
            ) + "}"@,
    {
        lit("{\"cached\":").concat(number(self.cached).as_str()).concat(
            ",\"completion\":",
        ).concat(number(self.completion).as_str()).concat(",\"prompt\":").concat(
            number(self.prompt).as_str(),
        ).concat("}")
    }
}

/// The totals of a log.
pub open spec fn tally(log: Seq<SessionEventView>) -> TokenTotals
    decreases log.len(),
{
    if log.len() == 0 {
        TokenTotals { prompt: 0, completion: 0, cached: 0 }
    } else {
        tallied(tally(log.drop_last()), log.last())
    }
}

/// What a log reports of one count, in all.
pub open spec fn reported(log: Seq<SessionEventView>, count: spec_fn(TokenUsage) -> u32) -> nat
    decreases log.len(),
{
    if log.len() == 0 {
        0
    } else {
        reported(log.drop_last(), count) + (match log.last() {
            SessionEventView::Usage { usage, .. } => count(usage) as nat,
            _ => 0,
        })
    }
}

/// The totals are the sum of every report, as far as a counter holds it.
pub proof fn law_totals_add_up(log: Seq<SessionEventView>)
    ensures
        tally(log).prompt == sum(0, reported(log, |u: TokenUsage| u.prompt) as int),
        tally(log).completion == sum(0, reported(log, |u: TokenUsage| u.completion) as int),
        tally(log).cached == sum(0, reported(log, |u: TokenUsage| u.cached) as int),
    decreases log.len(),
{
    if log.len() > 0 {
        law_totals_add_up(log.drop_last());
    }
}

// ---- where a session is kept ----------------------------------------------

/// A character that can stand in a file name as it is.
pub open spec fn plain(c: char) -> bool {
    ('a' <= c && c <= 'z') || ('A' <= c && c <= 'Z') || ('0' <= c && c <= '9') || c == '-' || c
        == '_'
}

/// One path segment, whatever the id claims to be.
pub open spec fn made_safe(id: Seq<char>) -> Seq<char> {
    Seq::new(
        id.len(),
        |i: int|
            if plain(id[i]) {
                id[i]
            } else {
                '_'
            },
    )
}

pub fn safe(id: &str) -> (r: String)
    ensures
        r@ == made_safe(id@),
{
    let x = chars_of(id);
    let mut r = String::new();
    let mut i: usize = 0;
    assert(r@ =~= made_safe(id@).take(0));
    while i < x.len()
        invariant
            i <= x.len(),
            x@ == id@,
            r@ == made_safe(id@).take(i as int),
        decreases x.len() - i,
    {
        let c: char = x[i];
        if ('a' <= c && c <= 'z') || ('A' <= c && c <= 'Z') || ('0' <= c && c <= '9') || c == '-'
            || c == '_' {
            r.push(c);
        } else {
            r.push('_');
        }
        assert(r@ =~= made_safe(id@).take(i + 1));
        i = i + 1;
    }
    assert(made_safe(id@).take(i as int) =~= made_safe(id@));
    r
}

/// The name of a session's file.
pub fn file_name(id: &str) -> (r: String)
    ensures
        r@ == made_safe(id@) + ".jsonl"@,
{
    safe(id).concat(".jsonl")
}

/// Whatever id arrives, the file it names stays in its directory: no character of it
/// separates paths or climbs out of one.
pub proof fn law_an_id_stays_in_its_directory(id: Seq<char>, i: int)
    requires
        0 <= i < made_safe(id).len(),
    ensures
        plain(made_safe(id)[i]),
        made_safe(id)[i] != '/',
        made_safe(id)[i] != '\\',
        made_safe(id)[i] != '.',
{
}

/// The sessions of a project, newest first: ids are minted in order.
pub open spec fn latest_first(ids: Seq<Seq<char>>) -> Seq<Seq<char>> {
    order::sorted(ids).reverse()
}

pub fn list(ids: &Vec<String>) -> (out: Vec<String>)
    ensures
        out.deep_view() == latest_first(ids.deep_view()),
{
    let all = sort(ids);
    let ghost s = all.deep_view();
    let mut out: Vec<String> = none_of();
    let mut i: usize = all.len();
    assert(out.deep_view() =~= s.reverse().take(0));
    while i > 0
        invariant
            i <= all.len(),
            s == all.deep_view(),
            out.deep_view() == s.reverse().take(all.len() - i),
        decreases i,
    {
        put(&mut out, all[i - 1].clone());
        assert(s.reverse()[all.len() - i] == all@[i - 1]@);
        assert(out.deep_view() =~= s.reverse().take(all.len() - i + 1));
        i = i - 1;
    }
    assert(s.reverse().take(all.len() as int) =~= s.reverse());
    out
}

// ---- the log as lines -----------------------------------------------------

/// What a line of the log holds, once it is read: the header line holds no event, and
/// a line without a number is numbered zero.
pub open spec fn entry(j: JsonView) -> Option<(u64, Seq<char>)> {
    if json::member(j, "header"@) is Some && json::member(j, "event"@) is None {
        None
    } else {
        Some(
            (
                match json::whole_under(j, "seq"@) {
                    Some(n) => n,
                    None => 0,
                },
                match json::member(j, "event"@) {
                    Some(e) => e,
                    None => "null"@,
                },
            ),
        )
    }
}

pub fn entry_of(j: &Json) -> (r: Option<(u64, String)>)
    ensures
        r.deep_view() == entry(j.deep_view()),
{
    let event = j.get("event");
    if j.get("header").is_some() && event.is_none() {
        return None;
    }
    let seq: u64 = match j.whole_at("seq") {
        Some(n) => n,
        None => 0,
    };
    let event = match event {
        Some(e) => e,
        None => lit("null"),
    };
    Some((seq, event))
}

/// An error in a line of a file.
pub open spec fn line_trouble(path: Seq<char>, line: nat, e: Seq<char>) -> Seq<char> {
    path + ":"@ + text::decimal(line) + ": "@ + e
}

pub fn line_error(path: &str, line: usize, e: &str) -> (r: String)
    ensures
        r@ == line_trouble(path@, line as nat, e@),
{
    lit(path).concat(":").concat(number(line as u64).as_str()).concat(": ").concat(e)
}

/// The events in the lines of a log, in the order of the lines; blank lines hold
/// nothing.
pub open spec fn frames_in(path: Seq<char>, lines: Seq<Seq<char>>) -> Result<
    Seq<FrameView>,
    Seq<char>,
>
    decreases lines.len(),
{
    if lines.len() == 0 {
        Ok(Seq::empty())
    } else {
        match frames_in(path, lines.drop_last()) {
            Err(e) => Err(e),
            Ok(so_far) => if text::is_blank(lines.last()) {
                Ok(so_far)
            } else {
                match json::parsed(lines.last()) {
                    Err(e) => Err(line_trouble(path, lines.len(), e)),
                    Ok(j) => match entry(j) {
                        None => Ok(so_far),
                        Some((seq, event)) => Ok(
                            so_far.push(FrameView { line: lines.len() as usize, seq, event }),
                        ),
                    },
                }
            },
        }
    }
}

pub open spec fn frames_view(r: Result<Vec<Frame>, String>) -> Result<Seq<FrameView>, Seq<char>> {
    match r {
        Ok(f) => Ok(f.deep_view()),
        Err(e) => Err(e@),
    }
}

proof fn lemma_trouble_stays(path: Seq<char>, lines: Seq<Seq<char>>, n: int)
    requires
        0 <= n <= lines.len(),
        frames_in(path, lines.take(n)) is Err,
    ensures
        frames_in(path, lines) == frames_in(path, lines.take(n)),
    decreases lines.len(),
{
    if n == lines.len() {
        assert(lines.take(n) =~= lines);
    } else {
        assert(lines.drop_last().take(n) =~= lines.take(n));
        lemma_trouble_stays(path, lines.drop_last(), n);
    }
}

/// Reads the events of a stored log.
pub fn parse(path: &str, content: &str) -> (r: Result<Vec<Frame>, String>)
    ensures
        frames_view(r) == frames_in(path@, text::lines(content@)),
{
    let lines = lines_of(content);
    let ghost all = lines.deep_view();
    let mut out: Vec<Frame> = none_of();
    let mut i: usize = 0;
    assert(all.take(0) =~= Seq::<Seq<char>>::empty());
    while i < lines.len()
        invariant
            i <= lines.len(),
            all == lines.deep_view(),
            all == text::lines(content@),
            frames_in(path@, all.take(i as int)) == Ok::<Seq<FrameView>, Seq<char>>(
                out.deep_view(),
            ),
        decreases lines.len() - i,
    {
        assert(all.take(i + 1).drop_last() =~= all.take(i as int));
        assert(all.take(i + 1).last() == lines@[i as int]@);
        if !blank(lines[i].as_str()) {
            match json::read(lines[i].as_str()) {
                Err(e) => {
                    let trouble = line_error(path, i + 1, e.as_str());
                    proof {
                        assert(frames_in(path@, all.take(i + 1)) == Err::<
                            Seq<FrameView>,
                            Seq<char>,
                        >(trouble@));
                        lemma_trouble_stays(path@, all, i + 1);
                    }
                    return Err(trouble);
                },
                Ok(j) => match entry_of(&j) {
                    None => {},
                    Some((seq, event)) => {
                        put(&mut out, Frame { line: i + 1, seq, event });
                    },
                },
            }
        }
        i = i + 1;
    }
    assert(all.take(i as int) =~= all);
    Ok(out)
}

/// What is stored of an event: the event, as JSON text, and its number.
pub open spec fn record(seq: u64, event: Seq<char>) -> Seq<(Seq<char>, Seq<char>)> {
    seq![("event"@, event), ("seq"@, text::decimal(seq as nat))]
}

/// A numbered event as one line of JSON.
pub open spec fn framed(seq: u64, event: Seq<char>) -> Seq<char> {
    "{\"event\":"@ + json::compact(event) + ",\"seq\":"@ + text::decimal(seq as nat) + "}"@
}

/// Writes one event as a line of the log. `event` is the event as JSON text.
pub fn write(seq: u64, event: &str) -> (r: Result<String, String>)
    ensures
        match r {
            Ok(t) => json::parsed(event@) is Ok && t@ == framed(seq, event@) + "\n"@,
            Err(e) => json::parsed(event@) == Err::<JsonView, Seq<char>>(e@),
        },
        r matches Ok(t) ==> readable(seq, event@),
{
    let mut members: Vec<(String, String)> = none_of();
    put(&mut members, (lit("event"), lit(event)));
    put(&mut members, (lit("seq"), json::numeral(seq)));
    let ghost all = members.deep_view();
    proof {
        assert(all =~= record(seq, event@));
        lemma_record(seq, event@);
    }
    match json::object(&members) {
        Ok(t) => {
            proof {
                assert(json::parsed(all[0].1) is Ok);
                assert(json::read_over(all) =~= seq![
                    ("event"@, json::compact(json::compact(event@))),
                    ("seq"@, text::decimal(seq as nat)),
                ]);
            }
            Ok(t.concat("\n"))
        },
        Err(e) => {
            proof {
                assert(all[1].1 == text::decimal(seq as nat));
            }
            Err(e)
        },
    }
}

/// A record's keys are in order, and its text is its frame.
proof fn lemma_record(seq: u64, event: Seq<char>)
    requires
        json::compact(text::decimal(seq as nat)) == text::decimal(seq as nat),
    ensures
        json::well_keyed(record(seq, event)),
        json::object_text(record(seq, event)) == framed(seq, event),
{
    let r = record(seq, event);
    reveal_strlit("event");
    reveal_strlit("seq");
    let keys = Seq::new(r.len(), |i: int| r[i].0);
    assert(order::increasing(keys)) by {
        assert(keys[0] == "event"@ && keys[1] == "seq"@);
        assert("event"@[0] == 'e' && "seq"@[0] == 's');
    }
    let parts = Seq::new(
        r.len(),
        |i: int| "\""@ + r[i].0 + "\":"@ + json::compact(r[i].1),
    );
    let n = text::decimal(seq as nat);
    assert(parts.drop_last().len() == 1);
    assert(text::joined(parts.drop_last(), ","@) == parts[0]);
    assert(text::joined(parts, ","@) == parts[0] + ","@ + parts[1]);
    reveal_strlit("\"");
    reveal_strlit("\":");
    reveal_strlit(",");
    reveal_strlit("{");
    reveal_strlit("{\"event\":");
    reveal_strlit(",\"seq\":");
    assert("{"@ + "\""@ + "event"@ + "\":"@ =~= "{\"event\":"@);
    assert(","@ + "\""@ + "seq"@ + "\":"@ =~= ",\"seq\":"@);
    assert(json::object_text(r) =~= ("{"@ + "\""@ + "event"@ + "\":"@) + json::compact(event) + (
    ","@ + "\""@ + "seq"@ + "\":"@) + n + "}"@);
}

/// A line that reads back as what was written: it is one line, and where it can be
/// read at all, what it holds is the event under its number.
pub open spec fn readable(seq: u64, event: Seq<char>) -> bool {
    &&& text::one_line(framed(seq, event))
    &&& json::parsed(framed(seq, event)) is Ok ==> json::parsed(
        framed(seq, event),
    ) == Ok::<JsonView, Seq<char>>(
        JsonView::Object(
            seq![
                ("event"@, json::compact(json::compact(event))),
                ("seq"@, text::decimal(seq as nat)),
            ],
        ),
    ) && json::parsed(text::decimal(seq as nat)) == Ok::<JsonView, Seq<char>>(
        JsonView::Number { whole: Some(seq), shown: text::decimal(seq as nat) },
    )
}

/// A header as JSON, without the end of its line.
pub open spec fn headed(header: Seq<char>) -> Seq<char> {
    "{\"header\":"@ + header + "}"@
}

/// The header line of a new log. `header` is the header as JSON text.
pub fn header_line(header: &str) -> (r: String)
    ensures
        r@ == headed(header@) + "\n"@,
{
    lit("{\"header\":").concat(header).concat("}").concat("\n")
}

/// The first line that is not blank.
pub open spec fn opening(lines: Seq<Seq<char>>) -> Option<Seq<char>>
    decreases lines.len(),
{
    if lines.len() == 0 {
        None
    } else if text::is_blank(lines[0]) {
        opening(lines.skip(1))
    } else {
        Some(lines[0])
    }
}

/// The header of a log, as JSON text. A log from before headers has none.
pub open spec fn header_in(path: Seq<char>, content: Seq<char>) -> Result<
    Option<Seq<char>>,
    Seq<char>,
> {
    match opening(text::lines(content)) {
        None => Ok(None),
        Some(first) => match json::parsed(first) {
            Err(e) => Err(line_trouble(path, 1, e)),
            Ok(j) => Ok(json::member(j, "header"@)),
        },
    }
}

pub open spec fn header_view(r: Result<Option<String>, String>) -> Result<
    Option<Seq<char>>,
    Seq<char>,
> {
    match r {
        Ok(h) => Ok(h.deep_view()),
        Err(e) => Err(e@),
    }
}

pub fn parse_header(path: &str, content: &str) -> (r: Result<Option<String>, String>)
    ensures
        header_view(r) == header_in(path@, content@),
{
    let lines = lines_of(content);
    let ghost all = lines.deep_view();
    let mut i: usize = 0;
    assert(all.skip(0) =~= all);
    while i < lines.len() && blank(lines[i].as_str())
        invariant
            i <= lines.len(),
            all == lines.deep_view(),
            opening(all) == opening(all.skip(i as int)),
        decreases lines.len() - i,
    {
        assert(all.skip(i as int)[0] == lines@[i as int]@);
        assert(all.skip(i as int).skip(1) =~= all.skip(i + 1));
        i = i + 1;
    }
    if i >= lines.len() {
        assert(all.skip(i as int).len() == 0);
        return Ok(None);
    }
    assert(all.skip(i as int)[0] == lines@[i as int]@);
    match json::read(lines[i].as_str()) {
        Err(e) => Err(line_error(path, 1, e.as_str())),
        Ok(j) => Ok(j.get("header")),
    }
}

/// Refuses a format newer than this build reads.
pub fn check_version(path: &str, version: u64, newest: u64) -> (r: Result<(), String>)
    ensures
        match r {
            Ok(_) => version <= newest,
            Err(e) => version > newest && e@ == path@ + ": session format "@ + text::decimal(
                version as nat,
            ) + " is newer than this build reads ("@ + text::decimal(newest as nat) + ")"@,
        },
{
    if version > newest {
        Err(
            lit(path).concat(": session format ").concat(number(version).as_str()).concat(
                " is newer than this build reads (",
            ).concat(number(newest).as_str()).concat(")"),
        )
    } else {
        Ok(())
    }
}

// ---- what the agent is told -----------------------------------------------

pub fn log_note(dir: &str) -> (r: String)
    ensures
        r@ == "SESSION EVENT LOG. Every committed fact of a session is appended to `"@ + dir@
            + "/<session-id>.jsonl`, one directory per project — this one is this project's."@,
{
    lit("SESSION EVENT LOG. Every committed fact of a session is appended to `").concat(
        dir,
    ).concat("/<session-id>.jsonl`, one directory per project — this one is this project's.")
}

pub open spec fn facts_of(path: Seq<char>, h: Option<HeaderFactsView>) -> Seq<Seq<char>> {
    let first = seq!["event log: "@ + path];
    match h {
        None => first,
        Some(h) => {
            let started = first.push(
                "  started at: "@ + text::decimal(h.created_at as nat)
                    + " (unix ms, as the log recorded it)"@,
            );
            let placed = match h.cwd {
                Some(cwd) => started.push("  working directory: "@ + cwd),
                None => started,
            };
            match h.parent {
                Some(parent) => placed.push(
                    "  forked from: "@ + parent + " (the first "@ + text::decimal(
                        h.inherited as nat,
                    ) + " events are inherited)"@,
                ),
                None => placed,
            }
        },
    }
}

/// The facts of one session's log.
pub fn log_facts(path: &str, header: &Option<HeaderFacts>) -> (r: String)
    ensures
        r@ == text::joined(facts_of(path@, header.deep_view()), "\n"@),
{
    let mut lines: Vec<String> = none_of();
    put(&mut lines, lit("event log: ").concat(path));
    assert(lines.deep_view() =~= seq!["event log: "@ + path@]);
    match header {
        None => {},
        Some(h) => {
            put(
                &mut lines,
                lit("  started at: ").concat(number(h.created_at).as_str()).concat(
                    " (unix ms, as the log recorded it)",
                ),
            );
            match &h.cwd {
                Some(cwd) => {
                    put(&mut lines, lit("  working directory: ").concat(cwd.as_str()));
                },
                None => {},
            }
            match &h.parent {
                Some(parent) => {
                    put(
                        &mut lines,
                        lit("  forked from: ").concat(parent.as_str()).concat(
                            " (the first ",
                        ).concat(number(h.inherited).as_str()).concat(" events are inherited)"),
                    );
                },
                None => {},
            }
        },
    }
    join(&lines, "\n")
}

// ---- laws -----------------------------------------------------------------

/// The lines of a log that was written event by event.
pub open spec fn log_lines(written: Seq<(u64, Seq<char>)>) -> Seq<Seq<char>> {
    Seq::new(written.len(), |i: int| framed(written[i].0, written[i].1))
}

pub open spec fn log_text(written: Seq<(u64, Seq<char>)>) -> Seq<char> {
    text::strung(
        Seq::new(written.len(), |i: int| framed(written[i].0, written[i].1) + "\n"@),
    )
}

/// The events of a log, each under its number, as they are read and written again.
/// Before them stand `above` lines that hold no event.
pub open spec fn read_again(written: Seq<(u64, Seq<char>)>, above: nat) -> Seq<FrameView> {
    Seq::new(
        written.len(),
        |i: int|
            FrameView {
                line: (above + i + 1) as usize,
                seq: written[i].0,
                event: json::compact(json::compact(written[i].1)),
            },
    )
}

/// The events of a log, each under its number, as they were written.
pub open spec fn read_back(written: Seq<(u64, Seq<char>)>, above: nat) -> Seq<FrameView> {
    Seq::new(
        written.len(),
        |i: int|
            FrameView {
                line: (above + i + 1) as usize,
                seq: written[i].0,
                event: json::compact(written[i].1),
            },
    )
}

/// An event that reading and writing leaves as it is.
pub open spec fn settled(event: Seq<char>) -> bool {
    json::compact(json::compact(event)) == json::compact(event)
}

/// Every line of it was written by [`write`] and can be read.
pub open spec fn legible(written: Seq<(u64, Seq<char>)>) -> bool {
    forall|i: int|
        0 <= i < written.len() ==> readable((#[trigger] written[i]).0, written[i].1)
            && json::parsed(framed(written[i].0, written[i].1)) is Ok
}

/// A header that [`header_line`] makes a header line of: one line, which reads as an
/// object that holds a header and no event.
pub open spec fn is_header(h: Seq<char>) -> bool {
    &&& text::one_line(h)
    &&& json::parsed(headed(h)) matches Ok(j) && json::member(j, "header"@) is Some
        && json::member(j, "event"@) is None
}

/// A resume is a replay: a log written event by event is read back as those events,
/// each once, under their numbers, in the order they were written, as far as its lines
/// can be read. An event that reading leaves as it is comes back as it was written.
pub proof fn law_a_log_reads_back(path: Seq<char>, written: Seq<(u64, Seq<char>)>)
    requires
        written.len() < usize::MAX,
        legible(written),
    ensures
        frames_in(path, text::lines(log_text(written))) == Ok::<Seq<FrameView>, Seq<char>>(
            read_again(written, 0),
        ),
        (forall|i: int| 0 <= i < written.len() ==> settled((#[trigger] written[i]).1))
            ==> frames_in(path, text::lines(log_text(written))) == Ok::<
            Seq<FrameView>,
            Seq<char>,
        >(read_back(written, 0)),
{
    let none = Seq::<Seq<char>>::empty();
    assert(Seq::<char>::empty() + log_text(written) =~= log_text(written));
    assert(none + log_lines(written) =~= log_lines(written));
    lemma_lines_of_log(Seq::empty(), none, written);
    lemma_frames_of_log(path, none, written);
    lemma_settled(written, 0);
}

/// The log is the snapshot: a log as it is stored, its header first and its events
/// behind it, is read back as that header and those events.
pub proof fn law_a_stored_log_reads_back(
    path: Seq<char>,
    h: Seq<char>,
    written: Seq<(u64, Seq<char>)>,
)
    requires
        written.len() + 1 < usize::MAX,
        is_header(h),
        legible(written),
    ensures
        ({
            let stored = headed(h) + "\n"@ + log_text(written);
            &&& frames_in(path, text::lines(stored)) == Ok::<Seq<FrameView>, Seq<char>>(
                read_again(written, 1),
            )
            &&& (forall|i: int| 0 <= i < written.len() ==> settled((#[trigger] written[i]).1))
                ==> frames_in(path, text::lines(stored)) == Ok::<Seq<FrameView>, Seq<char>>(
                read_back(written, 1),
            )
            &&& header_in(path, stored) == Ok::<Option<Seq<char>>, Seq<char>>(
                json::member(json::parsed(headed(h))->Ok_0, "header"@),
            )
            &&& header_in(path, stored)->Ok_0 is Some
        }),
{
    let line = headed(h);
    let top = line + "\n"@;
    let head = seq![line];
    lemma_header_line(h);
    text::lemma_one_more_line(Seq::empty(), line);
    assert(Seq::<char>::empty() + line + "\n"@ =~= top);
    assert(text::lines(top) =~= head) by {
        assert(text::lines(Seq::<char>::empty()) =~= Seq::<Seq<char>>::empty());
    }
    assert(top.last() == '\n') by {
        reveal_strlit("\n");
    }
    lemma_lines_of_log(top, head, written);
    assert(frames_in(path, head) == Ok::<Seq<FrameView>, Seq<char>>(Seq::empty())) by {
        assert(head.drop_last() =~= Seq::<Seq<char>>::empty());
        assert(head.last() == line);
        assert(frames_in(path, head.drop_last()) == Ok::<Seq<FrameView>, Seq<char>>(Seq::empty()));
    }
    lemma_frames_of_log(path, head, written);
    lemma_settled(written, 1);
    let all = head + log_lines(written);
    assert(all[0] == line);
    assert(opening(all) == Some(line));
}

/// A header's line is one line, and not a blank one.
proof fn lemma_header_line(h: Seq<char>)
    requires
        text::one_line(h),
    ensures
        text::one_line(headed(h)),
        !text::is_blank(headed(h)),
{
    reveal_strlit("{\"header\":");
    reveal_strlit("}");
    let line = headed(h);
    assert forall|i: int| 0 <= i < line.len() implies #[trigger] line[i] != '\n' && line[i]
        != '\r' by {
        if i < 10 {
            assert(line[i] == "{\"header\":"@[i]);
        } else if i < 10 + h.len() {
            assert(line[i] == h[i - 10]);
        } else {
            assert(line[i] == "}"@[i - 10 - h.len()]);
        }
    }
    text::lemma_blank(line);
    assert(line[0] == '{');
    assert(!text::is_white('{'));
}

proof fn lemma_settled(written: Seq<(u64, Seq<char>)>, above: nat)
    ensures
        (forall|i: int| 0 <= i < written.len() ==> settled((#[trigger] written[i]).1))
            ==> read_again(written, above) == read_back(written, above),
{
    if forall|i: int| 0 <= i < written.len() ==> settled((#[trigger] written[i]).1) {
        assert forall|i: int| 0 <= i < written.len() implies read_again(written, above)[i]
            == read_back(written, above)[i] by {
            assert(settled(written[i].1));
        }
        assert(read_again(written, above) =~= read_back(written, above));
    }
}

proof fn lemma_lines_of_log(
    top: Seq<char>,
    head: Seq<Seq<char>>,
    written: Seq<(u64, Seq<char>)>,
)
    requires
        text::lines(top) == head,
        top.len() == 0 || top.last() == '\n',
        forall|i: int|
            0 <= i < written.len() ==> readable((#[trigger] written[i]).0, written[i].1),
    ensures
        text::lines(top + log_text(written)) == head + log_lines(written),
        (top + log_text(written)).len() == 0 || (top + log_text(written)).last() == '\n',
    decreases written.len(),
{
    let ended = Seq::new(
        written.len(),
        |i: int| framed(written[i].0, written[i].1) + "\n"@,
    );
    if written.len() == 0 {
        assert(log_lines(written) =~= Seq::<Seq<char>>::empty());
        assert(head + log_lines(written) =~= head);
        assert(top + log_text(written) =~= top);
    } else {
        let front = written.drop_last();
        assert forall|i: int| 0 <= i < front.len() implies readable(
            (#[trigger] front[i]).0,
            front[i].1,
        ) by {
            assert(front[i] == written[i]);
        }
        lemma_lines_of_log(top, head, front);
        let before = Seq::new(
            front.len(),
            |i: int| framed(front[i].0, front[i].1) + "\n"@,
        );
        assert(ended.drop_last() =~= before);
        let l = framed(written.last().0, written.last().1);
        assert(readable(written[written.len() - 1].0, written[written.len() - 1].1));
        let so_far = top + log_text(front);
        assert(log_text(written) =~= log_text(front) + l + "\n"@);
        assert(top + log_text(written) =~= so_far + l + "\n"@);
        text::lemma_one_more_line(so_far, l);
        assert((head + log_lines(front)).push(l) =~= head + log_lines(written));
        assert((so_far + l + "\n"@).last() == '\n') by {
            reveal_strlit("\n");
        }
    }
}

proof fn lemma_frames_of_log(
    path: Seq<char>,
    head: Seq<Seq<char>>,
    written: Seq<(u64, Seq<char>)>,
)
    requires
        head.len() + written.len() < usize::MAX,
        frames_in(path, head) == Ok::<Seq<FrameView>, Seq<char>>(Seq::empty()),
        legible(written),
    ensures
        frames_in(path, head + log_lines(written)) == Ok::<Seq<FrameView>, Seq<char>>(
            read_again(written, head.len()),
        ),
    decreases written.len(),
{
    if written.len() == 0 {
        assert(head + log_lines(written) =~= head);
        assert(read_again(written, head.len()) =~= Seq::<FrameView>::empty());
    } else {
        let front = written.drop_last();
        assert(legible(front)) by {
            assert forall|i: int| 0 <= i < front.len() implies readable(
                (#[trigger] front[i]).0,
                front[i].1,
            ) && json::parsed(framed(front[i].0, front[i].1)) is Ok by {
                assert(front[i] == written[i]);
            }
        }
        lemma_frames_of_log(path, head, front);
        let all = head + log_lines(written);
        assert(all.drop_last() =~= head + log_lines(front));
        let (n, e) = written[written.len() - 1];
        let l = framed(n, e);
        assert(all.last() == l);
        lemma_a_frame_is_not_blank(n, e);
        let again = json::compact(json::compact(e));
        let o = seq![("event"@, again), ("seq"@, text::decimal(n as nat))];
        lemma_members(o);
        assert(entry(JsonView::Object(o)) == Some((n, again)));
        assert(read_again(front, head.len()).push(
            FrameView { line: all.len() as usize, seq: n, event: again },
        ) =~= read_again(written, head.len()));
    }
}

proof fn lemma_a_frame_is_not_blank(n: u64, e: Seq<char>)
    ensures
        !text::is_blank(framed(n, e)),
{
    reveal_strlit("{\"event\":");
    text::lemma_blank(framed(n, e));
    assert(framed(n, e)[0] == '{');
    assert(!text::is_white('{'));
}

proof fn lemma_members(o: Seq<(Seq<char>, Seq<char>)>)
    requires
        o.len() == 2,
        o[0].0 == "event"@,
        o[1].0 == "seq"@,
    ensures
        json::member(JsonView::Object(o), "event"@) == Some(o[0].1),
        json::member(JsonView::Object(o), "seq"@) == Some(o[1].1),
        json::member(JsonView::Object(o), "header"@) is None,
{
    reveal_strlit("event");
    reveal_strlit("seq");
    reveal_strlit("header");
    assert("event"@.len() == 5);
    assert("seq"@.len() == 3);
    assert("header"@.len() == 6);
    assert(o.skip(1)[0] == o[1]);
    assert(o.skip(1).skip(1).len() == 0);
    reveal_with_fuel(json::first_under, 4);
}

/// What is said of which session this is.
pub const IDENTITY_NOTE: &'static str = "SESSION IDENTITY. The tree's own agent takes its session from the `session` row: `id` names it (minted when absent), and `resume = true` continues that session by replaying the events `session-persistence` stored for it before the first turn. There is no separate snapshot format for this: the stored events are the snapshot.";

} // verus!
