//! What is kept of a session: its turns, its file, its title and its task list are what
//! the log says they are.
use crate::events::{CommittedView, LoggedEventView, SessionEventView, ToolCallView};
use crate::json;
use crate::json::JsonView;
use crate::occurrence;
use crate::order;
use crate::session;
use crate::session::{FrameView, TurnMarkView};
use crate::session_title;
use crate::text;
use crate::todo_reminder;
use crate::todo_reminder::{StaleView, TodoItemView, WatchView};
use crate::turn::StreamEventView;
use vstd::prelude::*;

verus! {

// ---- the turns of a session -----------------------------------------------

/// A log's turns, marked one event after the other.
pub open spec fn marked(log: Seq<SessionEventView>) -> Seq<TurnMarkView>
    decreases log.len(),
{
    if log.len() == 0 {
        Seq::empty()
    } else {
        session::bounded(marked(log.drop_last()), log.last())
    }
}

/// Every turn that started is marked, in order, under its number.
pub proof fn law_every_turn_is_marked(log: Seq<SessionEventView>)
    ensures
        marked(log).map_values(|m: TurnMarkView| m.turn) == log.filter_map(
            |e: SessionEventView|
                match e {
                    SessionEventView::TurnStart { turn } => Some(turn),
                    _ => None,
                },
        ),
    decreases log.len(),
{
    let number = |m: TurnMarkView| m.turn;
    let start = |e: SessionEventView|
        match e {
            SessionEventView::TurnStart { turn } => Some(turn),
            _ => None,
        };
    if log.len() == 0 {
        assert(marked(log).map_values(number) =~= log.filter_map(start));
    } else {
        law_every_turn_is_marked(log.drop_last());
        let before = marked(log.drop_last());
        assert(marked(log).map_values(number) =~= log.filter_map(start)) by {
            match log.last() {
                SessionEventView::TurnStart { turn } => {
                    assert(marked(log).map_values(number) =~= before.map_values(number).push(
                        turn,
                    ));
                },
                _ => {
                    assert(marked(log).map_values(number) =~= before.map_values(number));
                },
            }
        }
    }
}

/// A turn's mark counts the requests made since it started, and says how it ended.
pub proof fn law_a_mark_counts_its_turn(
    before: Seq<SessionEventView>,
    turn: u64,
    after: Seq<SessionEventView>,
)
    requires
        forall|i: int| 0 <= i < after.len() ==> !((#[trigger] after[i]) is TurnStart),
        after.len() < u64::MAX,
    ensures
        ({
            let all = marked(before.push(SessionEventView::TurnStart { turn }) + after);
            let mark = all.last();
            &&& all.len() == marked(before).len() + 1
            &&& all.drop_last() == marked(before)
            &&& mark.turn == turn
            &&& mark.rounds == after.filter(|e: SessionEventView| e is RequestHeader).len()
            &&& mark.stop is Some <==> exists|i: int|
                0 <= i < after.len() && (#[trigger] after[i]) is TurnEnd
            &&& after.len() > 0 ==> (after.last() matches SessionEventView::TurnEnd { stop, .. }
                ==> mark.stop == Some(stop))
        }),
    decreases after.len(),
{
    reveal(Seq::filter);
    let start = SessionEventView::TurnStart { turn };
    let all = before.push(start) + after;
    if after.len() == 0 {
        assert(all =~= before.push(start));
        assert(all.drop_last() =~= before);
        assert(marked(all).drop_last() =~= marked(before));
    } else {
        let less = after.drop_last();
        assert forall|i: int| 0 <= i < less.len() implies !((#[trigger] less[i]) is TurnStart) by {
            assert(less[i] == after[i]);
        }
        law_a_mark_counts_its_turn(before, turn, less);
        assert(all.drop_last() =~= before.push(start) + less);
        assert(all.last() == after.last());
        assert(!(after[after.len() - 1] is TurnStart));
        lemma_fewer(less, |e: SessionEventView| e is RequestHeader);
        assert(marked(all).drop_last() =~= marked(before));
        if exists|i: int| 0 <= i < less.len() && (#[trigger] less[i]) is TurnEnd {
            let i = choose|i: int| 0 <= i < less.len() && (#[trigger] less[i]) is TurnEnd;
            assert(after[i] is TurnEnd);
        }
        if exists|i: int| 0 <= i < after.len() && (#[trigger] after[i]) is TurnEnd {
            let i = choose|i: int| 0 <= i < after.len() && (#[trigger] after[i]) is TurnEnd;
            if i < less.len() {
                assert(less[i] is TurnEnd);
            }
        }
    }
}

proof fn lemma_fewer<A>(s: Seq<A>, p: spec_fn(A) -> bool)
    ensures
        s.filter(p).len() <= s.len(),
    decreases s.len(),
{
    reveal(Seq::filter);
    if s.len() > 0 {
        lemma_fewer(s.drop_last(), p);
    }
}

// ---- the file of a session ------------------------------------------------

/// A plain id names its own file; no two plain ids share one.
pub proof fn law_plain_ids_keep_their_names(a: Seq<char>, b: Seq<char>)
    requires
        forall|i: int| 0 <= i < a.len() ==> session::plain(#[trigger] a[i]),
        forall|i: int| 0 <= i < b.len() ==> session::plain(#[trigger] b[i]),
    ensures
        session::made_safe(a) == a,
        session::made_safe(a) == session::made_safe(b) ==> a == b,
{
    assert(session::made_safe(a) =~= a);
    assert(session::made_safe(b) =~= b);
}

/// Sessions are listed once each as they are, the latest name first.
pub proof fn law_the_latest_is_listed_first(ids: Seq<Seq<char>>, i: int, j: int)
    requires
        0 <= i < j < ids.len(),
    ensures
        session::latest_first(ids).len() == ids.len(),
        session::latest_first(ids).to_multiset() == ids.to_multiset(),
        order::below(session::latest_first(ids)[j], session::latest_first(ids)[i]),
{
    order::lemma_ordered();
    ids.lemma_sort_by_ensures(order::by_text());
    let s = order::sorted(ids);
    assert(s.len() == ids.len()) by {
        s.to_multiset_ensures();
        ids.to_multiset_ensures();
    }
    let r = s.reverse();
    assert(r[i] == s[s.len() - 1 - i] && r[j] == s[s.len() - 1 - j]);
    let le = order::by_text();
    assert(le(s[s.len() - 1 - j], s[s.len() - 1 - i]));
    lemma_reversed(s);
}

proof fn lemma_reversed<A>(s: Seq<A>)
    ensures
        s.reverse().to_multiset() == s.to_multiset(),
    decreases s.len(),
{
    broadcast use vstd::seq_lib::group_to_multiset_ensures;

    if s.len() == 0 {
        assert(s.reverse() =~= s);
    } else {
        let front = s.drop_last();
        lemma_reversed(front);
        assert(s.reverse() =~= seq![s.last()] + front.reverse());
        assert(s =~= front.push(s.last()));
        vstd::seq_lib::lemma_multiset_commutative(seq![s.last()], front.reverse());
        assert(seq![s.last()] =~= Seq::empty().push(s.last()));
        assert(s.reverse().to_multiset() =~= s.to_multiset());
    }
}

/// What a line of a session's file holds.
pub open spec fn line_entry(line: Seq<char>) -> Option<(u64, Seq<char>)> {
    match json::parsed(line) {
        Ok(j) => session::entry(j),
        Err(_) => None,
    }
}

pub open spec fn bad_line(line: Seq<char>) -> bool {
    !text::is_blank(line) && json::parsed(line) is Err
}

/// A session's file is read line by line: every line with a fact gives it, with its number
/// and what it says, in order; other lines give nothing.
pub proof fn law_every_line_is_read(path: Seq<char>, lines: Seq<Seq<char>>)
    requires
        forall|i: int| 0 <= i < lines.len() ==> !bad_line(#[trigger] lines[i]),
    ensures
        session::frames_in(path, lines) matches Ok(frames) && frames.map_values(
            |f: FrameView| (f.seq, f.event),
        ) == lines.filter_map(
            |l: Seq<char>|
                if text::is_blank(l) {
                    None
                } else {
                    line_entry(l)
                },
        ),
    decreases lines.len(),
{
    let held = |f: FrameView| (f.seq, f.event);
    let read = |l: Seq<char>|
        if text::is_blank(l) {
            None
        } else {
            line_entry(l)
        };
    if lines.len() == 0 {
        assert(session::frames_in(path, lines)->Ok_0.map_values(held) =~= lines.filter_map(read));
    } else {
        let front = lines.drop_last();
        assert forall|i: int| 0 <= i < front.len() implies !bad_line(#[trigger] front[i]) by {
            assert(front[i] == lines[i]);
        }
        law_every_line_is_read(path, front);
        assert(!bad_line(lines[lines.len() - 1]));
        let before = session::frames_in(path, front)->Ok_0;
        let now = session::frames_in(path, lines)->Ok_0;
        if now.len() == before.len() {
            assert(now.map_values(held) =~= before.map_values(held));
        } else {
            assert(now.map_values(held) =~= before.map_values(held).push(held(now.last())));
        }
        assert(now.map_values(held) =~= lines.filter_map(read));
    }
}

/// A file that cannot be read says on which line it cannot, the first such line, and why.
pub proof fn law_a_bad_line_is_named(path: Seq<char>, lines: Seq<Seq<char>>, k: int)
    requires
        0 <= k < lines.len(),
        bad_line(lines[k]),
        forall|i: int| 0 <= i < k ==> !bad_line(#[trigger] lines[i]),
    ensures
        session::frames_in(path, lines) == Err::<Seq<FrameView>, Seq<char>>(
            path + ":"@ + text::decimal((k + 1) as nat) + ": "@ + json::parsed(lines[k])->Err_0,
        ),
    decreases lines.len(),
{
    let front = lines.drop_last();
    if k == lines.len() - 1 {
        assert forall|i: int| 0 <= i < front.len() implies !bad_line(#[trigger] front[i]) by {
            assert(front[i] == lines[i]);
        }
        law_every_line_is_read(path, front);
    } else {
        assert(front[k] == lines[k]);
        assert forall|i: int| 0 <= i < k implies !bad_line(#[trigger] front[i]) by {
            assert(front[i] == lines[i]);
        }
        law_a_bad_line_is_named(path, front, k);
    }
}

/// The numbers under which facts were read are those of their lines.
pub proof fn law_lines_keep_their_numbers(path: Seq<char>, lines: Seq<Seq<char>>, k: int)
    requires
        lines.len() <= usize::MAX,
        session::frames_in(path, lines) is Ok,
        0 <= k < session::frames_in(path, lines)->Ok_0.len(),
    ensures
        ({
            let f = session::frames_in(path, lines)->Ok_0[k];
            &&& 1 <= f.line <= lines.len()
            &&& line_entry(lines[f.line - 1]) == Some((f.seq, f.event))
            &&& k > 0 ==> session::frames_in(path, lines)->Ok_0[k - 1].line < f.line
        }),
    decreases lines.len(),
{
    let front = lines.drop_last();
    let before = session::frames_in(path, front)->Ok_0;
    if k < before.len() {
        law_lines_keep_their_numbers(path, front, k);
    } else if k > 0 {
        law_lines_keep_their_numbers(path, front, k - 1);
    }
}

/// A line is a fact unless it is the header alone; a fact says its number and its event.
pub proof fn law_a_header_is_no_fact(j: JsonView)
    ensures
        json::member(j, "event"@) is Some ==> (session::entry(j) matches Some(e) && Some(e.1)
            == json::member(j, "event"@) && (json::whole_under(j, "seq"@) matches Some(n) ==> e.0
            == n)),
        json::member(j, "event"@) is None ==> (session::entry(j) is None <==> json::member(
            j,
            "header"@,
        ) is Some),
{
}

/// The header is looked for on the first line that says anything.
pub proof fn law_the_first_line_is_the_header(lines: Seq<Seq<char>>, k: int)
    requires
        0 <= k <= lines.len(),
        forall|i: int| 0 <= i < k ==> text::is_blank(#[trigger] lines[i]),
        k < lines.len() ==> !text::is_blank(lines[k]),
    ensures
        session::opening(lines) == (if k < lines.len() {
            Some(lines[k])
        } else {
            None
        }),
    decreases lines.len(),
{
    if k > 0 {
        let rest = lines.skip(1);
        assert(text::is_blank(lines[0]));
        assert forall|i: int| 0 <= i < k - 1 implies text::is_blank(#[trigger] rest[i]) by {
            assert(rest[i] == lines[i + 1]);
        }
        law_the_first_line_is_the_header(rest, k - 1);
    }
}

// ---- the title of a session -----------------------------------------------

/// A session is named after the first thing a person said in it.
pub proof fn law_the_first_prompt_is_the_first(events: Seq<LoggedEventView>, k: int)
    requires
        0 <= k <= events.len(),
        forall|i: int| 0 <= i < k ==> !((#[trigger] events[i]).event is UserMessage),
        k < events.len() ==> events[k].event is UserMessage,
    ensures
        k == events.len() ==> session_title::first_said(events) is None,
        k < events.len() ==> (events[k].event matches SessionEventView::UserMessage { text, .. }
            && session_title::first_said(events) == Some(text)),
    decreases events.len(),
{
    if k > 0 {
        let rest = events.skip(1);
        assert(!(events[0].event is UserMessage));
        assert forall|i: int| 0 <= i < k - 1 implies !((
        #[trigger] rest[i]).event is UserMessage) by {
            assert(rest[i] == events[i + 1]);
        }
        law_the_first_prompt_is_the_first(rest, k - 1);
    }
}

/// A session's title is the last it was given.
pub proof fn law_the_last_title_stands(events: Seq<LoggedEventView>, k: int)
    requires
        0 <= k < events.len(),
        events[k].event is Titled,
        forall|j: int| k < j < events.len() ==> !((#[trigger] events[j]).event is Titled),
    ensures
        events[k].event matches SessionEventView::Titled { title, .. } && session_title::title_in(
            events,
        ) == Some(title),
    decreases events.len(),
{
    if k < events.len() - 1 {
        let front = events.drop_last();
        assert(!(events[events.len() - 1].event is Titled));
        assert forall|j: int| k < j < front.len() implies !((
        #[trigger] front[j]).event is Titled) by {
            assert(front[j] == events[j]);
        }
        law_the_last_title_stands(front, k);
    }
}

/// A session that was never given a title has none.
pub proof fn law_untitled_is_untitled(events: Seq<LoggedEventView>)
    requires
        forall|j: int| 0 <= j < events.len() ==> !((#[trigger] events[j]).event is Titled),
    ensures
        session_title::title_in(events) is None,
    decreases events.len(),
{
    if events.len() > 0 {
        let front = events.drop_last();
        assert(!(events[events.len() - 1].event is Titled));
        assert forall|j: int| 0 <= j < front.len() implies !((
        #[trigger] front[j]).event is Titled) by {
            assert(front[j] == events[j]);
        }
        law_untitled_is_untitled(front);
    }
}

/// A title is made of the first line that says anything.
pub proof fn law_a_title_is_of_the_first_line(lines: Seq<Seq<char>>, k: int)
    requires
        0 <= k <= lines.len(),
        forall|i: int| 0 <= i < k ==> text::is_blank(#[trigger] lines[i]),
        k < lines.len() ==> !text::is_blank(lines[k]),
    ensures
        session_title::first_words(lines) == (if k < lines.len() {
            Some(text::trimmed(lines[k]))
        } else {
            None
        }),
    decreases lines.len(),
{
    if k > 0 {
        let rest = lines.skip(1);
        assert(text::is_blank(lines[0]));
        assert forall|i: int| 0 <= i < k - 1 implies text::is_blank(#[trigger] rest[i]) by {
            assert(rest[i] == lines[i + 1]);
        }
        law_a_title_is_of_the_first_line(rest, k - 1);
    }
}

/// A first line that is short enough, with nothing to strip at its ends, is the title, word
/// for word.
pub proof fn law_a_short_line_is_the_title(s: Seq<char>, max_words: int, max_bytes: int)
    requires
        session_title::first_words(text::lines(s)) is Some,
        ({
            let line = session_title::first_words(text::lines(s))->0;
            let t = text::joined(text::words(line), " "@);
            &&& line.len() > 0
            &&& !session_title::QUOTES@.contains(line[0])
            &&& !session_title::QUOTES@.contains(line.last())
            &&& text::words(line).len() <= max_words
            &&& text::bytes(t) <= max_bytes
            &&& t.len() > 0
            &&& !session_title::DANGLING@.contains(t.last())
            &&& !session_title::INNER_QUOTES@.contains(t.last())
            &&& !session_title::INNER_QUOTES@.contains(t[0])
        }),
    ensures
        session_title::tidied(s, max_words, max_bytes) == Some(
            text::joined(
                text::words(session_title::first_words(text::lines(s))->0),
                " "@,
            ),
        ),
{
}

/// A title is the first words of its line, in order and no more of them than it may have;
/// one that takes too much room keeps its beginning.
pub proof fn law_a_title_keeps_its_beginning(line: Seq<char>, t: Seq<char>, most: int)
    requires
        most >= 0,
    ensures
        occurrence::in_order(
            session_title::opening_words(line, most),
            text::words(line).take(
                if most < text::words(line).len() {
                    most
                } else {
                    text::words(line).len() as int
                },
            ),
        ),
        session_title::held(t, most).is_prefix_of(t),
        text::bytes(t) <= most ==> session_title::held(t, most) == t,
        text::bytes(t) > most && t.len() >= most / 4 ==> session_title::held(t, most).len() == most
            / 4,
{
    let all = text::words(line);
    let first = if all.len() <= most {
        all
    } else {
        all.take(most)
    };
    assert(all.take(all.len() as int) =~= all);
    occurrence::lemma_joined(first, " "@);
    let h = session_title::held(t, most);
    assert(h =~= t.take(h.len() as int));
}

/// The model's own title is taken where it gave one, and else the first prompt's; without a
/// prompt there is none.
pub proof fn law_the_models_title_comes_first(
    first: Seq<char>,
    raw: Seq<char>,
    max_words: int,
    max_bytes: int,
)
    ensures
        ({
            let own = session_title::tidied(raw, max_words, max_bytes);
            let plain = session_title::tidied(first, max_words, max_bytes);
            let t = session_title::named(Some(first), Some(raw), max_words, max_bytes);
            &&& own is Some ==> t == own
            &&& own is None ==> t == plain
        }),
        session_title::named(None, Some(raw), max_words, max_bytes) is None,
{
}

/// What is heard of a model's title is what it said, from its first word on, and all of it
/// as long as it is short.
pub proof fn law_a_title_is_heard_as_said(events: Seq<StreamEventView>)
    ensures
        exists|n: int|
            #![trigger events.take(n)]
            0 <= n <= events.len() && session_title::heard(events) == text::strung(
                events.take(n).filter_map(
                    |e: StreamEventView|
                        match e {
                            StreamEventView::TextDelta(t) => Some(t),
                            _ => None,
                        },
                ),
            ) && (n == events.len() || text::bytes(session_title::heard(events)) > 512),
    decreases events.len(),
{
    let said = |e: StreamEventView|
        match e {
            StreamEventView::TextDelta(t) => Some(t),
            _ => None,
        };
    if events.len() == 0 {
        assert(events.take(0).filter_map(said) =~= Seq::empty());
        assert(text::strung(events.take(0).filter_map(said)) =~= session_title::heard(events));
    } else {
        let front = events.drop_last();
        law_a_title_is_heard_as_said(front);
        let n = choose|n: int|
            #![trigger front.take(n)]
            0 <= n <= front.len() && session_title::heard(front) == text::strung(
                front.take(n).filter_map(said),
            ) && (n == front.len() || text::bytes(session_title::heard(front)) > 512);
        if text::bytes(session_title::heard(front)) > 512 {
            assert(events.take(n) =~= front.take(n));
        } else {
            let m = events.len() as int;
            assert(events.take(m) =~= events);
            assert(front.take(n) =~= front);
            match events.last() {
                StreamEventView::TextDelta(t) => {
                    let parts = front.filter_map(said);
                    assert((parts + seq![t]).drop_last() =~= parts);
                    assert(events.filter_map(said) =~= parts + seq![t]);
                },
                _ => {
                    assert(events.filter_map(said) =~= front.filter_map(said));
                },
            }
            assert(session_title::heard(events) == text::strung(
                events.take(m).filter_map(said),
            ));
        }
    }
}

/// A session is asked about once at a time, at a person's message, while it has no title.
pub proof fn law_a_title_is_asked_for_once(
    asking: Set<Seq<char>>,
    c: CommittedView,
    able: bool,
    events: Seq<LoggedEventView>,
)
    ensures
        ({
            let (now, ask) = session_title::asked(asking, c, able, events);
            &&& ask ==> c.event is UserMessage && able && session_title::title_in(events) is None
            &&& ask ==> !asking.contains(c.session) && now.contains(c.session)
            &&& !session_title::asked(now, c, able, events).1 || !ask
            &&& forall|s: Seq<char>| s != c.session ==> (#[trigger] now.contains(s)
                <==> asking.contains(s))
            &&& c.event is UserMessage && able && session_title::title_in(events) is None
                && !asking.contains(c.session) ==> ask
        }),
{
}

/// A title is logged once: when an answer came and the session still has none.
pub proof fn law_a_title_is_logged_once(
    title: Seq<char>,
    events: Seq<LoggedEventView>,
    seq: u64,
    turn: u64,
)
    ensures
        session_title::title_in(events) is None ==> (session_title::titled(
            Some(title),
            events,
            turn,
        ) matches Some(e) && e == (SessionEventView::Titled { turn, title })),
        session_title::title_in(events) is Some ==> session_title::titled(
            Some(title),
            events,
            turn,
        ) is None,
        session_title::titled(None, events, turn) is None,
        session_title::titled(
            Some(title),
            events.push(
                LoggedEventView { seq, event: SessionEventView::Titled { turn, title } },
            ),
            turn,
        ) is None,
{
    let e = LoggedEventView { seq, event: SessionEventView::Titled { turn, title } };
    assert(events.push(e).last() == e);
}

// ---- the task list --------------------------------------------------------

/// A list is owed a reminder exactly while something on it is unfinished: of the first task
/// in progress, or else of how many are left.
pub proof fn law_what_is_owed(items: Seq<TodoItemView>)
    requires
        items.len() <= usize::MAX,
    ensures
        ({
            let left = items.filter(|t: TodoItemView| !(t.status is Completed));
            match todo_reminder::owed(items) {
                None => left.len() == 0,
                Some(StaleView::Doing(what)) => exists|k: int|
                    0 <= k < items.len() && (#[trigger] items[k]).status is InProgress
                        && items[k].content == what && forall|j: int|
                        0 <= j < k ==> !((#[trigger] items[j]).status is InProgress),
                Some(StaleView::Idle(n)) => n == left.len() && n > 0 && forall|j: int|
                    0 <= j < items.len() ==> !((#[trigger] items[j]).status is InProgress),
            }
        }),
{
    lemma_unfinished(items);
    lemma_fewer(items, |t: TodoItemView| !(t.status is Completed));
    lemma_doing(items);
    if todo_reminder::doing(items) is None && todo_reminder::unfinished(items) == 0 {
    }
}

proof fn lemma_unfinished(items: Seq<TodoItemView>)
    ensures
        todo_reminder::unfinished(items) == items.filter(
            |t: TodoItemView| !(t.status is Completed),
        ).len(),
    decreases items.len(),
{
    reveal(Seq::filter);
    if items.len() > 0 {
        lemma_unfinished(items.drop_last());
    }
}

proof fn lemma_doing(items: Seq<TodoItemView>)
    ensures
        match todo_reminder::doing(items) {
            Some(what) => exists|k: int|
                0 <= k < items.len() && (#[trigger] items[k]).status is InProgress
                    && items[k].content == what && forall|j: int|
                    0 <= j < k ==> !((#[trigger] items[j]).status is InProgress),
            None => forall|j: int|
                0 <= j < items.len() ==> !((#[trigger] items[j]).status is InProgress),
        },
    decreases items.len(),
{
    if items.len() > 0 {
        if items[0].status is InProgress {
        } else {
            let rest = items.skip(1);
            lemma_doing(rest);
            match todo_reminder::doing(items) {
                Some(what) => {
                    let k = choose|k: int|
                        0 <= k < rest.len() && (#[trigger] rest[k]).status is InProgress
                            && rest[k].content == what && forall|j: int|
                            0 <= j < k ==> !((#[trigger] rest[j]).status is InProgress);
                    assert(items[k + 1] == rest[k]);
                    assert forall|j: int| 0 <= j < k + 1 implies !((
                    #[trigger] items[j]).status is InProgress) by {
                        if j > 0 {
                            assert(rest[j - 1] == items[j]);
                        }
                    }
                },
                None => {
                    assert forall|j: int| 0 <= j < items.len() implies !((
                    #[trigger] items[j]).status is InProgress) by {
                        if j > 0 {
                            assert(rest[j - 1] == items[j]);
                        }
                    }
                },
            }
        }
    }
}

/// The calls that touched the list are those meant for it, in order, and the list is as
/// fresh as the last round that touched it.
pub proof fn law_touching_the_list_is_noticed(
    w: WatchView,
    calls: Seq<ToolCallView>,
    todo: Seq<bool>,
    round: u32,
)
    requires
        todo.len() == calls.len(),
    ensures
        ({
            let now = todo_reminder::wrote(w, calls, todo, round);
            let touched = exists|i: int| 0 <= i < todo.len() && #[trigger] todo[i];
            &&& w.calls.is_prefix_of(now.calls)
            &&& now.touched_at == (if touched {
                round
            } else {
                w.touched_at
            })
            &&& now.reminded_at == w.reminded_at && now.failed == w.failed
            &&& forall|i: int|
                0 <= i < calls.len() && todo[i] ==> now.calls.contains(#[trigger] calls[i])
            &&& !touched ==> now == w
        }),
    decreases calls.len(),
{
    if calls.len() == 0 {
        assert(w.calls =~= w.calls.take(w.calls.len() as int));
    } else {
        let n = calls.len() - 1;
        let front = calls.drop_last();
        let marks = todo.drop_last();
        law_touching_the_list_is_noticed(w, front, marks, round);
        lemma_wrote_marks(w, front, todo, marks, round);
        let before = todo_reminder::wrote(w, front, todo, round);
        let now = todo_reminder::wrote(w, calls, todo, round);
        if exists|i: int| 0 <= i < marks.len() && #[trigger] marks[i] {
            let i = choose|i: int| 0 <= i < marks.len() && #[trigger] marks[i];
            assert(todo[i]);
        }
        if exists|i: int| 0 <= i < todo.len() && #[trigger] todo[i] {
            let i = choose|i: int| 0 <= i < todo.len() && #[trigger] todo[i];
            if i < n {
                assert(marks[i]);
            }
        }
        assert(w.calls =~= now.calls.take(w.calls.len() as int));
        assert forall|i: int| 0 <= i < calls.len() && todo[i] implies now.calls.contains(
            #[trigger] calls[i],
        ) by {
            if i < n {
                assert(marks[i]);
                assert(front[i] == calls[i]);
                assert(before.calls.contains(front[i]));
                let k = choose|k: int| 0 <= k < before.calls.len() && before.calls[k] == front[i];
                assert(now.calls[k] == calls[i]);
            } else {
                assert(now.calls.last() == calls[i]);
            }
        }
    }
}

proof fn lemma_wrote_marks(
    w: WatchView,
    calls: Seq<ToolCallView>,
    a: Seq<bool>,
    b: Seq<bool>,
    round: u32,
)
    requires
        calls.len() <= a.len(),
        calls.len() <= b.len(),
        forall|i: int| 0 <= i < calls.len() ==> #[trigger] a[i] == b[i],
    ensures
        todo_reminder::wrote(w, calls, a, round) == todo_reminder::wrote(w, calls, b, round),
    decreases calls.len(),
{
    if calls.len() > 0 {
        lemma_wrote_marks(w, calls.drop_last(), a, b, round);
        assert(a[calls.len() - 1] == b[calls.len() - 1]);
    }
}

/// The calls that stand are those that did not fail, in order.
pub proof fn law_what_did_not_fail_stands(calls: Seq<ToolCallView>, failed: Seq<Seq<char>>)
    ensures
        todo_reminder::standing_calls(calls, failed) == calls.filter(
            |c: ToolCallView| !failed.contains(c.id),
        ),
    decreases calls.len(),
{
    reveal(Seq::filter);
    let stands = |c: ToolCallView| !failed.contains(c.id);
    if calls.len() == 0 {
        assert(todo_reminder::standing_calls(calls, failed) =~= calls.filter(stands));
    } else {
        law_what_did_not_fail_stands(calls.drop_last(), failed);
        assert(todo_reminder::standing_calls(calls, failed) =~= calls.filter(stands));
    }
}

/// A failed call is remembered as failed, and a new turn starts the counting anew.
pub proof fn law_the_watch_keeps_up(w: WatchView, e: SessionEventView, todo: Seq<bool>)
    ensures
        ({
            let now = todo_reminder::watched(w, e, todo);
            match e {
                SessionEventView::TurnStart { .. } => now.touched_at == 0 && now.reminded_at == 0
                    && now.calls == w.calls && now.failed == w.failed,
                SessionEventView::ToolResultLogged { call_id, is_error, .. } => {
                    &&& is_error ==> now.failed.contains(call_id)
                    &&& !is_error ==> now == w
                    &&& w.failed.is_prefix_of(now.failed)
                    &&& now.calls == w.calls
                },
                SessionEventView::AssistantMessage { .. } => true,
                _ => now == w,
            }
        }),
{
    match e {
        SessionEventView::ToolResultLogged { call_id, is_error, .. } => {
            let now = todo_reminder::watched(w, e, todo);
            assert(w.failed =~= now.failed.take(w.failed.len() as int));
            if is_error && !w.failed.contains(call_id) {
                assert(now.failed.last() == call_id);
            }
        },
        _ => {},
    }
}

/// A reminder comes exactly where the list is owed one and nothing touched it, nor was
/// reminded of it, for so many steps; it says what is in progress or how much is left.
pub proof fn law_a_reminder_says_what_is_left(
    w: WatchView,
    items: Seq<TodoItemView>,
    turn: u64,
    step: u32,
    after_steps: u32,
)
    requires
        w.touched_at <= step,
        w.reminded_at <= step,
    ensures
        ({
            let (now, fact) = todo_reminder::reminded(w, items, turn, step, after_steps);
            &&& fact is Some <==> todo_reminder::owed(items) is Some && step - w.touched_at
                >= after_steps && step - w.reminded_at >= after_steps
            &&& fact is Some ==> now == (WatchView { reminded_at: step, ..w })
            &&& fact is None ==> now == w
            &&& fact matches Some(e) ==> (e matches SessionEventView::Injected {
                turn: t,
                text,
                origin,
            } && t == turn && origin is Reminder && text::holds(
                text,
                match todo_reminder::owed(items)->0 {
                    StaleView::Doing(what) => what,
                    StaleView::Idle(n) => text::decimal(n as nat),
                },
            ))
        }),
{
    let (now, fact) = todo_reminder::reminded(w, items, turn, step, after_steps);
    if fact is Some {
        let s = todo_reminder::owed(items)->0;
        let quiet = todo_reminder::minus(step, w.touched_at);
        let body = todo_reminder::note(s, quiet);
        let all = todo_reminder::enveloped(body);
        match s {
            StaleView::Doing(what) => {
                let at = ("<system-reminder>"@ + "The task list still shows \""@).len() as int;
                assert(all.subrange(at, at + what.len()) =~= what);
            },
            StaleView::Idle(n) => {
                let d = text::decimal(n as nat);
                let at = ("<system-reminder>"@ + "The task list has "@).len() as int;
                assert(all.subrange(at, at + d.len()) =~= d);
            },
        }
    }
}

} // verus!
