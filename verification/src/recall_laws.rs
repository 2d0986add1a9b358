//! What can be found again: everything that was said and done in a turn, under that
//! turn, and nothing else.
use crate::events::{LoggedEventView, SessionEventView, ToolCallView};
use crate::occurrence;
use crate::occurrence::in_order;
use crate::recall;
use crate::recall::{HitView, TurnView};
use crate::text;
use crate::text_laws;
use vstd::prelude::*;

verus! {

// ---- turns and their text -------------------------------------------------

/// The names and arguments of calls, in order.
pub open spec fn call_parts(calls: Seq<ToolCallView>) -> Seq<Seq<char>>
    decreases calls.len(),
{
    if calls.len() == 0 {
        Seq::empty()
    } else {
        call_parts(calls.drop_last()) + seq![calls.last().name, calls.last().arguments]
    }
}

/// The turn a fact with something to search for belongs to, and what there is to search
/// for in it.
pub open spec fn to_find(e: SessionEventView) -> Option<(u64, Seq<Seq<char>>)> {
    match e {
        SessionEventView::UserMessage { turn, text, .. } => Some((turn, seq![text])),
        SessionEventView::AssistantMessage { turn, text, reasoning, tool_calls, .. } => Some(
            (turn, seq![text, reasoning] + call_parts(tool_calls)),
        ),
        SessionEventView::ToolResultLogged { turn, content, .. } => Some((turn, seq![content])),
        SessionEventView::Injected { turn, text, .. } => Some((turn, seq![text])),
        _ => None,
    }
}

proof fn lemma_call_text(calls: Seq<ToolCallView>)
    ensures
        in_order(recall::call_text(calls), call_parts(calls)),
    decreases calls.len(),
{
    if calls.len() > 0 {
        let front = calls.drop_last();
        let c = calls.last();
        lemma_call_text(front);
        let none = Seq::<char>::empty();
        occurrence::lemma_within(" "@, c.name, " "@);
        occurrence::lemma_within(none, c.arguments, none);
        assert(none + c.arguments + none =~= c.arguments);
        occurrence::lemma_together(" "@ + c.name + " "@, seq![c.name], c.arguments, seq![c.arguments]);
        assert(seq![c.name] + seq![c.arguments] =~= seq![c.name, c.arguments]);
        occurrence::lemma_together(
            recall::call_text(front),
            call_parts(front),
            " "@ + c.name + " "@ + c.arguments,
            seq![c.name, c.arguments],
        );
        assert(recall::call_text(calls) =~= recall::call_text(front) + (" "@ + c.name + " "@
            + c.arguments));
    }
}

/// A fact that can be searched is searched whole.
proof fn lemma_searchable(e: SessionEventView)
    ensures
        match (to_find(e), recall::searchable(e)) {
            (Some((t, parts)), Some((turn, said))) => t == turn && in_order(said, parts),
            (None, None) => true,
            _ => false,
        },
{
    let none = Seq::<char>::empty();
    match e {
        SessionEventView::UserMessage { text, .. } => {
            occurrence::lemma_within(none, text, none);
            assert(none + text + none =~= text);
        },
        SessionEventView::ToolResultLogged { content, .. } => {
            occurrence::lemma_within(none, content, none);
            assert(none + content + none =~= content);
        },
        SessionEventView::Injected { text, .. } => {
            occurrence::lemma_within(none, text, none);
            assert(none + text + none =~= text);
        },
        SessionEventView::AssistantMessage { text, reasoning, tool_calls, .. } => {
            occurrence::lemma_within(none, text, " "@);
            assert(none + text + " "@ =~= text + " "@);
            occurrence::lemma_within(none, reasoning, none);
            assert(none + reasoning + none =~= reasoning);
            occurrence::lemma_together(text + " "@, seq![text], reasoning, seq![reasoning]);
            assert(seq![text] + seq![reasoning] =~= seq![text, reasoning]);
            lemma_call_text(tool_calls);
            occurrence::lemma_together(
                text + " "@ + reasoning,
                seq![text, reasoning],
                recall::call_text(tool_calls),
                call_parts(tool_calls),
            );
        },
        _ => {},
    }
}

proof fn lemma_place_is(turns: Seq<TurnView>, turn: u64)
    ensures
        recall::place(turns, turn) <= turns.len(),
        recall::place(turns, turn) < turns.len() ==> turns[recall::place(
            turns,
            turn,
        ) as int].turn == turn,
        forall|i: int| 0 <= i < recall::place(turns, turn) ==> (#[trigger] turns[i]).turn != turn,
    decreases turns.len(),
{
    if turns.len() > 0 && turns[0].turn != turn {
        let rest = turns.skip(1);
        lemma_place_is(rest, turn);
        assert forall|i: int| 0 <= i < recall::place(turns, turn) implies (
        #[trigger] turns[i]).turn != turn by {
            if i > 0 {
                assert(turns[i] == rest[i - 1]);
            }
        }
    }
}

/// The entries of a session: one for each turn, under its session and when that began.
pub open spec fn one_each(turns: Seq<TurnView>, session: Seq<char>) -> bool {
    &&& forall|i: int|
        0 <= i < turns.len() ==> (#[trigger] turns[i]).session == session && turns[i].started
            == recall::began(session)
    &&& forall|i: int, j: int|
        0 <= i < j < turns.len() ==> (#[trigger] turns[i]).turn != (#[trigger] turns[j]).turn
}

/// Every turn in which something was said has one entry, and only those do.
pub proof fn law_each_turn_has_one_entry(session: Seq<char>, events: Seq<LoggedEventView>)
    ensures
        one_each(recall::turns_in(session, events), session),
        forall|k: int|
            0 <= k < recall::turns_in(session, events).len() ==> exists|i: int|
                0 <= i < events.len() && (to_find((#[trigger] events[i]).event) matches Some(
                    (t, _),
                ) && t == (#[trigger] recall::turns_in(session, events)[k]).turn),
    decreases events.len(),
{
    if events.len() > 0 {
        let front = events.drop_last();
        let before = recall::turns_in(session, front);
        let now = recall::turns_in(session, events);
        let e = events[events.len() - 1].event;
        law_each_turn_has_one_entry(session, front);
        lemma_searchable(e);
        match recall::searchable(e) {
            Some((turn, said)) => {
                lemma_place_is(before, turn);
                let k = recall::place(before, turn) as int;
                let open = recall::opened(before, session, turn);
                assert(now[k].turn == turn);
                assert forall|i: int| 0 <= i < now.len() && i != k implies #[trigger] now[i]
                    == before[i] by {}
                assert forall|i: int, j: int| 0 <= i < j < now.len() implies (
                #[trigger] now[i]).turn != (#[trigger] now[j]).turn by {
                    if k == before.len() && j == k {
                        assert(before[i].turn != turn);
                    } else {
                        assert(now[i].turn == open[i].turn && now[j].turn == open[j].turn);
                    }
                }
                assert forall|j: int| 0 <= j < now.len() implies exists|i: int|
                    0 <= i < events.len() && (to_find((#[trigger] events[i]).event) matches Some(
                        (t, _),
                    ) && t == (#[trigger] now[j]).turn) by {
                    if j == k {
                        assert(to_find(events[events.len() - 1].event) matches Some((t, _)) && t
                            == now[j].turn);
                    } else {
                        assert(now[j] == before[j]);
                        let i = choose|i: int|
                            0 <= i < front.len() && (to_find(
                                (#[trigger] front[i]).event,
                            ) matches Some((t, _)) && t == before[j].turn);
                        assert(events[i] == front[i]);
                    }
                }
            },
            None => {
                assert forall|j: int| 0 <= j < now.len() implies exists|i: int|
                    0 <= i < events.len() && (to_find((#[trigger] events[i]).event) matches Some(
                        (t, _),
                    ) && t == (#[trigger] now[j]).turn) by {
                    let i = choose|i: int|
                        0 <= i < front.len() && (to_find((#[trigger] front[i]).event) matches Some(
                            (t, _),
                        ) && t == before[j].turn);
                    assert(events[i] == front[i]);
                }
            },
        }
    }
}

/// A text is among what an entry is searched for: in lower case, within something that
/// holds these parts.
pub open spec fn found_in(t: TurnView, parts: Seq<Seq<char>>) -> bool {
    exists|said: Seq<char>| #[trigger]
        in_order(said, parts) && text::holds(t.hay, text::lowered(said))
}

/// Everything said and done in a turn can be found under it: what was asked, what was
/// answered and thought, every call with its arguments, every result, and whatever was
/// brought in.
pub proof fn law_everything_can_be_found(
    session: Seq<char>,
    events: Seq<LoggedEventView>,
    i: int,
    turn: u64,
    parts: Seq<Seq<char>>,
)
    requires
        0 <= i < events.len(),
        to_find(events[i].event) == Some((turn, parts)),
    ensures
        exists|k: int|
            0 <= k < recall::turns_in(session, events).len() && (#[trigger] recall::turns_in(
                session,
                events,
            )[k]).turn == turn && found_in(recall::turns_in(session, events)[k], parts),
    decreases events.len(),
{
    let front = events.drop_last();
    let before = recall::turns_in(session, front);
    let now = recall::turns_in(session, events);
    let last = events[events.len() - 1].event;
    lemma_searchable(last);
    match recall::searchable(last) {
        Some((t, said)) => {
            lemma_place_is(before, t);
            let k = recall::place(before, t) as int;
            let open = recall::opened(before, session, t);
            let hay = open[k].hay + " "@ + text::lowered(said);
            assert(now[k].hay == hay);
            assert(now[k].turn == t);
            if i == events.len() - 1 {
                let n = (open[k].hay + " "@).len() as int;
                let low = text::lowered(said);
                assert(hay.subrange(n, n + low.len()) =~= low);
                assert(in_order(said, parts));
                assert(found_in(now[k], parts));
            } else {
                assert(front[i] == events[i]);
                law_everything_can_be_found(session, front, i, turn, parts);
                let j = choose|j: int|
                    0 <= j < before.len() && (#[trigger] before[j]).turn == turn && found_in(
                        before[j],
                        parts,
                    );
                if j == k {
                    let held = choose|held: Seq<char>| #[trigger]
                        in_order(held, parts) && text::holds(before[j].hay, text::lowered(held));
                    let low = text::lowered(held);
                    let h = before[j].hay;
                    let a = choose|a: int|
                        0 <= a <= h.len() - low.len() && #[trigger] h.subrange(a, a + low.len())
                            == low;
                    assert(hay.subrange(a, a + low.len()) =~= h.subrange(a, a + low.len()));
                    assert(found_in(now[k], parts));
                } else {
                    assert(now[j] == before[j]);
                }
            }
        },
        None => {
            assert(front[i] == events[i]);
            law_everything_can_be_found(session, front, i, turn, parts);
            let j = choose|j: int|
                0 <= j < before.len() && (#[trigger] before[j]).turn == turn && found_in(
                    before[j],
                    parts,
                );
            assert(now[j] == before[j]);
        },
    }
}

/// What a turn is shown as having asked and answered is what was first asked and first
/// answered in it.
pub proof fn law_a_turn_is_shown_by_its_first_words(
    session: Seq<char>,
    events: Seq<LoggedEventView>,
    k: int,
)
    requires
        0 <= k < recall::turns_in(session, events).len(),
    ensures
        ({
            let t = recall::turns_in(session, events)[k];
            &&& t.asked.len() > 0 <==> exists|i: int|
                0 <= i < events.len() && asks_in(#[trigger] events[i], t.turn)
            &&& t.asked.len() > 0 ==> exists|i: int|
                {
                    &&& 0 <= i < events.len()
                    &&& asks_in(#[trigger] events[i], t.turn)
                    &&& words_of(events[i]) == t.asked
                    &&& forall|j: int| 0 <= j < i ==> !asks_in(#[trigger] events[j], t.turn)
                }
            &&& t.answered.len() > 0 <==> exists|i: int|
                0 <= i < events.len() && answers_in(#[trigger] events[i], t.turn)
            &&& t.answered.len() > 0 ==> exists|i: int|
                {
                    &&& 0 <= i < events.len()
                    &&& answers_in(#[trigger] events[i], t.turn)
                    &&& words_of(events[i]) == t.answered
                    &&& forall|j: int| 0 <= j < i ==> !answers_in(#[trigger] events[j], t.turn)
                }
        }),
{
    let now = recall::turns_in(session, events);
    law_each_turn_has_one_entry(session, events);
    lemma_place_is(now, now[k].turn);
    let j = recall::place(now, now[k].turn) as int;
    assert(j <= k);
    if j < k {
        assert(now[j].turn != now[k].turn);
    }
    lemma_first_words(session, events, now[k].turn);
}

pub open spec fn asks_in(e: LoggedEventView, turn: u64) -> bool {
    e.event matches SessionEventView::UserMessage { turn: t, text, .. } && t == turn && text.len()
        > 0
}

pub open spec fn answers_in(e: LoggedEventView, turn: u64) -> bool {
    e.event matches SessionEventView::AssistantMessage { turn: t, text, .. } && t == turn
        && !text::is_blank(text)
}

pub open spec fn words_of(e: LoggedEventView) -> Seq<char> {
    match e.event {
        SessionEventView::UserMessage { text, .. } => text,
        SessionEventView::AssistantMessage { text, .. } => text,
        _ => Seq::empty(),
    }
}

/// The first fact of a kind, where there is one.
pub open spec fn first_of(events: Seq<LoggedEventView>, turn: u64, asking: bool) -> Seq<char>
    decreases events.len(),
{
    if events.len() == 0 {
        Seq::empty()
    } else {
        let before = first_of(events.drop_last(), turn, asking);
        let e = events.last();
        if before.len() == 0 && (if asking {
            asks_in(e, turn)
        } else {
            answers_in(e, turn)
        }) {
            words_of(e)
        } else {
            before
        }
    }
}

proof fn lemma_blank_is_empty()
    ensures
        text::is_blank(Seq::<char>::empty()),
{
}

proof fn lemma_first_of(events: Seq<LoggedEventView>, turn: u64, asking: bool)
    ensures
        ({
            let f = first_of(events, turn, asking);
            let kind = |e: LoggedEventView|
                if asking {
                    asks_in(e, turn)
                } else {
                    answers_in(e, turn)
                };
            &&& f.len() > 0 ==> exists|i: int|
                {
                    &&& 0 <= i < events.len()
                    &&& kind(#[trigger] events[i])
                    &&& words_of(events[i]) == f
                    &&& forall|j: int| 0 <= j < i ==> !kind(#[trigger] events[j])
                }
            &&& f.len() == 0 ==> forall|i: int|
                0 <= i < events.len() ==> !kind(#[trigger] events[i])
        }),
    decreases events.len(),
{
    let kind = |e: LoggedEventView|
        if asking {
            asks_in(e, turn)
        } else {
            answers_in(e, turn)
        };
    if events.len() > 0 {
        let front = events.drop_last();
        let n = events.len() - 1;
        lemma_first_of(front, turn, asking);
        lemma_blank_is_empty();
        let f = first_of(front, turn, asking);
        if f.len() > 0 {
            let i = choose|i: int|
                {
                    &&& 0 <= i < front.len()
                    &&& kind(#[trigger] front[i])
                    &&& words_of(front[i]) == f
                    &&& forall|j: int| 0 <= j < i ==> !kind(#[trigger] front[j])
                };
            assert(events[i] == front[i]);
            assert forall|j: int| 0 <= j < i implies !kind(#[trigger] events[j]) by {
                assert(front[j] == events[j]);
            }
        } else {
            assert forall|j: int| 0 <= j < n implies !kind(#[trigger] events[j]) by {
                assert(front[j] == events[j]);
            }
            if kind(events[n]) {
                assert(words_of(events[n]).len() > 0) by {
                    if words_of(events[n]).len() == 0 {
                        assert(words_of(events[n]) =~= Seq::<char>::empty());
                    }
                }
            }
        }
    }
}

proof fn lemma_entry(session: Seq<char>, events: Seq<LoggedEventView>, turn: u64)
    ensures
        ({
            let now = recall::turns_in(session, events);
            let k = recall::place(now, turn) as int;
            &&& k < now.len() ==> now[k].asked == first_of(events, turn, true) && now[k].answered
                == first_of(events, turn, false)
            &&& k >= now.len() ==> first_of(events, turn, true).len() == 0 && first_of(
                events,
                turn,
                false,
            ).len() == 0
        }),
    decreases events.len(),
{
    if events.len() > 0 {
        let front = events.drop_last();
        let before = recall::turns_in(session, front);
        let now = recall::turns_in(session, events);
        let e = events.last().event;
        lemma_entry(session, front, turn);
        lemma_place_is(before, turn);
        lemma_place_is(now, turn);
        lemma_blank_is_empty();
        law_each_turn_has_one_entry(session, events);
        law_each_turn_has_one_entry(session, front);
        match recall::searchable(e) {
            Some((t, said)) => {
                lemma_place_is(before, t);
                let k = recall::place(before, t) as int;
                let open = recall::opened(before, session, t);
                assert(now[k].turn == t);
                let j = recall::place(now, turn) as int;
                if t == turn {
                    assert(j == k);
                } else {
                    if j < now.len() {
                        assert(j != k);
                        assert(j < before.len());
                        assert(now[j] == before[j]);
                        assert(recall::place(before, turn) == j);
                    } else {
                        assert(recall::place(before, turn) >= before.len()) by {
                            let b = recall::place(before, turn) as int;
                            if b < before.len() {
                                assert(now[b].turn == open[b].turn);
                                assert(now[b].turn == turn);
                            }
                        }
                    }
                }
            },
            None => {},
        }
    }
}

proof fn lemma_first_words(session: Seq<char>, events: Seq<LoggedEventView>, turn: u64)
    requires
        recall::place(recall::turns_in(session, events), turn) < recall::turns_in(
            session,
            events,
        ).len(),
    ensures
        ({
            let now = recall::turns_in(session, events);
            let t = now[recall::place(now, turn) as int];
            &&& t.asked.len() > 0 <==> exists|i: int|
                0 <= i < events.len() && asks_in(#[trigger] events[i], turn)
            &&& t.asked.len() > 0 ==> exists|i: int|
                {
                    &&& 0 <= i < events.len()
                    &&& asks_in(#[trigger] events[i], turn)
                    &&& words_of(events[i]) == t.asked
                    &&& forall|j: int| 0 <= j < i ==> !asks_in(#[trigger] events[j], turn)
                }
            &&& t.answered.len() > 0 <==> exists|i: int|
                0 <= i < events.len() && answers_in(#[trigger] events[i], turn)
            &&& t.answered.len() > 0 ==> exists|i: int|
                {
                    &&& 0 <= i < events.len()
                    &&& answers_in(#[trigger] events[i], turn)
                    &&& words_of(events[i]) == t.answered
                    &&& forall|j: int| 0 <= j < i ==> !answers_in(#[trigger] events[j], turn)
                }
        }),
{
    lemma_entry(session, events, turn);
    lemma_first_of(events, turn, true);
    lemma_first_of(events, turn, false);
}

// ---- what is searched, and what is said of it ------------------------------

/// The sessions that are read are the newest, without the one that is live: that one is
/// searched as it stands.
pub proof fn law_the_newest_sessions_are_read(
    ids: Seq<Seq<char>>,
    live: Option<Seq<char>>,
)
    ensures
        ({
            let newest = if ids.len() <= recall::MAX_SESSIONS {
                ids
            } else {
                ids.take(recall::MAX_SESSIONS as int)
            };
            &&& recall::to_read(ids, live) == newest.filter(|x: Seq<char>| live != Some(x))
            &&& recall::to_read(ids, live).len() <= recall::MAX_SESSIONS
        }),
{
    let newest = if ids.len() <= recall::MAX_SESSIONS {
        ids
    } else {
        ids.take(recall::MAX_SESSIONS as int)
    };
    lemma_others(newest, live);
    newest.lemma_filter_len(|x: Seq<char>| live != Some(x));
}

proof fn lemma_others(ids: Seq<Seq<char>>, live: Option<Seq<char>>)
    ensures
        recall::others(ids, live) == ids.filter(|x: Seq<char>| live != Some(x)),
    decreases ids.len(),
{
    reveal(Seq::filter);
    let other = |x: Seq<char>| live != Some(x);
    if ids.len() == 0 {
        assert(recall::others(ids, live) =~= ids.filter(other));
    } else {
        lemma_others(ids.drop_last(), live);
        assert(recall::others(ids, live) =~= ids.filter(other));
    }
}

/// The hits are exactly the turns that matched, each with its rank.
pub proof fn law_what_matched_is_a_hit(
    turns: Seq<TurnView>,
    ranks: Seq<Option<u64>>,
    h: HitView,
)
    requires
        ranks.len() >= turns.len(),
    ensures
        recall::matched(turns, ranks).contains(h) <==> exists|i: int|
            0 <= i < turns.len() && #[trigger] turns[i] == h.turn && ranks[i] == Some(h.rank),
    decreases turns.len(),
{
    let all = recall::matched(turns, ranks);
    if turns.len() > 0 {
        let n = turns.len() - 1;
        let front = turns.drop_last();
        let before = recall::matched(front, ranks);
        law_what_matched_is_a_hit(front, ranks, h);
        if all.contains(h) {
            let k = choose|k: int| 0 <= k < all.len() && all[k] == h;
            if k < before.len() {
                assert(before[k] == h);
                let i = choose|i: int|
                    0 <= i < front.len() && #[trigger] front[i] == h.turn && ranks[i] == Some(
                        h.rank,
                    );
                assert(turns[i] == h.turn);
            } else {
                assert(turns[n] == h.turn);
            }
        }
        if exists|i: int|
            0 <= i < turns.len() && #[trigger] turns[i] == h.turn && ranks[i] == Some(h.rank) {
            let i = choose|i: int|
                0 <= i < turns.len() && #[trigger] turns[i] == h.turn && ranks[i] == Some(h.rank);
            if i < n {
                assert(front[i] == turns[i]);
                let k = choose|k: int| 0 <= k < before.len() && before[k] == h;
                assert(all[k] == h);
            } else {
                assert(all[all.len() - 1] == h);
            }
        }
    } else {
        assert(all.len() == 0);
    }
}

/// What a search says names the best of what was found, best first, each by its session,
/// its turn, and what was asked and answered; and how many that are.
pub proof fn law_the_best_are_named(query: Seq<char>, hits: Seq<HitView>, limit: Option<usize>)
    requires
        hits.len() > 0,
    ensures
        ({
            let most = recall::limit_of(limit) as int;
            let n = if hits.len() <= most {
                hits.len() as int
            } else {
                most
            };
            &&& n >= 1
            &&& in_order(
                recall::recalled(query, hits, limit),
                seq![text::decimal(n as nat)] + shown_all(recall::ranked(hits).take(n)),
            )
        }),
{
    recall::law_best_first(hits);
    recall::law_the_limit_holds(limit);
    let most = recall::limit_of(limit) as int;
    let n = if hits.len() <= most {
        hits.len() as int
    } else {
        most
    };
    let best = recall::ranked(hits).take(n);
    let count = text::decimal(n as nat);
    let head = " matching turn(s), best first:\n"@;
    let none = Seq::<char>::empty();
    occurrence::lemma_within(none, count, head);
    assert(none + count + head =~= count + head);
    lemma_shown_all(best);
    occurrence::lemma_together(
        count + head,
        seq![count],
        text::strung(recall::found_lines(best)),
        shown_all(best),
    );
}

/// What is shown of a turn.
pub open spec fn shown(t: TurnView) -> Seq<Seq<char>> {
    seq![
        t.session,
        text::decimal(t.turn as nat),
        recall::clipped(t.asked, 160),
        recall::clipped(t.answered, 240),
    ]
}

pub open spec fn shown_all(hits: Seq<HitView>) -> Seq<Seq<char>>
    decreases hits.len(),
{
    if hits.len() == 0 {
        Seq::empty()
    } else {
        shown_all(hits.drop_last()) + shown(hits.last().turn)
    }
}

proof fn lemma_shown(t: TurnView)
    ensures
        in_order(recall::found_line(t), shown(t)),
{
    let none = Seq::<char>::empty();
    let day = "\n— "@ + crate::calendar::day_of(t.started) + " · session "@;
    let n = text::decimal(t.turn as nat);
    let asked = recall::clipped(t.asked, 160);
    let answered = recall::clipped(t.answered, 240);
    occurrence::lemma_within(day, t.session, " · turn "@);
    occurrence::lemma_within(none, n, "\n  asked:  "@);
    assert(none + n + "\n  asked:  "@ =~= n + "\n  asked:  "@);
    occurrence::lemma_within(none, asked, "\n  answered: "@);
    assert(none + asked + "\n  answered: "@ =~= asked + "\n  answered: "@);
    occurrence::lemma_within(none, answered, "\n"@);
    assert(none + answered + "\n"@ =~= answered + "\n"@);
    let a = day + t.session + " · turn "@;
    let b = n + "\n  asked:  "@;
    let c = asked + "\n  answered: "@;
    let d = answered + "\n"@;
    occurrence::lemma_together(a, seq![t.session], b, seq![n]);
    occurrence::lemma_together(a + b, seq![t.session] + seq![n], c, seq![asked]);
    occurrence::lemma_together(
        a + b + c,
        seq![t.session] + seq![n] + seq![asked],
        d,
        seq![answered],
    );
    assert(recall::found_line(t) =~= a + b + c + d);
    assert(seq![t.session] + seq![n] + seq![asked] + seq![answered] =~= shown(t));
}

proof fn lemma_shown_all(hits: Seq<HitView>)
    ensures
        in_order(text::strung(recall::found_lines(hits)), shown_all(hits)),
    decreases hits.len(),
{
    if hits.len() > 0 {
        let front = hits.drop_last();
        lemma_shown_all(front);
        lemma_shown(hits.last().turn);
        assert(recall::found_lines(hits).drop_last() =~= recall::found_lines(front));
        assert(recall::found_lines(hits).last() == recall::found_line(hits.last().turn));
        occurrence::lemma_together(
            text::strung(recall::found_lines(front)),
            shown_all(front),
            recall::found_line(hits.last().turn),
            shown(hits.last().turn),
        );
    }
}

/// A search that finds nothing says so, and what it was for.
pub proof fn law_nothing_found_is_said(query: Seq<char>, limit: Option<usize>)
    ensures
        text::holds(recall::recalled(query, Seq::empty(), limit), query),
        "No past turn"@.is_prefix_of(recall::recalled(query, Seq::empty(), limit)),
{
    let head = "No past turn in this project matches “"@;
    let all = recall::recalled(query, Seq::empty(), limit);
    assert(all.subrange(head.len() as int, (head.len() + query.len()) as int) =~= query);
    reveal_strlit("No past turn in this project matches “");
    reveal_strlit("No past turn");
    assert("No past turn"@ =~= all.take("No past turn"@.len() as int));
}

/// A better match comes first; of two as good, the newer session's; of one session's, the
/// later turn.
pub proof fn law_better_then_newer(a: HitView, b: HitView)
    ensures
        a.rank < b.rank ==> recall::no_later(a, b) && !recall::no_later(b, a),
        a.rank == b.rank && a.turn.started > b.turn.started ==> recall::no_later(a, b)
            && !recall::no_later(b, a),
        a.rank == b.rank && a.turn.started == b.turn.started && a.turn.turn > b.turn.turn
            ==> recall::no_later(a, b) && !recall::no_later(b, a),
{
}

/// As many are named as was asked for, at least one and no more than the most.
pub proof fn law_as_many_as_asked(n: usize)
    ensures
        1 <= n <= recall::MOST ==> recall::limit_of(Some(n)) == n,
        1 <= recall::limit_of(Some(n)) <= recall::MOST,
        n > recall::MOST ==> recall::limit_of(Some(n)) == recall::MOST,
        recall::limit_of(None) == recall::DEFAULT_LIMIT,
{
}

/// A session began at the time its id begins with; an id that begins with none says none.
pub proof fn law_an_id_says_when_it_began(n: u64, rest: Seq<char>)
    ensures
        recall::began(text::decimal(n as nat) + seq!['-'] + rest) == n,
        recall::began(text::decimal(n as nat)) == n,
        recall::began(seq!['-'] + rest) == 0,
{
    let d = text::decimal(n as nat);
    lemma_only_digits(n as nat);
    text_laws::law_a_number_is_read(n as nat, u64::MAX as nat, Seq::empty());
    let s = d + seq!['-'] + rest;
    text::lemma_index_of(s, '-');
    let k = text::index_of(s, '-');
    assert(s[d.len() as int] == '-');
    if k < d.len() {
        assert(d[k] == '-');
    }
    assert(s.take(k) =~= d);
    assert(text::pieces(s, '-')[0] == d);
    text::lemma_index_of(d, '-');
    let j = text::index_of(d, '-');
    if j < d.len() {
        assert(d[j] == '-');
    }
    assert(text::pieces(d, '-') =~= seq![d]);
    let e = seq!['-'] + rest;
    assert(e[0] == '-');
    assert(e.take(0) =~= Seq::<char>::empty());
    assert(text::pieces(e, '-')[0] == Seq::<char>::empty());
}

proof fn lemma_only_digits(n: nat)
    ensures
        forall|i: int| 0 <= i < text::decimal(n).len() ==> #[trigger] text::decimal(n)[i] != '-',
    decreases n,
{
    let d = text::decimal(n);
    if n >= 10 {
        lemma_only_digits(n / 10);
        let front = text::decimal(n / 10);
        assert forall|i: int| 0 <= i < d.len() implies #[trigger] d[i] != '-' by {
            if i < front.len() {
                assert(front[i] != '-');
            } else {
                assert(d[i] == text::digit(n % 10));
            }
        }
    } else {
        assert forall|i: int| 0 <= i < d.len() implies #[trigger] d[i] != '-' by {
            assert(d[i] == text::digit(n));
        }
    }
}

} // verus!
