//! Folding a conversation: what is laid out, what may be taken out of it, and what is put
//! in its place, each traced back to the events it came from.
use crate::compaction;
use crate::compaction::{CutStep, LayoutView, PlanView, Provenance, TracedView, WORTH_STUBBING};
use crate::events::{LoggedEventView, SessionEventView, ToolCallView};
use crate::message::{MessageView, Role};
use crate::order;
use crate::protocol::CompactTriggerView;
use crate::span;
use crate::span::CompactionDecisionView;
use crate::strategy;
use crate::strategy::{DecideStepView, DecidingView, StageView};
use crate::text;
use crate::turn::StreamEventView;
use vstd::prelude::*;

verus! {

// ---- what a model wrote ---------------------------------------------------

/// A summary is what the model said, strung together, without the white space around it;
/// nothing but white space is no summary.
pub proof fn law_a_summary_is_what_was_said(events: Seq<StreamEventView>)
    ensures
        ({
            let said = text::strung(
                events.filter_map(
                    |e: StreamEventView|
                        match e {
                            StreamEventView::TextDelta(t) => Some(t),
                            _ => None,
                        },
                ),
            );
            compaction::written(events) == (if text::is_blank(said) {
                None
            } else {
                Some(text::trimmed(said))
            })
        }),
{
    lemma_spoken(events);
    text::lemma_blank(compaction::spoken(events));
}

proof fn lemma_spoken(events: Seq<StreamEventView>)
    ensures
        compaction::spoken(events) == text::strung(
            events.filter_map(
                |e: StreamEventView|
                    match e {
                        StreamEventView::TextDelta(t) => Some(t),
                        _ => None,
                    },
            ),
        ),
    decreases events.len(),
{
    let said = |e: StreamEventView|
        match e {
            StreamEventView::TextDelta(t) => Some(t),
            _ => None,
        };
    if events.len() == 0 {
        assert(events.filter_map(said) =~= Seq::empty());
    } else {
        lemma_spoken(events.drop_last());
        let parts = events.drop_last().filter_map(said);
        match events.last() {
            StreamEventView::TextDelta(t) => {
                assert((parts + seq![t]).drop_last() =~= parts);
                assert(events.filter_map(said) =~= parts + seq![t]);
            },
            _ => {
                assert(events.filter_map(said) =~= parts);
            },
        }
    }
}

// ---- long results ---------------------------------------------------------

pub open spec fn worth_stubbing(t: TracedView) -> bool {
    t.source is Event && t.message.role is Tool && text::bytes(t.message.text) > WORTH_STUBBING
}

/// Every long result is stubbed, in order, under the event it came from, with its text and
/// whether it worked; nothing else is.
pub proof fn law_long_results_are_stubbed(calls: Seq<ToolCallView>, traced: Seq<TracedView>)
    ensures
        ({
            let found = compaction::stubbings(calls, traced);
            let long = traced.filter(|t: TracedView| worth_stubbing(t));
            &&& found.len() == long.len()
            &&& forall|i: int|
                0 <= i < found.len() ==> {
                    let s = #[trigger] found[i];
                    &&& long[i].source == Provenance::Event(s.seq)
                    &&& s.text == long[i].message.text
                    &&& s.ok == !long[i].message.is_error
                    &&& s.tool == compaction::tool_of(calls, long[i].message.tool_call_id)
                }
        }),
    decreases traced.len(),
{
    reveal(Seq::filter);
    if traced.len() > 0 {
        law_long_results_are_stubbed(calls, traced.drop_last());
    }
}

/// A result is stubbed under the name of the last call with its id.
pub proof fn law_a_result_is_its_calls(calls: Seq<ToolCallView>, id: Seq<char>, k: int)
    requires
        0 <= k < calls.len(),
        calls[k].id == id,
        forall|j: int| k < j < calls.len() ==> (#[trigger] calls[j]).id != id,
    ensures
        compaction::tool_of(calls, Some(id)) == calls[k].name,
    decreases calls.len(),
{
    if k < calls.len() - 1 {
        let front = calls.drop_last();
        assert(calls[calls.len() - 1].id != id);
        assert forall|j: int| k < j < front.len() implies (#[trigger] front[j]).id != id by {
            assert(front[j] == calls[j]);
        }
        law_a_result_is_its_calls(front, id, k);
        assert(compaction::name_of(front, id) is Some) by {
            lemma_named(front, id, k);
        }
    }
}

proof fn lemma_named(calls: Seq<ToolCallView>, id: Seq<char>, k: int)
    requires
        0 <= k < calls.len(),
        calls[k].id == id,
    ensures
        compaction::name_of(calls, id) is Some,
    decreases calls.len(),
{
    if k < calls.len() - 1 {
        lemma_named(calls.drop_last(), id, k);
    }
}

/// Results are stubbed where the conversation no longer fits, and only then; each is then
/// shown as its stub, and nothing is folded away.
pub proof fn law_stubs_replace_their_results(
    traced: Seq<TracedView>,
    trigger: CompactTriggerView,
    stubs: Seq<Seq<char>>,
    k: int,
)
    ensures
        match compaction::stubbed_on(traced, trigger) {
            Some(found) => {
                &&& trigger is Overflow && found.len() > 0
                &&& found == compaction::stubbings(compaction::all_calls(traced), traced)
                &&& stubs.len() == found.len() && 0 <= k < found.len() ==> {
                    let d = compaction::stub_decision(found, stubs);
                    &&& d.rewrites.len() == found.len()
                    &&& d.rewrites[k].seq == found[k].seq && d.rewrites[k].text == stubs[k]
                    &&& d.through == 0 && d.from == 0 && d.summary.len() == 0
                }
            },
            None => !(trigger is Overflow) || compaction::stubbings(
                compaction::all_calls(traced),
                traced,
            ).len() == 0,
        },
{
}

// ---- laying out -----------------------------------------------------------

/// A conversation is laid out whole: everything up to the first request, then the summaries
/// as a person would say them, then the rest, each in its order and with its source.
pub proof fn law_nothing_is_lost_in_laying_out(traced: Seq<TracedView>)
    ensures
        ({
            let rest = traced.filter(|t: TracedView| !(t.source is Summary));
            let told = traced.filter(|t: TracedView| t.source is Summary);
            match compaction::laid_out(traced) {
                None => forall|i: int|
                    0 <= i < rest.len() ==> !compaction::asks(#[trigger] rest[i]),
                Some(l) => {
                    let n = l.floor as int;
                    &&& rest.len() < usize::MAX ==> 1 <= n <= rest.len()
                    &&& rest.len() < usize::MAX ==> compaction::asks(rest[n - 1])
                    &&& rest.len() < usize::MAX ==> forall|i: int|
                        0 <= i < n - 1 ==> !compaction::asks(#[trigger] rest[i])
                    &&& l.messages.len() == traced.len() && l.sources.len() == traced.len()
                    &&& rest.len() < usize::MAX ==> forall|i: int|
                        0 <= i < n ==> l.messages[i] == (#[trigger] rest[i]).message
                            && l.sources[i] == rest[i].source
                    &&& rest.len() < usize::MAX ==> forall|i: int|
                        0 <= i < told.len() ==> l.messages[n + i] == (MessageView {
                            role: Role::User,
                            ..(#[trigger] told[i]).message
                        }) && l.sources[n + i] == told[i].source
                    &&& rest.len() < usize::MAX ==> forall|i: int|
                        n <= i < rest.len() ==> l.messages[told.len() + i] == (
                        #[trigger] rest[i]).message && l.sources[told.len() + i] == rest[i].source
                },
            }
        }),
{
    lemma_parted(traced);
    let rest = compaction::parted(traced, false);
    lemma_first_request(rest);
    lemma_parts_add_up(traced);
}

proof fn lemma_parted(traced: Seq<TracedView>)
    ensures
        compaction::parted(traced, false) == traced.filter(
            |t: TracedView| !(t.source is Summary),
        ),
        compaction::parted(traced, true) == traced.filter(|t: TracedView| t.source is Summary),
    decreases traced.len(),
{
    reveal(Seq::filter);
    let plain = |t: TracedView| !(t.source is Summary);
    let told = |t: TracedView| t.source is Summary;
    if traced.len() == 0 {
        assert(compaction::parted(traced, false) =~= traced.filter(plain));
        assert(compaction::parted(traced, true) =~= traced.filter(told));
    } else {
        lemma_parted(traced.drop_last());
        assert(compaction::parted(traced, false) =~= traced.filter(plain));
        assert(compaction::parted(traced, true) =~= traced.filter(told));
    }
}

proof fn lemma_parts_add_up(traced: Seq<TracedView>)
    ensures
        compaction::parted(traced, false).len() + compaction::parted(traced, true).len()
            == traced.len(),
    decreases traced.len(),
{
    if traced.len() > 0 {
        lemma_parts_add_up(traced.drop_last());
    }
}

proof fn lemma_first_request(rest: Seq<TracedView>)
    ensures
        compaction::first_request(rest) <= rest.len(),
        forall|i: int|
            0 <= i < compaction::first_request(rest) ==> !compaction::asks(#[trigger] rest[i]),
        compaction::first_request(rest) < rest.len() ==> compaction::asks(
            rest[compaction::first_request(rest) as int],
        ),
    decreases rest.len(),
{
    if rest.len() > 0 && !compaction::asks(rest[0]) {
        let tail = rest.skip(1);
        lemma_first_request(tail);
        assert forall|i: int| 0 <= i < compaction::first_request(rest) implies !compaction::asks(
            #[trigger] rest[i],
        ) by {
            if i > 0 {
                assert(tail[i - 1] == rest[i]);
            }
        }
    }
}

// ---- taking out -----------------------------------------------------------

/// What is taken out is what was asked for, as far as it lies behind the head.
pub proof fn law_what_was_asked_is_drained(l: LayoutView, p: PlanView, i: int)
    requires
        l.floor <= l.messages.len(),
    ensures
        ({
            let (from, to) = compaction::drained(l, p);
            &&& l.floor <= p.drain_from <= p.drain_to <= l.messages.len() ==> from == p.drain_from
                && to == p.drain_to
            &&& from <= i < to <==> p.drain_from <= i < p.drain_to && l.floor <= i
                < l.messages.len()
        }),
{
}

/// A fold reaches from the last event before what is taken out to the last before what is
/// kept: nothing before or behind it is folded.
pub proof fn law_a_fold_spares_what_is_kept(
    l: LayoutView,
    from: int,
    to: int,
    last_seq: u64,
    i: int,
)
    requires
        0 <= from <= to <= l.sources.len(),
        0 <= i < l.sources.len(),
        !(l.sources[i] is Summary),
    ensures
        ({
            let (low, high) = compaction::reach(l, from, to, last_seq);
            let seq = compaction::seq_of(l.sources[i]);
            &&& i < from ==> seq <= low
            &&& i >= to ==> high < seq || seq == 0
        }),
{
    if i < from {
        let head = l.sources.take(from);
        assert(head[i] == l.sources[i]);
        lemma_highest(head, i);
    }
    if i >= to {
        let tail = l.sources.skip(to);
        assert(tail[i - to] == l.sources[i]);
        lemma_lowest(tail, i - to);
    }
}

proof fn lemma_highest(sources: Seq<Provenance>, i: int)
    requires
        0 <= i < sources.len(),
        !(sources[i] is Summary),
    ensures
        compaction::seq_of(sources[i]) <= compaction::highest(sources),
    decreases sources.len(),
{
    if i < sources.len() - 1 {
        lemma_highest(sources.drop_last(), i);
    }
}

proof fn lemma_lowest(sources: Seq<Provenance>, i: int)
    requires
        0 <= i < sources.len(),
        !(sources[i] is Summary),
    ensures
        compaction::lowest(sources) matches Some(k) && k <= compaction::seq_of(sources[i]),
    decreases sources.len(),
{
    if i < sources.len() - 1 {
        lemma_lowest(sources.drop_last(), i);
    }
}

/// Where nothing is kept behind it, a fold reaches to the end of the log; where something
/// is, to just before the first of it.
pub proof fn law_a_fold_reaches_as_far_as_it_can(
    l: LayoutView,
    from: int,
    to: int,
    last_seq: u64,
    k: int,
)
    requires
        0 <= from <= to <= l.sources.len(),
    ensures
        (forall|i: int| to <= i < l.sources.len() ==> (#[trigger] l.sources[i]) is Summary)
            ==> compaction::reach(l, from, to, last_seq).1 == last_seq,
        to <= k < l.sources.len() && !(l.sources[k] is Summary) && compaction::seq_of(l.sources[k])
            > 0 && (forall|i: int|
            to <= i < l.sources.len() && !(l.sources[i] is Summary) ==> compaction::seq_of(
                l.sources[k],
            ) <= compaction::seq_of(#[trigger] l.sources[i])) ==> compaction::reach(
            l,
            from,
            to,
            last_seq,
        ).1 == compaction::seq_of(l.sources[k]) - 1,
{
    let tail = l.sources.skip(to);
    lemma_lowest_is_one(tail);
    if forall|i: int| to <= i < l.sources.len() ==> (#[trigger] l.sources[i]) is Summary {
        assert forall|i: int| 0 <= i < tail.len() implies (#[trigger] tail[i]) is Summary by {
            assert(tail[i] == l.sources[to + i]);
        }
    }
    if to <= k < l.sources.len() && !(l.sources[k] is Summary) {
        assert(tail[k - to] == l.sources[k]);
        lemma_lowest(tail, k - to);
        let i = choose|i: int|
            0 <= i < tail.len() && !((#[trigger] tail[i]) is Summary) && compaction::lowest(tail)
                == Some(compaction::seq_of(tail[i]));
        assert(l.sources[to + i] == tail[i]);
    }
}

proof fn lemma_lowest_is_one(sources: Seq<Provenance>)
    ensures
        match compaction::lowest(sources) {
            Some(n) => exists|i: int|
                0 <= i < sources.len() && !((#[trigger] sources[i]) is Summary) && Some(
                    compaction::seq_of(sources[i]),
                ) == compaction::lowest(sources),
            None => forall|i: int| 0 <= i < sources.len() ==> (#[trigger] sources[i]) is Summary,
        },
    decreases sources.len(),
{
    if sources.len() > 0 {
        let front = sources.drop_last();
        lemma_lowest_is_one(front);
        let n = sources.len() - 1;
        assert(sources[n] == sources.last());
        match compaction::lowest(front) {
            Some(_) => {
                let i = choose|i: int|
                    0 <= i < front.len() && !((#[trigger] front[i]) is Summary) && Some(
                        compaction::seq_of(front[i]),
                    ) == compaction::lowest(front);
                assert(sources[i] == front[i]);
            },
            None => {
                assert forall|i: int| 0 <= i < front.len() implies (#[trigger] sources[i]) is Summary by {
                    assert(front[i] == sources[i]);
                }
            },
        }
    }
}

/// A cut that would leave a result without its call is moved before the answer that made
/// the call, and given up where there is none; a cut that leaves none is kept.
pub proof fn law_a_cut_moves_before_the_call(
    events: Seq<LoggedEventView>,
    from: u64,
    through: u64,
    projected: Seq<MessageView>,
    k: int,
)
    requires
        from < through,
    ensures
        compaction::orphan(projected) is None ==> compaction::cut(events, from, through, projected)
            == CutStep::Keep(through),
        (compaction::orphan(projected) matches Some(id) && 0 <= k < events.len() && (
        events[k].event matches SessionEventView::AssistantMessage { tool_calls, .. }
            && compaction::made(tool_calls, id)) && events[k].seq > 0 && forall|j: int|
            0 <= j < k ==> ((
            #[trigger] events[j]).event matches SessionEventView::AssistantMessage { tool_calls, .. }
                ==> !compaction::made(tool_calls, id))) ==> compaction::cut(
            events,
            from,
            through,
            projected,
        ) == CutStep::Again((events[k].seq - 1) as u64),
{
    match compaction::orphan(projected) {
        Some(id) => {
            if 0 <= k < events.len() && (
            events[k].event matches SessionEventView::AssistantMessage { tool_calls, .. }
                && compaction::made(tool_calls, id)) && forall|j: int|
                0 <= j < k ==> ((
                #[trigger] events[j]).event matches SessionEventView::AssistantMessage {
                    tool_calls,
                    ..
                } ==> !compaction::made(tool_calls, id)) {
                lemma_asked_at(events, id, k);
            }
        },
        None => {},
    }
}

proof fn lemma_asked_at(events: Seq<LoggedEventView>, id: Seq<char>, k: int)
    requires
        0 <= k <= events.len(),
        forall|j: int|
            0 <= j < k ==> ((
            #[trigger] events[j]).event matches SessionEventView::AssistantMessage { tool_calls, .. }
                ==> !compaction::made(tool_calls, id)),
        k < events.len() ==> (
        events[k].event matches SessionEventView::AssistantMessage { tool_calls, .. }
            && compaction::made(tool_calls, id)),
    ensures
        compaction::asked_at(events, id) == (if k < events.len() {
            Some(events[k].seq)
        } else {
            None
        }),
    decreases events.len(),
{
    if events.len() > 0 {
        let front = events.drop_last();
        let m = if k < front.len() {
            k
        } else {
            front.len() as int
        };
        assert forall|j: int| 0 <= j < m implies ((
        #[trigger] front[j]).event matches SessionEventView::AssistantMessage { tool_calls, .. }
            ==> !compaction::made(tool_calls, id)) by {
            assert(front[j] == events[j]);
        }
        if m < front.len() {
            assert(front[m] == events[m]);
        }
        lemma_asked_at(front, id, m);
        if k == events.len() {
            let last = events[events.len() - 1];
            assert(last.event matches SessionEventView::AssistantMessage { tool_calls, .. }
                ==> !compaction::made(tool_calls, id));
        }
    }
}

// ---- putting in place -----------------------------------------------------

/// A fold is logged as decided: what is shown anew first, then what is folded; the log
/// before it is untouched.
pub proof fn law_a_decision_is_logged(events: Seq<LoggedEventView>, d: CompactionDecisionView)
    ensures
        ({
            let out = compaction::with(events, d);
            &&& events.is_prefix_of(out)
            &&& out.len() == events.len() + (if d.rewrites.len() > 0 {
                1nat
            } else {
                0
            }) + (if d.through != 0 {
                1nat
            } else {
                0
            })
            &&& d.rewrites.len() > 0 ==> (
            out[events.len() as int].event matches SessionEventView::MessagesRewritten {
                texts,
                ..
            } && texts == d.rewrites)
            &&& d.through != 0 ==> (out.last().event matches SessionEventView::Compacted {
                through,
                summary,
                from,
                ..
            } && through == d.through && summary == d.summary && from == d.from)
        }),
{
    let out = compaction::with(events, d);
    assert(events =~= out.take(events.len() as int));
}

/// A span of messages names every person's message in it, carries every summary on, and
/// lists every tool that was called, once.
pub proof fn law_a_span_of_messages_keeps_everything(through: u64, messages: Seq<MessageView>)
    ensures
        ({
            let s = compaction::span_from(through, messages);
            &&& s.through == through
            &&& s.prior == messages.filter_map(
                |m: MessageView|
                    if m.role is System {
                        Some(m.text)
                    } else {
                        None
                    },
            )
            &&& s.prompts == messages.filter_map(
                |m: MessageView|
                    if m.role is User && !m.synthetic {
                        Some(span::one_line(m.text, 200))
                    } else {
                        None
                    },
            )
            &&& order::increasing(s.tools)
            &&& forall|i: int, j: int|
                0 <= i < messages.len() && 0 <= j < messages[i].tool_calls.len()
                    ==> s.tools.contains((#[trigger] messages[i].tool_calls[j]).name)
        }),
{
    lemma_span_of(through, messages);
    let raw = compaction::span_of(through, messages);
    order::law_catalogued(raw.tools);
    assert forall|i: int, j: int|
        0 <= i < messages.len() && 0 <= j < messages[i].tool_calls.len() implies order::catalogued(
        raw.tools,
    ).contains((#[trigger] messages[i].tool_calls[j]).name) by {
        lemma_span_tools(through, messages, i, j);
    }
}

proof fn lemma_span_of(through: u64, messages: Seq<MessageView>)
    ensures
        ({
            let s = compaction::span_of(through, messages);
            &&& s.through == through
            &&& s.prior == messages.filter_map(
                |m: MessageView|
                    if m.role is System {
                        Some(m.text)
                    } else {
                        None
                    },
            )
            &&& s.prompts == messages.filter_map(
                |m: MessageView|
                    if m.role is User && !m.synthetic {
                        Some(span::one_line(m.text, 200))
                    } else {
                        None
                    },
            )
        }),
    decreases messages.len(),
{
    let told = |m: MessageView|
        if m.role is System {
            Some(m.text)
        } else {
            None
        };
    let asked = |m: MessageView|
        if m.role is User && !m.synthetic {
            Some(span::one_line(m.text, 200))
        } else {
            None
        };
    let s = compaction::span_of(through, messages);
    if messages.len() > 0 {
        lemma_span_of(through, messages.drop_last());
    }
    assert(s.prior =~= messages.filter_map(told));
    assert(s.prompts =~= messages.filter_map(asked));
}

proof fn lemma_span_tools(through: u64, messages: Seq<MessageView>, i: int, j: int)
    requires
        0 <= i < messages.len(),
        0 <= j < messages[i].tool_calls.len(),
    ensures
        compaction::span_of(through, messages).tools.contains(messages[i].tool_calls[j].name),
    decreases messages.len(),
{
    let front = messages.drop_last();
    let before = compaction::span_of(through, front).tools;
    let now = compaction::span_of(through, messages).tools;
    let names = span::names_of(messages.last().tool_calls);
    let name = messages[i].tool_calls[j].name;
    assert(now == before + names);
    if i < front.len() {
        assert(front[i] == messages[i]);
        lemma_span_tools(through, front, i, j);
        let k = choose|k: int| 0 <= k < before.len() && before[k] == name;
        assert(now[k] == name);
    } else {
        assert(names[j] == name);
        assert(now[before.len() + j] == name);
    }
}

/// A plan is decided on as it was made: its own summary where it has one, else one that
/// lists what is taken out; its fold only where there is something to take out and a cut
/// for it; and its note.
pub proof fn law_a_plan_is_decided_on_as_made(
    l: LayoutView,
    p: PlanView,
    from: u64,
    cut: Option<u64>,
)
    ensures
        ({
            let d = compaction::planned(l, p, from, cut);
            let (df, dt) = compaction::drained(l, p);
            &&& d.note == p.resume_note
            &&& cut is Some && df < dt ==> d.from == from && d.through == cut->0
            &&& cut is None || df == dt ==> d.from == 0 && d.through == 0 && d.summary.len() == 0
            &&& cut is Some && df < dt && p.summary is Some ==> d.summary == p.summary->0
            &&& cut is Some && df < dt && p.summary is None ==> d.summary == span::listed(
                compaction::span_from(cut->0, compaction::as_logged(l, df, dt)),
            )
        }),
{
    compaction::law_head_is_not_drained(l, p);
}

/// What a plan would show anew is shown anew unless it is in the head, or folded away, or
/// no event of its own.
pub proof fn law_what_stays_is_shown_anew(
    l: LayoutView,
    rewrites: Seq<(usize, Seq<char>)>,
    drain: (int, int),
    from: u64,
    through: u64,
    j: int,
)
    requires
        0 <= j < rewrites.len(),
        l.floor <= rewrites[j].0 < l.messages.len(),
        !(drain.0 <= rewrites[j].0 < drain.1),
        l.sources[rewrites[j].0 as int] matches Provenance::Event(seq) && !(from < seq <= through),
    ensures
        l.sources[rewrites[j].0 as int] matches Provenance::Event(seq) && exists|k: int|
            0 <= k < compaction::standing_rewrites(l, rewrites, drain, from, through).len() && (
            #[trigger] compaction::standing_rewrites(l, rewrites, drain, from, through)[k]).seq
                == seq && compaction::standing_rewrites(l, rewrites, drain, from, through)[k].text
                == rewrites[j].1,
    decreases rewrites.len(),
{
    let front = rewrites.drop_last();
    let before = compaction::standing_rewrites(l, front, drain, from, through);
    let now = compaction::standing_rewrites(l, rewrites, drain, from, through);
    let seq = l.sources[rewrites[j].0 as int]->Event_0;
    if j < front.len() {
        assert(front[j] == rewrites[j]);
        law_what_stays_is_shown_anew(l, front, drain, from, through, j);
        let k = choose|k: int|
            0 <= k < before.len() && (#[trigger] before[k]).seq == seq && before[k].text
                == rewrites[j].1;
        assert(now[k] == before[k]);
    } else {
        assert(now.last().seq == seq && now.last().text == rewrites[j].1);
        assert(now[now.len() - 1] == now.last());
    }
}

/// The size of a conversation counts everything that is sent, wherever it is cut in two.
pub proof fn law_everything_sent_is_counted(a: Seq<MessageView>, m: MessageView)
    ensures
        compaction::wire(a.push(m)) == compaction::wire(a) + compaction::message_bytes(m),
        compaction::message_bytes(m) >= text::bytes(m.text),
        m.reasoning matches Some(r) ==> compaction::message_bytes(m) >= text::bytes(m.text)
            + text::bytes(r),
        forall|i: int|
            0 <= i < m.tool_calls.len() ==> compaction::message_bytes(m) >= text::bytes(m.text)
                + text::bytes((#[trigger] m.tool_calls[i]).arguments) + text::bytes(
                m.tool_calls[i].name,
            ),
{
    assert(a.push(m).drop_last() =~= a);
    assert forall|i: int| 0 <= i < m.tool_calls.len() implies compaction::message_bytes(m)
        >= text::bytes(m.text) + text::bytes((#[trigger] m.tool_calls[i]).arguments) + text::bytes(
        m.tool_calls[i].name,
    ) by {
        lemma_call_bytes(m.tool_calls, i);
    }
}

proof fn lemma_call_bytes(calls: Seq<ToolCallView>, i: int)
    requires
        0 <= i < calls.len(),
    ensures
        compaction::call_bytes(calls) >= text::bytes(calls[i].arguments) + text::bytes(
            calls[i].name,
        ),
    decreases calls.len(),
{
    if i < calls.len() - 1 {
        lemma_call_bytes(calls.drop_last(), i);
    }
}

// ---- deciding -------------------------------------------------------------

/// A decision that would change nothing is none; any other is weighed against the log as it
/// is, and lands exactly where it makes what is sent smaller.
pub proof fn law_a_decision_lands_where_it_shrinks(
    d: DecidingView,
    decision: CompactionDecisionView,
    as_is: Seq<MessageView>,
    folded: Seq<MessageView>,
)
    requires
        compaction::wire(as_is) <= usize::MAX,
    ensures
        decision.through == 0 && decision.rewrites.len() == 0 ==> strategy::weighed(
            d.events,
            decision,
        ).1 == DecideStepView::Done(None),
        decision.through != 0 || decision.rewrites.len() > 0 ==> ({
            let (stage, step) = strategy::weighed(d.events, decision);
            let first = strategy::advanced(DecidingView { stage, ..d }, as_is);
            let second = strategy::advanced(DecidingView { stage: first.0, ..d }, folded);
            &&& step == DecideStepView::Project(d.events)
            &&& first.1 == DecideStepView::Project(compaction::with(d.events, decision))
            &&& second.0 is Done
            &&& second.1 == DecideStepView::Done(
                if compaction::wire(folded) < compaction::wire(as_is) {
                    Some(decision)
                } else {
                    None
                },
            )
        }),
{
}

/// Where there is something to take out, a cut is tried on the log before it is decided on;
/// where there is nothing, only what is shown anew is decided on.
pub proof fn law_a_cut_is_tried_first(
    l: LayoutView,
    events: Seq<LoggedEventView>,
    p: PlanView,
)
    ensures
        ({
            let (df, dt) = compaction::drained(l, p);
            let (from, through) = compaction::reach(l, df, dt, compaction::last_seq(events));
            let (stage, step) = strategy::begun(l, events, p);
            &&& df < dt && from < through ==> stage == (StageView::Cutting { from, through })
                && step == DecideStepView::Project(
                compaction::with(events, strategy::trial(from, through)),
            )
            &&& df == dt || through <= from ==> (stage matches StageView::Weighing { decision, .. }
                ==> decision.through == 0)
            &&& strategy::trial(from, through).through == through && strategy::trial(
                from,
                through,
            ).from == from
        }),
{
    compaction::law_head_is_not_drained(l, p);
}

/// A cut that leaves no result without its call is decided on; one that does is tried again
/// further up, until there is nothing left to cut.
pub proof fn law_a_cut_is_moved_until_it_fits(
    d: DecidingView,
    from: u64,
    through: u64,
    seen: Seq<MessageView>,
)
    requires
        d.stage == (StageView::Cutting { from, through }),
        from < through,
    ensures
        ({
            let (df, dt) = compaction::drained(d.layout, d.plan);
            let (stage, step) = strategy::advanced(d, seen);
            match compaction::cut(d.events, from, through, seen) {
                CutStep::Keep(t) => df < dt && t > 0 ==> (
                stage matches StageView::Weighing { decision, before: None } && decision.through
                    == t && decision.from == from),
                CutStep::Again(t) => from < t ==> stage == (StageView::Cutting {
                    from,
                    through: t,
                }),
                CutStep::Nowhere => stage matches StageView::Weighing { decision, .. }
                    ==> decision.through == 0,
            }
        }),
{
}

} // verus!
