//! What a driver is shown is what the log holds: each kind of fact comes out as its own
//! kind of event, whole and in order, and nothing comes out that no fact stands behind.
use crate::events::{
    InjectionOriginView, NoticeKind, SessionEventView, StopReason, ToolCallView, ToolResultView,
};
use crate::projection;
use crate::projection::ProjectorView;
use crate::protocol::{AgentEventView, ContextSourceView, SteeredInputView};
use crate::text;
use vstd::prelude::*;

verus! {

// ---- logs and their events ------------------------------------------------

proof fn lemma_filter_map_adds<A, B>(a: Seq<A>, b: Seq<A>, f: spec_fn(A) -> Option<B>)
    ensures
        (a + b).filter_map(f) == a.filter_map(f) + b.filter_map(f),
    decreases b.len(),
{
    let all = a + b;
    if b.len() == 0 {
        assert(all =~= a);
        assert(b.filter_map(f) =~= Seq::<B>::empty());
        assert(all.filter_map(f) =~= a.filter_map(f) + b.filter_map(f));
    } else {
        lemma_filter_map_adds(a, b.drop_last(), f);
        assert(all.drop_last() =~= a + b.drop_last());
        assert(all.last() == b.last());
        assert(all.filter_map(f) =~= a.filter_map(f) + b.filter_map(f));
    }
}

/// What a fact is shown as, of the events that `pick` looks at, is what `from` takes of
/// the fact.
pub open spec fn matches_up<T>(
    pick: spec_fn(AgentEventView) -> Option<T>,
    from: spec_fn(SessionEventView) -> Option<T>,
) -> bool {
    forall|p: ProjectorView, e: SessionEventView|
        (#[trigger] projection::told(p, e, Seq::empty(), 0)).events.filter_map(pick) == seq![
            e,
        ].filter_map(from)
}

/// What holds of each fact holds of a log.
proof fn lemma_replayed<T>(
    p: ProjectorView,
    log: Seq<SessionEventView>,
    pick: spec_fn(AgentEventView) -> Option<T>,
    from: spec_fn(SessionEventView) -> Option<T>,
)
    requires
        matches_up(pick, from),
    ensures
        projection::told_all(p, log).events.filter_map(pick) == log.filter_map(from),
    decreases log.len(),
{
    if log.len() == 0 {
        assert(projection::told_all(p, log).events.filter_map(pick) =~= Seq::<T>::empty());
        assert(log.filter_map(from) =~= Seq::<T>::empty());
    } else {
        let front = log.drop_last();
        let before = projection::told_all(p, front);
        let last = projection::told(before.fold, log.last(), Seq::empty(), 0);
        lemma_replayed(p, front, pick, from);
        lemma_filter_map_adds(before.events, last.events, pick);
        lemma_filter_map_adds(front, seq![log.last()], from);
        assert(front + seq![log.last()] =~= log);
    }
}

proof fn lemma_none<A, B>(f: spec_fn(A) -> Option<B>)
    ensures
        Seq::<A>::empty().filter_map(f) == Seq::<B>::empty(),
{
}

proof fn lemma_one<A, B>(x: A, f: spec_fn(A) -> Option<B>)
    ensures
        seq![x].filter_map(f) == (match f(x) {
            Some(y) => seq![y],
            None => Seq::<B>::empty(),
        }),
{
    let one = seq![x];
    assert(one.drop_last() =~= Seq::<A>::empty());
    lemma_none(f);
    assert(one.filter_map(f) =~= (match f(x) {
        Some(y) => seq![y],
        None => Seq::<B>::empty(),
    }));
}

proof fn lemma_short<A, B>(s: Seq<A>, f: spec_fn(A) -> Option<B>)
    requires
        s.len() <= 3,
    ensures
        s.filter_map(f) == (if s.len() == 0 {
            Seq::<B>::empty()
        } else if s.len() == 1 {
            seq![s[0]].filter_map(f)
        } else if s.len() == 2 {
            seq![s[0]].filter_map(f) + seq![s[1]].filter_map(f)
        } else {
            seq![s[0]].filter_map(f) + seq![s[1]].filter_map(f) + seq![s[2]].filter_map(f)
        }),
{
    if s.len() == 1 {
        assert(s =~= seq![s[0]]);
    } else if s.len() == 2 {
        assert(s =~= seq![s[0]] + seq![s[1]]);
        lemma_filter_map_adds(seq![s[0]], seq![s[1]], f);
    } else if s.len() == 3 {
        assert(s =~= seq![s[0]] + seq![s[1]] + seq![s[2]]);
        lemma_filter_map_adds(seq![s[0]] + seq![s[1]], seq![s[2]], f);
        lemma_filter_map_adds(seq![s[0]], seq![s[1]], f);
    } else {
        assert(s =~= Seq::<A>::empty());
        lemma_none(f);
    }
}

/// The few events of one fact, taken one by one.
proof fn lemma_told<T>(
    p: ProjectorView,
    e: SessionEventView,
    pick: spec_fn(AgentEventView) -> Option<T>,
    from: spec_fn(SessionEventView) -> Option<T>,
)
    ensures
        ({
            let out = projection::told(p, e, Seq::empty(), 0).events;
            &&& out.len() <= 3
            &&& out.filter_map(pick) == (if out.len() == 0 {
                Seq::<T>::empty()
            } else if out.len() == 1 {
                taken(pick(out[0]))
            } else if out.len() == 2 {
                taken(pick(out[0])) + taken(pick(out[1]))
            } else {
                taken(pick(out[0])) + taken(pick(out[1])) + taken(pick(out[2]))
            })
            &&& seq![e].filter_map(from) == taken(from(e))
        }),
{
    let out = projection::told(p, e, Seq::empty(), 0).events;
    lemma_short(out, pick);
    if out.len() > 0 {
        lemma_one(out[0], pick);
    }
    if out.len() > 1 {
        lemma_one(out[1], pick);
    }
    if out.len() > 2 {
        lemma_one(out[2], pick);
    }
    lemma_one(e, from);
}

pub open spec fn taken<T>(x: Option<T>) -> Seq<T> {
    match x {
        Some(y) => seq![y],
        None => Seq::empty(),
    }
}

// ---- what the model did ---------------------------------------------------

/// The results a driver is shown are the results in the log, whole and in order.
pub proof fn law_results_are_shown(p: ProjectorView, log: Seq<SessionEventView>)
    ensures
        projection::told_all(p, log).events.filter_map(
            |a: AgentEventView|
                match a {
                    AgentEventView::ToolResult { result } => Some(result),
                    _ => None,
                },
        ) == log.filter_map(
            |e: SessionEventView|
                match e {
                    SessionEventView::ToolResultLogged {
                        call_id,
                        content,
                        is_error,
                        images,
                        ..
                    } => Some(ToolResultView { call_id, content, is_error, images }),
                    _ => None,
                },
        ),
{
    let pick = |a: AgentEventView|
        match a {
            AgentEventView::ToolResult { result } => Some(result),
            _ => None,
        };
    let from = |e: SessionEventView|
        match e {
            SessionEventView::ToolResultLogged { call_id, content, is_error, images, .. } => Some(
                ToolResultView { call_id, content, is_error, images },
            ),
            _ => None,
        };
    assert forall|q: ProjectorView, e: SessionEventView|
        (#[trigger] projection::told(q, e, Seq::empty(), 0)).events.filter_map(pick) == seq![
            e,
        ].filter_map(from) by {
        lemma_told(q, e, pick, from);
    }
    lemma_replayed(p, log, pick, from);
}

/// The calls a driver is shown as started are the ones the log says started: not the
/// ones that were only asked for.
pub proof fn law_started_calls_are_shown(p: ProjectorView, log: Seq<SessionEventView>)
    ensures
        projection::told_all(p, log).events.filter_map(
            |a: AgentEventView|
                match a {
                    AgentEventView::ToolStarted { call } => Some(call),
                    _ => None,
                },
        ) == log.filter_map(
            |e: SessionEventView|
                match e {
                    SessionEventView::ToolStarted { call, .. } => Some(call),
                    _ => None,
                },
        ),
{
    let pick = |a: AgentEventView|
        match a {
            AgentEventView::ToolStarted { call } => Some(call),
            _ => None,
        };
    let from = |e: SessionEventView|
        match e {
            SessionEventView::ToolStarted { call, .. } => Some(call),
            _ => None,
        };
    assert forall|q: ProjectorView, e: SessionEventView|
        (#[trigger] projection::told(q, e, Seq::empty(), 0)).events.filter_map(pick) == seq![
            e,
        ].filter_map(from) by {
        lemma_told(q, e, pick, from);
    }
    lemma_replayed(p, log, pick, from);
}

// ---- what the model said --------------------------------------------------

/// A round that answers a nudge of the harness: nothing was brought in since, and the
/// round has not ended.
pub open spec fn in_a_nudge(log: Seq<SessionEventView>) -> bool {
    exists|i: int|
        {
            &&& 0 <= i < log.len()
            &&& is_nudge(#[trigger] log[i])
            &&& forall|j: int|
                i < j < log.len() ==> !(#[trigger] log[j] is Injected) && !(log[j] is StepEnd)
        }
}

pub open spec fn is_nudge(e: SessionEventView) -> bool {
    e matches SessionEventView::Injected { origin, .. } && origin is InternalNudge
}

proof fn lemma_in_a_nudge(log: Seq<SessionEventView>, ctx_window: u32)
    ensures
        projection::told_all(projection::fresh(ctx_window), log).fold.answering_a_nudge
            == in_a_nudge(log),
    decreases log.len(),
{
    if log.len() > 0 {
        let front = log.drop_last();
        let k = log.len() - 1;
        lemma_in_a_nudge(front, ctx_window);
        let e = log[k];
        if e is Injected {
            if in_a_nudge(log) {
                let i = choose|i: int|
                    {
                        &&& 0 <= i < log.len()
                        &&& is_nudge(#[trigger] log[i])
                        &&& forall|j: int|
                            i < j < log.len() ==> !(#[trigger] log[j] is Injected) && !(
                            log[j] is StepEnd)
                    };
                assert(i == k);
            }
            if is_nudge(e) {
                assert(is_nudge(log[k]));
            }
        } else {
            if in_a_nudge(log) {
                let i = choose|i: int|
                    {
                        &&& 0 <= i < log.len()
                        &&& is_nudge(#[trigger] log[i])
                        &&& forall|j: int|
                            i < j < log.len() ==> !(#[trigger] log[j] is Injected) && !(
                            log[j] is StepEnd)
                    };
                assert(i < k);
                assert(!(log[k] is StepEnd));
                assert(front[i] == log[i]);
                assert forall|j: int| i < j < front.len() implies !(
                #[trigger] front[j] is Injected) && !(front[j] is StepEnd) by {
                    assert(front[j] == log[j]);
                }
            }
            if in_a_nudge(front) && !(e is StepEnd) {
                let i = choose|i: int|
                    {
                        &&& 0 <= i < front.len()
                        &&& is_nudge(#[trigger] front[i])
                        &&& forall|j: int|
                            i < j < front.len() ==> !(#[trigger] front[j] is Injected) && !(
                            front[j] is StepEnd)
                    };
                assert(log[i] == front[i]);
                assert forall|j: int| i < j < log.len() implies !(
                #[trigger] log[j] is Injected) && !(log[j] is StepEnd) by {
                    if j < k {
                        assert(log[j] == front[j]);
                    }
                }
            }
        }
    }
}

/// What the model wrote in a log, to be read as its answer or as its reasoning, leaving
/// out what it wrote in answer to a nudge.
pub open spec fn written(log: Seq<SessionEventView>, thinking: bool) -> Seq<Seq<char>>
    decreases log.len(),
{
    if log.len() == 0 {
        Seq::empty()
    } else {
        let before = written(log.drop_last(), thinking);
        match log.last() {
            SessionEventView::AssistantChunk { delta, reasoning, .. } => if reasoning == thinking
                && !in_a_nudge(log.drop_last()) {
                before.push(delta)
            } else {
                before
            },
            _ => before,
        }
    }
}

pub open spec fn as_answer(a: AgentEventView) -> Option<Seq<char>> {
    match a {
        AgentEventView::TextDelta(t) => Some(t),
        _ => None,
    }
}

pub open spec fn as_reasoning(a: AgentEventView) -> Option<Seq<char>> {
    match a {
        AgentEventView::Reasoning(t) => Some(t),
        _ => None,
    }
}

/// What a fact adds to the answer, or to the reasoning, that is shown.
pub open spec fn adds(e: SessionEventView, silent: bool, thinking: bool) -> Seq<Seq<char>> {
    match e {
        SessionEventView::AssistantChunk { delta, reasoning, .. } => if reasoning == thinking
            && !silent {
            seq![delta]
        } else {
            Seq::empty()
        },
        _ => Seq::empty(),
    }
}

proof fn lemma_answer_added(p: ProjectorView, e: SessionEventView)
    ensures
        projection::told(p, e, Seq::empty(), 0).events.filter_map(
            |a: AgentEventView| as_answer(a),
        ) == adds(e, p.answering_a_nudge, false),
{
    let pick = |a: AgentEventView| as_answer(a);
    lemma_told(p, e, pick, |x: SessionEventView| None::<Seq<char>>);
    assert(projection::told(p, e, Seq::empty(), 0).events.filter_map(pick) =~= adds(
        e,
        p.answering_a_nudge,
        false,
    ));
}

proof fn lemma_thought_added(p: ProjectorView, e: SessionEventView)
    ensures
        projection::told(p, e, Seq::empty(), 0).events.filter_map(
            |a: AgentEventView| as_reasoning(a),
        ) == adds(e, p.answering_a_nudge, true),
{
    let pick = |a: AgentEventView| as_reasoning(a);
    lemma_told(p, e, pick, |x: SessionEventView| None::<Seq<char>>);
    assert(projection::told(p, e, Seq::empty(), 0).events.filter_map(pick) =~= adds(
        e,
        p.answering_a_nudge,
        true,
    ));
}

proof fn lemma_written(log: Seq<SessionEventView>, thinking: bool)
    requires
        log.len() > 0,
    ensures
        written(log, thinking) == written(log.drop_last(), thinking) + adds(
            log.last(),
            in_a_nudge(log.drop_last()),
            thinking,
        ),
{
    assert(written(log, thinking) =~= written(log.drop_last(), thinking) + adds(
        log.last(),
        in_a_nudge(log.drop_last()),
        thinking,
    ));
}

/// The answer a driver shows is what the model answered, and the reasoning it shows is
/// what the model reasoned: every piece, in order, neither taken for the other. What it
/// says to a nudge nobody sent is not shown.
pub proof fn law_words_are_shown_as_what_they_are(log: Seq<SessionEventView>, ctx_window: u32)
    ensures
        ({
            let out = projection::told_all(projection::fresh(ctx_window), log).events;
            &&& out.filter_map(|a: AgentEventView| as_answer(a)) == written(log, false)
            &&& out.filter_map(|a: AgentEventView| as_reasoning(a)) == written(log, true)
        }),
    decreases log.len(),
{
    let answer = |a: AgentEventView| as_answer(a);
    let thought = |a: AgentEventView| as_reasoning(a);
    let p = projection::fresh(ctx_window);
    if log.len() == 0 {
        lemma_none(answer);
        lemma_none(thought);
    } else {
        let front = log.drop_last();
        let before = projection::told_all(p, front);
        let last = projection::told(before.fold, log.last(), Seq::empty(), 0);
        law_words_are_shown_as_what_they_are(front, ctx_window);
        lemma_in_a_nudge(front, ctx_window);
        lemma_filter_map_adds(before.events, last.events, answer);
        lemma_filter_map_adds(before.events, last.events, thought);
        lemma_answer_added(before.fold, log.last());
        lemma_thought_added(before.fold, log.last());
        lemma_written(log, false);
        lemma_written(log, true);
    }
}

/// Where no nudge is being answered, a piece of reasoning is shown as reasoning and a
/// piece of an answer as an answer, once and whole.
pub proof fn law_a_chunk_is_shown_once(
    p: ProjectorView,
    turn: u64,
    round: u32,
    delta: Seq<char>,
    reasoning: bool,
    safe: Seq<bool>,
    now_ms: u64,
)
    requires
        !p.answering_a_nudge,
    ensures
        ({
            let t = projection::told(
                p,
                (SessionEventView::AssistantChunk { turn, round, delta, reasoning }),
                safe,
                now_ms,
            );
            &&& t.fold == p
            &&& t.events.len() == 1
            &&& reasoning ==> as_reasoning(t.events[0]) == Some(delta)
            &&& !reasoning ==> as_answer(t.events[0]) == Some(delta)
        }),
{
}

// ---- turns ----------------------------------------------------------------

/// A driver hears of every turn that began.
#[verifier::spinoff_prover]
pub proof fn law_turns_begin_in_sight(p: ProjectorView, log: Seq<SessionEventView>)
    ensures
        projection::told_all(p, log).events.filter_map(
            |a: AgentEventView|
                match a {
                    AgentEventView::TurnStarted { turn } => turn,
                    _ => None,
                },
        ) == log.filter_map(
            |e: SessionEventView|
                match e {
                    SessionEventView::TurnStart { turn } => Some(turn),
                    _ => None,
                },
        ),
{
    let pick = |a: AgentEventView|
        match a {
            AgentEventView::TurnStarted { turn } => turn,
            _ => None,
        };
    let from = |e: SessionEventView|
        match e {
            SessionEventView::TurnStart { turn } => Some(turn),
            _ => None,
        };
    assert forall|q: ProjectorView, e: SessionEventView|
        (#[trigger] projection::told(q, e, Seq::empty(), 0)).events.filter_map(pick) == seq![
            e,
        ].filter_map(from) by {
        lemma_told(q, e, pick, from);
        assert(projection::told(q, e, Seq::empty(), 0).events.filter_map(pick) =~= taken(
            from(e),
        ));
    }
    lemma_replayed(p, log, pick, from);
}

/// A driver hears of every turn that ended, which it was and why.
#[verifier::spinoff_prover]
pub proof fn law_turns_end_in_sight(p: ProjectorView, log: Seq<SessionEventView>)
    ensures
        projection::told_all(p, log).events.filter_map(
            |a: AgentEventView|
                match a {
                    AgentEventView::TurnComplete { turn, reason } => Some((turn, reason)),
                    _ => None,
                },
        ) == log.filter_map(
            |e: SessionEventView|
                match e {
                    SessionEventView::TurnEnd { turn, stop, .. } => Some((Some(turn), stop)),
                    _ => None,
                },
        ),
{
    let pick = |a: AgentEventView|
        match a {
            AgentEventView::TurnComplete { turn, reason } => Some((turn, reason)),
            _ => None,
        };
    let from = |e: SessionEventView|
        match e {
            SessionEventView::TurnEnd { turn, stop, .. } => Some((Some(turn), stop)),
            _ => None,
        };
    assert forall|q: ProjectorView, e: SessionEventView|
        (#[trigger] projection::told(q, e, Seq::empty(), 0)).events.filter_map(pick) == seq![
            e,
        ].filter_map(from) by {
        lemma_told(q, e, pick, from);
        assert(projection::told(q, e, Seq::empty(), 0).events.filter_map(pick) =~= taken(
            from(e),
        ));
    }
    lemma_replayed(p, log, pick, from);
}

/// A driver hears the error of every turn that failed, and no other.
#[verifier::spinoff_prover]
pub proof fn law_errors_are_shown(p: ProjectorView, log: Seq<SessionEventView>)
    ensures
        projection::told_all(p, log).events.filter_map(
            |a: AgentEventView|
                match a {
                    AgentEventView::Error { message, .. } => Some(message),
                    _ => None,
                },
        ) == log.filter_map(
            |e: SessionEventView|
                match e {
                    SessionEventView::TurnEnd { error, .. } => error,
                    _ => None,
                },
        ),
{
    let pick = |a: AgentEventView|
        match a {
            AgentEventView::Error { message, .. } => Some(message),
            _ => None,
        };
    let from = |e: SessionEventView|
        match e {
            SessionEventView::TurnEnd { error, .. } => error,
            _ => None,
        };
    assert forall|q: ProjectorView, e: SessionEventView|
        (#[trigger] projection::told(q, e, Seq::empty(), 0)).events.filter_map(pick) == seq![
            e,
        ].filter_map(from) by {
        lemma_told(q, e, pick, from);
        assert(projection::told(q, e, Seq::empty(), 0).events.filter_map(pick) =~= taken(
            from(e),
        ));
    }
    lemma_replayed(p, log, pick, from);
}

/// A driver hears that a turn was cancelled exactly where it was.
#[verifier::spinoff_prover]
pub proof fn law_cancelling_is_shown(p: ProjectorView, log: Seq<SessionEventView>)
    ensures
        projection::told_all(p, log).events.filter_map(
            |a: AgentEventView|
                match a {
                    AgentEventView::Cancelled => Some(()),
                    _ => None,
                },
        ) == log.filter_map(
            |e: SessionEventView|
                match e {
                    SessionEventView::TurnEnd { stop: StopReason::Cancelled, .. } => Some(()),
                    _ => None,
                },
        ),
{
    let pick = |a: AgentEventView|
        match a {
            AgentEventView::Cancelled => Some(()),
            _ => None,
        };
    let from = |e: SessionEventView|
        match e {
            SessionEventView::TurnEnd { stop: StopReason::Cancelled, .. } => Some(()),
            _ => None,
        };
    assert forall|q: ProjectorView, e: SessionEventView|
        (#[trigger] projection::told(q, e, Seq::empty(), 0)).events.filter_map(pick) == seq![
            e,
        ].filter_map(from) by {
        lemma_told(q, e, pick, from);
        assert(projection::told(q, e, Seq::empty(), 0).events.filter_map(pick) =~= taken(
            from(e),
        ));
    }
    lemma_replayed(p, log, pick, from);
}

/// A turn's end is the last a driver hears of it.
pub proof fn law_the_end_comes_last(
    p: ProjectorView,
    turn: u64,
    stop: StopReason,
    error: Option<Seq<char>>,
    safe: Seq<bool>,
    now_ms: u64,
)
    ensures
        ({
            let out = projection::told(
                p,
                (SessionEventView::TurnEnd { turn, stop, error }),
                safe,
                now_ms,
            ).events;
            &&& out.len() > 0
            &&& out.last() == (AgentEventView::TurnComplete { turn: Some(turn), reason: stop })
        }),
{
}

// ---- what came in ---------------------------------------------------------

/// Where context comes from is said as it is; a nudge of the harness passes for a
/// continuation.
pub open spec fn source_of(origin: InjectionOriginView) -> ContextSourceView {
    match origin {
        InjectionOriginView::Peer { from } => ContextSourceView::Peer { from },
        InjectionOriginView::Memory => ContextSourceView::Memory,
        InjectionOriginView::Reminder => ContextSourceView::Reminder,
        InjectionOriginView::CompactionSummary => ContextSourceView::CompactionSummary,
        InjectionOriginView::TeamNote { member } => ContextSourceView::TeamNote { member },
        InjectionOriginView::PersonToMember { member } => ContextSourceView::PersonToMember {
            member,
        },
        InjectionOriginView::Continuation | InjectionOriginView::InternalNudge =>
            ContextSourceView::Continuation,
    }
}

/// Everything brought into a session is shown as it was brought, with where it is from.
pub proof fn law_context_is_shown(p: ProjectorView, log: Seq<SessionEventView>)
    ensures
        projection::told_all(p, log).events.filter_map(
            |a: AgentEventView|
                match a {
                    AgentEventView::ContextAdded { text, source } => Some((text, source)),
                    _ => None,
                },
        ) == log.filter_map(
            |e: SessionEventView|
                match e {
                    SessionEventView::Injected { text, origin, .. } => Some(
                        (text, source_of(origin)),
                    ),
                    _ => None,
                },
        ),
{
    let pick = |a: AgentEventView|
        match a {
            AgentEventView::ContextAdded { text, source } => Some((text, source)),
            _ => None,
        };
    let from = |e: SessionEventView|
        match e {
            SessionEventView::Injected { text, origin, .. } => Some((text, source_of(origin))),
            _ => None,
        };
    assert forall|q: ProjectorView, e: SessionEventView|
        (#[trigger] projection::told(q, e, Seq::empty(), 0)).events.filter_map(pick) == seq![
            e,
        ].filter_map(from) by {
        lemma_told(q, e, pick, from);
    }
    lemma_replayed(p, log, pick, from);
}

/// The first thing a person says in a turn opens it and is not shown again; each thing
/// said after it is shown as steering, word for word.
pub proof fn law_later_words_steer(
    p: ProjectorView,
    turn: u64,
    first: SessionEventView,
    said: Seq<char>,
    images: Seq<Seq<char>>,
    between: Seq<SessionEventView>,
)
    requires
        first is UserMessage,
        forall|i: int| 0 <= i < between.len() ==> !(#[trigger] between[i] is TurnStart),
    ensures
        ({
            let opened = projection::told(
                p,
                (SessionEventView::TurnStart { turn }),
                Seq::empty(),
                0,
            ).fold;
            let one = projection::told(opened, first, Seq::empty(), 0);
            let meanwhile = projection::told_all(one.fold, between).fold;
            let two = projection::told(
                meanwhile,
                (SessionEventView::UserMessage { turn, text: said, images }),
                Seq::empty(),
                0,
            );
            &&& one.events.len() == 0
            &&& two.events == seq![
                AgentEventView::Steered {
                    turn: Some(turn),
                    count: 1,
                    inputs: seq![SteeredInputView { text: said, images }],
                },
            ]
        }),
{
    let opened = projection::told(
        p,
        (SessionEventView::TurnStart { turn }),
        Seq::empty(),
        0,
    ).fold;
    let one = projection::told(opened, first, Seq::empty(), 0);
    lemma_still_said(one.fold, between);
}

proof fn lemma_still_said(p: ProjectorView, between: Seq<SessionEventView>)
    requires
        p.said_this_turn,
        forall|i: int| 0 <= i < between.len() ==> !(#[trigger] between[i] is TurnStart),
    ensures
        projection::told_all(p, between).fold.said_this_turn,
    decreases between.len(),
{
    if between.len() > 0 {
        let front = between.drop_last();
        assert forall|i: int| 0 <= i < front.len() implies !(#[trigger] front[i] is TurnStart) by {
            assert(front[i] == between[i]);
        }
        lemma_still_said(p, front);
        assert(!(between[between.len() - 1] is TurnStart));
    }
}

// ---- batches --------------------------------------------------------------

/// How many of these results are not errors.
pub open spec fn good(results: Seq<SessionEventView>) -> nat
    decreases results.len(),
{
    if results.len() == 0 {
        0
    } else {
        good(results.drop_last()) + (match results.last() {
            SessionEventView::ToolResultLogged { is_error, .. } => if is_error {
                0nat
            } else {
                1nat
            },
            _ => 0nat,
        })
    }
}

/// Several calls at once are announced together, each as it was made, and closed with
/// how many there were and how many of them went well.
pub proof fn law_a_batch_is_counted(
    p: ProjectorView,
    answer: SessionEventView,
    turn: u64,
    round: u32,
    calls: Seq<ToolCallView>,
    results: Seq<SessionEventView>,
    end: SessionEventView,
)
    requires
        answer matches SessionEventView::AssistantMessage {
            turn: t,
            round: r,
            tool_calls,
            ..
        } && t == turn && r == round && tool_calls == calls,
        2 <= calls.len() <= usize::MAX,
        results.len() <= calls.len(),
        forall|i: int| 0 <= i < results.len() ==> #[trigger] results[i] is ToolResultLogged,
        end is StepEnd,
    ensures
        ({
            let a = projection::told(p, answer, Seq::empty(), 0);
            let b = projection::told_all(a.fold, results);
            let c = projection::told(b.fold, end, Seq::empty(), 0);
            &&& a.events.len() > 0
            &&& a.events.last() matches AgentEventView::ToolBatchStarted {
                batch_id,
                calls: shown,
            } && {
                &&& shown.len() == calls.len()
                &&& forall|i: int|
                    0 <= i < calls.len() ==> (#[trigger] shown[i]).id == calls[i].id
                        && shown[i].name == calls[i].name && shown[i].arguments
                        == calls[i].arguments
                &&& c.events.len() == 1
                &&& c.events[0] matches AgentEventView::ToolBatchCompleted {
                    batch_id: closed,
                    ok,
                    total,
                    ..
                } && closed == batch_id && total == calls.len() && ok == good(results)
            }
        }),
{
    let a = projection::told(p, answer, Seq::empty(), 0);
    lemma_counting(a.fold, results);
}

proof fn lemma_counting(p: ProjectorView, results: Seq<SessionEventView>)
    requires
        p.batch is Some,
        p.batch->0.ok + results.len() <= usize::MAX,
        forall|i: int| 0 <= i < results.len() ==> #[trigger] results[i] is ToolResultLogged,
    ensures
        good(results) <= results.len(),
        projection::told_all(p, results).fold.batch matches Some(b) && b.id == p.batch->0.id
            && b.total == p.batch->0.total && b.ok == p.batch->0.ok + good(results),
    decreases results.len(),
{
    if results.len() > 0 {
        let front = results.drop_last();
        assert forall|i: int| 0 <= i < front.len() implies #[trigger] front[
            i
        ] is ToolResultLogged by {
            assert(front[i] == results[i]);
        }
        lemma_counting(p, front);
        assert(results[results.len() - 1] is ToolResultLogged);
    }
}

/// One call is not announced as a batch, and closes none.
pub proof fn law_one_call_is_no_batch(p: ProjectorView, answer: SessionEventView)
    requires
        answer matches SessionEventView::AssistantMessage { tool_calls, .. } && tool_calls.len()
            < 2,
    ensures
        ({
            let a = projection::told(p, answer, Seq::empty(), 0);
            &&& a.fold.batch == p.batch
            &&& forall|i: int|
                0 <= i < a.events.len() ==> !(#[trigger] a.events[i] is ToolBatchStarted)
        }),
{
}

// ---- counts and notices ---------------------------------------------------

/// Tokens are shown as they were counted, for the round they were counted in.
pub proof fn law_tokens_are_shown_as_counted(
    p: ProjectorView,
    turn: u64,
    round: u32,
    usage: crate::events::TokenUsage,
    safe: Seq<bool>,
    now_ms: u64,
)
    ensures
        ({
            let t = projection::told(
                p,
                (SessionEventView::Usage { turn, round, usage }),
                safe,
                now_ms,
            );
            &&& t.events.len() == 1
            &&& t.events[0] matches AgentEventView::Usage(m) && {
                &&& m.tokens == usage
                &&& m.used_tokens == usage.prompt
                &&& m.ctx_window == p.ctx_window
                &&& m.turn_id == turn && m.round == round
            }
            &&& t.fold.last_prompt_tokens == usage.prompt
        }),
{
}

/// A round whose tokens nobody counted is shown all the same, with the context as it was
/// last measured.
pub proof fn law_every_round_is_shown(p: ProjectorView, answer: SessionEventView)
    requires
        answer matches SessionEventView::AssistantMessage { turn, round, .. } && p.usage_round
            != Some((turn, round)),
    ensures
        ({
            let a = projection::told(p, answer, Seq::empty(), 0);
            &&& a.events.len() > 0
            &&& a.events[0] matches AgentEventView::Usage(m) && {
                &&& m.tokens.prompt == 0 && m.tokens.completion == 0 && m.tokens.cached == 0
                &&& m.used_tokens == p.last_prompt_tokens
                &&& answer matches SessionEventView::AssistantMessage { turn, round, .. }
                    && m.turn_id == turn && m.round == round
            }
        }),
{
}

/// What a person is to know is shown as the kind of thing it is, with what was said.
pub proof fn law_notices_are_shown(
    p: ProjectorView,
    turn: u64,
    notice: NoticeKind,
    detail: Seq<char>,
    safe: Seq<bool>,
    now_ms: u64,
)
    ensures
        ({
            let t = projection::told(
                p,
                (SessionEventView::Notice { turn, notice, detail }),
                safe,
                now_ms,
            );
            &&& t.fold == p
            &&& t.events.len() == 1
            &&& notice is RateLimited ==> (t.events[0] matches AgentEventView::RateLimited {
                auto_resuming,
                server_message,
                ..
            } && auto_resuming && server_message == Some(detail))
            &&& notice is ProviderRetry ==> t.events[0] == (AgentEventView::ProviderRetry {
                reason: detail,
            })
            &&& notice is StreamRecovered ==> t.events[0] == (AgentEventView::StreamRecovery {
                recovered: true,
            })
            &&& notice is OutputTruncated ==> t.events[0] is OutputTruncationRecovery
            &&& notice is OverflowCompacted || notice is OutputLeftCutOff ==> t.events[0]
                == AgentEventView::Warning(detail)
        }),
{
}

/// A pause the provider asked for is shown with when it ends, and as one that will not
/// end by itself.
pub proof fn law_a_pause_is_shown(p: ProjectorView, turn: u64, e: SessionEventView)
    requires
        e is RateLimitPaused,
    ensures
        ({
            let t = projection::told(p, e, Seq::empty(), 0);
            &&& t.events.len() == 1
            &&& e matches SessionEventView::RateLimitPaused { pause, .. } && t.events[0] == (
            AgentEventView::RateLimited {
                reset_at_display: pause.reset_at_display,
                reset_label: pause.reset_label,
                secs_until_reset: pause.secs_until_reset,
                auto_resuming: false,
                server_message: pause.server_message,
            })
        }),
{
}

/// A compaction is shown once: by whoever asked for it, or else as one that came about
/// by itself.
pub proof fn law_a_compaction_is_shown_once(p: ProjectorView, e: SessionEventView)
    requires
        e is Compacted,
    ensures
        ({
            let t = projection::told(p, e, Seq::empty(), 0);
            &&& t.fold == p
            &&& p.manual_compaction ==> t.events.len() == 0
            &&& !p.manual_compaction ==> t.events.len() == 1 && (
            t.events[0] matches AgentEventView::Compacted { trigger, committed, bytes_after, .. }
                && trigger is Auto && committed && (e matches SessionEventView::Compacted {
                summary,
                ..
            } ==> (text::bytes(summary) <= usize::MAX ==> bytes_after == text::bytes(summary))))
        }),
{
}

/// A batch is announced call by call, each with whether it may run beside the others, and
/// is over after the time that passed since.
pub proof fn law_a_batch_is_announced_and_timed(
    p: ProjectorView,
    turn: u64,
    round: u32,
    calls: Seq<ToolCallView>,
    safe: Seq<bool>,
    began: u64,
    ended: u64,
    k: int,
)
    requires
        2 <= calls.len() <= usize::MAX,
        safe.len() == calls.len(),
        began <= ended,
        0 <= k < calls.len(),
    ensures
        ({
            let a = projection::told_answer(p, turn, round, calls, safe, began);
            let b = projection::told_step_end(a.fold, ended);
            &&& a.events.last() matches AgentEventView::ToolBatchStarted {
                batch_id,
                calls: shown,
            } && {
                &&& shown.len() == calls.len()
                &&& shown[k].id == calls[k].id && shown[k].name == calls[k].name
                &&& shown[k].arguments == calls[k].arguments && shown[k].parallel_safe == safe[k]
                &&& b.events.len() == 1
                &&& b.events[0] matches AgentEventView::ToolBatchCompleted {
                    batch_id: id,
                    total,
                    elapsed_ms,
                    ..
                } && id == batch_id && total == calls.len() && elapsed_ms == ended - began
            }
            &&& projection::told_step_end(b.fold, ended).events.len() == 0
        }),
{
}

/// A turn that failed is said to have failed for its reason, which may or may not pass, and
/// nothing that is not there is shown.
pub proof fn law_a_turns_end_is_shown_whole(turn: u64, stop: StopReason, error: Option<Seq<char>>)
    ensures
        ({
            let out = projection::turn_end_events(turn, stop, error);
            &&& error matches Some(e) ==> out[0] == (AgentEventView::Error {
                message: e,
                retryable: None,
            })
            &&& out.last() == (AgentEventView::TurnComplete { turn: Some(turn), reason: stop })
            &&& out.len() == 1 + (if error is Some {
                1nat
            } else {
                0
            }) + (if stop is Cancelled {
                1nat
            } else {
                0
            })
        }),
{
}

} // verus!
