//! What holds of every turn, whatever the world reports.
use crate::agent_loop;
use crate::agent_loop::LoopRow;
use crate::events::{
    InjectionOriginView, LoggedEventView, SessionEventView, StopReason, ToolResultView,
};
use crate::log;
use crate::text;
use crate::turn::{
    ClaimView, HappenedView, InjectionView, MessageOrigin, ModelResponseView, ReplyStatsView,
    ReplyView, RequestErrorView, TurnStateView, WantedView,
};
use vstd::prelude::*;

verus! {

/// How many rounds a log says were begun.
pub open spec fn rounds_begun(log: Seq<SessionEventView>) -> nat
    decreases log.len(),
{
    if log.len() == 0 {
        0
    } else {
        rounds_begun(log.drop_last()) + if log.last() is StepStart {
            1nat
        } else {
            0nat
        }
    }
}

/// How many rounds a log says were ended.
pub open spec fn rounds_ended(log: Seq<SessionEventView>) -> nat
    decreases log.len(),
{
    if log.len() == 0 {
        0
    } else {
        rounds_ended(log.drop_last()) + if log.last() is StepEnd {
            1nat
        } else {
            0nat
        }
    }
}

pub proof fn lemma_rounds_add(a: Seq<SessionEventView>, b: Seq<SessionEventView>)
    ensures
        rounds_begun(a + b) == rounds_begun(a) + rounds_begun(b),
        rounds_ended(a + b) == rounds_ended(a) + rounds_ended(b),
    decreases b.len(),
{
    if b.len() == 0 {
        assert(a + b =~= a);
    } else {
        assert((a + b).drop_last() =~= a + b.drop_last());
        assert((a + b).last() == b.last());
        lemma_rounds_add(a, b.drop_last());
    }
}

proof fn lemma_no_rounds(b: Seq<SessionEventView>)
    requires
        forall|i: int| 0 <= i < b.len() ==> !(#[trigger] b[i] is StepStart),
    ensures
        rounds_begun(b) == 0,
    decreases b.len(),
{
    if b.len() > 0 {
        assert forall|i: int| 0 <= i < b.drop_last().len() implies !(
        #[trigger] b.drop_last()[i] is StepStart) by {
            assert(b.drop_last()[i] == b[i]);
        }
        lemma_no_rounds(b.drop_last());
        assert(!(b[b.len() - 1] is StepStart));
    }
}

/// The log of a turn, at any moment of it: it opens with the turn's start, every
/// fact in it belongs to the turn, it has as many round starts as the turn has
/// rounds, and it ends with the turn's end exactly when the turn is over.
pub open spec fn well_kept(s: TurnStateView, log: Seq<SessionEventView>) -> bool {
    &&& log.len() > 0
    &&& log[0] == (SessionEventView::TurnStart { turn: s.turn })
    &&& forall|i: int| 0 <= i < log.len() ==> log::fact_turn(#[trigger] log[i]) == s.turn
    &&& forall|i: int| 0 < i < log.len() ==> !(#[trigger] log[i] is TurnStart)
    &&& forall|i: int| 0 <= i < log.len() - 1 ==> !(#[trigger] log[i] is TurnEnd)
    &&& rounds_begun(log) == s.step
    &&& (s.phase is Over <==> log.last() is TurnEnd)
    &&& s.phase is Over ==> log.last() == (SessionEventView::TurnEnd {
        turn: s.turn,
        stop: s.stop,
        error: s.error,
    })
}

/// The facts of one move: they belong to the turn, none opens a turn, and only the
/// last move ends it.
proof fn lemma_move_facts(s: TurnStateView, row: LoopRow, e: HappenedView)
    requires
        agent_loop::within_fuse(s, row.max_rounds),
        agent_loop::countable(s, e),
    ensures
        ({
            let m = agent_loop::next_move(s, row, e);
            &&& forall|i: int|
                0 <= i < m.facts.len() ==> log::fact_turn(#[trigger] m.facts[i]) == s.turn
            &&& forall|i: int| 0 <= i < m.facts.len() ==> !(#[trigger] m.facts[i] is TurnStart)
            &&& m.state.turn == s.turn
            &&& rounds_begun(m.facts) == m.state.step - s.step
            &&& if m.state.phase is Over && !(s.phase is Over) {
                m.facts == seq![
                    SessionEventView::TurnEnd {
                        turn: s.turn,
                        stop: m.state.stop,
                        error: m.state.error,
                    },
                ]
            } else {
                forall|i: int| 0 <= i < m.facts.len() ==> !(#[trigger] m.facts[i] is TurnEnd)
            }
            &&& s.phase is Over ==> m.state == s && m.facts.len() == 0
        }),
{
    let m = agent_loop::next_move(s, row, e);
    if m.state.step == s.step {
        assert forall|i: int| 0 <= i < m.facts.len() implies !(
        #[trigger] m.facts[i] is StepStart) by {}
        lemma_no_rounds(m.facts);
    } else {
        let before = m.facts.drop_last();
        assert forall|i: int| 0 <= i < before.len() implies !(#[trigger] before[i] is StepStart) by {
            assert(before[i] == m.facts[i]);
        }
        lemma_no_rounds(before);
        assert(m.facts.last() is StepStart);
    }
}

/// A turn's log stays well kept, whatever is reported next.
pub proof fn law_turn_stays_well_kept(
    s: TurnStateView,
    log: Seq<SessionEventView>,
    row: LoopRow,
    e: HappenedView,
)
    requires
        well_kept(s, log),
        agent_loop::within_fuse(s, row.max_rounds),
        agent_loop::countable(s, e),
    ensures
        ({
            let m = agent_loop::next_move(s, row, e);
            well_kept(m.state, log + m.facts)
        }),
{
    let m = agent_loop::next_move(s, row, e);
    let after = log + m.facts;
    lemma_move_facts(s, row, e);
    lemma_rounds_add(log, m.facts);
    assert forall|i: int| 0 <= i < after.len() implies log::fact_turn(#[trigger] after[i])
        == s.turn by {
        if i >= log.len() {
            assert(after[i] == m.facts[i - log.len()]);
        } else {
            assert(after[i] == log[i]);
        }
    }
    assert forall|i: int| 0 < i < after.len() implies !(#[trigger] after[i] is TurnStart) by {
        if i >= log.len() {
            assert(after[i] == m.facts[i - log.len()]);
        } else {
            assert(after[i] == log[i]);
        }
    }
    if s.phase is Over {
        assert(after =~= log);
    } else {
        assert(!(log[log.len() - 1] is TurnEnd));
        assert forall|i: int| 0 <= i < after.len() - 1 implies !(
        #[trigger] after[i] is TurnEnd) by {
            if i >= log.len() {
                assert(after[i] == m.facts[i - log.len()]);
            } else {
                assert(after[i] == log[i]);
            }
        }
        if m.facts.len() > 0 {
            assert(after.last() == m.facts[m.facts.len() - 1]);
        } else {
            assert(after =~= log);
        }
    }
}

/// A turn that has just opened is well kept.
pub proof fn law_opening_is_well_kept(turn: u64)
    ensures
        well_kept(agent_loop::opened(turn), seq![SessionEventView::TurnStart { turn }]),
{
    let log = seq![SessionEventView::TurnStart { turn }];
    assert(log.drop_last() =~= Seq::<SessionEventView>::empty());
    assert(rounds_begun(log.drop_last()) == 0);
}

/// The driver's own fuse: at most `max_rounds` rounds, and the first one always.
pub open spec fn within_budget(s: TurnStateView, row: LoopRow) -> bool {
    &&& agent_loop::within_fuse(s, row.max_rounds)
    &&& s.step <= 1 || s.step <= row.max_rounds
}

/// No report makes a turn run past its fuse.
pub proof fn law_turn_stays_within_budget(s: TurnStateView, row: LoopRow, e: HappenedView)
    requires
        within_budget(s, row),
        agent_loop::countable(s, e),
    ensures
        within_budget(agent_loop::next_move(s, row, e).state, row),
{
}

/// The model reads this fact.
pub open spec fn model_visible(e: SessionEventView) -> bool {
    e is UserMessage || e is Injected || e is AssistantMessage || e is ToolResultLogged
}

/// Everything the model will see is in the log before the request is assembled:
/// the move that sends a request adds nothing to what the model sees.
pub proof fn law_request_adds_nothing_visible(s: TurnStateView, row: LoopRow, e: HappenedView)
    requires
        agent_loop::next_move(s, row, e).wanted is Request,
    ensures
        forall|i: int|
            0 <= i < agent_loop::next_move(s, row, e).facts.len() ==> !model_visible(
                #[trigger] agent_loop::next_move(s, row, e).facts[i],
            ),
{
}

/// Calls the model asked for always come to a log entry each before the turn looks
/// at whether to go on: the results are logged in the order they were asked for,
/// then the round ends.
pub proof fn law_results_are_logged_in_order(
    s: TurnStateView,
    row: LoopRow,
    results: Seq<crate::events::ToolResultView>,
    i: int,
)
    requires
        s.phase is Running,
        0 <= i < results.len(),
    ensures
        ({
            let m = agent_loop::next_move(s, row, (HappenedView::Ran { results }));
            &&& m.facts.len() == results.len() + 1
            &&& m.facts.last() is StepEnd
            &&& m.facts[i] matches SessionEventView::ToolResultLogged { call_id, content, .. }
                && call_id == results[i].call_id && content == results[i].content
        }),
{
}

/// A turn that has been reported `events`, from its opening on.
pub open spec fn run(turn: u64, row: LoopRow, events: Seq<HappenedView>) -> (
    TurnStateView,
    Seq<SessionEventView>,
)
    decreases events.len(),
{
    if events.len() == 0 {
        (agent_loop::opened(turn), seq![SessionEventView::TurnStart { turn }])
    } else {
        let (s, log) = run(turn, row, events.drop_last());
        let m = agent_loop::next_move(s, row, events.last());
        (m.state, log + m.facts)
    }
}

/// Every count along the way fits its counter.
pub open spec fn runs(turn: u64, row: LoopRow, events: Seq<HappenedView>) -> bool
    decreases events.len(),
{
    events.len() > 0 ==> {
        &&& runs(turn, row, events.drop_last())
        &&& agent_loop::countable(run(turn, row, events.drop_last()).0, events.last())
    }
}

/// Whatever the world reports, in whatever order: the log of the turn begins with
/// its one start, holds as many round starts as the turn had rounds, never more
/// than the fuse allows, and holds one end, its last entry, exactly when the turn
/// is over.
pub proof fn law_every_turn_is_well_kept(turn: u64, row: LoopRow, events: Seq<HappenedView>)
    requires
        runs(turn, row, events),
    ensures
        ({
            let (s, log) = run(turn, row, events);
            &&& well_kept(s, log)
            &&& within_budget(s, row)
        }),
    decreases events.len(),
{
    if events.len() == 0 {
        law_opening_is_well_kept(turn);
    } else {
        law_every_turn_is_well_kept(turn, row, events.drop_last());
        let (s, log) = run(turn, row, events.drop_last());
        law_turn_stays_well_kept(s, log, row, events.last());
        law_turn_stays_within_budget(s, row, events.last());
    }
}

/// A refused input ends the turn before any request: nothing was sent, and the turn
/// still closes, saying why.
pub proof fn law_refused_input_sends_nothing(
    s: TurnStateView,
    row: LoopRow,
    d: crate::turn::StepDecisionView,
    interrupted: bool,
)
    requires
        s.phase is Screening,
        d.rejected is Some,
    ensures
        ({
            let a = agent_loop::next_move(s, row, (HappenedView::Screened { decision: d }));
            let b = agent_loop::next_move(a.state, row, (HappenedView::Closing { interrupted }));
            let c = agent_loop::next_move(b.state, row, HappenedView::Finished);
            &&& a.facts.len() == 0
            &&& b.facts.len() == 0
            &&& c.facts == seq![
                SessionEventView::TurnEnd {
                    turn: s.turn,
                    stop: StopReason::InputRejected,
                    error: d.rejected,
                },
            ]
        }),
{
}

/// A new answer is numbered past every answer in the log, so a session that goes on
/// from a store that kept its ids gives none of them twice.
pub proof fn law_request_ids_are_new(
    events: Seq<LoggedEventView>,
    r: ModelResponseView,
    st: ReplyStatsView,
    turn: u64,
    round: u32,
)
    requires
        st.last_request_id == agent_loop::greatest_id(events),
        st.last_request_id < u64::MAX,
    ensures
        ({
            let id = agent_loop::meta_of(r, st, turn, round).request_id;
            &&& id >= 1
            &&& forall|i: int|
                0 <= i < events.len() ==> (agent_loop::answer_id((#[trigger] events[i]).event)
                    matches Some(n) ==> n < id)
            &&& id == 1 || exists|i: int|
                0 <= i < events.len() && agent_loop::answer_id((#[trigger] events[i]).event)
                    == Some((id - 1) as u64)
        }),
{
    lemma_greatest_id(events);
}

proof fn lemma_greatest_id(events: Seq<LoggedEventView>)
    ensures
        forall|i: int|
            0 <= i < events.len() ==> (agent_loop::answer_id((#[trigger] events[i]).event)
                matches Some(n) ==> n <= agent_loop::greatest_id(events)),
        agent_loop::greatest_id(events) == 0 || exists|i: int|
            0 <= i < events.len() && agent_loop::answer_id((#[trigger] events[i]).event) == Some(
                agent_loop::greatest_id(events),
            ),
    decreases events.len(),
{
    if events.len() > 0 {
        let front = events.drop_last();
        lemma_greatest_id(front);
        let g = agent_loop::greatest_id(front);
        assert forall|i: int| 0 <= i < events.len() implies (agent_loop::answer_id(
            (#[trigger] events[i]).event,
        ) matches Some(n) ==> n <= agent_loop::greatest_id(events)) by {
            if i < events.len() - 1 {
                assert(front[i] == events[i]);
            }
        }
        if agent_loop::greatest_id(events) == g {
            if g != 0 {
                let i = choose|i: int|
                    0 <= i < front.len() && agent_loop::answer_id((#[trigger] front[i]).event)
                        == Some(g);
                assert(events[i] == front[i]);
            }
        } else {
            assert(events[events.len() - 1] == events.last());
        }
    }
}

// ---- a round, from the answer to the next ---------------------------------

/// What a turn goes through once an answer is in: the answer, what its calls came to,
/// and the pause after the round.
pub open spec fn after_round(
    s: TurnStateView,
    row: LoopRow,
    r: ModelResponseView,
    st: ReplyStatsView,
    results: Seq<ToolResultView>,
    p: HappenedView,
) -> (TurnStateView, Seq<SessionEventView>, WantedView) {
    let reply = ReplyView::Answered { response: r, stats: st };
    let a = agent_loop::next_move(s, row, (HappenedView::Replied { reply }));
    let b = if a.wanted is Run {
        agent_loop::next_move(a.state, row, (HappenedView::Ran { results }))
    } else {
        agent_loop::Move { state: a.state, facts: Seq::empty(), wanted: a.wanted }
    };
    let c = agent_loop::next_move(b.state, row, p);
    (c.state, a.facts + b.facts + c.facts, c.wanted)
}

/// A model that called a tool is shown what came of it: after an answer that made a
/// call, or was cut off, the policies hear that the turn goes on, and unless one of them
/// ends it or its rounds are used up, the next thing wanted is another round.
pub proof fn law_calls_are_answered_with_another_round(
    s: TurnStateView,
    row: LoopRow,
    r: ModelResponseView,
    st: ReplyStatsView,
    results: Seq<ToolResultView>,
    waking: bool,
    elapsed_secs: u64,
    later: bool,
)
    requires
        s.phase is Requesting,
        s.tool_calls + r.tool_calls.len() <= u32::MAX,
        r.tool_calls.len() > 0 || r.truncated,
    ensures
        ({
            let p = HappenedView::Paused { cancelled: false, waking, elapsed_secs };
            let (t, log, wanted) = after_round(s, row, r, st, results, p);
            let m = agent_loop::next_move(
                t,
                row,
                (HappenedView::Judged { verdict: None, waking: later }),
            );
            &&& wanted matches WantedView::Judge { progress } && progress.continuing
            &&& s.step < row.max_rounds ==> m.wanted is Claim && m.state.phase is Claiming
            &&& s.step >= row.max_rounds ==> m.wanted is Close && m.state.stop is RunawayFuse
            &&& m.facts.len() == 0
        }),
{
}

/// An answer that is whole and calls nothing ends the turn, unless something came in
/// meanwhile that wakes it.
pub proof fn law_a_plain_answer_ends_the_turn(
    s: TurnStateView,
    row: LoopRow,
    r: ModelResponseView,
    st: ReplyStatsView,
    waking: bool,
    elapsed_secs: u64,
    later: bool,
)
    requires
        s.phase is Requesting,
        s.tool_calls <= u32::MAX,
        r.tool_calls.len() == 0,
        !r.truncated,
    ensures
        ({
            let p = HappenedView::Paused { cancelled: false, waking, elapsed_secs };
            let (t, log, wanted) = after_round(s, row, r, st, Seq::empty(), p);
            let m = agent_loop::next_move(
                t,
                row,
                (HappenedView::Judged { verdict: None, waking: later }),
            );
            &&& wanted matches WantedView::Judge { progress } && progress.continuing == waking
            &&& !later ==> m.wanted is Close && m.state.stop is Stopped && m.state.error is None
            &&& later && s.step < row.max_rounds ==> m.wanted is Claim
            &&& later && s.step >= row.max_rounds ==> m.wanted is Close
                && m.state.stop is RunawayFuse
        }),
{
}

/// What the policies are told of a turn is what happened in it: which turn, how many
/// rounds, every call counted, the newest count of tokens, the time that passed.
pub proof fn law_policies_hear_what_happened(
    s: TurnStateView,
    row: LoopRow,
    r: ModelResponseView,
    st: ReplyStatsView,
    results: Seq<ToolResultView>,
    waking: bool,
    elapsed_secs: u64,
)
    requires
        s.phase is Requesting,
        s.tool_calls + r.tool_calls.len() <= u32::MAX,
    ensures
        ({
            let p = HappenedView::Paused { cancelled: false, waking, elapsed_secs };
            let (t, log, wanted) = after_round(s, row, r, st, results, p);
            &&& wanted matches WantedView::Judge { progress } && {
                &&& progress.turn == s.turn
                &&& progress.rounds == s.step
                &&& progress.tool_calls == s.tool_calls + r.tool_calls.len()
                &&& progress.elapsed_secs == elapsed_secs
                &&& match r.usage {
                    Some(u) => progress.used_tokens == u.prompt,
                    None => progress.used_tokens == s.used_tokens,
                }
            }
        }),
{
}

/// A policy that says stop is obeyed, whatever is owed: the turn closes for the reason
/// it gave.
pub proof fn law_a_verdict_ends_the_turn(
    s: TurnStateView,
    row: LoopRow,
    stop: StopReason,
    waking: bool,
)
    requires
        s.phase is Judging,
    ensures
        ({
            let m = agent_loop::next_move(
                s,
                row,
                (HappenedView::Judged { verdict: Some(stop), waking }),
            );
            m.wanted is Close && m.state.stop == stop && m.state.error is None && m.facts.len()
                == 0
        }),
{
}

/// What the model answered is in the log as it answered: its words, its reasoning and
/// its calls under this turn and round, with its tokens before them where it counted
/// them, and then one entry for each result and the end of the round.
pub proof fn law_an_answer_is_logged_whole(
    s: TurnStateView,
    row: LoopRow,
    r: ModelResponseView,
    st: ReplyStatsView,
    results: Seq<ToolResultView>,
    p: HappenedView,
)
    requires
        s.phase is Requesting,
        s.tool_calls + r.tool_calls.len() <= u32::MAX,
        p is Paused,
    ensures
        ({
            let (t, log, wanted) = after_round(s, row, r, st, results, p);
            let k: int = if r.usage is Some {
                1
            } else {
                0
            };
            let n: int = if r.tool_calls.len() > 0 {
                results.len() as int
            } else {
                0
            };
            &&& log.len() == k + 1 + n + 1
            &&& r.usage matches Some(u) ==> log[0] == (SessionEventView::Usage {
                turn: s.turn,
                round: s.step,
                usage: u,
            })
            &&& log[k] matches SessionEventView::AssistantMessage {
                turn,
                round,
                text,
                reasoning,
                tool_calls,
                meta,
            } && {
                &&& turn == s.turn && round == s.step
                &&& text == r.text && reasoning == r.reasoning && tool_calls == r.tool_calls
                &&& meta matches Some(m) && {
                    &&& m.turn_id == s.turn && m.round == s.step
                    &&& m.elapsed_ms == st.elapsed_ms && m.ctx_window == st.ctx_window
                    &&& m.session_id == Some(st.session)
                    &&& r.usage matches Some(u) ==> m.tokens == u && m.used_tokens == u.prompt
                    &&& m.finish_reason == (if r.tool_calls.len() > 0 {
                        "tool_calls"@
                    } else if r.truncated {
                        "length"@
                    } else {
                        "stop"@
                    })
                }
            }
            &&& forall|i: int|
                0 <= i < n ==> #[trigger] log[k + 1 + i] == (SessionEventView::ToolResultLogged {
                    turn: s.turn,
                    round: s.step,
                    call_id: results[i].call_id,
                    content: results[i].content,
                    is_error: results[i].is_error,
                    images: results[i].images,
                })
            &&& log.last() == (SessionEventView::StepEnd {
                turn: s.turn,
                step: s.step,
                tool_calls: r.tool_calls.len() as u32,
            })
        }),
{
}

/// The calls that are run are the calls the model made.
pub proof fn law_every_call_is_run(
    s: TurnStateView,
    row: LoopRow,
    r: ModelResponseView,
    st: ReplyStatsView,
)
    requires
        s.phase is Requesting,
        s.tool_calls + r.tool_calls.len() <= u32::MAX,
    ensures
        ({
            let reply = ReplyView::Answered { response: r, stats: st };
            let m = agent_loop::next_move(s, row, (HappenedView::Replied { reply }));
            if r.tool_calls.len() > 0 {
                m.wanted == (WantedView::Run { calls: r.tool_calls })
            } else {
                m.wanted is Pause
            }
        }),
{
}

// ---- how a turn begins and ends -------------------------------------------

/// What was claimed reaches the log before the request: each piece of context as it
/// was, what came late behind it in the first round, then the message under whoever
/// sent it, then the start of the round.
pub proof fn law_what_came_in_is_logged(
    s: TurnStateView,
    row: LoopRow,
    c: ClaimView,
    late: Seq<InjectionView>,
    sender: Option<Seq<char>>,
    said: Seq<char>,
)
    requires
        s.phase is Claiming,
        s.step < u32::MAX,
        c.message == Some(said),
    ensures
        ({
            let a = agent_loop::next_move(s, row, (HappenedView::Claimed { claim: c }));
            &&& a.wanted matches WantedView::Screen { decision } && {
                let b = agent_loop::next_move(a.state, row, (HappenedView::Screened { decision }));
                let q = agent_loop::next_move(
                    b.state,
                    row,
                    (HappenedView::Queued { late, sender }),
                );
                let all = if s.step == 0 {
                    c.injections + late
                } else {
                    c.injections
                };
                &&& decision.message == c.message && decision.images == c.images
                    && decision.injections == c.injections && decision.origin == c.origin
                &&& b.wanted matches WantedView::Announce { prompt, peer } && {
                    &&& prompt == (if s.step == 0 {
                        Some(said)
                    } else {
                        None
                    })
                    &&& peer == (match c.origin {
                        MessageOrigin::Peer(id) => Some(id),
                        _ => None,
                    })
                }
                &&& q.wanted is Assemble
                &&& q.facts.len() == all.len() + 2
                &&& forall|i: int|
                    0 <= i < all.len() ==> #[trigger] q.facts[i] == (SessionEventView::Injected {
                        turn: s.turn,
                        text: all[i].text,
                        origin: all[i].origin,
                    })
                &&& match c.origin {
                    MessageOrigin::User => q.facts[all.len() as int]
                        == (SessionEventView::UserMessage {
                        turn: s.turn,
                        text: said,
                        images: c.images,
                    }),
                    MessageOrigin::Harness => q.facts[all.len() as int]
                        == (SessionEventView::Injected {
                        turn: s.turn,
                        text: said,
                        origin: InjectionOriginView::Continuation,
                    }),
                    MessageOrigin::Internal => q.facts[all.len() as int]
                        == (SessionEventView::Injected {
                        turn: s.turn,
                        text: said,
                        origin: InjectionOriginView::InternalNudge,
                    }),
                    MessageOrigin::Peer(id) => q.facts[all.len() as int]
                        == (SessionEventView::Injected {
                        turn: s.turn,
                        text: said,
                        origin: InjectionOriginView::Peer {
                            from: match sender {
                                Some(who) => who,
                                None => "agent-"@ + text::decimal(id as nat),
                            },
                        },
                    }),
                }
                &&& q.facts.last() == (SessionEventView::StepStart {
                    turn: s.turn,
                    step: (s.step + 1) as u32,
                })
                &&& q.state.answering_a_nudge == (c.origin is Internal)
                &&& q.state.step == s.step + 1
            }
        }),
{
}

/// A turn nothing came in for sends no request; a round nothing new came in for, within
/// a turn, does.
pub proof fn law_nothing_to_say_sends_nothing(s: TurnStateView, row: LoopRow, c: ClaimView)
    requires
        s.phase is Claiming,
        s.step < u32::MAX,
        c.message is None,
        c.injections.len() == 0,
    ensures
        ({
            let a = agent_loop::next_move(s, row, (HappenedView::Claimed { claim: c }));
            if s.step > 0 {
                &&& a.wanted is Assemble
                &&& a.facts == seq![
                    SessionEventView::StepStart { turn: s.turn, step: (s.step + 1) as u32 },
                ]
                &&& !a.state.answering_a_nudge
            } else {
                &&& a.wanted matches WantedView::Screen { decision } && {
                    let b = agent_loop::next_move(
                        a.state,
                        row,
                        (HappenedView::Screened { decision }),
                    );
                    b.wanted is Close && b.state.stop is Stopped && b.facts.len() == 0
                }
            }
        }),
{
}

/// A request is sent for what the log explains, under the model it goes to; what the
/// log does not explain is not sent, where that is checked, and the turn says what it
/// was.
pub proof fn law_only_what_is_logged_is_sent(
    s: TurnStateView,
    row: LoopRow,
    unexplained: Seq<Seq<char>>,
    model: Seq<char>,
)
    requires
        s.phase is Assembling,
    ensures
        ({
            let m = agent_loop::next_move(
                s,
                row,
                (HappenedView::Assembled { unexplained, model }),
            );
            if row.verify_log_invariant && unexplained.len() > 0 {
                &&& m.wanted is Close && m.state.stop is InvariantViolated && m.facts.len() == 0
                &&& m.state.error is Some
            } else {
                &&& m.wanted == (WantedView::Request { answering_a_nudge: s.answering_a_nudge })
                &&& m.facts.len() == 1
                &&& m.facts[0] matches SessionEventView::RequestHeader {
                    turn,
                    round,
                    model: to,
                    reason,
                } && turn == s.turn && round == s.step && to == model && (reason is Series
                    <==> s.decision.starts_request_series)
            }
        }),
{
}

/// A cancelled turn ends as cancelled, wherever it is: while it waits for the model and
/// between rounds. Where it was a person who cut it off, the log says so, and whether
/// it is taken back.
pub proof fn law_a_cancelled_turn_ends(
    s: TurnStateView,
    row: LoopRow,
    waking: bool,
    elapsed_secs: u64,
    interrupted: bool,
)
    requires
        s.phase is Requesting || s.phase is Pausing,
    ensures
        ({
            let e = if s.phase is Requesting {
                HappenedView::Replied { reply: ReplyView::Cancelled }
            } else {
                HappenedView::Paused { cancelled: true, waking, elapsed_secs }
            };
            let m = agent_loop::next_move(s, row, e);
            let c = agent_loop::next_move(m.state, row, (HappenedView::Closing { interrupted }));
            let d = agent_loop::next_move(c.state, row, HappenedView::Finished);
            &&& m.wanted is Close && m.facts.len() == 0
            &&& interrupted ==> c.facts == seq![
                SessionEventView::Interrupted { turn: s.turn, undone: row.undo_cancelled },
            ]
            &&& !interrupted ==> c.facts.len() == 0
            &&& d.wanted matches WantedView::Done { outcome } && outcome.stop is Cancelled
        }),
{
}

/// A request that failed ends the turn and says why: as paused where the provider said
/// when to come back, as stopped where a nudge got no answer, as timed out where the
/// stream fell silent, and otherwise with the provider's own words.
pub proof fn law_a_failure_says_why(s: TurnStateView, row: LoopRow, error: RequestErrorView)
    requires
        s.phase is Requesting,
    ensures
        ({
            let reply = ReplyView::Failed { error };
            let m = agent_loop::next_move(s, row, (HappenedView::Replied { reply }));
            let silent = error.empty_response && s.answering_a_nudge;
            &&& m.wanted is Close
            &&& silent ==> m.state.stop is Stopped && m.state.error is None && m.facts.len() == 0
            &&& !silent && error.rate_limit_pause is Some ==> {
                &&& m.state.stop is RateLimited && m.state.error is None
                &&& m.facts == seq![
                    SessionEventView::RateLimitPaused {
                        turn: s.turn,
                        pause: error.rate_limit_pause->0,
                    },
                ]
            }
            &&& !silent && error.rate_limit_pause is None ==> {
                &&& m.facts.len() == 0
                &&& m.state.error == Some(error.message)
                &&& m.state.stop == (if error.code == Some(agent_loop::STREAM_IDLE_CODE@) {
                    StopReason::Timeout
                } else {
                    StopReason::ProviderError
                })
            }
        }),
{
}

/// What a turn is reported to have come to is what it came to: the rounds and calls it
/// counted, why it stopped, and the last words the model said in it.
pub proof fn law_the_outcome_is_the_turns(s: TurnStateView, row: LoopRow, interrupted: bool)
    requires
        s.phase is Closing,
    ensures
        ({
            let c = agent_loop::next_move(s, row, (HappenedView::Closing { interrupted }));
            let d = agent_loop::next_move(c.state, row, HappenedView::Finished);
            &&& c.wanted matches WantedView::Finish { outcome } && d.wanted == (
            WantedView::Done { outcome }) && {
                &&& outcome.turn == s.turn
                &&& outcome.rounds == s.step && outcome.steps == s.step
                &&& outcome.tool_calls == s.tool_calls
                &&& outcome.stop == s.stop && outcome.error == s.error
                &&& outcome.text == s.text
            }
            &&& !(s.stop is Cancelled) ==> c.facts.len() == 0
            &&& d.facts == seq![
                SessionEventView::TurnEnd { turn: s.turn, stop: s.stop, error: s.error },
            ]
        }),
{
}

/// The turn's words are the last that were said in it: an answer with words replaces
/// them, one without leaves them.
pub proof fn law_the_last_words_stand(
    s: TurnStateView,
    row: LoopRow,
    r: ModelResponseView,
    st: ReplyStatsView,
    results: Seq<ToolResultView>,
    p: HappenedView,
)
    requires
        s.phase is Requesting,
        s.tool_calls + r.tool_calls.len() <= u32::MAX,
        p is Paused,
    ensures
        ({
            let (t, log, wanted) = after_round(s, row, r, st, results, p);
            &&& r.text.len() > 0 ==> t.text == r.text
            &&& r.text.len() == 0 ==> t.text == s.text
            &&& t.step == s.step && t.turn == s.turn
        }),
{
}

} // verus!
