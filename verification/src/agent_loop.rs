//! The turn driver, as a state machine.
//!
//! A turn is a loop of rounds: take what is waiting, put a request together from
//! the log, send it, run the calls that come back, and ask whether to go on. The
//! world does the waiting; [`TurnState::step`] decides. Each report from the world
//! yields the facts to commit, in order, and the next thing to do.
use crate::data::{none_of, put, Dup};
use crate::events::{
    HeaderReason, InjectionOrigin, InjectionOriginView, LoggedEvent, LoggedEventView, MessageMeta,
    MessageMetaView, SessionEvent, SessionEventView, StopReason, TokenUsage, ToolResult, ToolResultView,
};
use crate::text;
use crate::text::{join, lit, number, same};
use crate::turn::{
    Claim, ClaimView, Happened, HappenedView, Injection, InjectionView, MessageOrigin,
    ModelResponse, ModelResponseView, Phase, Reply, ReplyStats, ReplyStatsView, ReplyView,
    RequestError, RequestErrorView, StepDecision, StepDecisionView, TurnOutcome, TurnOutcomeView,
    TurnProgress, TurnState, TurnStateView, Wanted, WantedView,
};
use vstd::prelude::*;

verus! {

/// The code a stalled stream's error carries, so a turn that timed out can be told
/// from one the provider failed.
pub const STREAM_IDLE_CODE: &'static str = "stream_idle_timeout";

/// How the driver is set up.
#[derive(Clone, Debug, PartialEq, Eq)]
pub struct LoopRow {
    /// The runaway fuse: no turn begins another round once it has run this many.
    pub max_rounds: u32,
    pub working_dir: Option<String>,
    /// Refuse a request that holds anything the log does not.
    pub verify_log_invariant: bool,
    /// Take a cancelled turn out of what the model sees next.
    pub undo_cancelled: bool,
    /// How long a stream may stay silent, in milliseconds; zero waits forever.
    pub stream_idle_ms: u64,
}

pub fn default_max_rounds() -> (n: u32)
    ensures
        n == 100,
{
    100
}

impl Default for LoopRow {
    fn default() -> (row: Self)
        ensures
            row.max_rounds == 100,
            row.working_dir is None,
            row.verify_log_invariant,
            !row.undo_cancelled,
            row.stream_idle_ms == 0,
    {
        LoopRow {
            max_rounds: default_max_rounds(),
            working_dir: None,
            verify_log_invariant: true,
            undo_cancelled: false,
            stream_idle_ms: 0,
        }
    }
}

impl LoopRow {
    /// The silence after which a stream counts as stalled.
    pub fn stream_idle(&self) -> (bound: Option<u64>)
        ensures
            bound == (if self.stream_idle_ms > 0 {
                Some(self.stream_idle_ms)
            } else {
                None
            }),
    {
        if self.stream_idle_ms > 0 {
            Some(self.stream_idle_ms)
        } else {
            None
        }
    }
}

// ---- the decisions, stated ------------------------------------------------

/// Where a report leads: the state after it, the facts to commit, what to do next.
#[verifier::ext_equal]
pub struct Move {
    pub state: TurnStateView,
    pub facts: Seq<SessionEventView>,
    pub wanted: WantedView,
}

pub open spec fn sends_nothing(d: StepDecisionView) -> bool {
    d.message is None && d.injections.len() == 0
}

pub open spec fn outcome_of(s: TurnStateView) -> TurnOutcomeView {
    TurnOutcomeView {
        turn: s.turn,
        steps: s.step,
        rounds: s.step,
        tool_calls: s.tool_calls,
        stop: s.stop,
        text: s.text,
        error: s.error,
    }
}

/// The turn is over for `stop`; only the closing is left.
pub open spec fn ending(
    s: TurnStateView,
    facts: Seq<SessionEventView>,
    stop: StopReason,
    error: Option<Seq<char>>,
) -> Move {
    Move {
        state: TurnStateView { phase: Phase::Closing, stop, error, ..s },
        facts,
        wanted: WantedView::Close,
    }
}

/// A round begins: whatever it sends is in the log, then its start is.
pub open spec fn entering(s: TurnStateView, facts: Seq<SessionEventView>) -> Move {
    let step = (s.step + 1) as u32;
    Move {
        state: TurnStateView { phase: Phase::Assembling, step, ..s },
        facts: facts.push(SessionEventView::StepStart { turn: s.turn, step }),
        wanted: WantedView::Assemble,
    }
}

pub open spec fn first_decision(s: TurnStateView, c: ClaimView) -> StepDecisionView {
    StepDecisionView {
        turn: s.turn,
        step: (s.step + 1) as u32,
        message: c.message,
        origin: c.origin,
        images: c.images,
        injections: c.injections,
        rejected: None,
        starts_request_series: s.step == 0,
    }
}

pub open spec fn claimed(s: TurnStateView, c: ClaimView) -> Move {
    let d = first_decision(s, c);
    if !sends_nothing(d) || s.step == 0 {
        Move {
            state: TurnStateView { phase: Phase::Screening, decision: d, ..s },
            facts: Seq::empty(),
            wanted: WantedView::Screen { decision: d },
        }
    } else {
        entering(
            TurnStateView { decision: d, answering_a_nudge: false, ..s },
            Seq::empty(),
        )
    }
}

pub open spec fn prompt_of(d: StepDecisionView) -> Seq<char> {
    match d.message {
        Some(text) => text,
        None => Seq::empty(),
    }
}

pub open spec fn peer_of(d: StepDecisionView) -> Option<u64> {
    match (d.message, d.origin) {
        (Some(_), MessageOrigin::Peer(id)) => Some(id),
        _ => None,
    }
}

pub open spec fn screened(s: TurnStateView, d: StepDecisionView) -> Move {
    let t = TurnStateView { decision: d, ..s };
    if d.rejected is Some {
        ending(t, Seq::empty(), StopReason::InputRejected, d.rejected)
    } else if sends_nothing(d) && s.step == 0 {
        ending(t, Seq::empty(), StopReason::Stopped, None)
    } else {
        Move {
            state: TurnStateView { phase: Phase::Announcing, ..t },
            facts: Seq::empty(),
            wanted: WantedView::Announce {
                prompt: if s.step == 0 {
                    Some(prompt_of(d))
                } else {
                    None
                },
                peer: peer_of(d),
            },
        }
    }
}

pub open spec fn injected(turn: u64, list: Seq<InjectionView>) -> Seq<SessionEventView> {
    Seq::new(
        list.len(),
        |i: int|
            SessionEventView::Injected { turn, text: list[i].text, origin: list[i].origin },
    )
}

/// A message as the fact it becomes: the person's own words stay theirs, anything
/// else is logged under whoever sent it.
pub open spec fn message_fact(
    turn: u64,
    text: Seq<char>,
    origin: MessageOrigin,
    images: Seq<Seq<char>>,
    sender: Option<Seq<char>>,
) -> SessionEventView {
    match origin {
        MessageOrigin::User => SessionEventView::UserMessage { turn, text, images },
        MessageOrigin::Harness => SessionEventView::Injected {
            turn,
            text,
            origin: InjectionOriginView::Continuation,
        },
        MessageOrigin::Internal => SessionEventView::Injected {
            turn,
            text,
            origin: InjectionOriginView::InternalNudge,
        },
        MessageOrigin::Peer(id) => SessionEventView::Injected {
            turn,
            text,
            origin: InjectionOriginView::Peer {
                from: match sender {
                    Some(session) => session,
                    None => "agent-"@ + text::decimal(id as nat),
                },
            },
        },
    }
}

/// What a round puts in the log before its request is assembled.
pub open spec fn input_facts(
    s: TurnStateView,
    late: Seq<InjectionView>,
    sender: Option<Seq<char>>,
) -> Seq<SessionEventView> {
    let d = s.decision;
    let context = if s.step == 0 {
        d.injections + late
    } else {
        d.injections
    };
    match d.message {
        Some(text) => injected(s.turn, context).push(
            message_fact(s.turn, text, d.origin, d.images, sender),
        ),
        None => injected(s.turn, context),
    }
}

pub open spec fn queued(
    s: TurnStateView,
    late: Seq<InjectionView>,
    sender: Option<Seq<char>>,
) -> Move {
    entering(
        TurnStateView {
            answering_a_nudge: s.decision.origin is Internal && s.decision.message is Some,
            ..s
        },
        input_facts(s, late, sender),
    )
}

pub open spec fn assembled(
    s: TurnStateView,
    checked: bool,
    unexplained: Seq<Seq<char>>,
    model: Seq<char>,
) -> Move {
    if checked && unexplained.len() > 0 {
        ending(
            s,
            Seq::empty(),
            StopReason::InvariantViolated,
            Some(
                "model-visible content is not in the session log: "@ + text::joined(
                    unexplained,
                    "; "@,
                ),
            ),
        )
    } else {
        Move {
            state: TurnStateView { phase: Phase::Requesting, ..s },
            facts: seq![
                SessionEventView::RequestHeader {
                    turn: s.turn,
                    round: s.step,
                    model,
                    reason: if s.decision.starts_request_series {
                        HeaderReason::Series
                    } else {
                        HeaderReason::Append
                    },
                },
            ],
            wanted: WantedView::Request { answering_a_nudge: s.answering_a_nudge },
        }
    }
}

pub open spec fn finish_reason(r: ModelResponseView) -> Seq<char> {
    if r.tool_calls.len() > 0 {
        "tool_calls"@
    } else if r.truncated {
        "length"@
    } else {
        "stop"@
    }
}

pub open spec fn no_tokens() -> TokenUsage {
    TokenUsage { prompt: 0, completion: 0, cached: 0 }
}

pub open spec fn tokens_of(r: ModelResponseView) -> TokenUsage {
    match r.usage {
        Some(u) => u,
        None => no_tokens(),
    }
}

/// The request id of a logged answer, where it holds one.
pub open spec fn answer_id(e: SessionEventView) -> Option<u64> {
    match e {
        SessionEventView::AssistantMessage { meta: Some(m), .. } => Some(m.request_id),
        _ => None,
    }
}

/// The greatest request id any logged answer holds; zero where none holds one.
pub open spec fn greatest_id(events: Seq<LoggedEventView>) -> u64
    decreases events.len(),
{
    if events.len() == 0 {
        0
    } else {
        let before = greatest_id(events.drop_last());
        match answer_id(events.last().event) {
            Some(n) if n > before => n,
            _ => before,
        }
    }
}

/// What a stored answer says about the response behind it. Its id continues the
/// session's own sequence.
pub open spec fn meta_of(
    r: ModelResponseView,
    st: ReplyStatsView,
    turn: u64,
    round: u32,
) -> MessageMetaView {
    MessageMetaView {
        tokens: tokens_of(r),
        elapsed_ms: st.elapsed_ms,
        ctx_window: st.ctx_window,
        used_tokens: tokens_of(r).prompt,
        round,
        turn_id: turn,
        request_id: (st.last_request_id + 1) as u64,
        session_id: Some(st.session),
        finish_reason: finish_reason(r),
    }
}

pub open spec fn answer_facts(
    s: TurnStateView,
    r: ModelResponseView,
    st: ReplyStatsView,
) -> Seq<SessionEventView> {
    let said = SessionEventView::AssistantMessage {
        turn: s.turn,
        round: s.step,
        text: r.text,
        reasoning: r.reasoning,
        tool_calls: r.tool_calls,
        meta: Some(meta_of(r, st, s.turn, s.step)),
    };
    match r.usage {
        Some(usage) => seq![
            SessionEventView::Usage { turn: s.turn, round: s.step, usage },
            said,
        ],
        None => seq![said],
    }
}

pub open spec fn step_end(s: TurnStateView) -> SessionEventView {
    SessionEventView::StepEnd { turn: s.turn, step: s.step, tool_calls: s.round_calls }
}

pub open spec fn after_answer(s: TurnStateView, r: ModelResponseView) -> TurnStateView {
    let n = r.tool_calls.len() as u32;
    TurnStateView {
        used_tokens: match r.usage {
            Some(u) => u.prompt,
            None => s.used_tokens,
        },
        text: if r.text.len() > 0 {
            r.text
        } else {
            s.text
        },
        tool_calls: (s.tool_calls + n) as u32,
        round_calls: n,
        owes_a_request: n > 0 || r.truncated,
        ..s
    }
}

pub open spec fn answered(s: TurnStateView, r: ModelResponseView, st: ReplyStatsView) -> Move {
    let t = after_answer(s, r);
    if r.tool_calls.len() == 0 {
        Move {
            state: TurnStateView { phase: Phase::Pausing, ..t },
            facts: answer_facts(s, r, st).push(step_end(t)),
            wanted: WantedView::Pause,
        }
    } else {
        Move {
            state: TurnStateView { phase: Phase::Running, ..t },
            facts: answer_facts(s, r, st),
            wanted: WantedView::Run { calls: r.tool_calls },
        }
    }
}

pub open spec fn refused(s: TurnStateView, e: RequestErrorView) -> Move {
    if e.empty_response && s.answering_a_nudge {
        ending(s, Seq::empty(), StopReason::Stopped, None)
    } else {
        match e.rate_limit_pause {
            Some(pause) => ending(
                s,
                seq![SessionEventView::RateLimitPaused { turn: s.turn, pause }],
                StopReason::RateLimited,
                None,
            ),
            None => ending(
                s,
                Seq::empty(),
                if e.code == Some(STREAM_IDLE_CODE@) {
                    StopReason::Timeout
                } else {
                    StopReason::ProviderError
                },
                Some(e.message),
            ),
        }
    }
}

pub open spec fn replied(s: TurnStateView, reply: ReplyView) -> Move {
    match reply {
        ReplyView::Cancelled => ending(s, Seq::empty(), StopReason::Cancelled, None),
        ReplyView::Answered { response, stats } => answered(s, response, stats),
        ReplyView::Failed { error } => refused(s, error),
    }
}

pub open spec fn result_facts(
    turn: u64,
    round: u32,
    results: Seq<ToolResultView>,
) -> Seq<SessionEventView> {
    Seq::new(
        results.len(),
        |i: int|
            SessionEventView::ToolResultLogged {
                turn,
                round,
                call_id: results[i].call_id,
                content: results[i].content,
                is_error: results[i].is_error,
                images: results[i].images,
            },
    )
}

pub open spec fn ran(s: TurnStateView, results: Seq<ToolResultView>) -> Move {
    Move {
        state: TurnStateView { phase: Phase::Pausing, ..s },
        facts: result_facts(s.turn, s.step, results).push(step_end(s)),
        wanted: WantedView::Pause,
    }
}

pub open spec fn paused(s: TurnStateView, cancelled: bool, waking: bool, elapsed: u64) -> Move {
    if cancelled {
        ending(s, Seq::empty(), StopReason::Cancelled, None)
    } else {
        Move {
            state: TurnStateView { phase: Phase::Judging, ..s },
            facts: Seq::empty(),
            wanted: WantedView::Judge {
                progress: TurnProgress {
                    turn: s.turn,
                    rounds: s.step,
                    tool_calls: s.tool_calls,
                    used_tokens: s.used_tokens,
                    elapsed_secs: elapsed,
                    continuing: s.owes_a_request || waking,
                },
            },
        }
    }
}

/// The turn goes on while anything is owed and nobody says stop.
pub open spec fn judged(
    s: TurnStateView,
    max_rounds: u32,
    verdict: Option<StopReason>,
    waking: bool,
) -> Move {
    match verdict {
        Some(stop) => ending(s, Seq::empty(), stop, None),
        None => if !s.owes_a_request && !waking {
            ending(s, Seq::empty(), StopReason::Stopped, None)
        } else if s.step >= max_rounds {
            ending(s, Seq::empty(), StopReason::RunawayFuse, None)
        } else {
            Move {
                state: TurnStateView { phase: Phase::Claiming, ..s },
                facts: Seq::empty(),
                wanted: WantedView::Claim,
            }
        },
    }
}

pub open spec fn closing(s: TurnStateView, undo: bool, interrupted: bool) -> Move {
    Move {
        state: TurnStateView { phase: Phase::Finishing, ..s },
        facts: if s.stop is Cancelled && interrupted {
            seq![SessionEventView::Interrupted { turn: s.turn, undone: undo }]
        } else {
            Seq::empty()
        },
        wanted: WantedView::Finish { outcome: outcome_of(s) },
    }
}

pub open spec fn finished(s: TurnStateView) -> Move {
    Move {
        state: TurnStateView { phase: Phase::Over, ..s },
        facts: seq![
            SessionEventView::TurnEnd { turn: s.turn, stop: s.stop, error: s.error },
        ],
        wanted: WantedView::Done { outcome: outcome_of(s) },
    }
}

/// Where any report leads. One the turn is not waiting for changes nothing.
pub open spec fn next_move(s: TurnStateView, row: LoopRow, e: HappenedView) -> Move {
    match (s.phase, e) {
        (Phase::Claiming, HappenedView::Claimed { claim }) => claimed(s, claim),
        (Phase::Screening, HappenedView::Screened { decision }) => screened(s, decision),
        (Phase::Announcing, HappenedView::Queued { late, sender }) => queued(s, late, sender),
        (Phase::Assembling, HappenedView::Assembled { unexplained, model }) => assembled(
            s,
            row.verify_log_invariant,
            unexplained,
            model,
        ),
        (Phase::Requesting, HappenedView::Replied { reply }) => replied(s, reply),
        (Phase::Running, HappenedView::Ran { results }) => ran(s, results),
        (Phase::Pausing, HappenedView::Paused { cancelled, waking, elapsed_secs }) => paused(
            s,
            cancelled,
            waking,
            elapsed_secs,
        ),
        (Phase::Judging, HappenedView::Judged { verdict, waking }) => judged(
            s,
            row.max_rounds,
            verdict,
            waking,
        ),
        (Phase::Closing, HappenedView::Closing { interrupted }) => closing(
            s,
            row.undo_cancelled,
            interrupted,
        ),
        (Phase::Finishing, HappenedView::Finished) => finished(s),
        _ => Move { state: s, facts: Seq::empty(), wanted: WantedView::Nothing },
    }
}

/// A turn that has just opened.
pub open spec fn opened(turn: u64) -> TurnStateView {
    TurnStateView {
        phase: Phase::Claiming,
        turn,
        step: 0,
        tool_calls: 0,
        round_calls: 0,
        used_tokens: 0,
        stop: StopReason::Stopped,
        text: Seq::empty(),
        error: None,
        decision: StepDecisionView {
            turn,
            step: 0,
            message: None,
            origin: MessageOrigin::User,
            images: Seq::empty(),
            injections: Seq::empty(),
            rejected: None,
            starts_request_series: true,
        },
        answering_a_nudge: false,
        owes_a_request: false,
    }
}

/// Rounds left: a turn about to begin a round has not used up the fuse.
pub open spec fn within_fuse(s: TurnStateView, max_rounds: u32) -> bool {
    match s.phase {
        Phase::Claiming | Phase::Screening | Phase::Announcing => s.step == 0 || s.step
            < max_rounds,
        _ => true,
    }
}

/// The counters of `s` can take what `e` reports.
pub open spec fn countable(s: TurnStateView, e: HappenedView) -> bool {
    match e {
        HappenedView::Replied { reply: ReplyView::Answered { response, stats } } => {
            &&& s.tool_calls + response.tool_calls.len() <= u32::MAX
            &&& stats.last_request_id < u64::MAX
        },
        _ => true,
    }
}

// ---- the decisions, made --------------------------------------------------

fn end(
    s: &mut TurnState,
    stop: StopReason,
    error: Option<String>,
) -> (wanted: Wanted)
    ensures
        final(s).deep_view() == ending(
            old(s).deep_view(),
            Seq::empty(),
            stop,
            error.deep_view(),
        ).state,
        wanted.deep_view() == WantedView::Close,
{
    s.phase = Phase::Closing;
    s.stop = stop;
    s.error = error;
    Wanted::Close
}

fn enter(s: &mut TurnState, facts: &mut Vec<SessionEvent>) -> (wanted: Wanted)
    requires
        old(s).step < u32::MAX,
    ensures
        ({
            let m = entering(old(s).deep_view(), old(facts).deep_view());
            &&& final(s).deep_view() == m.state
            &&& final(facts).deep_view() == m.facts
            &&& wanted.deep_view() == m.wanted
        }),
{
    s.step = s.step + 1;
    s.phase = Phase::Assembling;
    put(facts, SessionEvent::StepStart { turn: s.turn, step: s.step });
    Wanted::Assemble
}

fn on_claimed(s: &mut TurnState, claim: Claim, facts: &mut Vec<SessionEvent>) -> (wanted: Wanted)
    requires
        old(s).step < u32::MAX,
        old(facts).deep_view() == Seq::<SessionEventView>::empty(),
    ensures
        ({
            let m = claimed(old(s).deep_view(), claim.deep_view());
            &&& final(s).deep_view() == m.state
            &&& final(facts).deep_view() == m.facts
            &&& wanted.deep_view() == m.wanted
        }),
{
    let idle = claim.message.is_none() && claim.injections.len() == 0;
    let d = StepDecision {
        turn: s.turn,
        step: s.step + 1,
        message: claim.message,
        origin: claim.origin,
        images: claim.images,
        injections: claim.injections,
        rejected: None,
        starts_request_series: s.step == 0,
    };
    assert(idle == sends_nothing(d.deep_view()));
    if !idle || s.step == 0 {
        s.phase = Phase::Screening;
        s.decision = d.dup();
        Wanted::Screen { decision: d }
    } else {
        s.decision = d;
        s.answering_a_nudge = false;
        enter(s, facts)
    }
}

fn on_screened(s: &mut TurnState, d: StepDecision) -> (wanted: Wanted)
    ensures
        ({
            let m = screened(old(s).deep_view(), d.deep_view());
            &&& final(s).deep_view() == m.state
            &&& m.facts == Seq::<SessionEventView>::empty()
            &&& wanted.deep_view() == m.wanted
        }),
{
    let idle = d.message.is_none() && d.injections.len() == 0;
    assert(idle == sends_nothing(d.deep_view()));
    let rejected = d.rejected.dup();
    let prompt = if s.step == 0 {
        match &d.message {
            Some(text) => Some(text.clone()),
            None => Some(String::new()),
        }
    } else {
        None
    };
    let peer = match (&d.message, d.origin) {
        (Some(_), MessageOrigin::Peer(id)) => Some(id),
        _ => None,
    };
    s.decision = d;
    if rejected.is_some() {
        end(s, StopReason::InputRejected, rejected)
    } else if idle && s.step == 0 {
        end(s, StopReason::Stopped, None)
    } else {
        s.phase = Phase::Announcing;
        Wanted::Announce { prompt, peer }
    }
}

fn put_injections(turn: u64, list: &Vec<Injection>, facts: &mut Vec<SessionEvent>)
    ensures
        final(facts).deep_view() == old(facts).deep_view() + injected(turn, list.deep_view()),
{
    let ghost before = facts.deep_view();
    let mut i: usize = 0;
    assert(facts.deep_view() =~= before + injected(turn, list.deep_view()).take(0));
    while i < list.len()
        invariant
            i <= list.len(),
            facts.deep_view() == before + injected(turn, list.deep_view()).take(i as int),
        decreases list.len() - i,
    {
        let item = &list[i];
        put(
            facts,
            SessionEvent::Injected { turn, text: item.text.clone(), origin: item.origin.dup() },
        );
        assert(injected(turn, list.deep_view()).take(i + 1) =~= injected(
            turn,
            list.deep_view(),
        ).take(i as int).push(injected(turn, list.deep_view())[i as int]));
        assert(facts.deep_view() =~= before + injected(turn, list.deep_view()).take(i + 1));
        i = i + 1;
    }
    assert(injected(turn, list.deep_view()).take(i as int) =~= injected(turn, list.deep_view()));
}

/// The session id a peer's message is logged under.
fn peer_name(id: u64, sender: Option<String>) -> (r: String)
    ensures
        r@ == (match sender.deep_view() {
            Some(session) => session,
            None => "agent-"@ + text::decimal(id as nat),
        }),
{
    match sender {
        Some(session) => session,
        None => lit("agent-").concat(number(id).as_str()),
    }
}

fn make_message_fact(
    turn: u64,
    text: String,
    origin: MessageOrigin,
    images: Vec<String>,
    sender: Option<String>,
) -> (fact: SessionEvent)
    ensures
        fact.deep_view() == message_fact(
            turn,
            text@,
            origin,
            images.deep_view(),
            sender.deep_view(),
        ),
{
    match origin {
        MessageOrigin::User => SessionEvent::UserMessage { turn, text, images },
        MessageOrigin::Harness => SessionEvent::Injected {
            turn,
            text,
            origin: InjectionOrigin::Continuation,
        },
        MessageOrigin::Internal => SessionEvent::Injected {
            turn,
            text,
            origin: InjectionOrigin::InternalNudge,
        },
        MessageOrigin::Peer(id) => SessionEvent::Injected {
            turn,
            text,
            origin: InjectionOrigin::Peer { from: peer_name(id, sender) },
        },
    }
}

fn on_queued(
    s: &mut TurnState,
    late: Vec<Injection>,
    sender: Option<String>,
    facts: &mut Vec<SessionEvent>,
) -> (wanted: Wanted)
    requires
        old(s).step < u32::MAX,
        old(facts).deep_view() == Seq::<SessionEventView>::empty(),
    ensures
        ({
            let m = queued(old(s).deep_view(), late.deep_view(), sender.deep_view());
            &&& final(s).deep_view() == m.state
            &&& final(facts).deep_view() == m.facts
            &&& wanted.deep_view() == m.wanted
        }),
{
    let ghost d = s.decision.deep_view();
    put_injections(s.turn, &s.decision.injections, facts);
    if s.step == 0 {
        put_injections(s.turn, &late, facts);
    }
    assert(facts.deep_view() =~= injected(
        s.turn,
        if s.step == 0 {
            d.injections + late.deep_view()
        } else {
            d.injections
        },
    ));
    s.answering_a_nudge = s.decision.origin == MessageOrigin::Internal
        && s.decision.message.is_some();
    match &s.decision.message {
        Some(text) => {
            put(
                facts,
                make_message_fact(
                    s.turn,
                    text.clone(),
                    s.decision.origin,
                    s.decision.images.dup(),
                    sender,
                ),
            );
        },
        None => {},
    }
    enter(s, facts)
}

fn on_assembled(
    s: &mut TurnState,
    checked: bool,
    unexplained: Vec<String>,
    model: String,
    facts: &mut Vec<SessionEvent>,
) -> (wanted: Wanted)
    requires
        old(facts).deep_view() == Seq::<SessionEventView>::empty(),
    ensures
        ({
            let m = assembled(old(s).deep_view(), checked, unexplained.deep_view(), model@);
            &&& final(s).deep_view() == m.state
            &&& final(facts).deep_view() == m.facts
            &&& wanted.deep_view() == m.wanted
        }),
{
    if checked && unexplained.len() > 0 {
        let what = lit("model-visible content is not in the session log: ").concat(
            join(&unexplained, "; ").as_str(),
        );
        end(s, StopReason::InvariantViolated, Some(what))
    } else {
        let reason = if s.decision.starts_request_series {
            HeaderReason::Series
        } else {
            HeaderReason::Append
        };
        put(facts, SessionEvent::RequestHeader { turn: s.turn, round: s.step, model, reason });
        assert(facts.deep_view() =~= seq![facts.deep_view()[0]]);
        s.phase = Phase::Requesting;
        Wanted::Request { answering_a_nudge: s.answering_a_nudge }
    }
}

/// The greatest request id any logged answer holds; zero where none holds one.
pub fn last_request_id(events: &Vec<LoggedEvent>) -> (r: u64)
    ensures
        r == greatest_id(events.deep_view()),
{
    let ghost all = events.deep_view();
    let mut r: u64 = 0;
    let mut i: usize = 0;
    assert(all.take(0).len() == 0);
    while i < events.len()
        invariant
            i <= events.len(),
            all == events.deep_view(),
            r == greatest_id(all.take(i as int)),
        decreases events.len() - i,
    {
        assert(all.take(i + 1).drop_last() =~= all.take(i as int));
        assert(all.take(i + 1).last() == events@[i as int].deep_view());
        match &events[i].event {
            SessionEvent::AssistantMessage { meta: Some(m), .. } => {
                if m.request_id > r {
                    r = m.request_id;
                }
            },
            _ => {},
        }
        i = i + 1;
    }
    assert(all.take(i as int) =~= all);
    r
}

/// The stats a stored answer carries about the response behind it. Its id is one past
/// the greatest that [`last_request_id`] finds in the log.
pub fn response_meta(
    response: &ModelResponse,
    stats: &ReplyStats,
    turn: u64,
    round: u32,
) -> (meta: MessageMeta)
    requires
        stats.last_request_id < u64::MAX,
    ensures
        meta.deep_view() == meta_of(response.deep_view(), stats.deep_view(), turn, round),
{
    let tokens = match response.usage {
        Some(u) => u,
        None => TokenUsage { prompt: 0, completion: 0, cached: 0 },
    };
    let finish = if response.tool_calls.len() > 0 {
        lit("tool_calls")
    } else if response.truncated {
        lit("length")
    } else {
        lit("stop")
    };
    MessageMeta {
        tokens,
        elapsed_ms: stats.elapsed_ms,
        ctx_window: stats.ctx_window,
        used_tokens: tokens.prompt,
        round,
        turn_id: turn,
        request_id: stats.last_request_id + 1,
        session_id: Some(stats.session.clone()),
        finish_reason: finish,
    }
}

fn on_answered(
    s: &mut TurnState,
    r: ModelResponse,
    st: ReplyStats,
    facts: &mut Vec<SessionEvent>,
) -> (wanted: Wanted)
    requires
        old(facts).deep_view() == Seq::<SessionEventView>::empty(),
        old(s).tool_calls + r.tool_calls.len() <= u32::MAX,
        st.last_request_id < u64::MAX,
    ensures
        ({
            let m = answered(old(s).deep_view(), r.deep_view(), st.deep_view());
            &&& final(s).deep_view() == m.state
            &&& final(facts).deep_view() == m.facts
            &&& wanted.deep_view() == m.wanted
        }),
{
    let meta = response_meta(&r, &st, s.turn, s.step);
    match r.usage {
        Some(usage) => {
            s.used_tokens = usage.prompt;
            put(facts, SessionEvent::Usage { turn: s.turn, round: s.step, usage });
        },
        None => {},
    }
    put(
        facts,
        SessionEvent::AssistantMessage {
            turn: s.turn,
            round: s.step,
            text: r.text.clone(),
            reasoning: r.reasoning,
            tool_calls: r.tool_calls.dup(),
            meta: Some(meta),
        },
    );
    assert(facts.deep_view() =~= answer_facts(
        old(s).deep_view(),
        r.deep_view(),
        st.deep_view(),
    ));
    let calls: u32 = r.tool_calls.len() as u32;
    if !r.text.as_str().is_empty() {
        s.text = r.text;
    }
    s.tool_calls = s.tool_calls + calls;
    s.round_calls = calls;
    s.owes_a_request = calls > 0 || r.truncated;
    assert(r.deep_view().tool_calls.len() == r.tool_calls.len());
    if calls == 0 {
        s.phase = Phase::Pausing;
        put(
            facts,
            SessionEvent::StepEnd { turn: s.turn, step: s.step, tool_calls: s.round_calls },
        );
        Wanted::Pause
    } else {
        s.phase = Phase::Running;
        Wanted::Run { calls: r.tool_calls }
    }
}

fn stalled(code: &Option<String>) -> (r: bool)
    ensures
        r == (code.deep_view() == Some(STREAM_IDLE_CODE@)),
{
    match code {
        Some(c) => same(c.as_str(), STREAM_IDLE_CODE),
        None => false,
    }
}

fn on_refused(s: &mut TurnState, e: RequestError, facts: &mut Vec<SessionEvent>) -> (wanted: Wanted)
    requires
        old(facts).deep_view() == Seq::<SessionEventView>::empty(),
    ensures
        ({
            let m = refused(old(s).deep_view(), e.deep_view());
            &&& final(s).deep_view() == m.state
            &&& final(facts).deep_view() == m.facts
            &&& wanted.deep_view() == m.wanted
        }),
{
    if e.empty_response && s.answering_a_nudge {
        return end(s, StopReason::Stopped, None);
    }
    match e.rate_limit_pause {
        Some(pause) => {
            put(facts, SessionEvent::RateLimitPaused { turn: s.turn, pause });
            assert(facts.deep_view() =~= seq![facts.deep_view()[0]]);
            end(s, StopReason::RateLimited, None)
        },
        None => {
            let stop = if stalled(&e.code) {
                StopReason::Timeout
            } else {
                StopReason::ProviderError
            };
            end(s, stop, Some(e.message))
        },
    }
}

fn on_ran(s: &mut TurnState, results: Vec<ToolResult>, facts: &mut Vec<SessionEvent>) -> (wanted:
    Wanted)
    requires
        old(facts).deep_view() == Seq::<SessionEventView>::empty(),
    ensures
        ({
            let m = ran(old(s).deep_view(), results.deep_view());
            &&& final(s).deep_view() == m.state
            &&& final(facts).deep_view() == m.facts
            &&& wanted.deep_view() == m.wanted
        }),
{
    let ghost all = result_facts(s.turn, s.step, results.deep_view());
    let mut i: usize = 0;
    assert(facts.deep_view() =~= all.take(0));
    while i < results.len()
        invariant
            i <= results.len(),
            all == result_facts(s.turn, s.step, results.deep_view()),
            s.deep_view() == old(s).deep_view(),
            facts.deep_view() == all.take(i as int),
        decreases results.len() - i,
    {
        let one = results[i].dup();
        put(
            facts,
            SessionEvent::ToolResultLogged {
                turn: s.turn,
                round: s.step,
                call_id: one.call_id,
                content: one.content,
                is_error: one.is_error,
                images: one.images,
            },
        );
        assert(facts.deep_view() =~= all.take(i + 1));
        i = i + 1;
    }
    assert(all.take(i as int) =~= all);
    s.phase = Phase::Pausing;
    put(
        facts,
        SessionEvent::StepEnd { turn: s.turn, step: s.step, tool_calls: s.round_calls },
    );
    Wanted::Pause
}

fn on_replied(s: &mut TurnState, reply: Reply, facts: &mut Vec<SessionEvent>) -> (wanted: Wanted)
    requires
        old(facts).deep_view() == Seq::<SessionEventView>::empty(),
        countable(old(s).deep_view(), (HappenedView::Replied { reply: reply.deep_view() })),
    ensures
        ({
            let m = replied(old(s).deep_view(), reply.deep_view());
            &&& final(s).deep_view() == m.state
            &&& final(facts).deep_view() == m.facts
            &&& wanted.deep_view() == m.wanted
        }),
{
    match reply {
        Reply::Cancelled => end(s, StopReason::Cancelled, None),
        Reply::Answered { response, stats } => {
            assert(response.deep_view().tool_calls.len() == response.tool_calls.len());
            on_answered(s, response, stats, facts)
        },
        Reply::Failed { error } => on_refused(s, error, facts),
    }
}

fn on_paused(s: &mut TurnState, cancelled: bool, waking: bool, elapsed_secs: u64) -> (wanted:
    Wanted)
    ensures
        ({
            let m = paused(old(s).deep_view(), cancelled, waking, elapsed_secs);
            &&& final(s).deep_view() == m.state
            &&& m.facts == Seq::<SessionEventView>::empty()
            &&& wanted.deep_view() == m.wanted
        }),
{
    if cancelled {
        end(s, StopReason::Cancelled, None)
    } else {
        s.phase = Phase::Judging;
        Wanted::Judge {
            progress: TurnProgress {
                turn: s.turn,
                rounds: s.step,
                tool_calls: s.tool_calls,
                used_tokens: s.used_tokens,
                elapsed_secs,
                continuing: s.owes_a_request || waking,
            },
        }
    }
}

fn on_judged(
    s: &mut TurnState,
    max_rounds: u32,
    verdict: Option<StopReason>,
    waking: bool,
) -> (wanted: Wanted)
    ensures
        ({
            let m = judged(old(s).deep_view(), max_rounds, verdict, waking);
            &&& final(s).deep_view() == m.state
            &&& m.facts == Seq::<SessionEventView>::empty()
            &&& wanted.deep_view() == m.wanted
        }),
{
    match verdict {
        Some(stop) => end(s, stop, None),
        None => {
            if !s.owes_a_request && !waking {
                end(s, StopReason::Stopped, None)
            } else if s.step >= max_rounds {
                end(s, StopReason::RunawayFuse, None)
            } else {
                s.phase = Phase::Claiming;
                Wanted::Claim
            }
        },
    }
}

fn on_closing(s: &mut TurnState, undo: bool, interrupted: bool, facts: &mut Vec<SessionEvent>) -> (
wanted: Wanted)
    requires
        old(facts).deep_view() == Seq::<SessionEventView>::empty(),
    ensures
        ({
            let m = closing(old(s).deep_view(), undo, interrupted);
            &&& final(s).deep_view() == m.state
            &&& final(facts).deep_view() == m.facts
            &&& wanted.deep_view() == m.wanted
        }),
{
    if s.stop == StopReason::Cancelled && interrupted {
        put(facts, SessionEvent::Interrupted { turn: s.turn, undone: undo });
        assert(facts.deep_view() =~= seq![facts.deep_view()[0]]);
    }
    s.phase = Phase::Finishing;
    Wanted::Finish { outcome: outcome(s) }
}

fn on_finished(s: &mut TurnState, facts: &mut Vec<SessionEvent>) -> (wanted: Wanted)
    requires
        old(facts).deep_view() == Seq::<SessionEventView>::empty(),
    ensures
        ({
            let m = finished(old(s).deep_view());
            &&& final(s).deep_view() == m.state
            &&& final(facts).deep_view() == m.facts
            &&& wanted.deep_view() == m.wanted
        }),
{
    put(
        facts,
        SessionEvent::TurnEnd { turn: s.turn, stop: s.stop, error: s.error.dup() },
    );
    assert(facts.deep_view() =~= seq![facts.deep_view()[0]]);
    s.phase = Phase::Over;
    Wanted::Done { outcome: outcome(s) }
}

fn outcome(s: &TurnState) -> (r: TurnOutcome)
    ensures
        r.deep_view() == outcome_of(s.deep_view()),
{
    TurnOutcome {
        turn: s.turn,
        steps: s.step,
        rounds: s.step,
        tool_calls: s.tool_calls,
        stop: s.stop,
        text: s.text.clone(),
        error: s.error.dup(),
    }
}

impl TurnState {
    /// Opens turn number `turn`. The fact that it did is the first one to commit.
    pub fn open(turn: u64) -> (r: (TurnState, SessionEvent))
        ensures
            r.0.deep_view() == opened(turn),
            r.1.deep_view() == (SessionEventView::TurnStart { turn }),
    {
        let s = TurnState {
            phase: Phase::Claiming,
            turn,
            step: 0,
            tool_calls: 0,
            round_calls: 0,
            used_tokens: 0,
            stop: StopReason::Stopped,
            text: String::new(),
            error: None,
            decision: StepDecision {
                turn,
                step: 0,
                message: None,
                origin: MessageOrigin::User,
                images: none_of(),
                injections: none_of(),
                rejected: None,
                starts_request_series: true,
            },
            answering_a_nudge: false,
            owes_a_request: false,
        };
        (s, SessionEvent::TurnStart { turn })
    }

    /// Takes in what happened: the facts to commit, in order, and what to do next.
    pub fn step(&mut self, row: &LoopRow, event: Happened) -> (out: (Vec<SessionEvent>, Wanted))
        requires
            within_fuse(old(self).deep_view(), row.max_rounds),
            countable(old(self).deep_view(), event.deep_view()),
        ensures
            ({
                let m = next_move(old(self).deep_view(), *row, event.deep_view());
                &&& final(self).deep_view() == m.state
                &&& out.0.deep_view() == m.facts
                &&& out.1.deep_view() == m.wanted
            }),
            within_fuse(final(self).deep_view(), row.max_rounds),
    {
        let mut facts: Vec<SessionEvent> = none_of();
        let phase = self.phase;
        let wanted = match event {
            Happened::Claimed { claim } => if phase == Phase::Claiming {
                on_claimed(self, claim, &mut facts)
            } else {
                Wanted::Nothing
            },
            Happened::Screened { decision } => if phase == Phase::Screening {
                on_screened(self, decision)
            } else {
                Wanted::Nothing
            },
            Happened::Queued { late, sender } => if phase == Phase::Announcing {
                on_queued(self, late, sender, &mut facts)
            } else {
                Wanted::Nothing
            },
            Happened::Assembled { unexplained, model } => if phase == Phase::Assembling {
                on_assembled(self, row.verify_log_invariant, unexplained, model, &mut facts)
            } else {
                Wanted::Nothing
            },
            Happened::Replied { reply } => if phase == Phase::Requesting {
                on_replied(self, reply, &mut facts)
            } else {
                Wanted::Nothing
            },
            Happened::Ran { results } => if phase == Phase::Running {
                on_ran(self, results, &mut facts)
            } else {
                Wanted::Nothing
            },
            Happened::Paused { cancelled, waking, elapsed_secs } => if phase == Phase::Pausing {
                on_paused(self, cancelled, waking, elapsed_secs)
            } else {
                Wanted::Nothing
            },
            Happened::Judged { verdict, waking } => if phase == Phase::Judging {
                on_judged(self, row.max_rounds, verdict, waking)
            } else {
                Wanted::Nothing
            },
            Happened::Closing { interrupted } => if phase == Phase::Closing {
                on_closing(self, row.undo_cancelled, interrupted, &mut facts)
            } else {
                Wanted::Nothing
            },
            Happened::Finished => if phase == Phase::Finishing {
                on_finished(self, &mut facts)
            } else {
                Wanted::Nothing
            },
        };
        (facts, wanted)
    }
}

// ---- before a turn --------------------------------------------------------

/// A turn in which nothing happened.
pub open spec fn quiet(stop: StopReason, error: Option<Seq<char>>) -> TurnOutcomeView {
    TurnOutcomeView {
        turn: 0,
        steps: 0,
        rounds: 0,
        tool_calls: 0,
        stop,
        text: Seq::empty(),
        error,
    }
}

/// What comes of driving an agent before any turn is opened: without a model nothing
/// can run, and without waking input there is no turn, no log entry and no cost.
pub fn before_turn(has_model: bool, waking: bool) -> (r: Option<TurnOutcome>)
    ensures
        r.deep_view() == (if !has_model {
            Some(quiet(StopReason::ProviderError, Some("no llm provider"@)))
        } else if !waking {
            Some(quiet(StopReason::Stopped, None))
        } else {
            None
        }),
{
    let text = String::new();
    assert(text@ =~= Seq::empty());
    if !has_model {
        Some(
            TurnOutcome {
                turn: 0,
                steps: 0,
                rounds: 0,
                tool_calls: 0,
                stop: StopReason::ProviderError,
                text,
                error: Some(lit("no llm provider")),
            },
        )
    } else if !waking {
        Some(
            TurnOutcome {
                turn: 0,
                steps: 0,
                rounds: 0,
                tool_calls: 0,
                stop: StopReason::Stopped,
                text,
                error: None,
            },
        )
    } else {
        None
    }
}

} // verus!
