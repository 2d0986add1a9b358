//! What passes between a turn and the world that runs it.
use crate::data::Dup;
use crate::events::{
    InjectionOrigin, InjectionOriginView, RateLimitPause, RateLimitPauseView, StopReason,
    TokenUsage, ToolCall, ToolCallView, ToolResult, ToolResultView,
};
use vstd::prelude::*;

verus! {

/// Who put a message in an inbox.
#[derive(Clone, Copy, Debug, PartialEq, Eq, Structural)]
pub enum MessageOrigin {
    /// A person.
    User,
    /// The harness, scheduling a continuation the person knows of.
    Harness,
    /// The harness, with a nudge nobody else wrote.
    Internal,
    /// Another agent, by its registry id.
    Peer(u64),
}

impl DeepView for MessageOrigin {
    type V = MessageOrigin;

    open spec fn deep_view(&self) -> MessageOrigin {
        *self
    }
}

impl Dup for MessageOrigin {
    fn dup(&self) -> (r: Self) {
        *self
    }
}

/// A piece of context waiting for the next message.
#[derive(Debug, PartialEq, Eq)]
pub struct Injection {
    pub text: String,
    pub origin: InjectionOrigin,
}

/// What a [`Injection`] holds.
#[verifier::ext_equal]
pub struct InjectionView {
    pub text: Seq<char>,
    pub origin: InjectionOriginView,
}

impl DeepView for Injection {
    type V = InjectionView;

    open spec fn deep_view(&self) -> InjectionView {
        InjectionView {
            text: self.text.deep_view(),
            origin: self.origin.deep_view(),
        }
    }
}

impl Dup for Injection {
    fn dup(&self) -> (r: Self) {
        Injection {
            text: self.text.dup(),
            origin: self.origin.dup(),
        }
    }
}

impl Clone for Injection {
    fn clone(&self) -> (r: Self)
        ensures
            r.deep_view() == self.deep_view(),
    {
        self.dup()
    }
}

/// What was taken from an inbox: at most one message, and the context queued with it.
#[derive(Debug, PartialEq, Eq)]
pub struct Claim {
    pub message: Option<String>,
    pub origin: MessageOrigin,
    pub images: Vec<String>,
    pub injections: Vec<Injection>,
}

/// What a [`Claim`] holds.
#[verifier::ext_equal]
pub struct ClaimView {
    pub message: Option<Seq<char>>,
    pub origin: MessageOrigin,
    pub images: Seq<Seq<char>>,
    pub injections: Seq<InjectionView>,
}

impl DeepView for Claim {
    type V = ClaimView;

    open spec fn deep_view(&self) -> ClaimView {
        ClaimView {
            message: self.message.deep_view(),
            origin: self.origin.deep_view(),
            images: self.images.deep_view(),
            injections: self.injections.deep_view(),
        }
    }
}

impl Dup for Claim {
    fn dup(&self) -> (r: Self) {
        Claim {
            message: self.message.dup(),
            origin: self.origin.dup(),
            images: self.images.dup(),
            injections: self.injections.dup(),
        }
    }
}

impl Clone for Claim {
    fn clone(&self) -> (r: Self)
        ensures
            r.deep_view() == self.deep_view(),
    {
        self.dup()
    }
}

/// What a step would send, open to being rewritten or refused.
#[derive(Debug, PartialEq, Eq)]
pub struct StepDecision {
    pub turn: u64,
    pub step: u32,
    pub message: Option<String>,
    pub origin: MessageOrigin,
    pub images: Vec<String>,
    pub injections: Vec<Injection>,
    /// Why the step may not run.
    pub rejected: Option<String>,
    pub starts_request_series: bool,
}

/// What a [`StepDecision`] holds.
#[verifier::ext_equal]
pub struct StepDecisionView {
    pub turn: u64,
    pub step: u32,
    pub message: Option<Seq<char>>,
    pub origin: MessageOrigin,
    pub images: Seq<Seq<char>>,
    pub injections: Seq<InjectionView>,
    pub rejected: Option<Seq<char>>,
    pub starts_request_series: bool,
}

impl DeepView for StepDecision {
    type V = StepDecisionView;

    open spec fn deep_view(&self) -> StepDecisionView {
        StepDecisionView {
            turn: self.turn.deep_view(),
            step: self.step.deep_view(),
            message: self.message.deep_view(),
            origin: self.origin.deep_view(),
            images: self.images.deep_view(),
            injections: self.injections.deep_view(),
            rejected: self.rejected.deep_view(),
            starts_request_series: self.starts_request_series.deep_view(),
        }
    }
}

impl Dup for StepDecision {
    fn dup(&self) -> (r: Self) {
        StepDecision {
            turn: self.turn.dup(),
            step: self.step.dup(),
            message: self.message.dup(),
            origin: self.origin.dup(),
            images: self.images.dup(),
            injections: self.injections.dup(),
            rejected: self.rejected.dup(),
            starts_request_series: self.starts_request_series.dup(),
        }
    }
}

impl Clone for StepDecision {
    fn clone(&self) -> (r: Self)
        ensures
            r.deep_view() == self.deep_view(),
    {
        self.dup()
    }
}

/// One finished answer.
#[derive(Debug, PartialEq, Eq)]
pub struct ModelResponse {
    pub text: String,
    pub reasoning: String,
    pub tool_calls: Vec<ToolCall>,
    pub usage: Option<TokenUsage>,
    /// Cut off at the output limit.
    pub truncated: bool,
}

/// What a [`ModelResponse`] holds.
#[verifier::ext_equal]
pub struct ModelResponseView {
    pub text: Seq<char>,
    pub reasoning: Seq<char>,
    pub tool_calls: Seq<ToolCallView>,
    pub usage: Option<TokenUsage>,
    pub truncated: bool,
}

impl DeepView for ModelResponse {
    type V = ModelResponseView;

    open spec fn deep_view(&self) -> ModelResponseView {
        ModelResponseView {
            text: self.text.deep_view(),
            reasoning: self.reasoning.deep_view(),
            tool_calls: self.tool_calls.deep_view(),
            usage: self.usage.deep_view(),
            truncated: self.truncated.deep_view(),
        }
    }
}

impl Dup for ModelResponse {
    fn dup(&self) -> (r: Self) {
        ModelResponse {
            text: self.text.dup(),
            reasoning: self.reasoning.dup(),
            tool_calls: self.tool_calls.dup(),
            usage: self.usage.dup(),
            truncated: self.truncated.dup(),
        }
    }
}

impl Clone for ModelResponse {
    fn clone(&self) -> (r: Self)
        ensures
            r.deep_view() == self.deep_view(),
    {
        self.dup()
    }
}

/// Why a request gave no answer.
#[derive(Debug, PartialEq, Eq)]
pub struct RequestError {
    pub message: String,
    pub retryable: bool,
    pub fatal: bool,
    /// The provider answered with neither text nor calls.
    pub empty_response: bool,
    pub rate_limited: bool,
    pub context_overflow: bool,
    pub code: Option<String>,
    /// How long the server asked to wait.
    pub retry_after_ms: Option<u64>,
    pub rate_limit_pause: Option<RateLimitPause>,
    /// What had streamed before the failure.
    pub partial: Option<ModelResponse>,
}

/// What a [`RequestError`] holds.
#[verifier::ext_equal]
pub struct RequestErrorView {
    pub message: Seq<char>,
    pub retryable: bool,
    pub fatal: bool,
    pub empty_response: bool,
    pub rate_limited: bool,
    pub context_overflow: bool,
    pub code: Option<Seq<char>>,
    pub retry_after_ms: Option<u64>,
    pub rate_limit_pause: Option<RateLimitPauseView>,
    pub partial: Option<ModelResponseView>,
}

impl DeepView for RequestError {
    type V = RequestErrorView;

    open spec fn deep_view(&self) -> RequestErrorView {
        RequestErrorView {
            message: self.message.deep_view(),
            retryable: self.retryable.deep_view(),
            fatal: self.fatal.deep_view(),
            empty_response: self.empty_response.deep_view(),
            rate_limited: self.rate_limited.deep_view(),
            context_overflow: self.context_overflow.deep_view(),
            code: self.code.deep_view(),
            retry_after_ms: self.retry_after_ms.deep_view(),
            rate_limit_pause: self.rate_limit_pause.deep_view(),
            partial: self.partial.deep_view(),
        }
    }
}

impl Dup for RequestError {
    fn dup(&self) -> (r: Self) {
        RequestError {
            message: self.message.dup(),
            retryable: self.retryable.dup(),
            fatal: self.fatal.dup(),
            empty_response: self.empty_response.dup(),
            rate_limited: self.rate_limited.dup(),
            context_overflow: self.context_overflow.dup(),
            code: self.code.dup(),
            retry_after_ms: self.retry_after_ms.dup(),
            rate_limit_pause: self.rate_limit_pause.dup(),
            partial: self.partial.dup(),
        }
    }
}

impl Clone for RequestError {
    fn clone(&self) -> (r: Self)
        ensures
            r.deep_view() == self.deep_view(),
    {
        self.dup()
    }
}

/// What is measured around an answer.
#[derive(Debug, PartialEq, Eq)]
pub struct ReplyStats {
    /// The highest request id any logged answer holds.
    pub last_request_id: u64,
    pub elapsed_ms: u64,
    pub ctx_window: u32,
    pub session: String,
}

/// What a [`ReplyStats`] holds.
#[verifier::ext_equal]
pub struct ReplyStatsView {
    pub last_request_id: u64,
    pub elapsed_ms: u64,
    pub ctx_window: u32,
    pub session: Seq<char>,
}

impl DeepView for ReplyStats {
    type V = ReplyStatsView;

    open spec fn deep_view(&self) -> ReplyStatsView {
        ReplyStatsView {
            last_request_id: self.last_request_id.deep_view(),
            elapsed_ms: self.elapsed_ms.deep_view(),
            ctx_window: self.ctx_window.deep_view(),
            session: self.session.deep_view(),
        }
    }
}

impl Dup for ReplyStats {
    fn dup(&self) -> (r: Self) {
        ReplyStats {
            last_request_id: self.last_request_id.dup(),
            elapsed_ms: self.elapsed_ms.dup(),
            ctx_window: self.ctx_window.dup(),
            session: self.session.dup(),
        }
    }
}

impl Clone for ReplyStats {
    fn clone(&self) -> (r: Self)
        ensures
            r.deep_view() == self.deep_view(),
    {
        self.dup()
    }
}

/// How a request came back.
#[derive(Debug, PartialEq, Eq)]
pub enum Reply {
    /// The turn was stopped before the answer came.
    Cancelled,
    Answered { response: ModelResponse, stats: ReplyStats },
    Failed { error: RequestError },
}

/// What a [`Reply`] holds.
#[verifier::ext_equal]
pub enum ReplyView {
    Cancelled,
    Answered { response: ModelResponseView, stats: ReplyStatsView },
    Failed { error: RequestErrorView },
}

impl DeepView for Reply {
    type V = ReplyView;

    open spec fn deep_view(&self) -> ReplyView {
        match self {
            Reply::Cancelled => ReplyView::Cancelled,
            Reply::Answered { response, stats } => ReplyView::Answered {
                response: response.deep_view(),
                stats: stats.deep_view(),
            },
            Reply::Failed { error } => ReplyView::Failed {
                error: error.deep_view(),
            },
        }
    }
}

impl Dup for Reply {
    fn dup(&self) -> (r: Self) {
        match self {
            Reply::Cancelled => Reply::Cancelled,
            Reply::Answered { response, stats } => Reply::Answered {
                response: response.dup(),
                stats: stats.dup(),
            },
            Reply::Failed { error } => Reply::Failed {
                error: error.dup(),
            },
        }
    }
}

impl Clone for Reply {
    fn clone(&self) -> (r: Self)
        ensures
            r.deep_view() == self.deep_view(),
    {
        self.dup()
    }
}

/// What a turn came to.
#[derive(Debug, PartialEq, Eq)]
pub struct TurnOutcome {
    pub turn: u64,
    pub steps: u32,
    pub rounds: u32,
    pub tool_calls: u32,
    pub stop: StopReason,
    /// The last thing the model said.
    pub text: String,
    pub error: Option<String>,
}

/// What a [`TurnOutcome`] holds.
#[verifier::ext_equal]
pub struct TurnOutcomeView {
    pub turn: u64,
    pub steps: u32,
    pub rounds: u32,
    pub tool_calls: u32,
    pub stop: StopReason,
    pub text: Seq<char>,
    pub error: Option<Seq<char>>,
}

impl DeepView for TurnOutcome {
    type V = TurnOutcomeView;

    open spec fn deep_view(&self) -> TurnOutcomeView {
        TurnOutcomeView {
            turn: self.turn.deep_view(),
            steps: self.steps.deep_view(),
            rounds: self.rounds.deep_view(),
            tool_calls: self.tool_calls.deep_view(),
            stop: self.stop.deep_view(),
            text: self.text.deep_view(),
            error: self.error.deep_view(),
        }
    }
}

impl Dup for TurnOutcome {
    fn dup(&self) -> (r: Self) {
        TurnOutcome {
            turn: self.turn.dup(),
            steps: self.steps.dup(),
            rounds: self.rounds.dup(),
            tool_calls: self.tool_calls.dup(),
            stop: self.stop.dup(),
            text: self.text.dup(),
            error: self.error.dup(),
        }
    }
}

impl Clone for TurnOutcome {
    fn clone(&self) -> (r: Self)
        ensures
            r.deep_view() == self.deep_view(),
    {
        self.dup()
    }
}

/// How far a turn has come, for whoever may stop it.
#[derive(Clone, Copy, Debug, PartialEq, Eq, Structural)]
pub struct TurnProgress {
    pub turn: u64,
    pub rounds: u32,
    pub tool_calls: u32,
    pub used_tokens: u32,
    pub elapsed_secs: u64,
    /// The turn would go on by itself.
    pub continuing: bool,
}

impl DeepView for TurnProgress {
    type V = TurnProgress;

    open spec fn deep_view(&self) -> TurnProgress {
        *self
    }
}

impl Dup for TurnProgress {
    fn dup(&self) -> (r: Self) {
        *self
    }
}

/// What the world reports back to a turn.
#[derive(Debug, PartialEq, Eq)]
pub enum Happened {
    /// The inbox was read.
    Claimed { claim: Claim },
    /// Whoever may rewrite or refuse a step has had a say.
    Screened { decision: StepDecision },
    /// The turn was announced. `late` is the context queued in reply; `sender` the session
    /// id of the peer whose message this is, where it is still registered.
    Queued { late: Vec<Injection>, sender: Option<String> },
    /// The request was put together. `unexplained` is what in it is not in the log.
    Assembled { unexplained: Vec<String>, model: String },
    /// The request came back.
    Replied { reply: Reply },
    /// The calls came back, in the order they were asked for.
    Ran { results: Vec<ToolResult> },
    /// The runtime had a turn of its own.
    Paused { cancelled: bool, waking: bool, elapsed_secs: u64 },
    /// Whoever may stop the turn has had a say.
    Judged { verdict: Option<StopReason>, waking: bool },
    /// The turn is over; `interrupted` where a person cut it off.
    Closing { interrupted: bool },
    /// Whoever finishes up after a turn has done so.
    Finished,
}

/// What a [`Happened`] holds.
#[verifier::ext_equal]
pub enum HappenedView {
    Claimed { claim: ClaimView },
    Screened { decision: StepDecisionView },
    Queued { late: Seq<InjectionView>, sender: Option<Seq<char>> },
    Assembled { unexplained: Seq<Seq<char>>, model: Seq<char> },
    Replied { reply: ReplyView },
    Ran { results: Seq<ToolResultView> },
    Paused { cancelled: bool, waking: bool, elapsed_secs: u64 },
    Judged { verdict: Option<StopReason>, waking: bool },
    Closing { interrupted: bool },
    Finished,
}

impl DeepView for Happened {
    type V = HappenedView;

    open spec fn deep_view(&self) -> HappenedView {
        match self {
            Happened::Claimed { claim } => HappenedView::Claimed {
                claim: claim.deep_view(),
            },
            Happened::Screened { decision } => HappenedView::Screened {
                decision: decision.deep_view(),
            },
            Happened::Queued { late, sender } => HappenedView::Queued {
                late: late.deep_view(),
                sender: sender.deep_view(),
            },
            Happened::Assembled { unexplained, model } => HappenedView::Assembled {
                unexplained: unexplained.deep_view(),
                model: model.deep_view(),
            },
            Happened::Replied { reply } => HappenedView::Replied {
                reply: reply.deep_view(),
            },
            Happened::Ran { results } => HappenedView::Ran {
                results: results.deep_view(),
            },
            Happened::Paused { cancelled, waking, elapsed_secs } => HappenedView::Paused {
                cancelled: cancelled.deep_view(),
                waking: waking.deep_view(),
                elapsed_secs: elapsed_secs.deep_view(),
            },
            Happened::Judged { verdict, waking } => HappenedView::Judged {
                verdict: verdict.deep_view(),
                waking: waking.deep_view(),
            },
            Happened::Closing { interrupted } => HappenedView::Closing {
                interrupted: interrupted.deep_view(),
            },
            Happened::Finished => HappenedView::Finished,
        }
    }
}

impl Dup for Happened {
    fn dup(&self) -> (r: Self) {
        match self {
            Happened::Claimed { claim } => Happened::Claimed {
                claim: claim.dup(),
            },
            Happened::Screened { decision } => Happened::Screened {
                decision: decision.dup(),
            },
            Happened::Queued { late, sender } => Happened::Queued {
                late: late.dup(),
                sender: sender.dup(),
            },
            Happened::Assembled { unexplained, model } => Happened::Assembled {
                unexplained: unexplained.dup(),
                model: model.dup(),
            },
            Happened::Replied { reply } => Happened::Replied {
                reply: reply.dup(),
            },
            Happened::Ran { results } => Happened::Ran {
                results: results.dup(),
            },
            Happened::Paused { cancelled, waking, elapsed_secs } => Happened::Paused {
                cancelled: cancelled.dup(),
                waking: waking.dup(),
                elapsed_secs: elapsed_secs.dup(),
            },
            Happened::Judged { verdict, waking } => Happened::Judged {
                verdict: verdict.dup(),
                waking: waking.dup(),
            },
            Happened::Closing { interrupted } => Happened::Closing {
                interrupted: interrupted.dup(),
            },
            Happened::Finished => Happened::Finished,
        }
    }
}

impl Clone for Happened {
    fn clone(&self) -> (r: Self)
        ensures
            r.deep_view() == self.deep_view(),
    {
        self.dup()
    }
}

/// What a turn asks the world to do next.
#[derive(Debug, PartialEq, Eq)]
pub enum Wanted {
    /// Read the inbox.
    Claim,
    /// Let the step be rewritten or refused.
    Screen { decision: StepDecision },
    /// Announce the turn where `prompt` is given, then read the queued context.
    Announce { prompt: Option<String>, peer: Option<u64> },
    /// Put the request together from the log.
    Assemble,
    /// Send it.
    Request { answering_a_nudge: bool },
    /// Run the calls.
    Run { calls: Vec<ToolCall> },
    /// Give the runtime a turn of its own.
    Pause,
    /// Ask whoever may stop the turn.
    Judge { progress: TurnProgress },
    /// Say whether a person cut the turn off.
    Close,
    /// Let whoever finishes up after a turn do so.
    Finish { outcome: TurnOutcome },
    /// Nothing more: the turn is over.
    Done { outcome: TurnOutcome },
    /// Nothing: the turn was not waiting for this.
    Nothing,
}

/// What a [`Wanted`] holds.
#[verifier::ext_equal]
pub enum WantedView {
    Claim,
    Screen { decision: StepDecisionView },
    Announce { prompt: Option<Seq<char>>, peer: Option<u64> },
    Assemble,
    Request { answering_a_nudge: bool },
    Run { calls: Seq<ToolCallView> },
    Pause,
    Judge { progress: TurnProgress },
    Close,
    Finish { outcome: TurnOutcomeView },
    Done { outcome: TurnOutcomeView },
    Nothing,
}

impl DeepView for Wanted {
    type V = WantedView;

    open spec fn deep_view(&self) -> WantedView {
        match self {
            Wanted::Claim => WantedView::Claim,
            Wanted::Screen { decision } => WantedView::Screen {
                decision: decision.deep_view(),
            },
            Wanted::Announce { prompt, peer } => WantedView::Announce {
                prompt: prompt.deep_view(),
                peer: peer.deep_view(),
            },
            Wanted::Assemble => WantedView::Assemble,
            Wanted::Request { answering_a_nudge } => WantedView::Request {
                answering_a_nudge: answering_a_nudge.deep_view(),
            },
            Wanted::Run { calls } => WantedView::Run {
                calls: calls.deep_view(),
            },
            Wanted::Pause => WantedView::Pause,
            Wanted::Judge { progress } => WantedView::Judge {
                progress: progress.deep_view(),
            },
            Wanted::Close => WantedView::Close,
            Wanted::Finish { outcome } => WantedView::Finish {
                outcome: outcome.deep_view(),
            },
            Wanted::Done { outcome } => WantedView::Done {
                outcome: outcome.deep_view(),
            },
            Wanted::Nothing => WantedView::Nothing,
        }
    }
}

impl Dup for Wanted {
    fn dup(&self) -> (r: Self) {
        match self {
            Wanted::Claim => Wanted::Claim,
            Wanted::Screen { decision } => Wanted::Screen {
                decision: decision.dup(),
            },
            Wanted::Announce { prompt, peer } => Wanted::Announce {
                prompt: prompt.dup(),
                peer: peer.dup(),
            },
            Wanted::Assemble => Wanted::Assemble,
            Wanted::Request { answering_a_nudge } => Wanted::Request {
                answering_a_nudge: answering_a_nudge.dup(),
            },
            Wanted::Run { calls } => Wanted::Run {
                calls: calls.dup(),
            },
            Wanted::Pause => Wanted::Pause,
            Wanted::Judge { progress } => Wanted::Judge {
                progress: progress.dup(),
            },
            Wanted::Close => Wanted::Close,
            Wanted::Finish { outcome } => Wanted::Finish {
                outcome: outcome.dup(),
            },
            Wanted::Done { outcome } => Wanted::Done {
                outcome: outcome.dup(),
            },
            Wanted::Nothing => Wanted::Nothing,
        }
    }
}

impl Clone for Wanted {
    fn clone(&self) -> (r: Self)
        ensures
            r.deep_view() == self.deep_view(),
    {
        self.dup()
    }
}

/// What a turn is waiting for.
#[derive(Clone, Copy, Debug, PartialEq, Eq, Structural)]
pub enum Phase {
    Claiming,
    Screening,
    Announcing,
    Assembling,
    Requesting,
    Running,
    Pausing,
    Judging,
    Closing,
    Finishing,
    Over,
}

impl DeepView for Phase {
    type V = Phase;

    open spec fn deep_view(&self) -> Phase {
        *self
    }
}

impl Dup for Phase {
    fn dup(&self) -> (r: Self) {
        *self
    }
}

/// A turn under way.
#[derive(Debug, PartialEq, Eq)]
pub struct TurnState {
    pub phase: Phase,
    pub turn: u64,
    /// Rounds begun so far.
    pub step: u32,
    /// Calls asked for so far.
    pub tool_calls: u32,
    /// Calls asked for in the round now running.
    pub round_calls: u32,
    /// Prompt tokens the provider last reported.
    pub used_tokens: u32,
    /// How the turn ended, once it has.
    pub stop: StopReason,
    /// The last thing the model said.
    pub text: String,
    pub error: Option<String>,
    /// What the round now running sends.
    pub decision: StepDecision,
    pub answering_a_nudge: bool,
    /// Results the model has not seen, or an answer cut short.
    pub owes_a_request: bool,
}

/// What a [`TurnState`] holds.
#[verifier::ext_equal]
pub struct TurnStateView {
    pub phase: Phase,
    pub turn: u64,
    pub step: u32,
    pub tool_calls: u32,
    pub round_calls: u32,
    pub used_tokens: u32,
    pub stop: StopReason,
    pub text: Seq<char>,
    pub error: Option<Seq<char>>,
    pub decision: StepDecisionView,
    pub answering_a_nudge: bool,
    pub owes_a_request: bool,
}

impl DeepView for TurnState {
    type V = TurnStateView;

    open spec fn deep_view(&self) -> TurnStateView {
        TurnStateView {
            phase: self.phase.deep_view(),
            turn: self.turn.deep_view(),
            step: self.step.deep_view(),
            tool_calls: self.tool_calls.deep_view(),
            round_calls: self.round_calls.deep_view(),
            used_tokens: self.used_tokens.deep_view(),
            stop: self.stop.deep_view(),
            text: self.text.deep_view(),
            error: self.error.deep_view(),
            decision: self.decision.deep_view(),
            answering_a_nudge: self.answering_a_nudge.deep_view(),
            owes_a_request: self.owes_a_request.deep_view(),
        }
    }
}

impl Dup for TurnState {
    fn dup(&self) -> (r: Self) {
        TurnState {
            phase: self.phase.dup(),
            turn: self.turn.dup(),
            step: self.step.dup(),
            tool_calls: self.tool_calls.dup(),
            round_calls: self.round_calls.dup(),
            used_tokens: self.used_tokens.dup(),
            stop: self.stop.dup(),
            text: self.text.dup(),
            error: self.error.dup(),
            decision: self.decision.dup(),
            answering_a_nudge: self.answering_a_nudge.dup(),
            owes_a_request: self.owes_a_request.dup(),
        }
    }
}

impl Clone for TurnState {
    fn clone(&self) -> (r: Self)
        ensures
            r.deep_view() == self.deep_view(),
    {
        self.dup()
    }
}

/// What a provider streams.
#[derive(Debug, PartialEq, Eq)]
pub enum StreamEvent {
    TextDelta(String),
    Reasoning(String),
    ToolCall(ToolCall),
    Usage(TokenUsage),
    Error(RequestError),
    Done { truncated: bool },
    /// Anything that does not change the answer.
    Other,
}

/// What a [`StreamEvent`] holds.
#[verifier::ext_equal]
pub enum StreamEventView {
    TextDelta(Seq<char>),
    Reasoning(Seq<char>),
    ToolCall(ToolCallView),
    Usage(TokenUsage),
    Error(RequestErrorView),
    Done { truncated: bool },
    Other,
}

impl DeepView for StreamEvent {
    type V = StreamEventView;

    open spec fn deep_view(&self) -> StreamEventView {
        match self {
            StreamEvent::TextDelta(x) => StreamEventView::TextDelta(x.deep_view()),
            StreamEvent::Reasoning(x) => StreamEventView::Reasoning(x.deep_view()),
            StreamEvent::ToolCall(x) => StreamEventView::ToolCall(x.deep_view()),
            StreamEvent::Usage(x) => StreamEventView::Usage(x.deep_view()),
            StreamEvent::Error(x) => StreamEventView::Error(x.deep_view()),
            StreamEvent::Done { truncated } => StreamEventView::Done {
                truncated: truncated.deep_view(),
            },
            StreamEvent::Other => StreamEventView::Other,
        }
    }
}

impl Dup for StreamEvent {
    fn dup(&self) -> (r: Self) {
        match self {
            StreamEvent::TextDelta(x) => StreamEvent::TextDelta(x.dup()),
            StreamEvent::Reasoning(x) => StreamEvent::Reasoning(x.dup()),
            StreamEvent::ToolCall(x) => StreamEvent::ToolCall(x.dup()),
            StreamEvent::Usage(x) => StreamEvent::Usage(x.dup()),
            StreamEvent::Error(x) => StreamEvent::Error(x.dup()),
            StreamEvent::Done { truncated } => StreamEvent::Done {
                truncated: truncated.dup(),
            },
            StreamEvent::Other => StreamEvent::Other,
        }
    }
}

impl Clone for StreamEvent {
    fn clone(&self) -> (r: Self)
        ensures
            r.deep_view() == self.deep_view(),
    {
        self.dup()
    }
}

} // verus!
