//! The facts a session is made of.
//!
//! A session is an append-only log of [`SessionEvent`]s. What the model sees, what
//! a screen shows and what a store keeps are all read off it.
use crate::data::Dup;
use vstd::prelude::*;

verus! {

/// How a turn came to its end.
#[derive(Clone, Copy, Debug, PartialEq, Eq, Structural)]
pub enum StopReason {
    /// The model had nothing more to do.
    Stopped,
    /// A round budget ran out.
    MaxRounds,
    /// A policy other than the round budget said so.
    StoppedByPolicy,
    /// The same calls kept coming back.
    ToolLoopDetected,
    /// The input was refused before anything was sent.
    InputRejected,
    /// Something reached the model without being logged.
    InvariantViolated,
    /// A person, or the turn's owner, stopped it.
    Cancelled,
    /// The provider asked to come back later.
    RateLimited,
    /// The stream went silent for too long.
    Timeout,
    /// The provider failed.
    ProviderError,
    /// The driver's own round limit ran out.
    RunawayFuse,
}

impl DeepView for StopReason {
    type V = StopReason;

    open spec fn deep_view(&self) -> StopReason {
        *self
    }
}

impl Dup for StopReason {
    fn dup(&self) -> (r: Self) {
        *self
    }
}

/// Why a request was made.
#[derive(Clone, Copy, Debug, PartialEq, Eq, Structural)]
pub enum HeaderReason {
    /// It opens the turn.
    Series,
    /// It continues the turn.
    Append,
}

impl DeepView for HeaderReason {
    type V = HeaderReason;

    open spec fn deep_view(&self) -> HeaderReason {
        *self
    }
}

impl Dup for HeaderReason {
    fn dup(&self) -> (r: Self) {
        *self
    }
}

/// What a notice to the person is about.
#[derive(Clone, Copy, Debug, PartialEq, Eq, Structural)]
pub enum NoticeKind {
    RateLimited,
    ProviderRetry,
    StreamRecovered,
    OutputTruncated,
    OverflowCompacted,
    OutputLeftCutOff,
}

impl DeepView for NoticeKind {
    type V = NoticeKind;

    open spec fn deep_view(&self) -> NoticeKind {
        *self
    }
}

impl Dup for NoticeKind {
    fn dup(&self) -> (r: Self) {
        *self
    }
}

/// The token counts a provider reported for one request.
#[derive(Clone, Copy, Debug, PartialEq, Eq, Structural)]
pub struct TokenUsage {
    pub prompt: u32,
    pub completion: u32,
    pub cached: u32,
}

impl DeepView for TokenUsage {
    type V = TokenUsage;

    open spec fn deep_view(&self) -> TokenUsage {
        *self
    }
}

impl Dup for TokenUsage {
    fn dup(&self) -> (r: Self) {
        *self
    }
}

/// Who put a piece of context in front of the model.
#[derive(Debug, PartialEq, Eq)]
pub enum InjectionOrigin {
    Memory,
    Reminder,
    Continuation,
    /// A nudge nobody outside the harness wrote.
    InternalNudge,
    CompactionSummary,
    /// Another agent, by its session id.
    Peer { from: String },
    /// Something a lead should know about a member.
    TeamNote { member: String },
    /// What a person said to a member.
    PersonToMember { member: String },
}

/// What a [`InjectionOrigin`] holds.
#[verifier::ext_equal]
pub enum InjectionOriginView {
    Memory,
    Reminder,
    Continuation,
    InternalNudge,
    CompactionSummary,
    Peer { from: Seq<char> },
    TeamNote { member: Seq<char> },
    PersonToMember { member: Seq<char> },
}

impl DeepView for InjectionOrigin {
    type V = InjectionOriginView;

    open spec fn deep_view(&self) -> InjectionOriginView {
        match self {
            InjectionOrigin::Memory => InjectionOriginView::Memory,
            InjectionOrigin::Reminder => InjectionOriginView::Reminder,
            InjectionOrigin::Continuation => InjectionOriginView::Continuation,
            InjectionOrigin::InternalNudge => InjectionOriginView::InternalNudge,
            InjectionOrigin::CompactionSummary => InjectionOriginView::CompactionSummary,
            InjectionOrigin::Peer { from } => InjectionOriginView::Peer {
                from: from.deep_view(),
            },
            InjectionOrigin::TeamNote { member } => InjectionOriginView::TeamNote {
                member: member.deep_view(),
            },
            InjectionOrigin::PersonToMember { member } => InjectionOriginView::PersonToMember {
                member: member.deep_view(),
            },
        }
    }
}

impl Dup for InjectionOrigin {
    fn dup(&self) -> (r: Self) {
        match self {
            InjectionOrigin::Memory => InjectionOrigin::Memory,
            InjectionOrigin::Reminder => InjectionOrigin::Reminder,
            InjectionOrigin::Continuation => InjectionOrigin::Continuation,
            InjectionOrigin::InternalNudge => InjectionOrigin::InternalNudge,
            InjectionOrigin::CompactionSummary => InjectionOrigin::CompactionSummary,
            InjectionOrigin::Peer { from } => InjectionOrigin::Peer {
                from: from.dup(),
            },
            InjectionOrigin::TeamNote { member } => InjectionOrigin::TeamNote {
                member: member.dup(),
            },
            InjectionOrigin::PersonToMember { member } => InjectionOrigin::PersonToMember {
                member: member.dup(),
            },
        }
    }
}

impl Clone for InjectionOrigin {
    fn clone(&self) -> (r: Self)
        ensures
            r.deep_view() == self.deep_view(),
    {
        self.dup()
    }
}

/// A call the model asked for.
#[derive(Debug, PartialEq, Eq)]
pub struct ToolCall {
    pub id: String,
    pub name: String,
    /// The exact argument text that will execute.
    pub arguments: String,
}

/// What a [`ToolCall`] holds.
#[verifier::ext_equal]
pub struct ToolCallView {
    pub id: Seq<char>,
    pub name: Seq<char>,
    pub arguments: Seq<char>,
}

impl DeepView for ToolCall {
    type V = ToolCallView;

    open spec fn deep_view(&self) -> ToolCallView {
        ToolCallView {
            id: self.id.deep_view(),
            name: self.name.deep_view(),
            arguments: self.arguments.deep_view(),
        }
    }
}

impl Dup for ToolCall {
    fn dup(&self) -> (r: Self) {
        ToolCall {
            id: self.id.dup(),
            name: self.name.dup(),
            arguments: self.arguments.dup(),
        }
    }
}

impl Clone for ToolCall {
    fn clone(&self) -> (r: Self)
        ensures
            r.deep_view() == self.deep_view(),
    {
        self.dup()
    }
}

/// What came back from a call.
#[derive(Debug, PartialEq, Eq)]
pub struct ToolResult {
    pub call_id: String,
    pub content: String,
    pub is_error: bool,
    pub images: Vec<String>,
}

/// What a [`ToolResult`] holds.
#[verifier::ext_equal]
pub struct ToolResultView {
    pub call_id: Seq<char>,
    pub content: Seq<char>,
    pub is_error: bool,
    pub images: Seq<Seq<char>>,
}

impl DeepView for ToolResult {
    type V = ToolResultView;

    open spec fn deep_view(&self) -> ToolResultView {
        ToolResultView {
            call_id: self.call_id.deep_view(),
            content: self.content.deep_view(),
            is_error: self.is_error.deep_view(),
            images: self.images.deep_view(),
        }
    }
}

impl Dup for ToolResult {
    fn dup(&self) -> (r: Self) {
        ToolResult {
            call_id: self.call_id.dup(),
            content: self.content.dup(),
            is_error: self.is_error.dup(),
            images: self.images.dup(),
        }
    }
}

impl Clone for ToolResult {
    fn clone(&self) -> (r: Self)
        ensures
            r.deep_view() == self.deep_view(),
    {
        self.dup()
    }
}

/// When to come back after a rate limit.
#[derive(Debug, PartialEq, Eq)]
pub struct RateLimitPause {
    pub reset_at_display: String,
    pub reset_label: String,
    pub secs_until_reset: Option<u64>,
    pub server_message: Option<String>,
}

/// What a [`RateLimitPause`] holds.
#[verifier::ext_equal]
pub struct RateLimitPauseView {
    pub reset_at_display: Seq<char>,
    pub reset_label: Seq<char>,
    pub secs_until_reset: Option<u64>,
    pub server_message: Option<Seq<char>>,
}

impl DeepView for RateLimitPause {
    type V = RateLimitPauseView;

    open spec fn deep_view(&self) -> RateLimitPauseView {
        RateLimitPauseView {
            reset_at_display: self.reset_at_display.deep_view(),
            reset_label: self.reset_label.deep_view(),
            secs_until_reset: self.secs_until_reset.deep_view(),
            server_message: self.server_message.deep_view(),
        }
    }
}

impl Dup for RateLimitPause {
    fn dup(&self) -> (r: Self) {
        RateLimitPause {
            reset_at_display: self.reset_at_display.dup(),
            reset_label: self.reset_label.dup(),
            secs_until_reset: self.secs_until_reset.dup(),
            server_message: self.server_message.dup(),
        }
    }
}

impl Clone for RateLimitPause {
    fn clone(&self) -> (r: Self)
        ensures
            r.deep_view() == self.deep_view(),
    {
        self.dup()
    }
}

/// What is known about the response behind a stored message.
#[derive(Debug, PartialEq, Eq)]
pub struct MessageMeta {
    pub tokens: TokenUsage,
    pub elapsed_ms: u64,
    pub ctx_window: u32,
    pub used_tokens: u32,
    pub round: u32,
    pub turn_id: u64,
    pub request_id: u64,
    pub session_id: Option<String>,
    pub finish_reason: String,
}

/// What a [`MessageMeta`] holds.
#[verifier::ext_equal]
pub struct MessageMetaView {
    pub tokens: TokenUsage,
    pub elapsed_ms: u64,
    pub ctx_window: u32,
    pub used_tokens: u32,
    pub round: u32,
    pub turn_id: u64,
    pub request_id: u64,
    pub session_id: Option<Seq<char>>,
    pub finish_reason: Seq<char>,
}

impl DeepView for MessageMeta {
    type V = MessageMetaView;

    open spec fn deep_view(&self) -> MessageMetaView {
        MessageMetaView {
            tokens: self.tokens.deep_view(),
            elapsed_ms: self.elapsed_ms.deep_view(),
            ctx_window: self.ctx_window.deep_view(),
            used_tokens: self.used_tokens.deep_view(),
            round: self.round.deep_view(),
            turn_id: self.turn_id.deep_view(),
            request_id: self.request_id.deep_view(),
            session_id: self.session_id.deep_view(),
            finish_reason: self.finish_reason.deep_view(),
        }
    }
}

impl Dup for MessageMeta {
    fn dup(&self) -> (r: Self) {
        MessageMeta {
            tokens: self.tokens.dup(),
            elapsed_ms: self.elapsed_ms.dup(),
            ctx_window: self.ctx_window.dup(),
            used_tokens: self.used_tokens.dup(),
            round: self.round.dup(),
            turn_id: self.turn_id.dup(),
            request_id: self.request_id.dup(),
            session_id: self.session_id.dup(),
            finish_reason: self.finish_reason.dup(),
        }
    }
}

impl Clone for MessageMeta {
    fn clone(&self) -> (r: Self)
        ensures
            r.deep_view() == self.deep_view(),
    {
        self.dup()
    }
}

/// One answer a person can pick.
#[derive(Debug, PartialEq, Eq)]
pub struct Choice {
    /// What comes back when it is picked.
    pub value: String,
    /// What is shown.
    pub label: String,
}

/// What a [`Choice`] holds.
#[verifier::ext_equal]
pub struct ChoiceView {
    pub value: Seq<char>,
    pub label: Seq<char>,
}

impl DeepView for Choice {
    type V = ChoiceView;

    open spec fn deep_view(&self) -> ChoiceView {
        ChoiceView {
            value: self.value.deep_view(),
            label: self.label.deep_view(),
        }
    }
}

impl Dup for Choice {
    fn dup(&self) -> (r: Self) {
        Choice {
            value: self.value.dup(),
            label: self.label.dup(),
        }
    }
}

impl Clone for Choice {
    fn clone(&self) -> (r: Self)
        ensures
            r.deep_view() == self.deep_view(),
    {
        self.dup()
    }
}

/// The call a question is about.
#[derive(Debug, PartialEq, Eq)]
pub struct About {
    pub tool: String,
    pub arguments: String,
    /// The scope an "always" would cover; none where it may not be remembered.
    pub grant: Option<String>,
}

/// What a [`About`] holds.
#[verifier::ext_equal]
pub struct AboutView {
    pub tool: Seq<char>,
    pub arguments: Seq<char>,
    pub grant: Option<Seq<char>>,
}

impl DeepView for About {
    type V = AboutView;

    open spec fn deep_view(&self) -> AboutView {
        AboutView {
            tool: self.tool.deep_view(),
            arguments: self.arguments.deep_view(),
            grant: self.grant.deep_view(),
        }
    }
}

impl Dup for About {
    fn dup(&self) -> (r: Self) {
        About {
            tool: self.tool.dup(),
            arguments: self.arguments.dup(),
            grant: self.grant.dup(),
        }
    }
}

impl Clone for About {
    fn clone(&self) -> (r: Self)
        ensures
            r.deep_view() == self.deep_view(),
    {
        self.dup()
    }
}

/// A question put to a person.
#[derive(Debug, PartialEq, Eq)]
pub struct Question {
    pub prompt: String,
    pub options: Vec<Choice>,
    /// The member asking; none for the conversation itself.
    pub asker: Option<String>,
    pub about: Option<About>,
}

/// What a [`Question`] holds.
#[verifier::ext_equal]
pub struct QuestionView {
    pub prompt: Seq<char>,
    pub options: Seq<ChoiceView>,
    pub asker: Option<Seq<char>>,
    pub about: Option<AboutView>,
}

impl DeepView for Question {
    type V = QuestionView;

    open spec fn deep_view(&self) -> QuestionView {
        QuestionView {
            prompt: self.prompt.deep_view(),
            options: self.options.deep_view(),
            asker: self.asker.deep_view(),
            about: self.about.deep_view(),
        }
    }
}

impl Dup for Question {
    fn dup(&self) -> (r: Self) {
        Question {
            prompt: self.prompt.dup(),
            options: self.options.dup(),
            asker: self.asker.dup(),
            about: self.about.dup(),
        }
    }
}

impl Clone for Question {
    fn clone(&self) -> (r: Self)
        ensures
            r.deep_view() == self.deep_view(),
    {
        self.dup()
    }
}

/// A logged message shown differently from now on.
#[derive(Debug, PartialEq, Eq)]
pub struct RewrittenText {
    pub seq: u64,
    pub text: String,
}

/// What a [`RewrittenText`] holds.
#[verifier::ext_equal]
pub struct RewrittenTextView {
    pub seq: u64,
    pub text: Seq<char>,
}

impl DeepView for RewrittenText {
    type V = RewrittenTextView;

    open spec fn deep_view(&self) -> RewrittenTextView {
        RewrittenTextView {
            seq: self.seq.deep_view(),
            text: self.text.deep_view(),
        }
    }
}

impl Dup for RewrittenText {
    fn dup(&self) -> (r: Self) {
        RewrittenText {
            seq: self.seq.dup(),
            text: self.text.dup(),
        }
    }
}

impl Clone for RewrittenText {
    fn clone(&self) -> (r: Self)
        ensures
            r.deep_view() == self.deep_view(),
    {
        self.dup()
    }
}

/// One fact.
#[derive(Debug, PartialEq, Eq)]
pub enum SessionEvent {
    /// A turn opened.
    TurnStart { turn: u64 },
    /// The person said something.
    UserMessage { turn: u64, text: String, images: Vec<String> },
    /// Context the person did not type.
    Injected { turn: u64, text: String, origin: InjectionOrigin },
    /// A round began.
    StepStart { turn: u64, step: u32 },
    /// A request is about to go out.
    RequestHeader { turn: u64, round: u32, model: String, reason: HeaderReason },
    /// A piece of the answer, as it streamed.
    AssistantChunk { turn: u64, round: u32, delta: String, reasoning: bool },
    /// The finished answer.
    AssistantMessage { turn: u64, round: u32, text: String, reasoning: String, tool_calls: Vec<ToolCall>, meta: Option<MessageMeta> },
    /// A call began to run.
    ToolStarted { turn: u64, call: ToolCall },
    /// A call came back.
    ToolResultLogged { turn: u64, round: u32, call_id: String, content: String, is_error: bool, images: Vec<String> },
    /// A round ended.
    StepEnd { turn: u64, step: u32, tool_calls: u32 },
    /// The provider reported token counts.
    Usage { turn: u64, round: u32, usage: TokenUsage },
    /// Everything after `from` up to `through` is now shown as `summary`.
    Compacted { turn: u64, through: u64, summary: String, from: u64 },
    /// Logged messages are now shown differently.
    MessagesRewritten { turn: u64, texts: Vec<RewrittenText> },
    /// Something the person should know; the turn goes on.
    Notice { turn: u64, notice: NoticeKind, detail: String },
    /// The turn stopped at a rate limit.
    RateLimitPaused { turn: u64, pause: RateLimitPause },
    /// A policy stepped in.
    PolicyIntervention { turn: u64, intervention: String },
    /// The session was named.
    Titled { turn: u64, title: String },
    /// A question was put.
    Asked { turn: u64, question: Question },
    /// A question was answered; nothing where it was declined.
    Answered { turn: u64, answer: Option<String> },
    /// A person cut the turn off.
    Interrupted { turn: u64, undone: bool },
    /// This member was stopped for good.
    Stopped { turn: u64 },
    /// A turn closed.
    TurnEnd { turn: u64, stop: StopReason, error: Option<String> },
}

/// What a [`SessionEvent`] holds.
#[verifier::ext_equal]
pub enum SessionEventView {
    TurnStart { turn: u64 },
    UserMessage { turn: u64, text: Seq<char>, images: Seq<Seq<char>> },
    Injected { turn: u64, text: Seq<char>, origin: InjectionOriginView },
    StepStart { turn: u64, step: u32 },
    RequestHeader { turn: u64, round: u32, model: Seq<char>, reason: HeaderReason },
    AssistantChunk { turn: u64, round: u32, delta: Seq<char>, reasoning: bool },
    AssistantMessage { turn: u64, round: u32, text: Seq<char>, reasoning: Seq<char>, tool_calls: Seq<ToolCallView>, meta: Option<MessageMetaView> },
    ToolStarted { turn: u64, call: ToolCallView },
    ToolResultLogged { turn: u64, round: u32, call_id: Seq<char>, content: Seq<char>, is_error: bool, images: Seq<Seq<char>> },
    StepEnd { turn: u64, step: u32, tool_calls: u32 },
    Usage { turn: u64, round: u32, usage: TokenUsage },
    Compacted { turn: u64, through: u64, summary: Seq<char>, from: u64 },
    MessagesRewritten { turn: u64, texts: Seq<RewrittenTextView> },
    Notice { turn: u64, notice: NoticeKind, detail: Seq<char> },
    RateLimitPaused { turn: u64, pause: RateLimitPauseView },
    PolicyIntervention { turn: u64, intervention: Seq<char> },
    Titled { turn: u64, title: Seq<char> },
    Asked { turn: u64, question: QuestionView },
    Answered { turn: u64, answer: Option<Seq<char>> },
    Interrupted { turn: u64, undone: bool },
    Stopped { turn: u64 },
    TurnEnd { turn: u64, stop: StopReason, error: Option<Seq<char>> },
}

impl DeepView for SessionEvent {
    type V = SessionEventView;

    open spec fn deep_view(&self) -> SessionEventView {
        match self {
            SessionEvent::TurnStart { turn } => SessionEventView::TurnStart {
                turn: turn.deep_view(),
            },
            SessionEvent::UserMessage { turn, text, images } => SessionEventView::UserMessage {
                turn: turn.deep_view(),
                text: text.deep_view(),
                images: images.deep_view(),
            },
            SessionEvent::Injected { turn, text, origin } => SessionEventView::Injected {
                turn: turn.deep_view(),
                text: text.deep_view(),
                origin: origin.deep_view(),
            },
            SessionEvent::StepStart { turn, step } => SessionEventView::StepStart {
                turn: turn.deep_view(),
                step: step.deep_view(),
            },
            SessionEvent::RequestHeader { turn, round, model, reason } => SessionEventView::RequestHeader {
                turn: turn.deep_view(),
                round: round.deep_view(),
                model: model.deep_view(),
                reason: reason.deep_view(),
            },
            SessionEvent::AssistantChunk { turn, round, delta, reasoning } => SessionEventView::AssistantChunk {
                turn: turn.deep_view(),
                round: round.deep_view(),
                delta: delta.deep_view(),
                reasoning: reasoning.deep_view(),
            },
            SessionEvent::AssistantMessage { turn, round, text, reasoning, tool_calls, meta } => SessionEventView::AssistantMessage {
                turn: turn.deep_view(),
                round: round.deep_view(),
                text: text.deep_view(),
                reasoning: reasoning.deep_view(),
                tool_calls: tool_calls.deep_view(),
                meta: meta.deep_view(),
            },
            SessionEvent::ToolStarted { turn, call } => SessionEventView::ToolStarted {
                turn: turn.deep_view(),
                call: call.deep_view(),
            },
            SessionEvent::ToolResultLogged { turn, round, call_id, content, is_error, images } => SessionEventView::ToolResultLogged {
                turn: turn.deep_view(),
                round: round.deep_view(),
                call_id: call_id.deep_view(),
                content: content.deep_view(),
                is_error: is_error.deep_view(),
                images: images.deep_view(),
            },
            SessionEvent::StepEnd { turn, step, tool_calls } => SessionEventView::StepEnd {
                turn: turn.deep_view(),
                step: step.deep_view(),
                tool_calls: tool_calls.deep_view(),
            },
            SessionEvent::Usage { turn, round, usage } => SessionEventView::Usage {
                turn: turn.deep_view(),
                round: round.deep_view(),
                usage: usage.deep_view(),
            },
            SessionEvent::Compacted { turn, through, summary, from } => SessionEventView::Compacted {
                turn: turn.deep_view(),
                through: through.deep_view(),
                summary: summary.deep_view(),
                from: from.deep_view(),
            },
            SessionEvent::MessagesRewritten { turn, texts } => SessionEventView::MessagesRewritten {
                turn: turn.deep_view(),
                texts: texts.deep_view(),
            },
            SessionEvent::Notice { turn, notice, detail } => SessionEventView::Notice {
                turn: turn.deep_view(),
                notice: notice.deep_view(),
                detail: detail.deep_view(),
            },
            SessionEvent::RateLimitPaused { turn, pause } => SessionEventView::RateLimitPaused {
                turn: turn.deep_view(),
                pause: pause.deep_view(),
            },
            SessionEvent::PolicyIntervention { turn, intervention } => SessionEventView::PolicyIntervention {
                turn: turn.deep_view(),
                intervention: intervention.deep_view(),
            },
            SessionEvent::Titled { turn, title } => SessionEventView::Titled {
                turn: turn.deep_view(),
                title: title.deep_view(),
            },
            SessionEvent::Asked { turn, question } => SessionEventView::Asked {
                turn: turn.deep_view(),
                question: question.deep_view(),
            },
            SessionEvent::Answered { turn, answer } => SessionEventView::Answered {
                turn: turn.deep_view(),
                answer: answer.deep_view(),
            },
            SessionEvent::Interrupted { turn, undone } => SessionEventView::Interrupted {
                turn: turn.deep_view(),
                undone: undone.deep_view(),
            },
            SessionEvent::Stopped { turn } => SessionEventView::Stopped {
                turn: turn.deep_view(),
            },
            SessionEvent::TurnEnd { turn, stop, error } => SessionEventView::TurnEnd {
                turn: turn.deep_view(),
                stop: stop.deep_view(),
                error: error.deep_view(),
            },
        }
    }
}

impl Dup for SessionEvent {
    fn dup(&self) -> (r: Self) {
        match self {
            SessionEvent::TurnStart { turn } => SessionEvent::TurnStart {
                turn: turn.dup(),
            },
            SessionEvent::UserMessage { turn, text, images } => SessionEvent::UserMessage {
                turn: turn.dup(),
                text: text.dup(),
                images: images.dup(),
            },
            SessionEvent::Injected { turn, text, origin } => SessionEvent::Injected {
                turn: turn.dup(),
                text: text.dup(),
                origin: origin.dup(),
            },
            SessionEvent::StepStart { turn, step } => SessionEvent::StepStart {
                turn: turn.dup(),
                step: step.dup(),
            },
            SessionEvent::RequestHeader { turn, round, model, reason } => SessionEvent::RequestHeader {
                turn: turn.dup(),
                round: round.dup(),
                model: model.dup(),
                reason: reason.dup(),
            },
            SessionEvent::AssistantChunk { turn, round, delta, reasoning } => SessionEvent::AssistantChunk {
                turn: turn.dup(),
                round: round.dup(),
                delta: delta.dup(),
                reasoning: reasoning.dup(),
            },
            SessionEvent::AssistantMessage { turn, round, text, reasoning, tool_calls, meta } => SessionEvent::AssistantMessage {
                turn: turn.dup(),
                round: round.dup(),
                text: text.dup(),
                reasoning: reasoning.dup(),
                tool_calls: tool_calls.dup(),
                meta: meta.dup(),
            },
            SessionEvent::ToolStarted { turn, call } => SessionEvent::ToolStarted {
                turn: turn.dup(),
                call: call.dup(),
            },
            SessionEvent::ToolResultLogged { turn, round, call_id, content, is_error, images } => SessionEvent::ToolResultLogged {
                turn: turn.dup(),
                round: round.dup(),
                call_id: call_id.dup(),
                content: content.dup(),
                is_error: is_error.dup(),
                images: images.dup(),
            },
            SessionEvent::StepEnd { turn, step, tool_calls } => SessionEvent::StepEnd {
                turn: turn.dup(),
                step: step.dup(),
                tool_calls: tool_calls.dup(),
            },
            SessionEvent::Usage { turn, round, usage } => SessionEvent::Usage {
                turn: turn.dup(),
                round: round.dup(),
                usage: usage.dup(),
            },
            SessionEvent::Compacted { turn, through, summary, from } => SessionEvent::Compacted {
                turn: turn.dup(),
                through: through.dup(),
                summary: summary.dup(),
                from: from.dup(),
            },
            SessionEvent::MessagesRewritten { turn, texts } => SessionEvent::MessagesRewritten {
                turn: turn.dup(),
                texts: texts.dup(),
            },
            SessionEvent::Notice { turn, notice, detail } => SessionEvent::Notice {
                turn: turn.dup(),
                notice: notice.dup(),
                detail: detail.dup(),
            },
            SessionEvent::RateLimitPaused { turn, pause } => SessionEvent::RateLimitPaused {
                turn: turn.dup(),
                pause: pause.dup(),
            },
            SessionEvent::PolicyIntervention { turn, intervention } => SessionEvent::PolicyIntervention {
                turn: turn.dup(),
                intervention: intervention.dup(),
            },
            SessionEvent::Titled { turn, title } => SessionEvent::Titled {
                turn: turn.dup(),
                title: title.dup(),
            },
            SessionEvent::Asked { turn, question } => SessionEvent::Asked {
                turn: turn.dup(),
                question: question.dup(),
            },
            SessionEvent::Answered { turn, answer } => SessionEvent::Answered {
                turn: turn.dup(),
                answer: answer.dup(),
            },
            SessionEvent::Interrupted { turn, undone } => SessionEvent::Interrupted {
                turn: turn.dup(),
                undone: undone.dup(),
            },
            SessionEvent::Stopped { turn } => SessionEvent::Stopped {
                turn: turn.dup(),
            },
            SessionEvent::TurnEnd { turn, stop, error } => SessionEvent::TurnEnd {
                turn: turn.dup(),
                stop: stop.dup(),
                error: error.dup(),
            },
        }
    }
}

impl Clone for SessionEvent {
    fn clone(&self) -> (r: Self)
        ensures
            r.deep_view() == self.deep_view(),
    {
        self.dup()
    }
}

/// A fact with its place in the log.
#[derive(Debug, PartialEq, Eq)]
pub struct LoggedEvent {
    pub seq: u64,
    pub event: SessionEvent,
}

/// What a [`LoggedEvent`] holds.
#[verifier::ext_equal]
pub struct LoggedEventView {
    pub seq: u64,
    pub event: SessionEventView,
}

impl DeepView for LoggedEvent {
    type V = LoggedEventView;

    open spec fn deep_view(&self) -> LoggedEventView {
        LoggedEventView {
            seq: self.seq.deep_view(),
            event: self.event.deep_view(),
        }
    }
}

impl Dup for LoggedEvent {
    fn dup(&self) -> (r: Self) {
        LoggedEvent {
            seq: self.seq.dup(),
            event: self.event.dup(),
        }
    }
}

impl Clone for LoggedEvent {
    fn clone(&self) -> (r: Self)
        ensures
            r.deep_view() == self.deep_view(),
    {
        self.dup()
    }
}

/// A session's log, and the turn it is in.
#[derive(Debug, PartialEq, Eq)]
pub struct SessionLog {
    pub id: String,
    pub events: Vec<LoggedEvent>,
    pub current_turn: u64,
}

/// What a [`SessionLog`] holds.
#[verifier::ext_equal]
pub struct SessionLogView {
    pub id: Seq<char>,
    pub events: Seq<LoggedEventView>,
    pub current_turn: u64,
}

impl DeepView for SessionLog {
    type V = SessionLogView;

    open spec fn deep_view(&self) -> SessionLogView {
        SessionLogView {
            id: self.id.deep_view(),
            events: self.events.deep_view(),
            current_turn: self.current_turn.deep_view(),
        }
    }
}

impl Dup for SessionLog {
    fn dup(&self) -> (r: Self) {
        SessionLog {
            id: self.id.dup(),
            events: self.events.dup(),
            current_turn: self.current_turn.dup(),
        }
    }
}

impl Clone for SessionLog {
    fn clone(&self) -> (r: Self)
        ensures
            r.deep_view() == self.deep_view(),
    {
        self.dup()
    }
}

/// A fact as it is announced: which log, where in it, and what.
#[derive(Debug, PartialEq, Eq)]
pub struct Committed {
    pub session: String,
    pub seq: u64,
    pub event: SessionEvent,
}

/// What a [`Committed`] holds.
#[verifier::ext_equal]
pub struct CommittedView {
    pub session: Seq<char>,
    pub seq: u64,
    pub event: SessionEventView,
}

impl DeepView for Committed {
    type V = CommittedView;

    open spec fn deep_view(&self) -> CommittedView {
        CommittedView {
            session: self.session.deep_view(),
            seq: self.seq.deep_view(),
            event: self.event.deep_view(),
        }
    }
}

impl Dup for Committed {
    fn dup(&self) -> (r: Self) {
        Committed {
            session: self.session.dup(),
            seq: self.seq.dup(),
            event: self.event.dup(),
        }
    }
}

impl Clone for Committed {
    fn clone(&self) -> (r: Self)
        ensures
            r.deep_view() == self.deep_view(),
    {
        self.dup()
    }
}

} // verus!
