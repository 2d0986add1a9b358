//! The vocabulary a driver and an agent speak to each other in.
use crate::data::Dup;
use crate::events::{
    Committed, CommittedView, MessageMeta, MessageMetaView, StopReason, ToolCall, ToolCallView,
    ToolResult, ToolResultView,
};
use crate::message::{Message, MessageView};
use vstd::prelude::*;

verus! {

/// What an agent is doing.
#[derive(Clone, Copy, Debug, PartialEq, Eq, Structural)]
pub enum AgentStatus {
    Idle,
    Working,
}

impl DeepView for AgentStatus {
    type V = AgentStatus;

    open spec fn deep_view(&self) -> AgentStatus {
        *self
    }
}

impl Dup for AgentStatus {
    fn dup(&self) -> (r: Self) {
        *self
    }
}

/// Why a command was refused.
#[derive(Clone, Copy, Debug, PartialEq, Eq, Structural)]
pub enum CommandError {
    /// Nobody is waiting for that answer.
    StaleQuestion,
    /// There is no turn to stop.
    NotRunning,
    NotFound,
    Unsupported,
}

impl DeepView for CommandError {
    type V = CommandError;

    open spec fn deep_view(&self) -> CommandError {
        *self
    }
}

impl Dup for CommandError {
    fn dup(&self) -> (r: Self) {
        *self
    }
}

/// What set a compaction off.
#[derive(Debug, PartialEq, Eq)]
pub enum CompactTrigger {
    /// The context filled up: prompt tokens last reported, out of the window.
    Auto { used_tokens: u32, ctx_window: u32 },
    /// A person asked.
    Manual { focus: Option<String> },
    /// The provider refused a request as too long.
    Overflow,
}

/// What a [`CompactTrigger`] holds.
#[verifier::ext_equal]
pub enum CompactTriggerView {
    Auto { used_tokens: u32, ctx_window: u32 },
    Manual { focus: Option<Seq<char>> },
    Overflow,
}

impl DeepView for CompactTrigger {
    type V = CompactTriggerView;

    open spec fn deep_view(&self) -> CompactTriggerView {
        match self {
            CompactTrigger::Auto { used_tokens, ctx_window } => CompactTriggerView::Auto {
                used_tokens: used_tokens.deep_view(),
                ctx_window: ctx_window.deep_view(),
            },
            CompactTrigger::Manual { focus } => CompactTriggerView::Manual {
                focus: focus.deep_view(),
            },
            CompactTrigger::Overflow => CompactTriggerView::Overflow,
        }
    }
}

impl Dup for CompactTrigger {
    fn dup(&self) -> (r: Self) {
        match self {
            CompactTrigger::Auto { used_tokens, ctx_window } => CompactTrigger::Auto {
                used_tokens: used_tokens.dup(),
                ctx_window: ctx_window.dup(),
            },
            CompactTrigger::Manual { focus } => CompactTrigger::Manual {
                focus: focus.dup(),
            },
            CompactTrigger::Overflow => CompactTrigger::Overflow,
        }
    }
}

impl Clone for CompactTrigger {
    fn clone(&self) -> (r: Self)
        ensures
            r.deep_view() == self.deep_view(),
    {
        self.dup()
    }
}

/// Where context the person did not type came from.
#[derive(Debug, PartialEq, Eq)]
pub enum ContextSource {
    Peer { from: String },
    Memory,
    Reminder,
    Continuation,
    CompactionSummary,
    TeamNote { member: String },
    PersonToMember { member: String },
}

/// What a [`ContextSource`] holds.
#[verifier::ext_equal]
pub enum ContextSourceView {
    Peer { from: Seq<char> },
    Memory,
    Reminder,
    Continuation,
    CompactionSummary,
    TeamNote { member: Seq<char> },
    PersonToMember { member: Seq<char> },
}

impl DeepView for ContextSource {
    type V = ContextSourceView;

    open spec fn deep_view(&self) -> ContextSourceView {
        match self {
            ContextSource::Peer { from } => ContextSourceView::Peer {
                from: from.deep_view(),
            },
            ContextSource::Memory => ContextSourceView::Memory,
            ContextSource::Reminder => ContextSourceView::Reminder,
            ContextSource::Continuation => ContextSourceView::Continuation,
            ContextSource::CompactionSummary => ContextSourceView::CompactionSummary,
            ContextSource::TeamNote { member } => ContextSourceView::TeamNote {
                member: member.deep_view(),
            },
            ContextSource::PersonToMember { member } => ContextSourceView::PersonToMember {
                member: member.deep_view(),
            },
        }
    }
}

impl Dup for ContextSource {
    fn dup(&self) -> (r: Self) {
        match self {
            ContextSource::Peer { from } => ContextSource::Peer {
                from: from.dup(),
            },
            ContextSource::Memory => ContextSource::Memory,
            ContextSource::Reminder => ContextSource::Reminder,
            ContextSource::Continuation => ContextSource::Continuation,
            ContextSource::CompactionSummary => ContextSource::CompactionSummary,
            ContextSource::TeamNote { member } => ContextSource::TeamNote {
                member: member.dup(),
            },
            ContextSource::PersonToMember { member } => ContextSource::PersonToMember {
                member: member.dup(),
            },
        }
    }
}

impl Clone for ContextSource {
    fn clone(&self) -> (r: Self)
        ensures
            r.deep_view() == self.deep_view(),
    {
        self.dup()
    }
}

/// One call of a batch, as it is announced.
#[derive(Debug, PartialEq, Eq)]
pub struct BatchCall {
    pub id: String,
    pub name: String,
    pub arguments: String,
    pub parallel_safe: bool,
}

/// What a [`BatchCall`] holds.
#[verifier::ext_equal]
pub struct BatchCallView {
    pub id: Seq<char>,
    pub name: Seq<char>,
    pub arguments: Seq<char>,
    pub parallel_safe: bool,
}

impl DeepView for BatchCall {
    type V = BatchCallView;

    open spec fn deep_view(&self) -> BatchCallView {
        BatchCallView {
            id: self.id.deep_view(),
            name: self.name.deep_view(),
            arguments: self.arguments.deep_view(),
            parallel_safe: self.parallel_safe.deep_view(),
        }
    }
}

impl Dup for BatchCall {
    fn dup(&self) -> (r: Self) {
        BatchCall {
            id: self.id.dup(),
            name: self.name.dup(),
            arguments: self.arguments.dup(),
            parallel_safe: self.parallel_safe.dup(),
        }
    }
}

impl Clone for BatchCall {
    fn clone(&self) -> (r: Self)
        ensures
            r.deep_view() == self.deep_view(),
    {
        self.dup()
    }
}

/// A message folded into the turn already running.
#[derive(Debug, PartialEq, Eq)]
pub struct SteeredInput {
    pub text: String,
    pub images: Vec<String>,
}

/// What a [`SteeredInput`] holds.
#[verifier::ext_equal]
pub struct SteeredInputView {
    pub text: Seq<char>,
    pub images: Seq<Seq<char>>,
}

impl DeepView for SteeredInput {
    type V = SteeredInputView;

    open spec fn deep_view(&self) -> SteeredInputView {
        SteeredInputView {
            text: self.text.deep_view(),
            images: self.images.deep_view(),
        }
    }
}

impl Dup for SteeredInput {
    fn dup(&self) -> (r: Self) {
        SteeredInput {
            text: self.text.dup(),
            images: self.images.dup(),
        }
    }
}

impl Clone for SteeredInput {
    fn clone(&self) -> (r: Self)
        ensures
            r.deep_view() == self.deep_view(),
    {
        self.dup()
    }
}

/// An agent, described.
#[derive(Debug, PartialEq, Eq)]
pub struct Description {
    pub session: String,
    pub parent: Option<String>,
    pub member: Option<String>,
}

/// What a [`Description`] holds.
#[verifier::ext_equal]
pub struct DescriptionView {
    pub session: Seq<char>,
    pub parent: Option<Seq<char>>,
    pub member: Option<Seq<char>>,
}

impl DeepView for Description {
    type V = DescriptionView;

    open spec fn deep_view(&self) -> DescriptionView {
        DescriptionView {
            session: self.session.deep_view(),
            parent: self.parent.deep_view(),
            member: self.member.deep_view(),
        }
    }
}

impl Dup for Description {
    fn dup(&self) -> (r: Self) {
        Description {
            session: self.session.dup(),
            parent: self.parent.dup(),
            member: self.member.dup(),
        }
    }
}

impl Clone for Description {
    fn clone(&self) -> (r: Self)
        ensures
            r.deep_view() == self.deep_view(),
    {
        self.dup()
    }
}

/// What an agent tells its driver.
#[derive(Debug, PartialEq, Eq)]
pub enum AgentEvent {
    TurnStarted { turn: Option<u64> },
    TextDelta(String),
    Reasoning(String),
    Usage(MessageMeta),
    ToolBatchStarted { batch_id: String, calls: Vec<BatchCall> },
    ToolStarted { call: ToolCall },
    ToolProgress { call_id: String, message: String },
    ToolResult { result: ToolResult },
    ToolBatchCompleted { batch_id: String, ok: usize, total: usize, elapsed_ms: u64 },
    CompactionStarted { trigger: CompactTrigger },
    Compacted { trigger: CompactTrigger, removed: usize, bytes_before: usize, bytes_after: usize, committed: bool, snapshot: Option<Vec<Message>> },
    RateLimited { reset_at_display: String, reset_label: String, secs_until_reset: Option<u64>, auto_resuming: bool, server_message: Option<String> },
    ProviderRetry { reason: String },
    StreamRecovery { recovered: bool },
    OutputTruncationRecovery,
    Warning(String),
    PolicyIntervention { intervention: String },
    Error { message: String, retryable: Option<bool> },
    Cancelled,
    TurnComplete { turn: Option<u64>, reason: StopReason },
    Steered { turn: Option<u64>, count: u32, inputs: Vec<SteeredInput> },
    ContextAdded { text: String, source: ContextSource },
    /// A question, answered with the same id.
    Request { id: u64, kind: String, payload: String },
    Accepted { command: String, turn: Option<u64>, steered: bool },
    Rejected { command: String, error: CommandError },
    Snapshot { messages: Vec<Message> },
    Described { description: Description },
    AgentAdded { description: Description },
    AgentRemoved { session: String },
    StatusChanged { session: String, status: AgentStatus },
    Fact(Committed),
}

/// What a [`AgentEvent`] holds.
#[verifier::ext_equal]
pub enum AgentEventView {
    TurnStarted { turn: Option<u64> },
    TextDelta(Seq<char>),
    Reasoning(Seq<char>),
    Usage(MessageMetaView),
    ToolBatchStarted { batch_id: Seq<char>, calls: Seq<BatchCallView> },
    ToolStarted { call: ToolCallView },
    ToolProgress { call_id: Seq<char>, message: Seq<char> },
    ToolResult { result: ToolResultView },
    ToolBatchCompleted { batch_id: Seq<char>, ok: usize, total: usize, elapsed_ms: u64 },
    CompactionStarted { trigger: CompactTriggerView },
    Compacted { trigger: CompactTriggerView, removed: usize, bytes_before: usize, bytes_after: usize, committed: bool, snapshot: Option<Seq<MessageView>> },
    RateLimited { reset_at_display: Seq<char>, reset_label: Seq<char>, secs_until_reset: Option<u64>, auto_resuming: bool, server_message: Option<Seq<char>> },
    ProviderRetry { reason: Seq<char> },
    StreamRecovery { recovered: bool },
    OutputTruncationRecovery,
    Warning(Seq<char>),
    PolicyIntervention { intervention: Seq<char> },
    Error { message: Seq<char>, retryable: Option<bool> },
    Cancelled,
    TurnComplete { turn: Option<u64>, reason: StopReason },
    Steered { turn: Option<u64>, count: u32, inputs: Seq<SteeredInputView> },
    ContextAdded { text: Seq<char>, source: ContextSourceView },
    Request { id: u64, kind: Seq<char>, payload: Seq<char> },
    Accepted { command: Seq<char>, turn: Option<u64>, steered: bool },
    Rejected { command: Seq<char>, error: CommandError },
    Snapshot { messages: Seq<MessageView> },
    Described { description: DescriptionView },
    AgentAdded { description: DescriptionView },
    AgentRemoved { session: Seq<char> },
    StatusChanged { session: Seq<char>, status: AgentStatus },
    Fact(CommittedView),
}

impl DeepView for AgentEvent {
    type V = AgentEventView;

    open spec fn deep_view(&self) -> AgentEventView {
        match self {
            AgentEvent::TurnStarted { turn } => AgentEventView::TurnStarted {
                turn: turn.deep_view(),
            },
            AgentEvent::TextDelta(x) => AgentEventView::TextDelta(x.deep_view()),
            AgentEvent::Reasoning(x) => AgentEventView::Reasoning(x.deep_view()),
            AgentEvent::Usage(x) => AgentEventView::Usage(x.deep_view()),
            AgentEvent::ToolBatchStarted { batch_id, calls } => AgentEventView::ToolBatchStarted {
                batch_id: batch_id.deep_view(),
                calls: calls.deep_view(),
            },
            AgentEvent::ToolStarted { call } => AgentEventView::ToolStarted {
                call: call.deep_view(),
            },
            AgentEvent::ToolProgress { call_id, message } => AgentEventView::ToolProgress {
                call_id: call_id.deep_view(),
                message: message.deep_view(),
            },
            AgentEvent::ToolResult { result } => AgentEventView::ToolResult {
                result: result.deep_view(),
            },
            AgentEvent::ToolBatchCompleted { batch_id, ok, total, elapsed_ms } => AgentEventView::ToolBatchCompleted {
                batch_id: batch_id.deep_view(),
                ok: ok.deep_view(),
                total: total.deep_view(),
                elapsed_ms: elapsed_ms.deep_view(),
            },
            AgentEvent::CompactionStarted { trigger } => AgentEventView::CompactionStarted {
                trigger: trigger.deep_view(),
            },
            AgentEvent::Compacted { trigger, removed, bytes_before, bytes_after, committed, snapshot } => AgentEventView::Compacted {
                trigger: trigger.deep_view(),
                removed: removed.deep_view(),
                bytes_before: bytes_before.deep_view(),
                bytes_after: bytes_after.deep_view(),
                committed: committed.deep_view(),
                snapshot: snapshot.deep_view(),
            },
            AgentEvent::RateLimited { reset_at_display, reset_label, secs_until_reset, auto_resuming, server_message } => AgentEventView::RateLimited {
                reset_at_display: reset_at_display.deep_view(),
                reset_label: reset_label.deep_view(),
                secs_until_reset: secs_until_reset.deep_view(),
                auto_resuming: auto_resuming.deep_view(),
                server_message: server_message.deep_view(),
            },
            AgentEvent::ProviderRetry { reason } => AgentEventView::ProviderRetry {
                reason: reason.deep_view(),
            },
            AgentEvent::StreamRecovery { recovered } => AgentEventView::StreamRecovery {
                recovered: recovered.deep_view(),
            },
            AgentEvent::OutputTruncationRecovery => AgentEventView::OutputTruncationRecovery,
            AgentEvent::Warning(x) => AgentEventView::Warning(x.deep_view()),
            AgentEvent::PolicyIntervention { intervention } => AgentEventView::PolicyIntervention {
                intervention: intervention.deep_view(),
            },
            AgentEvent::Error { message, retryable } => AgentEventView::Error {
                message: message.deep_view(),
                retryable: retryable.deep_view(),
            },
            AgentEvent::Cancelled => AgentEventView::Cancelled,
            AgentEvent::TurnComplete { turn, reason } => AgentEventView::TurnComplete {
                turn: turn.deep_view(),
                reason: reason.deep_view(),
            },
            AgentEvent::Steered { turn, count, inputs } => AgentEventView::Steered {
                turn: turn.deep_view(),
                count: count.deep_view(),
                inputs: inputs.deep_view(),
            },
            AgentEvent::ContextAdded { text, source } => AgentEventView::ContextAdded {
                text: text.deep_view(),
                source: source.deep_view(),
            },
            AgentEvent::Request { id, kind, payload } => AgentEventView::Request {
                id: id.deep_view(),
                kind: kind.deep_view(),
                payload: payload.deep_view(),
            },
            AgentEvent::Accepted { command, turn, steered } => AgentEventView::Accepted {
                command: command.deep_view(),
                turn: turn.deep_view(),
                steered: steered.deep_view(),
            },
            AgentEvent::Rejected { command, error } => AgentEventView::Rejected {
                command: command.deep_view(),
                error: error.deep_view(),
            },
            AgentEvent::Snapshot { messages } => AgentEventView::Snapshot {
                messages: messages.deep_view(),
            },
            AgentEvent::Described { description } => AgentEventView::Described {
                description: description.deep_view(),
            },
            AgentEvent::AgentAdded { description } => AgentEventView::AgentAdded {
                description: description.deep_view(),
            },
            AgentEvent::AgentRemoved { session } => AgentEventView::AgentRemoved {
                session: session.deep_view(),
            },
            AgentEvent::StatusChanged { session, status } => AgentEventView::StatusChanged {
                session: session.deep_view(),
                status: status.deep_view(),
            },
            AgentEvent::Fact(x) => AgentEventView::Fact(x.deep_view()),
        }
    }
}

impl Dup for AgentEvent {
    fn dup(&self) -> (r: Self) {
        match self {
            AgentEvent::TurnStarted { turn } => AgentEvent::TurnStarted {
                turn: turn.dup(),
            },
            AgentEvent::TextDelta(x) => AgentEvent::TextDelta(x.dup()),
            AgentEvent::Reasoning(x) => AgentEvent::Reasoning(x.dup()),
            AgentEvent::Usage(x) => AgentEvent::Usage(x.dup()),
            AgentEvent::ToolBatchStarted { batch_id, calls } => AgentEvent::ToolBatchStarted {
                batch_id: batch_id.dup(),
                calls: calls.dup(),
            },
            AgentEvent::ToolStarted { call } => AgentEvent::ToolStarted {
                call: call.dup(),
            },
            AgentEvent::ToolProgress { call_id, message } => AgentEvent::ToolProgress {
                call_id: call_id.dup(),
                message: message.dup(),
            },
            AgentEvent::ToolResult { result } => AgentEvent::ToolResult {
                result: result.dup(),
            },
            AgentEvent::ToolBatchCompleted { batch_id, ok, total, elapsed_ms } => AgentEvent::ToolBatchCompleted {
                batch_id: batch_id.dup(),
                ok: ok.dup(),
                total: total.dup(),
                elapsed_ms: elapsed_ms.dup(),
            },
            AgentEvent::CompactionStarted { trigger } => AgentEvent::CompactionStarted {
                trigger: trigger.dup(),
            },
            AgentEvent::Compacted { trigger, removed, bytes_before, bytes_after, committed, snapshot } => AgentEvent::Compacted {
                trigger: trigger.dup(),
                removed: removed.dup(),
                bytes_before: bytes_before.dup(),
                bytes_after: bytes_after.dup(),
                committed: committed.dup(),
                snapshot: snapshot.dup(),
            },
            AgentEvent::RateLimited { reset_at_display, reset_label, secs_until_reset, auto_resuming, server_message } => AgentEvent::RateLimited {
                reset_at_display: reset_at_display.dup(),
                reset_label: reset_label.dup(),
                secs_until_reset: secs_until_reset.dup(),
                auto_resuming: auto_resuming.dup(),
                server_message: server_message.dup(),
            },
            AgentEvent::ProviderRetry { reason } => AgentEvent::ProviderRetry {
                reason: reason.dup(),
            },
            AgentEvent::StreamRecovery { recovered } => AgentEvent::StreamRecovery {
                recovered: recovered.dup(),
            },
            AgentEvent::OutputTruncationRecovery => AgentEvent::OutputTruncationRecovery,
            AgentEvent::Warning(x) => AgentEvent::Warning(x.dup()),
            AgentEvent::PolicyIntervention { intervention } => AgentEvent::PolicyIntervention {
                intervention: intervention.dup(),
            },
            AgentEvent::Error { message, retryable } => AgentEvent::Error {
                message: message.dup(),
                retryable: retryable.dup(),
            },
            AgentEvent::Cancelled => AgentEvent::Cancelled,
            AgentEvent::TurnComplete { turn, reason } => AgentEvent::TurnComplete {
                turn: turn.dup(),
                reason: reason.dup(),
            },
            AgentEvent::Steered { turn, count, inputs } => AgentEvent::Steered {
                turn: turn.dup(),
                count: count.dup(),
                inputs: inputs.dup(),
            },
            AgentEvent::ContextAdded { text, source } => AgentEvent::ContextAdded {
                text: text.dup(),
                source: source.dup(),
            },
            AgentEvent::Request { id, kind, payload } => AgentEvent::Request {
                id: id.dup(),
                kind: kind.dup(),
                payload: payload.dup(),
            },
            AgentEvent::Accepted { command, turn, steered } => AgentEvent::Accepted {
                command: command.dup(),
                turn: turn.dup(),
                steered: steered.dup(),
            },
            AgentEvent::Rejected { command, error } => AgentEvent::Rejected {
                command: command.dup(),
                error: error.dup(),
            },
            AgentEvent::Snapshot { messages } => AgentEvent::Snapshot {
                messages: messages.dup(),
            },
            AgentEvent::Described { description } => AgentEvent::Described {
                description: description.dup(),
            },
            AgentEvent::AgentAdded { description } => AgentEvent::AgentAdded {
                description: description.dup(),
            },
            AgentEvent::AgentRemoved { session } => AgentEvent::AgentRemoved {
                session: session.dup(),
            },
            AgentEvent::StatusChanged { session, status } => AgentEvent::StatusChanged {
                session: session.dup(),
                status: status.dup(),
            },
            AgentEvent::Fact(x) => AgentEvent::Fact(x.dup()),
        }
    }
}

impl Clone for AgentEvent {
    fn clone(&self) -> (r: Self)
        ensures
            r.deep_view() == self.deep_view(),
    {
        self.dup()
    }
}

/// What a driver tells an agent.
#[derive(Debug, PartialEq, Eq)]
pub enum AgentCommand {
    SendMessage { text: String, images: Vec<String> },
    /// A message, and context the person did not type.
    SendMessageWithContext { text: String, images: Vec<String>, context: String },
    /// A message the harness wrote.
    SendSyntheticMessage { text: String },
    /// The answer to a question.
    Respond { id: u64, value: String },
    Cancel,
    Snapshot,
    Compact { focus: Option<String> },
    Subscribe { session: String, from: u64 },
    Unsubscribe { session: String },
    /// A catalog command; it carries its own receipt.
    Invoke { id: String, name: String, args: String },
    Shutdown,
    /// A command this build has no answer for.
    Unknown,
}

/// What a [`AgentCommand`] holds.
#[verifier::ext_equal]
pub enum AgentCommandView {
    SendMessage { text: Seq<char>, images: Seq<Seq<char>> },
    SendMessageWithContext { text: Seq<char>, images: Seq<Seq<char>>, context: Seq<char> },
    SendSyntheticMessage { text: Seq<char> },
    Respond { id: u64, value: Seq<char> },
    Cancel,
    Snapshot,
    Compact { focus: Option<Seq<char>> },
    Subscribe { session: Seq<char>, from: u64 },
    Unsubscribe { session: Seq<char> },
    Invoke { id: Seq<char>, name: Seq<char>, args: Seq<char> },
    Shutdown,
    Unknown,
}

impl DeepView for AgentCommand {
    type V = AgentCommandView;

    open spec fn deep_view(&self) -> AgentCommandView {
        match self {
            AgentCommand::SendMessage { text, images } => AgentCommandView::SendMessage {
                text: text.deep_view(),
                images: images.deep_view(),
            },
            AgentCommand::SendMessageWithContext { text, images, context } => AgentCommandView::SendMessageWithContext {
                text: text.deep_view(),
                images: images.deep_view(),
                context: context.deep_view(),
            },
            AgentCommand::SendSyntheticMessage { text } => AgentCommandView::SendSyntheticMessage {
                text: text.deep_view(),
            },
            AgentCommand::Respond { id, value } => AgentCommandView::Respond {
                id: id.deep_view(),
                value: value.deep_view(),
            },
            AgentCommand::Cancel => AgentCommandView::Cancel,
            AgentCommand::Snapshot => AgentCommandView::Snapshot,
            AgentCommand::Compact { focus } => AgentCommandView::Compact {
                focus: focus.deep_view(),
            },
            AgentCommand::Subscribe { session, from } => AgentCommandView::Subscribe {
                session: session.deep_view(),
                from: from.deep_view(),
            },
            AgentCommand::Unsubscribe { session } => AgentCommandView::Unsubscribe {
                session: session.deep_view(),
            },
            AgentCommand::Invoke { id, name, args } => AgentCommandView::Invoke {
                id: id.deep_view(),
                name: name.deep_view(),
                args: args.deep_view(),
            },
            AgentCommand::Shutdown => AgentCommandView::Shutdown,
            AgentCommand::Unknown => AgentCommandView::Unknown,
        }
    }
}

impl Dup for AgentCommand {
    fn dup(&self) -> (r: Self) {
        match self {
            AgentCommand::SendMessage { text, images } => AgentCommand::SendMessage {
                text: text.dup(),
                images: images.dup(),
            },
            AgentCommand::SendMessageWithContext { text, images, context } => AgentCommand::SendMessageWithContext {
                text: text.dup(),
                images: images.dup(),
                context: context.dup(),
            },
            AgentCommand::SendSyntheticMessage { text } => AgentCommand::SendSyntheticMessage {
                text: text.dup(),
            },
            AgentCommand::Respond { id, value } => AgentCommand::Respond {
                id: id.dup(),
                value: value.dup(),
            },
            AgentCommand::Cancel => AgentCommand::Cancel,
            AgentCommand::Snapshot => AgentCommand::Snapshot,
            AgentCommand::Compact { focus } => AgentCommand::Compact {
                focus: focus.dup(),
            },
            AgentCommand::Subscribe { session, from } => AgentCommand::Subscribe {
                session: session.dup(),
                from: from.dup(),
            },
            AgentCommand::Unsubscribe { session } => AgentCommand::Unsubscribe {
                session: session.dup(),
            },
            AgentCommand::Invoke { id, name, args } => AgentCommand::Invoke {
                id: id.dup(),
                name: name.dup(),
                args: args.dup(),
            },
            AgentCommand::Shutdown => AgentCommand::Shutdown,
            AgentCommand::Unknown => AgentCommand::Unknown,
        }
    }
}

impl Clone for AgentCommand {
    fn clone(&self) -> (r: Self)
        ensures
            r.deep_view() == self.deep_view(),
    {
        self.dup()
    }
}

/// A command, and the id the driver wants echoed on its receipt.
#[derive(Debug, PartialEq, Eq)]
pub struct Tagged {
    pub tag: Option<String>,
    pub command: AgentCommand,
}

/// What a [`Tagged`] holds.
#[verifier::ext_equal]
pub struct TaggedView {
    pub tag: Option<Seq<char>>,
    pub command: AgentCommandView,
}

impl DeepView for Tagged {
    type V = TaggedView;

    open spec fn deep_view(&self) -> TaggedView {
        TaggedView {
            tag: self.tag.deep_view(),
            command: self.command.deep_view(),
        }
    }
}

impl Dup for Tagged {
    fn dup(&self) -> (r: Self) {
        Tagged {
            tag: self.tag.dup(),
            command: self.command.dup(),
        }
    }
}

impl Clone for Tagged {
    fn clone(&self) -> (r: Self)
        ensures
            r.deep_view() == self.deep_view(),
    {
        self.dup()
    }
}

} // verus!
