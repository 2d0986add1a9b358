//! Session facts, told as a driver's events.
//!
//! The outward half of the driver protocol is a fold over committed facts: a
//! replayed session and a live one produce the same screen, because they are the
//! same facts.
use crate::data::{none_of, one_of, put, Dup};
use crate::events::{
    InjectionOrigin, InjectionOriginView, MessageMeta, MessageMetaView, NoticeKind, SessionEvent,
    SessionEventView, StopReason, TokenUsage, ToolCall, ToolCallView, ToolResult, ToolResultView,
};
use crate::protocol::{
    AgentEvent, AgentEventView, BatchCall, BatchCallView, CompactTrigger, CompactTriggerView,
    ContextSource, ContextSourceView, SteeredInput, SteeredInputView,
};
use crate::text;
use crate::text::{lit, number};
use vstd::prelude::*;

verus! {

/// A batch of calls the last answer opened.
#[derive(Debug, PartialEq, Eq)]
pub struct OpenBatch {
    pub id: String,
    pub total: usize,
    /// Calls that have come back without an error.
    pub ok: usize,
    pub started_ms: u64,
}

/// What a [`OpenBatch`] holds.
#[verifier::ext_equal]
pub struct OpenBatchView {
    pub id: Seq<char>,
    pub total: usize,
    pub ok: usize,
    pub started_ms: u64,
}

impl DeepView for OpenBatch {
    type V = OpenBatchView;

    open spec fn deep_view(&self) -> OpenBatchView {
        OpenBatchView {
            id: self.id.deep_view(),
            total: self.total.deep_view(),
            ok: self.ok.deep_view(),
            started_ms: self.started_ms.deep_view(),
        }
    }
}

impl Dup for OpenBatch {
    fn dup(&self) -> (r: Self) {
        OpenBatch {
            id: self.id.dup(),
            total: self.total.dup(),
            ok: self.ok.dup(),
            started_ms: self.started_ms.dup(),
        }
    }
}

impl Clone for OpenBatch {
    fn clone(&self) -> (r: Self)
        ensures
            r.deep_view() == self.deep_view(),
    {
        self.dup()
    }
}

/// The fold that turns committed facts into driver events.
/// 
/// Most facts are a straight rename. It remembers what it must: a batch spans from the
/// answer that asks for several calls to the end of the round that ran them.
#[derive(Debug, PartialEq, Eq)]
pub struct Projector {
    pub ctx_window: u32,
    pub batch: Option<OpenBatch>,
    pub last_prompt_tokens: u32,
    /// The person has spoken this turn; anything more steers it.
    pub said_this_turn: bool,
    /// The round now running answers a nudge the person never wrote.
    pub answering_a_nudge: bool,
    /// The last round a usage was reported for.
    pub usage_round: Option<(u64, u32)>,
    /// A requested compaction reports itself; the fold stays silent on it.
    pub manual_compaction: bool,
}

/// What a [`Projector`] holds.
#[verifier::ext_equal]
pub struct ProjectorView {
    pub ctx_window: u32,
    pub batch: Option<OpenBatchView>,
    pub last_prompt_tokens: u32,
    pub said_this_turn: bool,
    pub answering_a_nudge: bool,
    pub usage_round: Option<(u64, u32)>,
    pub manual_compaction: bool,
}

impl DeepView for Projector {
    type V = ProjectorView;

    open spec fn deep_view(&self) -> ProjectorView {
        ProjectorView {
            ctx_window: self.ctx_window.deep_view(),
            batch: self.batch.deep_view(),
            last_prompt_tokens: self.last_prompt_tokens.deep_view(),
            said_this_turn: self.said_this_turn.deep_view(),
            answering_a_nudge: self.answering_a_nudge.deep_view(),
            usage_round: self.usage_round.deep_view(),
            manual_compaction: self.manual_compaction.deep_view(),
        }
    }
}

impl Dup for Projector {
    fn dup(&self) -> (r: Self) {
        Projector {
            ctx_window: self.ctx_window.dup(),
            batch: self.batch.dup(),
            last_prompt_tokens: self.last_prompt_tokens.dup(),
            said_this_turn: self.said_this_turn.dup(),
            answering_a_nudge: self.answering_a_nudge.dup(),
            usage_round: self.usage_round.dup(),
            manual_compaction: self.manual_compaction.dup(),
        }
    }
}

impl Clone for Projector {
    fn clone(&self) -> (r: Self)
        ensures
            r.deep_view() == self.deep_view(),
    {
        self.dup()
    }
}

// ---- the fold, stated -----------------------------------------------------

/// What one fact leads to: the fold after it, and the events it is told as.
#[verifier::ext_equal]
pub struct Told {
    pub fold: ProjectorView,
    pub events: Seq<AgentEventView>,
}

pub open spec fn no_tokens() -> TokenUsage {
    TokenUsage { prompt: 0, completion: 0, cached: 0 }
}

/// The report of one round's context use.
pub open spec fn usage_report(
    tokens: TokenUsage,
    ctx_window: u32,
    used: u32,
    turn: u64,
    round: u32,
) -> MessageMetaView {
    MessageMetaView {
        tokens,
        elapsed_ms: 0,
        ctx_window,
        used_tokens: used,
        round,
        turn_id: turn,
        request_id: round as u64,
        session_id: None,
        finish_reason: Seq::empty(),
    }
}

pub open spec fn batch_id(turn: u64, round: u32) -> Seq<char> {
    "batch-"@ + text::decimal(turn as nat) + "-"@ + text::decimal(round as nat)
}

/// The calls of a batch as they are announced. A call nothing is known of is not
/// claimed to be safe.
pub open spec fn announced(calls: Seq<ToolCallView>, safe: Seq<bool>) -> Seq<BatchCallView> {
    Seq::new(
        calls.len(),
        |i: int|
            BatchCallView {
                id: calls[i].id,
                name: calls[i].name,
                arguments: calls[i].arguments,
                parallel_safe: i < safe.len() && safe[i],
            },
    )
}

pub open spec fn told_answer(
    p: ProjectorView,
    turn: u64,
    round: u32,
    calls: Seq<ToolCallView>,
    safe: Seq<bool>,
    now_ms: u64,
) -> Told {
    let reported = p.usage_round == Some((turn, round));
    let usage = if reported {
        Seq::<AgentEventView>::empty()
    } else {
        seq![
            AgentEventView::Usage(
                usage_report(no_tokens(), p.ctx_window, p.last_prompt_tokens, turn, round),
            ),
        ]
    };
    let q = ProjectorView { usage_round: Some((turn, round)), ..p };
    if calls.len() >= 2 {
        let id = batch_id(turn, round);
        Told {
            fold: ProjectorView {
                batch: Some(
                    OpenBatchView { id, total: calls.len() as usize, ok: 0, started_ms: now_ms },
                ),
                ..q
            },
            events: usage.push(
                AgentEventView::ToolBatchStarted { batch_id: id, calls: announced(calls, safe) },
            ),
        }
    } else {
        Told { fold: q, events: usage }
    }
}

pub open spec fn told_result(p: ProjectorView, result: ToolResultView) -> Told {
    Told {
        fold: ProjectorView {
            batch: match p.batch {
                Some(b) => Some(
                    if result.is_error {
                        b
                    } else {
                        OpenBatchView { ok: (b.ok + 1) as usize, ..b }
                    },
                ),
                None => None,
            },
            ..p
        },
        events: seq![AgentEventView::ToolResult { result }],
    }
}

pub open spec fn elapsed(now_ms: u64, started_ms: u64) -> u64 {
    if now_ms >= started_ms {
        (now_ms - started_ms) as u64
    } else {
        0
    }
}

pub open spec fn told_step_end(p: ProjectorView, now_ms: u64) -> Told {
    Told {
        fold: ProjectorView { answering_a_nudge: false, batch: None, ..p },
        events: match p.batch {
            Some(b) => seq![
                AgentEventView::ToolBatchCompleted {
                    batch_id: b.id,
                    ok: b.ok,
                    total: b.total,
                    elapsed_ms: elapsed(now_ms, b.started_ms),
                },
            ],
            None => Seq::empty(),
        },
    }
}

/// Each notice has an event of its own, so a driver never parses prose.
pub open spec fn notice_event(notice: NoticeKind, detail: Seq<char>) -> AgentEventView {
    match notice {
        NoticeKind::RateLimited => AgentEventView::RateLimited {
            reset_at_display: detail,
            reset_label: detail,
            secs_until_reset: None,
            auto_resuming: true,
            server_message: Some(detail),
        },
        NoticeKind::ProviderRetry => AgentEventView::ProviderRetry { reason: detail },
        NoticeKind::StreamRecovered => AgentEventView::StreamRecovery { recovered: true },
        NoticeKind::OutputTruncated => AgentEventView::OutputTruncationRecovery,
        NoticeKind::OverflowCompacted => AgentEventView::Warning(detail),
        NoticeKind::OutputLeftCutOff => AgentEventView::Warning(detail),
    }
}

pub open spec fn context_source(origin: InjectionOriginView) -> ContextSourceView {
    match origin {
        InjectionOriginView::Peer { from } => ContextSourceView::Peer { from },
        InjectionOriginView::Memory => ContextSourceView::Memory,
        InjectionOriginView::Reminder => ContextSourceView::Reminder,
        InjectionOriginView::Continuation => ContextSourceView::Continuation,
        InjectionOriginView::InternalNudge => ContextSourceView::Continuation,
        InjectionOriginView::CompactionSummary => ContextSourceView::CompactionSummary,
        InjectionOriginView::TeamNote { member } => ContextSourceView::TeamNote { member },
        InjectionOriginView::PersonToMember { member } => ContextSourceView::PersonToMember {
            member,
        },
    }
}

/// A turn's end: what went wrong, whether it was cancelled, and that it is over.
pub open spec fn turn_end_events(turn: u64, stop: StopReason, error: Option<Seq<char>>) -> Seq<
    AgentEventView,
> {
    let failed = match error {
        Some(message) => seq![AgentEventView::Error { message, retryable: None }],
        None => Seq::<AgentEventView>::empty(),
    };
    let cancelled = if stop is Cancelled {
        seq![AgentEventView::Cancelled]
    } else {
        Seq::<AgentEventView>::empty()
    };
    failed + cancelled + seq![AgentEventView::TurnComplete { turn: Some(turn), reason: stop }]
}

/// What `e` is told as. `safe` says of each call in `e` whether its tool claims to
/// be safe to overlap; `now_ms` is the clock.
pub open spec fn told(p: ProjectorView, e: SessionEventView, safe: Seq<bool>, now_ms: u64) -> Told {
    match e {
        SessionEventView::TurnStart { turn } => Told {
            fold: ProjectorView { said_this_turn: false, ..p },
            events: seq![AgentEventView::TurnStarted { turn: Some(turn) }],
        },
        SessionEventView::AssistantChunk { delta, reasoning, .. } => Told {
            fold: p,
            events: if p.answering_a_nudge {
                Seq::empty()
            } else if reasoning {
                seq![AgentEventView::Reasoning(delta)]
            } else {
                seq![AgentEventView::TextDelta(delta)]
            },
        },
        SessionEventView::AssistantMessage { turn, round, tool_calls, .. } => told_answer(
            p,
            turn,
            round,
            tool_calls,
            safe,
            now_ms,
        ),
        SessionEventView::ToolStarted { call, .. } => Told {
            fold: p,
            events: seq![AgentEventView::ToolStarted { call }],
        },
        SessionEventView::ToolResultLogged { call_id, content, is_error, images, .. } =>
            told_result(p, ToolResultView { call_id, content, is_error, images }),
        SessionEventView::StepEnd { .. } => told_step_end(p, now_ms),
        SessionEventView::Usage { turn, round, usage } => Told {
            fold: ProjectorView {
                last_prompt_tokens: usage.prompt,
                usage_round: Some((turn, round)),
                ..p
            },
            events: seq![
                AgentEventView::Usage(
                    usage_report(usage, p.ctx_window, usage.prompt, turn, round),
                ),
            ],
        },
        SessionEventView::Compacted { summary, .. } => Told {
            fold: p,
            events: if p.manual_compaction {
                Seq::empty()
            } else {
                seq![
                    AgentEventView::Compacted {
                        trigger: CompactTriggerView::Auto {
                            used_tokens: p.last_prompt_tokens,
                            ctx_window: p.ctx_window,
                        },
                        removed: 0,
                        bytes_before: 0,
                        bytes_after: vstd::utf8::encode_utf8(summary).len() as usize,
                        committed: true,
                        snapshot: None,
                    },
                ]
            },
        },
        SessionEventView::Notice { notice, detail, .. } => Told {
            fold: p,
            events: seq![notice_event(notice, detail)],
        },
        SessionEventView::RateLimitPaused { pause, .. } => Told {
            fold: p,
            events: seq![
                AgentEventView::RateLimited {
                    reset_at_display: pause.reset_at_display,
                    reset_label: pause.reset_label,
                    secs_until_reset: pause.secs_until_reset,
                    auto_resuming: false,
                    server_message: pause.server_message,
                },
            ],
        },
        SessionEventView::PolicyIntervention { intervention, .. } => Told {
            fold: p,
            events: seq![AgentEventView::PolicyIntervention { intervention }],
        },
        SessionEventView::TurnEnd { turn, stop, error } => Told {
            fold: p,
            events: turn_end_events(turn, stop, error),
        },
        SessionEventView::UserMessage { turn, text, images } => Told {
            fold: ProjectorView { said_this_turn: true, ..p },
            events: if p.said_this_turn {
                seq![
                    AgentEventView::Steered {
                        turn: Some(turn),
                        count: 1,
                        inputs: seq![SteeredInputView { text, images }],
                    },
                ]
            } else {
                Seq::empty()
            },
        },
        SessionEventView::Injected { text, origin, .. } => Told {
            fold: ProjectorView { answering_a_nudge: origin is InternalNudge, ..p },
            events: seq![AgentEventView::ContextAdded { text, source: context_source(origin) }],
        },
        SessionEventView::StepStart { .. }
        | SessionEventView::RequestHeader { .. }
        | SessionEventView::Titled { .. }
        | SessionEventView::MessagesRewritten { .. }
        | SessionEventView::Asked { .. }
        | SessionEventView::Answered { .. }
        | SessionEventView::Interrupted { .. }
        | SessionEventView::Stopped { .. } => Told { fold: p, events: Seq::empty() },
    }
}

/// The count of a batch can take one more result.
pub open spec fn has_room(p: ProjectorView) -> bool {
    p.batch matches Some(b) ==> b.ok < usize::MAX
}

pub open spec fn fresh(ctx_window: u32) -> ProjectorView {
    ProjectorView {
        ctx_window,
        batch: None,
        last_prompt_tokens: 0,
        said_this_turn: false,
        answering_a_nudge: false,
        usage_round: None,
        manual_compaction: false,
    }
}

// ---- the fold, made -------------------------------------------------------

fn report(tokens: TokenUsage, ctx_window: u32, used: u32, turn: u64, round: u32) -> (r: MessageMeta)
    ensures
        r.deep_view() == usage_report(tokens, ctx_window, used, turn, round),
{
    MessageMeta {
        tokens,
        elapsed_ms: 0,
        ctx_window,
        used_tokens: used,
        round,
        turn_id: turn,
        request_id: round as u64,
        session_id: None,
        finish_reason: String::new(),
    }
}

fn announce(calls: &Vec<ToolCall>, safe: &Vec<bool>) -> (out: Vec<BatchCall>)
    ensures
        out.deep_view() == announced(calls.deep_view(), safe@),
{
    let ghost all = announced(calls.deep_view(), safe@);
    let mut out: Vec<BatchCall> = none_of();
    let mut i: usize = 0;
    assert(out.deep_view() =~= all.take(0));
    while i < calls.len()
        invariant
            i <= calls.len(),
            all == announced(calls.deep_view(), safe@),
            out.deep_view() == all.take(i as int),
        decreases calls.len() - i,
    {
        let c = &calls[i];
        put(
            &mut out,
            BatchCall {
                id: c.id.clone(),
                name: c.name.clone(),
                arguments: c.arguments.clone(),
                parallel_safe: i < safe.len() && safe[i],
            },
        );
        assert(out.deep_view() =~= all.take(i + 1));
        i = i + 1;
    }
    assert(all.take(i as int) =~= all);
    out
}

fn source_of(origin: &InjectionOrigin) -> (r: ContextSource)
    ensures
        r.deep_view() == context_source(origin.deep_view()),
{
    match origin {
        InjectionOrigin::Peer { from } => ContextSource::Peer { from: from.clone() },
        InjectionOrigin::Memory => ContextSource::Memory,
        InjectionOrigin::Reminder => ContextSource::Reminder,
        InjectionOrigin::Continuation => ContextSource::Continuation,
        InjectionOrigin::InternalNudge => ContextSource::Continuation,
        InjectionOrigin::CompactionSummary => ContextSource::CompactionSummary,
        InjectionOrigin::TeamNote { member } => ContextSource::TeamNote { member: member.clone() },
        InjectionOrigin::PersonToMember { member } => ContextSource::PersonToMember {
            member: member.clone(),
        },
    }
}

fn tell_notice(notice: NoticeKind, detail: &String) -> (r: AgentEvent)
    ensures
        r.deep_view() == notice_event(notice, detail@),
{
    match notice {
        NoticeKind::RateLimited => AgentEvent::RateLimited {
            reset_at_display: detail.clone(),
            reset_label: detail.clone(),
            secs_until_reset: None,
            auto_resuming: true,
            server_message: Some(detail.clone()),
        },
        NoticeKind::ProviderRetry => AgentEvent::ProviderRetry { reason: detail.clone() },
        NoticeKind::StreamRecovered => AgentEvent::StreamRecovery { recovered: true },
        NoticeKind::OutputTruncated => AgentEvent::OutputTruncationRecovery,
        NoticeKind::OverflowCompacted => AgentEvent::Warning(detail.clone()),
        NoticeKind::OutputLeftCutOff => AgentEvent::Warning(detail.clone()),
    }
}

fn tell_turn_end(turn: u64, stop: StopReason, error: &Option<String>) -> (out: Vec<AgentEvent>)
    ensures
        out.deep_view() == turn_end_events(turn, stop, error.deep_view()),
{
    let mut out: Vec<AgentEvent> = none_of();
    match error {
        Some(message) => put(
            &mut out,
            AgentEvent::Error { message: message.clone(), retryable: None },
        ),
        None => {},
    }
    if stop == StopReason::Cancelled {
        put(&mut out, AgentEvent::Cancelled);
    }
    put(&mut out, AgentEvent::TurnComplete { turn: Some(turn), reason: stop });
    assert(out.deep_view() =~= turn_end_events(turn, stop, error.deep_view()));
    out
}

impl Projector {
    /// A fold that has seen nothing yet.
    pub fn new(ctx_window: u32) -> (p: Self)
        ensures
            p.deep_view() == fresh(ctx_window),
    {
        Projector {
            ctx_window,
            batch: None,
            last_prompt_tokens: 0,
            said_this_turn: false,
            answering_a_nudge: false,
            usage_round: None,
            manual_compaction: false,
        }
    }

    fn tell_answer(
        &mut self,
        turn: u64,
        round: u32,
        calls: &Vec<ToolCall>,
        safe: &Vec<bool>,
        now_ms: u64,
    ) -> (out: Vec<AgentEvent>)
        ensures
            ({
                let t = told_answer(
                    old(self).deep_view(),
                    turn,
                    round,
                    calls.deep_view(),
                    safe@,
                    now_ms,
                );
                &&& final(self).deep_view() == t.fold
                &&& out.deep_view() == t.events
            }),
    {
        let mut out: Vec<AgentEvent> = none_of();
        let reported = match self.usage_round {
            Some((t, r)) => t == turn && r == round,
            None => false,
        };
        if !reported {
            self.usage_round = Some((turn, round));
            put(
                &mut out,
                AgentEvent::Usage(
                    report(
                        TokenUsage { prompt: 0, completion: 0, cached: 0 },
                        self.ctx_window,
                        self.last_prompt_tokens,
                        turn,
                        round,
                    ),
                ),
            );
            assert(out.deep_view() =~= seq![out.deep_view()[0]]);
        }
        if calls.len() >= 2 {
            let id = lit("batch-").concat(number(turn).as_str()).concat("-").concat(
                number(round as u64).as_str(),
            );
            put(
                &mut out,
                AgentEvent::ToolBatchStarted {
                    batch_id: id.clone(),
                    calls: announce(calls, safe),
                },
            );
            self.batch = Some(
                OpenBatch { id, total: calls.len(), ok: 0, started_ms: now_ms },
            );
        }
        out
    }

    fn tell_result(&mut self, result: ToolResult) -> (out: Vec<AgentEvent>)
        requires
            has_room(old(self).deep_view()),
        ensures
            ({
                let t = told_result(old(self).deep_view(), result.deep_view());
                &&& final(self).deep_view() == t.fold
                &&& out.deep_view() == t.events
            }),
    {
        let batch = self.batch.take();
        self.batch = match batch {
            Some(b) => {
                let mut b = b;
                if !result.is_error {
                    b.ok = b.ok + 1;
                }
                Some(b)
            },
            None => None,
        };
        one_of(AgentEvent::ToolResult { result })
    }

    fn tell_step_end(&mut self, now_ms: u64) -> (out: Vec<AgentEvent>)
        ensures
            ({
                let t = told_step_end(old(self).deep_view(), now_ms);
                &&& final(self).deep_view() == t.fold
                &&& out.deep_view() == t.events
            }),
    {
        self.answering_a_nudge = false;
        match self.batch.take() {
            Some(b) => {
                let elapsed_ms = if now_ms >= b.started_ms {
                    now_ms - b.started_ms
                } else {
                    0
                };
                one_of(
                    AgentEvent::ToolBatchCompleted {
                        batch_id: b.id,
                        ok: b.ok,
                        total: b.total,
                        elapsed_ms,
                    },
                )
            },
            None => none_of(),
        }
    }

    /// Takes in one fact and gives back what it is told as.
    pub fn project(&mut self, event: &SessionEvent, safe: &Vec<bool>, now_ms: u64) -> (out: Vec<
        AgentEvent,
    >)
        requires
            has_room(old(self).deep_view()),
        ensures
            ({
                let t = told(old(self).deep_view(), event.deep_view(), safe@, now_ms);
                &&& final(self).deep_view() == t.fold
                &&& out.deep_view() == t.events
            }),
    {
        match event {
            SessionEvent::TurnStart { turn } => {
                self.said_this_turn = false;
                one_of(AgentEvent::TurnStarted { turn: Some(*turn) })
            },
            SessionEvent::AssistantChunk { delta, reasoning, .. } => {
                if self.answering_a_nudge {
                    none_of()
                } else if *reasoning {
                    one_of(AgentEvent::Reasoning(delta.clone()))
                } else {
                    one_of(AgentEvent::TextDelta(delta.clone()))
                }
            },
            SessionEvent::AssistantMessage { turn, round, tool_calls, .. } => self.tell_answer(
                *turn,
                *round,
                tool_calls,
                safe,
                now_ms,
            ),
            SessionEvent::ToolStarted { call, .. } => one_of(
                AgentEvent::ToolStarted { call: call.dup() },
            ),
            SessionEvent::ToolResultLogged { call_id, content, is_error, images, .. } => {
                self.tell_result(
                    ToolResult {
                        call_id: call_id.clone(),
                        content: content.clone(),
                        is_error: *is_error,
                        images: images.dup(),
                    },
                )
            },
            SessionEvent::StepEnd { .. } => self.tell_step_end(now_ms),
            SessionEvent::Usage { turn, round, usage } => {
                self.last_prompt_tokens = usage.prompt;
                self.usage_round = Some((*turn, *round));
                one_of(
                    AgentEvent::Usage(
                        report(*usage, self.ctx_window, usage.prompt, *turn, *round),
                    ),
                )
            },
            SessionEvent::Compacted { summary, .. } => {
                if self.manual_compaction {
                    none_of()
                } else {
                    one_of(
                        AgentEvent::Compacted {
                            trigger: CompactTrigger::Auto {
                                used_tokens: self.last_prompt_tokens,
                                ctx_window: self.ctx_window,
                            },
                            removed: 0,
                            bytes_before: 0,
                            bytes_after: summary.as_str().len(),
                            committed: true,
                            snapshot: None,
                        },
                    )
                }
            },
            SessionEvent::Notice { notice, detail, .. } => one_of(tell_notice(*notice, detail)),
            SessionEvent::RateLimitPaused { pause, .. } => one_of(
                AgentEvent::RateLimited {
                    reset_at_display: pause.reset_at_display.clone(),
                    reset_label: pause.reset_label.clone(),
                    secs_until_reset: pause.secs_until_reset,
                    auto_resuming: false,
                    server_message: pause.server_message.dup(),
                },
            ),
            SessionEvent::PolicyIntervention { intervention, .. } => one_of(
                AgentEvent::PolicyIntervention { intervention: intervention.clone() },
            ),
            SessionEvent::TurnEnd { turn, stop, error } => tell_turn_end(*turn, *stop, error),
            SessionEvent::UserMessage { turn, text, images } => {
                if self.said_this_turn {
                    one_of(
                        AgentEvent::Steered {
                            turn: Some(*turn),
                            count: 1,
                            inputs: one_of(
                                SteeredInput { text: text.clone(), images: images.dup() },
                            ),
                        },
                    )
                } else {
                    self.said_this_turn = true;
                    none_of()
                }
            },
            SessionEvent::Injected { text, origin, .. } => {
                self.answering_a_nudge = match origin {
                    InjectionOrigin::InternalNudge => true,
                    _ => false,
                };
                one_of(
                    AgentEvent::ContextAdded { text: text.clone(), source: source_of(origin) },
                )
            },
            SessionEvent::StepStart { .. }
            | SessionEvent::RequestHeader { .. }
            | SessionEvent::Titled { .. }
            | SessionEvent::MessagesRewritten { .. }
            | SessionEvent::Asked { .. }
            | SessionEvent::Answered { .. }
            | SessionEvent::Interrupted { .. }
            | SessionEvent::Stopped { .. } => none_of(),
        }
    }
}

/// A whole log told from `p` on, with nothing known of any tool and no clock.
pub open spec fn told_all(p: ProjectorView, log: Seq<SessionEventView>) -> Told
    decreases log.len(),
{
    if log.len() == 0 {
        Told { fold: p, events: Seq::empty() }
    } else {
        let before = told_all(p, log.drop_last());
        let last = told(before.fold, log.last(), Seq::empty(), 0);
        Told { fold: last.fold, events: before.events + last.events }
    }
}

/// The projection of a log a caller already holds: a resumed session, a stored
/// transcript. It is the fold a live turn runs, from the start.
pub fn replay(log: &Vec<SessionEvent>, ctx_window: u32) -> (out: Vec<AgentEvent>)
    ensures
        out.deep_view() == told_all(fresh(ctx_window), log.deep_view()).events,
{
    let mut p = Projector::new(ctx_window);
    let mut out: Vec<AgentEvent> = none_of();
    let safe: Vec<bool> = Vec::new();
    let ghost all = log.deep_view();
    let mut i: usize = 0;
    assert(all.take(0) =~= Seq::<SessionEventView>::empty());
    assert(safe@ =~= Seq::<bool>::empty());
    while i < log.len()
        invariant
            i <= log.len(),
            all == log.deep_view(),
            safe@ == Seq::<bool>::empty(),
            told_all(fresh(ctx_window), all.take(i as int)).fold == p.deep_view(),
            told_all(fresh(ctx_window), all.take(i as int)).events == out.deep_view(),
            p.deep_view().batch matches Some(b) ==> b.ok <= i,
        decreases log.len() - i,
    {
        assert(all.take(i + 1).drop_last() =~= all.take(i as int));
        assert(all.take(i + 1).last() == log@[i as int].deep_view());
        let more = p.project(&log[i], &safe, 0);
        crate::data::put_all(&mut out, more);
        i = i + 1;
    }
    assert(all.take(i as int) =~= all);
    out
}

// ---- what holds of it -----------------------------------------------------

/// A log told in two sittings is told the same: what a resumed session shows first
/// and what it shows next are one screen.
pub proof fn law_replay_resumes(
    p: ProjectorView,
    a: Seq<SessionEventView>,
    b: Seq<SessionEventView>,
)
    ensures
        ({
            let first = told_all(p, a);
            let next = told_all(first.fold, b);
            let whole = told_all(p, a + b);
            &&& whole.fold == next.fold
            &&& whole.events == first.events + next.events
        }),
    decreases b.len(),
{
    if b.len() == 0 {
        assert(a + b =~= a);
        assert(told_all(p, a).events + Seq::<AgentEventView>::empty() =~= told_all(p, a).events);
    } else {
        assert((a + b).drop_last() =~= a + b.drop_last());
        assert((a + b).last() == b.last());
        law_replay_resumes(p, a, b.drop_last());
        let first = told_all(p, a);
        let mid = told_all(first.fold, b.drop_last());
        let last = told(mid.fold, b.last(), Seq::empty(), 0);
        assert((first.events + mid.events) + last.events =~= first.events + (mid.events
            + last.events));
    }
}

/// An event without what depends on the clock or on which tools are mounted.
pub open spec fn timeless(e: AgentEventView) -> AgentEventView {
    match e {
        AgentEventView::ToolBatchCompleted { batch_id, ok, total, .. } =>
            AgentEventView::ToolBatchCompleted { batch_id, ok, total, elapsed_ms: 0 },
        AgentEventView::ToolBatchStarted { batch_id, calls } => AgentEventView::ToolBatchStarted {
            batch_id,
            calls: Seq::new(
                calls.len(),
                |i: int| BatchCallView { parallel_safe: false, ..calls[i] },
            ),
        },
        _ => e,
    }
}

pub open spec fn timeless_all(events: Seq<AgentEventView>) -> Seq<AgentEventView> {
    Seq::new(events.len(), |i: int| timeless(events[i]))
}

/// Two folds that differ at most in when a batch was started.
pub open spec fn same_but_time(p: ProjectorView, q: ProjectorView) -> bool {
    &&& ProjectorView { batch: None, ..p } == (ProjectorView { batch: None, ..q })
    &&& match (p.batch, q.batch) {
        (Some(a), Some(b)) => a.id == b.id && a.total == b.total && a.ok == b.ok,
        (None, None) => true,
        _ => false,
    }
}

proof fn lemma_same_but_time(
    p: ProjectorView,
    q: ProjectorView,
    e: SessionEventView,
    safe: Seq<bool>,
    now_ms: u64,
)
    requires
        same_but_time(p, q),
    ensures
        same_but_time(told(p, e, safe, now_ms).fold, told(q, e, Seq::empty(), 0).fold),
        timeless_all(told(p, e, safe, now_ms).events) == timeless_all(
            told(q, e, Seq::empty(), 0).events,
        ),
{
    let a = told(p, e, safe, now_ms).events;
    let b = told(q, e, Seq::empty(), 0).events;
    assert(a.len() == b.len());
    assert forall|i: int| 0 <= i < a.len() implies timeless(a[i]) == timeless(b[i]) by {
        match (a[i], b[i]) {
            (
                AgentEventView::ToolBatchStarted { calls: x, .. },
                AgentEventView::ToolBatchStarted { calls: y, .. },
            ) => {
                assert(Seq::new(
                    x.len(),
                    |i: int| BatchCallView { parallel_safe: false, ..x[i] },
                ) =~= Seq::new(y.len(), |i: int| BatchCallView { parallel_safe: false, ..y[i] }));
            },
            _ => {},
        }
    }
    assert(timeless_all(a) =~= timeless_all(b));
}

/// A whole log told live: with what the tools claimed and what the clock said when
/// each fact was committed.
pub open spec fn told_live(
    p: ProjectorView,
    log: Seq<SessionEventView>,
    seen: Seq<(Seq<bool>, u64)>,
) -> Told
    decreases log.len(),
{
    if log.len() == 0 {
        Told { fold: p, events: Seq::empty() }
    } else {
        let before = told_live(p, log.drop_last(), seen.drop_last());
        let last = told(before.fold, log.last(), seen.last().0, seen.last().1);
        Told { fold: last.fold, events: before.events + last.events }
    }
}

/// A replayed session and a live one produce the same screen: whatever the clock
/// said and whatever the tools claimed, the events are the same ones in the same
/// order, and only the times and the claims shown can differ.
pub proof fn law_replay_is_live(
    p: ProjectorView,
    log: Seq<SessionEventView>,
    seen: Seq<(Seq<bool>, u64)>,
)
    requires
        seen.len() == log.len(),
    ensures
        same_but_time(told_live(p, log, seen).fold, told_all(p, log).fold),
        timeless_all(told_live(p, log, seen).events) == timeless_all(told_all(p, log).events),
    decreases log.len(),
{
    if log.len() > 0 {
        law_replay_is_live(p, log.drop_last(), seen.drop_last());
        let live = told_live(p, log.drop_last(), seen.drop_last());
        let still = told_all(p, log.drop_last());
        lemma_same_but_time(live.fold, still.fold, log.last(), seen.last().0, seen.last().1);
        let a = told(live.fold, log.last(), seen.last().0, seen.last().1).events;
        let b = told(still.fold, log.last(), Seq::empty(), 0).events;
        assert(timeless_all(live.events + a) =~= timeless_all(live.events) + timeless_all(a));
        assert(timeless_all(still.events + b) =~= timeless_all(still.events) + timeless_all(b));
    }
}

/// A batch is completed under the name it was started with, and only once: the end
/// of the round closes whatever batch was open.
pub proof fn law_batch_closes_once(p: ProjectorView, turn: u64, step: u32, calls: u32, now_ms: u64)
    ensures
        ({
            let e = SessionEventView::StepEnd { turn, step, tool_calls: calls };
            let first = told(p, e, Seq::empty(), now_ms);
            let again = told(first.fold, e, Seq::empty(), now_ms);
            &&& again.events.len() == 0
            &&& (p.batch matches Some(b) ==> first.events.len() == 1 && (
            first.events[0] matches AgentEventView::ToolBatchCompleted { batch_id, total, ok, .. }
                && batch_id == b.id && total == b.total && ok == b.ok))
            &&& (p.batch is None ==> first.events.len() == 0)
        }),
{
}

/// A round's usage is reported once, whether or not the provider said anything:
/// after either report, the answer of the same round adds none.
pub proof fn law_usage_is_reported_once(
    p: ProjectorView,
    turn: u64,
    round: u32,
    usage: TokenUsage,
    calls: Seq<ToolCallView>,
    text: Seq<char>,
)
    ensures
        ({
            let answer = SessionEventView::AssistantMessage {
                turn,
                round,
                text,
                reasoning: Seq::empty(),
                tool_calls: calls,
                meta: None,
            };
            let counted = told(p, (SessionEventView::Usage { turn, round, usage }), Seq::empty(), 0);
            let after = told(counted.fold, answer, Seq::empty(), 0);
            let alone = told(p, answer, Seq::empty(), 0);
            let again = told(alone.fold, answer, Seq::empty(), 0);
            &&& forall|i: int|
                0 <= i < after.events.len() ==> !(#[trigger] after.events[i] is Usage)
            &&& forall|i: int|
                0 <= i < again.events.len() ==> !(#[trigger] again.events[i] is Usage)
        }),
{
}

/// What the model says back to a nudge nobody wrote is never shown; what it does is.
pub proof fn law_nudge_answers_are_silent(
    p: ProjectorView,
    turn: u64,
    round: u32,
    nudge: Seq<char>,
    delta: Seq<char>,
    reasoning: bool,
    call: ToolCallView,
)
    ensures
        ({
            let n = told(
                p,
                (SessionEventView::Injected {
                    turn,
                    text: nudge,
                    origin: InjectionOriginView::InternalNudge,
                }),
                Seq::empty(),
                0,
            );
            let c = told(
                n.fold,
                (SessionEventView::AssistantChunk { turn, round, delta, reasoning }),
                Seq::empty(),
                0,
            );
            let t = told(n.fold, (SessionEventView::ToolStarted { turn, call }), Seq::empty(), 0);
            &&& c.events.len() == 0
            &&& t.events == seq![AgentEventView::ToolStarted { call }]
        }),
{
}

} // verus!
