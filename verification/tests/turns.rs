//! A turn from its first claim to its end, and what a driver hears of it.
use atomcode_harness::agent_loop::{before_turn, last_request_id, response_meta, LoopRow};
use atomcode_harness::events::{
    Committed, HeaderReason, InjectionOrigin, LoggedEvent, MessageMeta, SessionEvent, StopReason,
    TokenUsage, ToolCall, ToolResult,
};
use atomcode_harness::handle::{
    answer_receipt, assemble, claimed_receipt, compaction_refused, no_driver, HandleToolDriver,
    Pump, PumpAction, Woke,
};
use atomcode_harness::message::{Message, Role};
use atomcode_harness::projection::replay;
use atomcode_harness::protocol::{
    AgentCommand, AgentEvent, AgentStatus, CommandError, Description, Tagged,
};
use atomcode_harness::stream::{batch_results, stalled, stream_once};
use atomcode_harness::subscriptions::{Standing, Subscriptions};
use atomcode_harness::trace::{call_line, chunk_text, prompt_line, result_line, summary_line};
use atomcode_harness::turn::{
    Claim, Happened, MessageOrigin, ModelResponse, Reply, ReplyStats, RequestError, StreamEvent,
    TurnState, Wanted,
};

fn claim(text: Option<&str>) -> Claim {
    Claim {
        message: text.map(str::to_string),
        origin: MessageOrigin::User,
        images: vec![],
        injections: vec![],
    }
}

fn call(id: &str) -> ToolCall {
    ToolCall { id: id.to_string(), name: "read".to_string(), arguments: "{}".to_string() }
}

fn tool_result(id: &str) -> ToolResult {
    ToolResult {
        call_id: id.to_string(),
        content: "ok".to_string(),
        is_error: false,
        images: vec![],
    }
}

fn stats() -> ReplyStats {
    ReplyStats { last_request_id: 0, elapsed_ms: 5, ctx_window: 100, session: "s".to_string() }
}

/// Drives a turn up to its first request.
fn requested(row: &LoopRow) -> (TurnState, Vec<SessionEvent>) {
    let (mut t, open) = TurnState::open(1);
    let mut log = vec![open];
    let (facts, wanted) = t.step(row, Happened::Claimed { claim: claim(Some("hello")) });
    log.extend(facts);
    let Wanted::Screen { decision } = wanted else { panic!("not {wanted:?}") };
    let (facts, _) = t.step(row, Happened::Screened { decision });
    log.extend(facts);
    let (facts, wanted) = t.step(row, Happened::Queued { late: vec![], sender: None });
    log.extend(facts);
    assert_eq!(wanted, Wanted::Assemble);
    let (facts, wanted) =
        t.step(row, Happened::Assembled { unexplained: vec![], model: "m".to_string() });
    log.extend(facts);
    assert_eq!(wanted, Wanted::Request { answering_a_nudge: false });
    (t, log)
}

#[test]
fn a_turn_logs_what_happened_in_order() {
    let row = LoopRow::default();
    let (mut t, mut log) = requested(&row);
    let response = ModelResponse {
        text: "reading".to_string(),
        tool_calls: vec![call("a"), call("b")],
        usage: Some(TokenUsage { prompt: 10, completion: 2, cached: 0 }),
        ..ModelResponse::new()
    };
    let (facts, wanted) =
        t.step(&row, Happened::Replied { reply: Reply::Answered { response, stats: stats() } });
    log.extend(facts);
    assert_eq!(wanted, Wanted::Run { calls: vec![call("a"), call("b")] });
    let (facts, _) = t.step(&row, Happened::Ran { results: vec![tool_result("a"), tool_result("b")] });
    log.extend(facts);

    assert_eq!(log[0], SessionEvent::TurnStart { turn: 1 });
    assert!(matches!(&log[1], SessionEvent::UserMessage { text, .. } if text == "hello"));
    assert_eq!(log[2], SessionEvent::StepStart { turn: 1, step: 1 });
    assert!(matches!(
        &log[3],
        SessionEvent::RequestHeader { round: 1, reason: HeaderReason::Series, .. }
    ));
    assert!(matches!(&log[4], SessionEvent::Usage { .. }));
    assert!(matches!(&log[5], SessionEvent::AssistantMessage { .. }));
    let ids: Vec<&str> = log
        .iter()
        .filter_map(|e| match e {
            SessionEvent::ToolResultLogged { call_id, .. } => Some(call_id.as_str()),
            _ => None,
        })
        .collect();
    assert_eq!(ids, vec!["a", "b"]);
}

#[test]
fn what_the_log_cannot_explain_is_not_sent() {
    let row = LoopRow { verify_log_invariant: true, ..LoopRow::default() };
    let (mut t, _) = TurnState::open(1);
    let (_, wanted) = t.step(&row, Happened::Claimed { claim: claim(Some("hi")) });
    let Wanted::Screen { decision } = wanted else { panic!("not {wanted:?}") };
    t.step(&row, Happened::Screened { decision });
    t.step(&row, Happened::Queued { late: vec![], sender: None });
    let (facts, wanted) = t.step(
        &row,
        Happened::Assembled { unexplained: vec!["ghost".to_string()], model: "m".to_string() },
    );
    assert!(facts.is_empty());
    assert_eq!(wanted, Wanted::Close);
    assert_eq!(t.stop, StopReason::InvariantViolated);
    assert!(t.error.expect("why").ends_with("session log: ghost"));
}

#[test]
fn refused_input_sends_nothing() {
    let row = LoopRow::default();
    let (mut t, _) = TurnState::open(1);
    let (_, wanted) = t.step(&row, Happened::Claimed { claim: claim(Some("hi")) });
    let Wanted::Screen { mut decision } = wanted else { panic!("not {wanted:?}") };
    decision.rejected = Some("no".to_string());
    let (facts, wanted) = t.step(&row, Happened::Screened { decision });
    assert!(facts.is_empty());
    assert_eq!(wanted, Wanted::Close);
    assert_eq!(t.stop, StopReason::InputRejected);
}

#[test]
fn a_failed_request_ends_the_turn() {
    let row = LoopRow::default();
    let (mut t, _) = requested(&row);
    let error = RequestError::message("no route".to_string());
    let (_, wanted) = t.step(&row, Happened::Replied { reply: Reply::Failed { error } });
    assert_eq!(wanted, Wanted::Close);
    assert_eq!(t.stop, StopReason::ProviderError);
    assert_eq!(t.error.as_deref(), Some("no route"));

    let (mut t, _) = requested(&row);
    t.step(&row, Happened::Replied { reply: Reply::Cancelled });
    assert_eq!(t.stop, StopReason::Cancelled);
}

#[test]
fn a_report_out_of_turn_changes_nothing() {
    let row = LoopRow::default();
    let (mut t, _) = TurnState::open(1);
    let before = t.clone();
    let (facts, wanted) = t.step(&row, Happened::Ran { results: vec![] });
    assert!(facts.is_empty());
    assert_eq!(wanted, Wanted::Nothing);
    assert_eq!(t, before);
}

#[test]
fn no_model_and_no_input_open_no_turn() {
    let none = before_turn(false, true).expect("nothing can run");
    assert_eq!(none.stop, StopReason::ProviderError);
    assert_eq!(none.error.as_deref(), Some("no llm provider"));
    assert_eq!(before_turn(true, false).expect("nothing to do").stop, StopReason::Stopped);
    assert_eq!(before_turn(true, true), None);
}

#[test]
fn chunks_add_up_to_the_answer() {
    let (facts, out) = stream_once(
        vec![
            StreamEvent::TextDelta("one ".to_string()),
            StreamEvent::Reasoning("hm".to_string()),
            StreamEvent::TextDelta("two".to_string()),
            StreamEvent::ToolCall(call("a")),
            StreamEvent::Done { truncated: false },
        ],
        1,
        1,
    );
    let out = out.expect("an answer");
    assert_eq!(out.text, "one two");
    assert_eq!(out.reasoning, "hm");
    assert_eq!(out.tool_calls, vec![call("a")]);
    assert_eq!(facts.len(), 3);
    let (_, empty) = stream_once(vec![], 1, 1);
    assert!(empty.unwrap_err().empty_response);
    let (_, broken) = stream_once(
        vec![
            StreamEvent::TextDelta("half".to_string()),
            StreamEvent::Error(RequestError::message("cut".to_string())),
        ],
        1,
        1,
    );
    let broken = broken.unwrap_err();
    assert_eq!(broken.partial.expect("what had streamed").text, "half");
    assert!(stalled(ModelResponse::new(), 30_000).code.is_some());
    let results = batch_results(&vec![call("a"), call("b")], vec![Some(tool_result("a")), None]);
    assert_eq!(results.len(), 2);
    assert!(results[1].is_error);
    assert_eq!(results[1].call_id, "b");
}

fn meta() -> MessageMeta {
    MessageMeta {
        tokens: TokenUsage { prompt: 1, completion: 1, cached: 0 },
        elapsed_ms: 1,
        ctx_window: 10,
        used_tokens: 1,
        round: 1,
        turn_id: 1,
        request_id: 1,
        session_id: None,
        finish_reason: "stop".to_string(),
    }
}

#[test]
fn a_new_answer_is_numbered_past_the_log() {
    let answer = |seq: u64, id: Option<u64>| LoggedEvent {
        seq,
        event: SessionEvent::AssistantMessage {
            turn: 1,
            round: 1,
            text: String::new(),
            reasoning: String::new(),
            tool_calls: vec![],
            meta: id.map(|request_id| MessageMeta { request_id, ..meta() }),
        },
    };
    assert_eq!(last_request_id(&vec![]), 0);
    assert_eq!(last_request_id(&vec![answer(1, None)]), 0);
    let log = vec![answer(1, Some(3)), answer(2, Some(7)), answer(3, Some(4)), answer(4, None)];
    assert_eq!(last_request_id(&log), 7);
    let measured = ReplyStats { last_request_id: last_request_id(&log), ..stats() };
    assert_eq!(response_meta(&ModelResponse::new(), &measured, 1, 1).request_id, 8);
}

#[test]
fn a_replayed_log_tells_the_driver_what_a_live_one_did() {
    let log = vec![
        SessionEvent::TurnStart { turn: 1 },
        SessionEvent::AssistantChunk {
            turn: 1,
            round: 1,
            delta: "hi".to_string(),
            reasoning: false,
        },
        SessionEvent::AssistantMessage {
            turn: 1,
            round: 1,
            text: "hi".to_string(),
            reasoning: String::new(),
            tool_calls: vec![],
            meta: Some(meta()),
        },
        SessionEvent::TurnEnd { turn: 1, stop: StopReason::Stopped, error: None },
    ];
    let told = replay(&log, 100);
    assert_eq!(told[0], AgentEvent::TurnStarted { turn: Some(1) });
    assert!(told.contains(&AgentEvent::TextDelta("hi".to_string())), "{told:?}");
    assert_eq!(
        told.last(),
        Some(&AgentEvent::TurnComplete { turn: Some(1), reason: StopReason::Stopped })
    );
}

fn send(text: &str) -> Woke {
    Woke::Command {
        incoming: Tagged {
            tag: None,
            command: AgentCommand::SendMessage { text: text.to_string(), images: vec![] },
        },
        current_turn: 1,
    }
}

fn tagged(command: AgentCommand) -> Woke {
    Woke::Command { incoming: Tagged { tag: Some("r".to_string()), command }, current_turn: 4 }
}

#[test]
fn one_turn_runs_at_a_time() {
    let mut pump = Pump::new();
    let actions = pump.woke(send("one"));
    assert_eq!(actions.iter().filter(|a| **a == PumpAction::StartTurn).count(), 1);
    assert!(pump.running);
    let actions = pump.woke(send("two"));
    assert!(!actions.contains(&PumpAction::StartTurn), "it joins the one running");
    let actions = pump.woke(tagged(AgentCommand::Snapshot));
    assert!(!actions.contains(&PumpAction::SendSnapshot), "not before the turn is over");
    let actions = pump.woke(Woke::TurnDone);
    assert_eq!(actions.iter().filter(|a| **a == PumpAction::SendSnapshot).count(), 1);
    assert!(!pump.running);
    let actions = pump.woke(tagged(AgentCommand::Cancel));
    assert!(actions.contains(&PumpAction::Send {
        event: AgentEvent::Rejected {
            command: "r".to_string(),
            error: CommandError::NotRunning,
        }
    }));
    assert!(actions.contains(&PumpAction::RefuseAll));
    pump.woke(Woke::HungUp);
    assert!(pump.over);
}

#[test]
fn receipts_say_what_became_of_a_command() {
    assert!(answer_receipt(None, true).is_empty());
    assert_eq!(
        answer_receipt(Some("r".to_string()), false),
        vec![PumpAction::Send {
            event: AgentEvent::Rejected {
                command: "r".to_string(),
                error: CommandError::StaleQuestion,
            }
        }]
    );
    assert_eq!(
        claimed_receipt(true, "r".to_string(), 2, true),
        Some(AgentEvent::Accepted { command: "r".to_string(), turn: Some(2), steered: true })
    );
    assert_eq!(claimed_receipt(false, "r".to_string(), 2, true), None);
    assert!(matches!(no_driver(), AgentEvent::Error { retryable: Some(false), .. }));
    let driver = HandleToolDriver { session: "s".to_string() };
    assert!(driver.reaches("s") && !driver.reaches("child"));
    assert_eq!(driver.progress("child", "c", "x".to_string()), None);
    assert!(driver.progress("s", "c", "x".to_string()).is_some());
    let snapshot = assemble("rules".to_string(), vec![Message::user("hi".to_string())]);
    assert_eq!(snapshot[0].role, Role::System);
    assert_eq!(assemble(String::new(), vec![]).len(), 0);
    assert!(matches!(
        compaction_refused(None),
        AgentEvent::Compacted { committed: false, .. }
    ));
}

fn standing(session: &str, parent: Option<&str>) -> Standing {
    Standing {
        description: Description {
            session: session.to_string(),
            parent: parent.map(str::to_string),
            member: None,
        },
        status: AgentStatus::Idle,
    }
}

fn fact(session: &str, seq: u64) -> Committed {
    Committed {
        session: session.to_string(),
        seq,
        event: SessionEvent::TurnStart { turn: seq },
    }
}

#[test]
fn a_subscriber_misses_nothing_and_hears_nothing_twice() {
    let mut subs = Subscriptions::new();
    assert!(subs.on_fact(&fact("s", 1)).is_empty(), "nobody listens");
    let log: Vec<LoggedEvent> = (1..=3)
        .map(|seq| LoggedEvent { seq, event: SessionEvent::TurnStart { turn: seq } })
        .collect();
    let target = standing("s", None);
    let told = subs.subscribe("s", 2, &target, &vec![target.clone()], &log);
    let seqs: Vec<u64> = told
        .iter()
        .filter_map(|e| match e {
            AgentEvent::Fact(c) => Some(c.seq),
            _ => None,
        })
        .collect();
    assert_eq!(seqs, vec![2, 3]);
    assert!(subs.on_fact(&fact("s", 3)).is_empty(), "that was history");
    assert_eq!(subs.on_fact(&fact("s", 4)), vec![AgentEvent::Fact(fact("s", 4))]);
    let member = standing("m", Some("s"));
    assert_eq!(subs.on_added(&member).len(), 2, "described, then where it stands");
    assert!(subs.on_added(&member).is_empty());
    assert_eq!(
        subs.on_removed("m", &Some("s".to_string())),
        vec![AgentEvent::AgentRemoved { session: "m".to_string() }]
    );
    assert!(subs.on_status("m", &Some("s".to_string()), AgentStatus::Working).is_empty());
    subs.unsubscribe("s");
    assert!(subs.on_fact(&fact("s", 5)).is_empty());
}

#[test]
fn a_turn_is_traced_line_by_line() {
    assert_eq!(prompt_line("go"), "\u{1b}[2m› go\u{1b}[0m");
    assert_eq!(chunk_text("x", false), "x");
    assert_eq!(chunk_text("x", true), "\u{1b}[2mx\u{1b}[0m");
    let c = ToolCall { arguments: "{\n}".to_string(), ..call("a") };
    assert_eq!(call_line(&c), "\u{1b}[36m⚒ read\u{1b}[0m { }");
    assert!(result_line(&tool_result("a")).contains("✓ ok"));
    let done = before_turn(true, false).expect("an outcome");
    assert!(!summary_line(&done).is_empty());
    assert_eq!(InjectionOrigin::Memory, InjectionOrigin::Memory.clone());
}
