//! What bounds a turn, what repeats it and what reminds it.
use atomcode_harness::events::{
    NoticeKind, SessionEvent, SessionLog, StopReason, TokenUsage, ToolCall, ToolResult,
};
use atomcode_harness::events::LoggedEvent;
use atomcode_harness::loop_policy::{
    last_prompt_tokens, reproject, retry_backoff, round_signature, CapStep, RepeatFuse, Retry,
    Retrying, RoundCap, TailCompaction, ToolLoopGuard,
};
use atomcode_harness::message::{Message, Role};
use atomcode_harness::recovery::{
    clean_reasoning, timed_out, Laddered, Limited, OverflowLadder, RateLimit, Recovering,
    Recovery, StreamRecovery,
};
use atomcode_harness::span::CompactionDecision;
use atomcode_harness::todo_reminder::{reminder, stale, Stale, TodoItem, TodoStatus, Watch};
use atomcode_harness::tool_exec::{overlaps, Lanes, Start};
use atomcode_harness::truncation::{hold_back, looks_complete, put_back, OnTruncation};
use atomcode_harness::turn::{ModelResponse, RequestError, TurnProgress};

const BASE: u64 = 3_000;
const CAP: u64 = 30_000;

#[test]
fn doubling_backoff_grows_and_stops_at_the_cap() {
    // 1-based attempt → 3, 6, 12, 24, then pinned at the cap.
    assert_eq!(retry_backoff(1, BASE, CAP, None), 3_000);
    assert_eq!(retry_backoff(2, BASE, CAP, None), 6_000);
    assert_eq!(retry_backoff(3, BASE, CAP, None), 12_000);
    assert_eq!(retry_backoff(4, BASE, CAP, None), 24_000);
    assert_eq!(retry_backoff(5, BASE, CAP, None), CAP);
    assert_eq!(retry_backoff(6, BASE, CAP, None), CAP);
    // A large configured count must neither overflow the shift nor pass the cap.
    assert_eq!(retry_backoff(100, BASE, CAP, None), CAP);
}

#[test]
fn a_retry_after_hint_wins_and_is_clamped() {
    // The server's word beats the schedule…
    assert_eq!(retry_backoff(1, BASE, CAP, Some(20_000)), 20_000);
    // …a zero hint is floored so the client never busy-spins…
    assert_eq!(retry_backoff(3, BASE, CAP, Some(0)), 1_000);
    // …and a hostile hint cannot park the turn for minutes.
    assert_eq!(retry_backoff(1, BASE, CAP, Some(6_000_000)), 60_000);
}

fn at(rounds: u32) -> TurnProgress {
    TurnProgress {
        turn: 1,
        rounds,
        tool_calls: 0,
        used_tokens: 0,
        elapsed_secs: 0,
        continuing: true,
    }
}

#[test]
fn zero_rounds_means_unlimited_and_a_positive_cap_still_fires() {
    let unlimited = RoundCap::fuse(0, 0);
    for rounds in [0u32, 1, 2, 24, 25, 10_000] {
        assert_eq!(
            unlimited.call(&at(rounds)),
            None,
            "`max_rounds = 0` must never stop a turn for its round count, but it did at {rounds} rounds"
        );
    }

    let capped = RoundCap::fuse(5, 0);
    assert_eq!(capped.call(&at(4)), None, "one under the budget");
    assert_eq!(
        capped.call(&at(5)),
        Some(StopReason::MaxRounds),
        "the budget is inclusive: the sixth round must not start"
    );

    let deadline_only = RoundCap::fuse(0, 30);
    let mut late = at(3);
    late.elapsed_secs = 31;
    assert_eq!(
        deadline_only.call(&late),
        Some(StopReason::StoppedByPolicy),
        "an unlimited round budget must not disable the deadline"
    );
}

#[test]
fn a_grant_is_for_the_turn_it_was_given_in() {
    let mut cap = RoundCap::fuse(5, 0);
    cap.checkpoint = true;
    assert!(matches!(cap.consider("s", &at(5)), CapStep::Ask { cap: 5, .. }));
    assert_eq!(cap.asked("s", &at(5), true, false), None);
    assert_eq!(cap.cap_for("s", 1), 10);
    assert_eq!(cap.cap_for("s", 2), 5, "a new turn starts over");
    assert_eq!(cap.asked("s", &at(5), false, false), Some(StopReason::MaxRounds));
    assert_eq!(cap.asked("s", &at(5), false, true), Some(StopReason::Cancelled));
}

fn failing(retryable: bool) -> RequestError {
    let mut e = RequestError::message("boom".to_string());
    e.retryable = retryable;
    e
}

#[test]
fn only_what_may_help_is_retried() {
    let retry = Retry::default();
    assert!(matches!(retry.failed(1, &failing(true), false), Retrying::Wait { .. }));
    assert_eq!(retry.failed(1, &failing(false), false), Retrying::GiveUp);
    assert_eq!(retry.failed(retry.attempts, &failing(true), false), Retrying::GiveUp);
    assert_eq!(retry.failed(1, &RequestError::empty(), true), Retrying::GiveUp);
    assert!(matches!(retry.failed(1, &RequestError::empty(), false), Retrying::Wait { .. }));
}

fn call(id: &str, name: &str, arguments: &str) -> ToolCall {
    ToolCall { id: id.to_string(), name: name.to_string(), arguments: arguments.to_string() }
}

fn result(content: &str) -> ToolResult {
    ToolResult {
        call_id: "c".to_string(),
        content: content.to_string(),
        is_error: false,
        images: vec![],
    }
}

#[test]
fn the_same_answer_to_the_same_call_trips_the_guard() {
    assert!(ToolLoopGuard::new(3, 3).is_err());
    let mut guard = ToolLoopGuard::new(2, 3).expect("in order");
    let c = call("1", "read", "{}");
    assert_eq!(guard.observe(&c, result("x")), result("x"));
    assert_ne!(guard.observe(&c, result("x")).content, "x", "the second time it warns");
    assert_eq!(guard.stopping(), None);
    let _ = guard.observe(&c, result("x"));
    assert_eq!(guard.stopping(), Some(StopReason::ToolLoopDetected));
    assert_eq!(guard.stopping(), None, "once is enough");
    let _ = guard.observe(&c, result("x"));
    assert_eq!(guard.observe(&c, result("y")), result("y"), "progress starts over");
}

#[test]
fn rounds_repeat_whatever_the_order_and_the_ids() {
    let a = vec![call("1", "read", "a"), call("2", "grep", "b")];
    let b = vec![call("9", "grep", "b"), call("8", "read", "a")];
    assert_eq!(round_signature(&a), round_signature(&b));
    assert_ne!(round_signature(&a), round_signature(&vec![call("1", "read", "a")]));
    let mut fuse = RepeatFuse::new(2, 3).expect("in order");
    assert_eq!(fuse.round(&a, Some(1)), None);
    assert!(fuse.round(&b, Some(1)).is_some(), "it is told once");
    assert_eq!(fuse.stopping(), None);
    assert_eq!(fuse.round(&a, Some(1)), None);
    assert_eq!(fuse.stopping(), Some(StopReason::ToolLoopDetected));
}

fn log(events: Vec<SessionEvent>) -> SessionLog {
    SessionLog {
        id: "s".to_string(),
        events: events
            .into_iter()
            .enumerate()
            .map(|(i, event)| LoggedEvent { seq: i as u64 + 1, event })
            .collect(),
        current_turn: 5,
    }
}

#[test]
fn the_last_request_says_how_full_it_was() {
    let l = log(vec![
        SessionEvent::Usage {
            turn: 1,
            round: 1,
            usage: TokenUsage { prompt: 7, completion: 1, cached: 0 },
        },
        SessionEvent::Usage {
            turn: 1,
            round: 2,
            usage: TokenUsage { prompt: 9, completion: 1, cached: 0 },
        },
    ]);
    assert_eq!(last_prompt_tokens(&l), 9);
    assert_eq!(last_prompt_tokens(&log(vec![])), 0);
    let tail = TailCompaction { keep_turns: 2 };
    assert!(tail.compact(&log(vec![])).is_none());
    let system = Message::system("rules".to_string());
    let kept = reproject(&vec![system.clone()], vec![Message::user("hi".to_string())]);
    assert_eq!(kept[0], system);
    assert_eq!(kept[1].role, Role::User);
}

#[test]
fn a_rate_limit_is_waited_out_within_bounds() {
    let limit = RateLimit { max_waits: 2, max_wait_ms: 60_000, fallback_ms: 5_000 };
    let mut e = failing(true);
    e.rate_limited = true;
    e.retry_after_ms = Some(7_000);
    match limit.failed(0, e.clone()) {
        Limited::Wait { ms, notice } => {
            assert_eq!(ms, 7_000);
            assert_eq!(notice, "rate limited; waiting 7s (1/2)");
        }
        Limited::Fail { .. } => panic!("there are waits left"),
    }
    assert!(matches!(limit.failed(2, e), Limited::Fail { .. }));
    assert!(matches!(limit.failed(0, failing(true)), Limited::Fail { .. }));
    let late = timed_out(30);
    assert!(late.message.contains("30"), "{}", late.message);
}

#[test]
fn an_overflow_shrinks_before_it_is_tried_again() {
    let ladder = OverflowLadder { max_attempts: 2 };
    let mut e = failing(false);
    e.context_overflow = true;
    assert!(ladder.handles(0, &e));
    assert!(!ladder.handles(0, &failing(true)));
    assert!(matches!(ladder.climb(0, e.clone(), true, None, 1), Laddered::Fail { .. }));
    let fold = CompactionDecision::fold(4, "what came before".to_string());
    match ladder.climb(0, e, true, Some(fold), 1) {
        Laddered::Retry { facts } => assert!(facts
            .iter()
            .any(|f| matches!(f, SessionEvent::Compacted { through: 4, .. }))),
        Laddered::Fail { .. } => panic!("there is something to fold"),
    }
}

#[test]
fn recoveries_nest() {
    let limit = RateLimit { max_waits: 1, max_wait_ms: 60_000, fallback_ms: 5_000 };
    let ladder = OverflowLadder { max_attempts: 1 };
    let mut r = Recovering::new(limit, ladder, Retry { attempts: 2, ..Retry::default() });
    assert!(matches!(
        r.failed(failing(true), false),
        Recovery::Again { kind: NoticeKind::ProviderRetry, .. }
    ));
    let mut full = failing(true);
    full.context_overflow = true;
    let error = match r.failed(full.clone(), false) {
        Recovery::Compact { error } => error,
        other => panic!("an overflow is compacted: {other:?}"),
    };
    let fold = CompactionDecision::fold(4, "what came before".to_string());
    assert!(matches!(r.compacted(error, true, Some(fold), 1), Recovery::Anew { .. }));
    assert_eq!((r.rungs, r.attempt), (1, 1), "the retry starts anew");
    let mut limited = failing(true);
    limited.rate_limited = true;
    assert!(matches!(
        r.failed(limited.clone(), false),
        Recovery::Again { kind: NoticeKind::RateLimited, ms: 5_000, .. }
    ));
    assert_eq!((r.waits, r.rungs, r.attempt), (1, 0, 1), "and so does the ladder");
    assert!(matches!(r.failed(limited, false), Recovery::Fail { .. }));
    assert!(matches!(r.compacted(full, false, None, 1), Recovery::Fail { .. }));
}

#[test]
fn a_broken_stream_keeps_what_was_written() {
    let mut r = StreamRecovery::new(1);
    let mut e = failing(true);
    e.partial = Some(ModelResponse { text: "half a ".to_string(), ..ModelResponse::new() });
    let facts = r.failed(&e, Some(1), 1).expect("one recovery");
    assert!(facts
        .iter()
        .any(|f| matches!(f, SessionEvent::AssistantMessage { text, .. } if text == "half a ")));
    assert!(facts.iter().any(
        |f| matches!(f, SessionEvent::Notice { notice: NoticeKind::StreamRecovered, .. })
    ));
    assert!(r.failed(&e, Some(1), 1).is_none(), "and no second one");
    let facts = r.failed(&e, Some(2), 1).expect("a later turn has its own");
    assert!(facts.iter().any(|f| matches!(
        f,
        SessionEvent::Notice { turn: 2, detail, .. } if detail.ends_with("(1/1)")
    )));
    assert!(r.failed(&e, Some(2), 2).is_none());
    assert!(r.failed(&failing(true), Some(3), 1).is_none(), "nothing was written");
    assert_eq!(clean_reasoning(""), "");
}

#[test]
fn a_cut_call_never_runs() {
    assert!(looks_complete("{\"a\":[1,\"}\"]}"));
    assert!(!looks_complete("{\"a\":[1"));
    let calls = vec![call("1", "edit", "{\"a\":"), call("2", "read", "{}")];
    let (run, refused) = hold_back(&calls);
    assert_eq!(run, vec![call("2", "read", "{}")]);
    assert_eq!(refused.len(), 1);
    let ran = ToolResult { call_id: "2".to_string(), ..result("ok") };
    let back = put_back(&refused, vec![ran.clone()]);
    assert_eq!(back.len(), 2);
    assert_eq!(back[0].call_id, "1");
    assert!(back[0].is_error);
    assert_eq!(back[1], ran);
}

#[test]
fn a_cut_answer_goes_on_a_bounded_number_of_times() {
    let mut on = OnTruncation::new(1);
    let cut = ModelResponse { truncated: true, text: "a".to_string(), ..ModelResponse::new() };
    let (_, facts) = on.responded(cut.clone(), Some(1));
    assert!(facts.iter().any(|f| matches!(f, SessionEvent::Injected { .. })), "{facts:?}");
    let (last, facts) = on.responded(cut.clone(), Some(1));
    assert!(!facts.iter().any(|f| matches!(f, SessionEvent::Injected { .. })), "{facts:?}");
    assert!(!last.truncated, "the asking ends");
    let (next, facts) = on.responded(cut, Some(2));
    assert!(next.truncated, "a later turn has its own");
    assert!(facts.iter().any(|f| matches!(f, SessionEvent::Injected { turn: 2, .. })));
}

#[test]
fn a_cut_is_noticed_wherever_it_falls() {
    let whole = "{\"path\": \"a\\\"}b\", \"n\": [1, {\"x\": null}]}";
    assert!(looks_complete(whole));
    for (k, _) in whole.char_indices().skip(1) {
        assert!(!looks_complete(&whole[..k]), "{}", &whole[..k]);
    }
}

// ---- reminders --------------------------------------------------------------

fn item(content: &str, status: TodoStatus) -> TodoItem {
    TodoItem { content: content.to_string(), status }
}

#[test]
fn a_task_in_progress_is_what_goes_stale() {
    let items = vec![
        item("read the parser", TodoStatus::Completed),
        item("fix the parser", TodoStatus::InProgress),
    ];
    match stale(&items) {
        Some(Stale::Doing(what)) => assert_eq!(what, "fix the parser"),
        other => panic!("expected the in-progress task, got {:?}", other.is_some()),
    }
}

#[test]
fn a_list_nobody_has_started_is_stale_a_different_way() {
    let items = vec![item("a", TodoStatus::Pending), item("b", TodoStatus::Pending)];
    match stale(&items) {
        Some(Stale::Idle(left)) => assert_eq!(left, 2),
        _ => panic!("two pending tasks and nothing in progress is stale"),
    }
}

#[test]
fn a_finished_list_says_nothing() {
    let items = vec![item("a", TodoStatus::Completed), item("b", TodoStatus::Completed)];
    assert!(stale(&items).is_none(), "work that is done is not something to nag about");
    assert!(stale(&vec![]).is_none(), "and neither is a session that never planned");
}

#[test]
fn a_rejected_plan_is_not_the_plan() {
    let mut watch = Watch {
        calls: vec![call("c1", "todowrite", r#"{"todos":[{"content":"a","status":"in_progress"}]}"#)],
        ..Watch::new()
    };
    assert_eq!(watch.standing().len(), 1);
    watch.failed.push("c1".to_string());
    assert!(watch.standing().is_empty());
    assert!(stale(&vec![]).is_none());
}

#[test]
fn the_reminder_names_the_task_and_stays_out_of_the_conversation() {
    let text = reminder(&Stale::Doing("fix the parser".into()), 4);
    assert!(text.starts_with("<system-reminder>"), "{text}");
    assert!(text.contains("fix the parser"), "{text}");
    assert!(text.contains("4 steps"), "{text}");
    assert!(text.contains("status\\\":\\\"completed") || text.contains("completed"));
    assert!(
        text.contains("Do not mention this reminder"),
        "a reminder read aloud is not a reminder: {text}"
    );
}

#[test]
fn reminders_keep_their_distance() {
    let mut watch = Watch::new();
    let items = vec![item("a", TodoStatus::Pending)];
    assert!(watch.remind(1, 2, 3, &items).is_none(), "too soon");
    assert!(watch.remind(1, 3, 3, &items).is_some());
    assert!(watch.remind(1, 4, 3, &items).is_none(), "it was just said");
    assert!(watch.remind(1, 6, 3, &items).is_some());
    watch.hear(
        &SessionEvent::AssistantMessage {
            turn: 1,
            round: 1,
            text: String::new(),
            reasoning: String::new(),
            tool_calls: vec![call("c1", "todowrite", "{}")],
            meta: None,
        },
        &vec![true],
    );
    assert_eq!(watch.calls.len(), 1);
}

#[test]
fn unsafe_calls_run_alone() {
    assert!(!overlaps(1, 4));
    assert!(overlaps(2, 4));
    let mut lanes = Lanes::new(2, vec![true, true, true, false, true]);
    assert_eq!(lanes.start(false), Start::Run(0));
    assert_eq!(lanes.start(false), Start::Run(1));
    assert_eq!(lanes.start(false), Start::Wait, "the lanes are full");
    lanes.done(true);
    assert_eq!(lanes.start(true), Start::Never(2), "cancelled before it started");
    assert_eq!(lanes.start(false), Start::Wait, "it has to be alone");
    assert_eq!(lanes.running(), (false, 1, 2), "and nothing overtakes it");
    lanes.done(true);
    assert_eq!(lanes.start(false), Start::Run(3));
    assert_eq!(lanes.start(false), Start::Wait);
    lanes.done(false);
    assert_eq!(lanes.start(false), Start::Run(4));
    assert_eq!(lanes.start(false), Start::Over);
}
