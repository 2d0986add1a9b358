//! Questions, approvals and the policies around them.
use atomcode_harness::ask::{self, AskArgs, Asking};
use atomcode_harness::asking::{
    draw, grantable, hear, make_key, question_payload, weigh, Asker, Decision, Gate, InputMode,
    InputResponse, Permission, RiskLevel, Weighed, ANSWER_ALLOW, ANSWER_ALWAYS,
    NEVER_GRANT,
};
use atomcode_harness::events::{Question, ToolCall, ToolResult};
use atomcode_harness::policy::{
    approval_gate, artifact_dir, cap_result, needs_approval, presume, repaired, ApprovalMode,
    AsRisky, Authorization, DelegationBounds, Passage, RulePolicy, SensitivePathGate,
};
use atomcode_harness::policy_rows::{
    check_rules, permission_gate, plan_gate, telemetry_line, token_budget, Approval, AskingPolicy,
    RuleDecision,
};
use atomcode_harness::events::StopReason;
use atomcode_harness::turn::{TurnOutcome, TurnProgress};

fn args(json: &str) -> Result<AskArgs, String> {
    let v: serde_json::Value = serde_json::from_str(json).map_err(|e| e.to_string())?;
    Ok(AskArgs {
        question: v["question"].as_str().unwrap_or("").to_string(),
        options: v["options"]
            .as_array()
            .map(|a| a.iter().filter_map(|o| o.as_str()).map(str::to_string).collect())
            .unwrap_or_default(),
    })
}

/// Runs the tool with whoever answers, and says what they were asked.
fn ask_with(
    answer: impl Fn(&Question) -> Option<String>,
    json: &str,
) -> (ToolResult, Vec<Question>) {
    match ask::pose(args(json), None) {
        Asking::Refuse { result } => (result, vec![]),
        Asking::Ask { question } => {
            let answer = answer(&question);
            (ask::tell(answer), vec![question])
        }
    }
}

fn last_option(q: &Question) -> Option<String> {
    q.options.last().map(|c| c.value.clone())
}

#[test]
fn the_answer_is_the_option_the_person_picked() {
    let (result, seen) = ask_with(
        last_option,
        r#"{"question":"which one?","options":["the first","the second"]}"#,
    );
    assert!(!result.is_error, "{result:?}");
    assert!(result.content.contains("the second"), "{}", result.content);
    assert_eq!(seen.len(), 1);
    assert_eq!(seen[0].prompt, "which one?");
    assert_eq!(seen[0].values(), vec!["the first", "the second"]);
    assert!(seen[0].about.is_none(), "a question is not an approval");
}

#[test]
fn no_answer_is_not_agreement_and_not_an_error() {
    let (result, _) = ask_with(|_| None, r#"{"question":"which one?","options":["a","b"]}"#);
    assert!(!result.is_error, "nothing failed: {result:?}");
    assert!(result.content.contains("not agreement"), "{}", result.content);
    assert!(result.content.contains("carry on"), "{}", result.content);
}

#[test]
fn a_question_with_nothing_to_choose_between_is_refused() {
    for json in [
        r#"{"question":"what should I do?","options":[]}"#,
        r#"{"question":"ok?","options":["yes"]}"#,
        r#"{"question":"pick","options":["a","b","c","d","e","f"]}"#,
    ] {
        let (result, seen) = ask_with(|_| None, json);
        assert!(result.is_error, "{json} should be refused: {result:?}");
        assert!(seen.is_empty(), "and never reach the person");
    }
}

#[test]
fn with_no_front_end_at_all_it_says_so_rather_than_hanging() {
    let (result, _) = ask_with(|_| None, r#"{"question":"which?","options":["a","b"]}"#);
    assert!(!result.is_error);
    assert!(result.content.contains("not agreement"), "{}", result.content);
}

#[test]
fn a_question_needs_words_and_readable_arguments() {
    let (result, _) = ask_with(last_option, r#"{"question":"  ","options":["a","b"]}"#);
    assert!(result.is_error);
    assert_eq!(result.content, "`question` is required");
    match ask::pose(Err("no JSON".to_string()), None) {
        Asking::Refuse { result } => assert_eq!(result.content, "invalid arguments: no JSON"),
        Asking::Ask { .. } => panic!("nothing to ask"),
    }
    let (result, _) = ask_with(last_option, r#"{"question":"q","options":["a"," ",""]}"#);
    assert!(result.content.starts_with("`options` must name 2 to 5 alternatives; got 1"));
}

fn gate(risk: RiskLevel, scope: &str) -> Gate {
    Gate {
        risk,
        tool: "bash".to_string(),
        scope: scope.to_string(),
        arguments: "{\"command\":\"ls\"}".to_string(),
        asker: None,
    }
}

#[test]
fn an_answer_covers_what_was_asked() {
    assert!(grantable("ls"));
    assert!(!grantable(NEVER_GRANT));
    assert_ne!(make_key("bash", "ls"), make_key("bash", "rm"));
    assert_eq!(weigh(&gate(RiskLevel::Safe, "ls"), false), Weighed::Allow);
    assert_eq!(weigh(&gate(RiskLevel::Risky, "ls"), true), Weighed::Allow);
    match weigh(&gate(RiskLevel::Risky, "ls"), false) {
        Weighed::Ask { question, grantable, .. } => {
            assert!(grantable);
            assert_eq!(question.about.map(|a| a.tool), Some("bash".to_string()));
        }
        Weighed::Allow => panic!("a risky call is asked about"),
    }
    assert_eq!(Permission::given(None), Permission::Deny);
    assert_eq!(Permission::given(Some(Permission::AllowAlways)), Permission::AllowAlways);
}

#[test]
fn a_driver_answers_each_question_once() {
    let mut asker = Asker::new();
    let (first, _) = asker.request("approval", "{}".to_string()).expect("connected");
    let (second, _) = asker.request("approval", "{}".to_string()).expect("connected");
    assert_ne!(first, second);
    assert!(asker.answer(first));
    assert!(!asker.answer(first), "it is answered already");
    assert_eq!(asker.refuse_all(), vec![second]);
    assert!(!asker.answer(second));
    assert_eq!(asker.close(), Vec::<u64>::new());
    assert!(asker.request("approval", "{}".to_string()).is_none(), "nobody is there any more");
}

#[test]
fn always_is_remembered_for_the_scope() {
    let mut asker = Asker::new();
    let g = gate(RiskLevel::Risky, "ls");
    let (decision, _) = asker.settle(&g, Some(Permission::AllowAlways), false);
    assert_eq!(decision, Decision::Allow);
    assert_eq!(asker.consider(&g, None), Weighed::Allow);
    assert_ne!(asker.consider(&gate(RiskLevel::Risky, "rm"), None), Weighed::Allow);
    let (decision, _) = asker.settle(&gate(RiskLevel::Risky, "rm"), None, false);
    assert!(matches!(decision, Decision::Deny(_)), "no answer is no consent");
}

#[test]
fn an_always_is_asked_once_unless_it_may_never_be_granted() {
    let mut asker = Asker::new();
    let g = gate(RiskLevel::Risky, "ls");
    asker.settle(&g, Some(Permission::AllowAlways), false);
    asker.settle(&gate(RiskLevel::Risky, "rm"), Some(Permission::Deny), false);
    asker.settle(&g, None, false);
    let other = Gate { arguments: "{\"command\":\"ls -l\"}".to_string(), ..g };
    assert_eq!(asker.consider(&other, None), Weighed::Allow);
    let never = gate(RiskLevel::Risky, NEVER_GRANT);
    asker.settle(&never, Some(Permission::AllowAlways), false);
    assert!(matches!(asker.consider(&never, None), Weighed::Ask { grantable: false, .. }));
    assert!(matches!(asker.settle(&never, None, false).0, Decision::Deny(_)));
}

#[test]
fn a_question_is_drawn_and_heard() {
    let q = Question::approval("bash", "{}", Some("ls".to_string()), None);
    let drawn = draw(&q);
    assert_eq!(drawn.mode, InputMode::Single);
    assert_eq!(drawn.options.len(), q.options.len());
    assert_eq!(hear(None), None);
    let declined = InputResponse {
        declined: true,
        text: Some("x".to_string()),
        selected: vec!["y".to_string()],
    };
    assert_eq!(hear(Some(declined)), None);
    let payload = question_payload("which \"one\"?", &vec!["a".to_string(), "b".to_string()]);
    let v: serde_json::Value = serde_json::from_str(&payload).expect("JSON");
    assert_eq!(v["question"], "which \"one\"?");
}

#[test]
fn rules_are_denied_before_they_are_allowed() {
    let p = RulePolicy {
        mode: ApprovalMode::Yolo,
        allow: vec!["bash".to_string()],
        deny: vec!["bash".to_string()],
    };
    assert!(matches!(p.decide("bash", RiskLevel::Safe, true), Decision::Deny(_)));
    let p = RulePolicy {
        mode: ApprovalMode::ReadOnly,
        allow: vec!["bash".to_string()],
        deny: vec![],
    };
    assert_eq!(p.decide("bash", RiskLevel::Risky, false), Decision::Allow);
    assert!(matches!(p.decide("edit", RiskLevel::Safe, false), Decision::Deny(_)));
    assert_eq!(p.decide("read", RiskLevel::Safe, true), Decision::Allow);
    let p = RulePolicy { mode: ApprovalMode::DenyRisky, allow: vec![], deny: vec![] };
    assert!(matches!(p.decide("bash", RiskLevel::Risky, false), Decision::Deny(_)));
    assert_eq!(p.decide("read", RiskLevel::Safe, false), Decision::Allow);
}

#[test]
fn a_refusal_names_its_call() {
    match approval_gate(Decision::Deny("it is late".to_string()), "c1") {
        Passage::Refuse { result } => {
            assert!(result.is_error);
            assert_eq!(result.call_id, "c1");
            assert!(result.content.contains("it is late"), "{}", result.content);
        }
        Passage::Run => panic!("it was denied"),
    }
    assert_eq!(approval_gate(Decision::Allow, "c1"), Passage::Run);
    assert!(!needs_approval(Authorization::Person, true, true));
    assert!(needs_approval(Authorization::No, true, true));
    assert!(!needs_approval(Authorization::No, false, true));
}

#[test]
fn a_long_result_is_capped() {
    let long = ToolResult {
        call_id: "c".to_string(),
        content: "x".repeat(100),
        is_error: false,
        images: vec![],
    };
    let capped = cap_result(long.clone(), 10);
    assert!(capped.content.starts_with("xxxx"));
    assert_ne!(capped.content, long.content);
    assert_eq!(cap_result(long.clone(), 100), long);
}

#[test]
fn sensitive_paths_are_asked_about() {
    assert!(SensitivePathGate::asks(Authorization::No, true, true, RiskLevel::Safe, true));
    assert!(!SensitivePathGate::asks(Authorization::No, true, true, RiskLevel::Safe, false));
    let risky = AsRisky::sensitive("read_file");
    assert_eq!(risky.name, "read_file (sensitive path)");
    assert_eq!(risky.risk(), RiskLevel::Risky);
    match SensitivePathGate::passed(Decision::Deny("no".to_string()), "c") {
        Passage::Refuse { result } => assert_eq!(
            result.content,
            "Refused: the arguments name a sensitive path (credentials, keys, `.env`) and no"
        ),
        Passage::Run => panic!("it was denied"),
    }
}

#[test]
fn a_delegated_agent_has_no_shell() {
    assert!(DelegationBounds::delegated(true, false));
    assert!(!DelegationBounds::delegated(false, false));
    assert!(matches!(
        DelegationBounds::check(true, "bash", "c", false, None),
        Passage::Refuse { .. }
    ));
    assert_eq!(DelegationBounds::check(false, "bash", "c", false, None), Passage::Run);
    assert_eq!(DelegationBounds::check(true, "read_file", "c", false, None), Passage::Run);
    assert!(matches!(
        DelegationBounds::check(true, "read_file", "c", true, None),
        Passage::Refuse { .. }
    ));
}

#[test]
fn a_repair_keeps_the_call() {
    let call = ToolCall {
        id: "c".to_string(),
        name: "edit".to_string(),
        arguments: "{".to_string(),
    };
    let fixed = repaired(call, "{}".to_string());
    assert_eq!((fixed.id.as_str(), fixed.name.as_str(), fixed.arguments.as_str()), ("c", "edit", "{}"));
    assert_eq!(presume(Authorization::No, true), Authorization::Presumed);
    assert_eq!(presume(Authorization::No, false), Authorization::No);
    assert!(artifact_dir(None).is_err());
    assert_eq!(artifact_dir(Some("/tmp/x".to_string())), Ok("/tmp/x".to_string()));
}

#[test]
fn rows_gate_calls() {
    let (passage, a) = permission_gate(RuleDecision::Allow, "bash", "c", Authorization::No);
    assert_eq!(passage, Passage::Run);
    assert_eq!(a, Authorization::Presumed);
    let (passage, _) = permission_gate(RuleDecision::Deny, "bash", "c", Authorization::No);
    assert!(matches!(passage, Passage::Refuse { .. }));
    assert_eq!(plan_gate(Some(true), "read", "c"), Passage::Run);
    match plan_gate(None, "edit_file", "c") {
        Passage::Refuse { result } => assert!(
            result.content.starts_with("Refused: plan mode is active, so `edit_file` cannot run."),
            "{}",
            result.content
        ),
        Passage::Run => panic!("plan mode is on"),
    }
    assert!(check_rules(&vec!["bad[".to_string()], false).is_err());
    assert_eq!(check_rules(&vec![], true), Ok(false));
    assert_eq!(check_rules(&vec![], false), Ok(true));
}

#[test]
fn an_asking_policy_remembers_always() {
    let mut p = AskingPolicy::new();
    let g = gate(RiskLevel::Risky, "ls");
    assert!(matches!(p.approach(&g, true), Approval::Ask { .. }));
    assert!(matches!(
        p.approach(&g, false),
        Approval::Settled { decision: Decision::Deny(_) }
    ));
    assert_eq!(p.settle(&g, Some(ANSWER_ALWAYS.to_string())), Decision::Allow);
    assert_eq!(p.approach(&g, true), Approval::Settled { decision: Decision::Allow });
    assert!(matches!(p.settle(&g, None), Decision::Deny(_)));
    let never = Gate { scope: NEVER_GRANT.to_string(), ..gate(RiskLevel::Risky, "ls") };
    assert!(
        matches!(p.settle(&never, Some(ANSWER_ALWAYS.to_string())), Decision::Deny(_)),
        "it was not offered"
    );
    assert_eq!(p.settle(&never, Some(ANSWER_ALLOW.to_string())), Decision::Allow);
}

fn progress(rounds: u32, used_tokens: u32) -> TurnProgress {
    TurnProgress { turn: 1, rounds, tool_calls: 0, used_tokens, elapsed_secs: 0, continuing: true }
}

#[test]
fn a_token_budget_stops_a_turn() {
    assert_eq!(token_budget(100, &progress(1, 99)), None);
    assert_eq!(token_budget(100, &progress(1, 101)), Some(StopReason::StoppedByPolicy));
    let o = TurnOutcome {
        turn: 3,
        steps: 2,
        rounds: 2,
        tool_calls: 1,
        stop: StopReason::Stopped,
        text: "done".to_string(),
        error: None,
    };
    let line = telemetry_line(&o, "s1", 12, "{}");
    assert!(line.contains("s1"), "{line}");
}
