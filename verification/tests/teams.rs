//! Roles, teams and delegated children.
use atomcode_harness::asking::RiskLevel;
use atomcode_harness::effort::ReasoningEffort;
use atomcode_harness::events::{Committed, LoggedEvent, SessionEvent, StopReason};
use atomcode_harness::roles::{
    built_in_roles, find_role, load_roles, parse_role, tools_for, Access, RoleFile,
};
use atomcode_harness::subagent::{
    catalog_pointer, plan_child, resolve_child_model, started, task_risk, turn_outcome,
    ChildModel, ChildRoundCap, DEFAULT_INSTRUCTIONS,
};
use atomcode_harness::team::{
    branch_name, brings_back, git_outcome, lead_of, place_worktree, spawn_member, stop_note,
    team_prompt, team_schema, worktree_taken, Chose, Member, Members, Removal, TeamAction, TeamArgs,
    TeamTool,
};
use atomcode_harness::turn::TurnProgress;

fn strings(items: &[&str]) -> Vec<String> {
    items.iter().map(|s| s.to_string()).collect()
}

fn tool() -> TeamTool {
    TeamTool { roles: built_in_roles(), max_members: 2, max_rounds: 10, worktrees: false }
}

fn args(action: &str) -> TeamArgs {
    TeamArgs {
        action: action.to_string(),
        name: None,
        role: None,
        task: None,
        text: None,
        model: None,
        effort: None,
        scope: None,
    }
}

fn delegate(name: &str, role: &str) -> TeamArgs {
    TeamArgs {
        name: Some(name.to_string()),
        role: Some(role.to_string()),
        task: Some("look".to_string()),
        ..args("delegate")
    }
}

fn member(name: &str, session: &str) -> Member {
    Member {
        name: name.to_string(),
        role: "explorer".to_string(),
        session: session.to_string(),
        worktree: None,
        told: false,
        scope: vec![],
        delegated_in: Some(1),
    }
}

#[test]
fn a_role_keeps_to_its_permission() {
    let roles = built_in_roles();
    assert_eq!(roles.len(), 14);
    for role in &roles {
        let tools = tools_for(role);
        assert!(!tools.contains(&"bash".to_string()), "{} has a shell", role.id);
    }
    let explorer = &roles[find_role(&roles, "explorer").expect("it ships")];
    assert_eq!(explorer.permission, Access::Explore);
    assert!(!tools_for(explorer).contains(&"write_file".to_string()));
    assert_eq!(find_role(&roles, "nobody"), None);
}

#[test]
fn a_role_file_replaces_its_namesake() {
    let content = "---\npermission: explore\ndifficulty: simple\nwhen: always\n---\nYou look.\n";
    let role = parse_role("p", "explorer", content).expect("it reads");
    assert_eq!(role.persona.trim(), "You look.");
    assert_eq!(role.when, "always");
    let file = RoleFile {
        path: "p".to_string(),
        stem: Some("explorer".to_string()),
        content: Some(content.to_string()),
        trouble: String::new(),
    };
    let roles = load_roles(&vec![vec![file.clone()]]).expect("they load");
    assert_eq!(roles.len(), 14, "it replaces and does not add");
    assert_eq!(roles[find_role(&roles, "explorer").expect("there")].when, "always");
    let broken = RoleFile { content: Some("no fences".to_string()), ..file };
    assert!(load_roles(&vec![vec![broken]]).is_err());
}

#[test]
fn a_delegation_is_screened() {
    let t = tool();
    let none = vec![];
    assert!(t.screen(&none, &delegate("scout", "explorer")).is_ok());
    assert_eq!(t.screen(&none, &args("delegate")), Err("`name` is required".to_string()));
    assert!(t
        .screen(&none, &delegate("a/b", "explorer"))
        .unwrap_err()
        .contains("is not a member name"));
    assert!(t
        .screen(&none, &delegate("scout", "nobody"))
        .unwrap_err()
        .starts_with("unknown role `nobody`; roles: "));
    assert!(t
        .screen(&none, &delegate("hand", "implementer"))
        .unwrap_err()
        .contains("`scope` is required"));
    let one = vec![member("scout", "s1")];
    assert!(t
        .screen(&one, &delegate("scout", "explorer"))
        .unwrap_err()
        .contains("already exists; `tell` it instead"));
    let full = vec![member("a", "s1"), member("b", "s2")];
    assert_eq!(
        t.screen(&full, &delegate("c", "explorer")),
        Err("the team is full (2 members)".to_string())
    );
}

#[test]
fn a_member_is_told_and_reports() {
    let mut m = Members::new();
    m.join("lead", member("scout", "s1"));
    assert_eq!(m.seat("s1").map(|s| s.name), Some("scout".to_string()));
    let tell = TeamArgs {
        name: Some("scout".to_string()),
        text: Some("go on".to_string()),
        ..args("tell")
    };
    assert_eq!(m.tell("lead", &tell), Ok(("s1".to_string(), "go on".to_string())));
    assert_eq!(m.tell_parent("lead", "scout", "found it"), "[scout] found it");
    assert!(m.team("lead").expect("a team")[0].told);
    assert!(m.tell("other", &tell).is_err());
    let taken = m.take("lead", Some("scout")).expect("it is there").expect("one");
    assert_eq!(taken.len(), 1);
    assert!(m.take("lead", Some("scout")).is_err());
}

#[test]
fn a_silent_finish_is_reported() {
    let mut m = Members::new();
    m.join("lead", member("scout", "s1"));
    let end = SessionEvent::TurnEnd { turn: 1, stop: StopReason::Stopped, error: None };
    let log = vec![
        LoggedEvent {
            seq: 1,
            event: SessionEvent::AssistantMessage {
                turn: 1,
                round: 1,
                text: "all done".to_string(),
                reasoning: String::new(),
                tool_calls: vec![],
                meta: None,
            },
        },
        LoggedEvent { seq: 2, event: end.clone() },
    ];
    let heard = m.hear(&Committed { session: "s1".to_string(), seq: 2, event: end }, &log, true);
    match heard {
        TeamAction::Message { text, .. } | TeamAction::Note { text, .. } => {
            assert!(text.contains("all done"), "{text}")
        }
        other => panic!("the lead has to hear: {other:?}"),
    }
}

#[test]
fn only_a_writer_is_asked_about() {
    let t = tool();
    assert_eq!(t.risk(&None), RiskLevel::Risky);
    assert_eq!(t.risk(&Some(args("status"))), RiskLevel::Safe);
    assert_eq!(t.risk(&Some(delegate("a", "explorer"))), RiskLevel::Safe);
    assert_eq!(t.risk(&Some(delegate("a", "implementer"))), RiskLevel::Risky);
    assert!(args("dance").action().is_err());
}

#[test]
fn a_member_is_spawned_from_its_role() {
    let t = tool();
    let a = delegate("scout", "explorer");
    let d = t.screen(&vec![], &a).expect("it may");
    assert!(!t.wants_worktree(&d));
    assert_eq!(d.clear(&vec![], false, &vec![]), Ok(()));
    let (spec, _) = d.specify(&a, None);
    assert_eq!(spec.chose, Chose::Person, "a role that ships was the person's choice");
    let named = TeamArgs { model: Some("fast".to_string()), ..a.clone() };
    let again = t.screen(&vec![], &named).expect("it may");
    assert_eq!(again.specify(&named, None).0.chose, Chose::Model);
    let plan = spawn_member(
        spec,
        "lead",
        &strings(&["read_file", "bash", "grep"]),
        Some(ReasoningEffort::Low),
        false,
        false,
        3,
    );
    assert!(!plan.tools.contains(&"bash".to_string()));
    assert!(plan.first.expect("it starts to work").contains("look"));
    assert_eq!(plan.member.delegated_in, Some(3));
    let asks = TeamArgs { scope: Some(strings(&["src/**"])), ..delegate("eye", "explorer") };
    let d = t.screen(&vec![], &asks).expect("it may");
    let (spec, _) = d.specify(&asks, None);
    let plan = spawn_member(spec, "lead", &strings(&[]), None, false, false, 3);
    assert!(plan.member.scope.is_empty(), "a reader holds no files");
    assert!(!brings_back(&vec![member("scout", "s")], "scout", &None), "it is here already");
}

#[test]
fn checkouts_are_placed_and_removed() {
    assert_eq!(branch_name("a", 5), "team/a-5");
    assert_eq!(
        place_worktree(true, &Some("/r".to_string()), &None, "a"),
        Ok("/r/.atomcode/worktrees/a".to_string())
    );
    assert_eq!(
        place_worktree(true, &Some("/r".to_string()), &Some("/w".to_string()), "a"),
        Ok("/w/a".to_string())
    );
    assert!(place_worktree(false, &Some("/r".to_string()), &None, "a").is_err());
    assert!(place_worktree(true, &None, &None, "a").is_err());
    assert_eq!(worktree_taken("/w/a"), "/w/a already exists; stop the old member first");
    assert_eq!(git_outcome("git x", Some(0), "out".to_string()), Ok("out".to_string()));
    assert_eq!(
        git_outcome("git x", Some(1), " bad \n".to_string()),
        Err("`git x` failed: bad".to_string())
    );
    assert!(!stop_note(&member("a", "s"), Removal::NoCheckout).is_empty());
}

#[test]
fn the_team_tool_says_what_it_can_do() {
    assert!(team_prompt("explorer, auditor").contains("with a role (explorer, auditor), tell"));
    let schema: serde_json::Value =
        serde_json::from_str(&team_schema(&strings(&["explorer"]), "explorer: to \"look\""))
            .expect("JSON");
    assert_eq!(schema["properties"]["role"]["enum"][0], "explorer");
    assert_eq!(schema["properties"]["role"]["description"], "explorer: to \"look\"");
    assert_eq!(schema["required"][0], "action");
    assert_eq!(lead_of(true, true, true), Ok(()));
    assert_eq!(
        lead_of(true, true, false),
        Err("the calling agent is not registered".to_string())
    );
}

#[test]
fn a_child_reaches_no_further_than_it_was_given() {
    let plan = plan_child(
        "child-1",
        Some("s".to_string()),
        &strings(&["read_file", "grep"]),
        &strings(&["read_file", "bash"]),
        "look",
        DEFAULT_INSTRUCTIONS,
        None,
        true,
        None,
    );
    assert_eq!(plan.tools, strings(&["read_file"]));
    assert_eq!(plan.model, ChildModel::Delegated);
    let on = |named: Option<&str>, delegated| {
        let none = strings(&[]);
        let named = named.map(str::to_string);
        plan_child("c", None, &none, &none, "t", DEFAULT_INSTRUCTIONS, named, delegated, None).model
    };
    assert_eq!(on(Some("fast"), true), ChildModel::Named("fast".to_string()));
    assert_eq!(on(None, false), ChildModel::Inherited);
    assert_eq!(started("first\nsecond"), "↻ first");
    assert_eq!(resolve_child_model(None, Chose::Model, &None), Ok(None));
    assert!(resolve_child_model(Some("x"), Chose::Model, &Some(strings(&["y"]))).is_err());
    assert_eq!(
        resolve_child_model(Some("y"), Chose::Model, &Some(strings(&["y"]))),
        Ok(Some("y".to_string()))
    );
    let cap = ChildRoundCap { max_steps: 2 };
    let at = |rounds| TurnProgress {
        turn: 1,
        rounds,
        tool_calls: 0,
        used_tokens: 0,
        elapsed_secs: 0,
        continuing: true,
    };
    assert_eq!(cap.call(&at(1)), None);
    assert!(cap.call(&at(2)).is_some());
    assert_eq!(task_risk(&strings(&["read_file"])), RiskLevel::Safe);
    assert_eq!(task_risk(&strings(&["bash"])), RiskLevel::Risky);
    assert!(catalog_pointer(0).is_none());
    let o = turn_outcome(&vec![LoggedEvent {
        seq: 1,
        event: SessionEvent::TurnEnd {
            turn: 1,
            stop: StopReason::ProviderError,
            error: Some("gone".to_string()),
        },
    }]);
    assert_eq!(o.error.as_deref(), Some("gone"));
}
