//! Capabilities, registries, personas and what the agent knows of itself.
use atomcode_harness::capabilities::{
    bare_name, command_outcome, list_skills, memory_commands, memory_injection, mount_found,
    register_review_command, register_skill_commands, review_call, review_config, run_skill,
    search_backend, skills_advert, web_provider, web_tool_names, Adapted, ReviewRow, Skill,
};
use atomcode_harness::dump::{dump_request, Digest};
use atomcode_harness::events::{InjectionOrigin, LoggedEvent, SessionEvent, ToolResult};
use atomcode_harness::findings::ToolBackedFindings;
use atomcode_harness::message::Message;
use atomcode_harness::persona::{coding_persona, review_model, CODING_PERSONA};
use atomcode_harness::registries::{catalog_note, fit, ToolPolicy};
use atomcode_harness::self_knowledge::{
    instructions, show_accepted, tell, DescribeSelf, Facts, SessionFacts, SettingKind, SettingSpec,
    ToolDef,
};
use atomcode_harness::table::Names;
use atomcode_harness::tools::{mount, mount_optional, unmount};

fn strings(list: &[&str]) -> Vec<String> {
    list.iter().map(|s| s.to_string()).collect()
}

#[test]
fn a_skill_yields_to_a_taken_name() {
    assert_eq!(bare_name("skills:init"), "init");
    assert_eq!(bare_name("init"), "init");
    let mut catalog = Names::new();
    catalog.insert("compact".to_string());
    let got = register_skill_commands(
        &mut catalog,
        &strings(&["a:compact", "a:init", "b:init", "skills", "setup"]),
    );
    assert_eq!(got, strings(&["a:init", "setup"]));
    assert!(catalog.contains("skills") && catalog.contains("setup"));
    let review = register_review_command(&mut catalog);
    assert_eq!(review.name, "review");
    assert!(catalog.contains("review"));
}

#[test]
fn skills_are_listed_and_run() {
    assert_eq!(skills_advert(0), None);
    assert!(skills_advert(3).expect("three").starts_with("3 skill(s) are available."));
    assert_eq!(list_skills(&vec![]), "一个 skill 都没装");
    let s = Skill { name: "a".to_string(), description: "does a".to_string() };
    assert_eq!(list_skills(&vec![s.clone(), s]), "a · does a\na · does a");
    assert_eq!(run_skill("x:init", "go"), Ok("按 `init` 开始".to_string()));
    assert_eq!(run_skill("x:init", " \n"), Err("`init` 展开之后是空的".to_string()));
}

#[test]
fn the_web_is_offered_only_online() {
    assert_eq!(web_tool_names(true), Vec::<String>::new());
    assert_eq!(web_tool_names(false), strings(&["web_search", "web_fetch"]));
    assert_eq!(web_provider(Some(" ".to_string()), Some("env".to_string())).as_deref(), Some("env"));
    assert_eq!(web_provider(Some("row".to_string()), Some("env".to_string())).as_deref(), Some("row"));
    assert_eq!(search_backend(&None), "exa");
}

#[test]
fn a_review_is_set_up_from_the_row_first() {
    let row = ReviewRow { model: Some("  ".to_string()), context_window: Some(0), rules_dir: None };
    let cfg = review_config(&row, "m", 64_000, 8_000);
    assert_eq!(cfg.model, "m");
    assert_eq!(cfg.context_window, 8_000, "a window of nothing is no window");
    let silent = ReviewRow { model: None, context_window: None, rules_dir: None };
    assert_eq!(review_config(&silent, "m", 64_000, 8_000).context_window, 64_000);
    assert_eq!(review_call("  "), "{}");
    assert_eq!(review_call(" a\"b "), "{\"scope\":\"a\\\"b\"}");
}

#[test]
fn memory_is_called_by_the_right_key() {
    let commands = memory_commands();
    assert_eq!(commands[0].call(""), Ok("{\"action\":\"list\"}".to_string()));
    assert_eq!(
        commands[1].call(" tabs "),
        Ok("{\"action\":\"remember\",\"content\":\"tabs\"}".to_string())
    );
    assert_eq!(
        commands[2].call("tabs"),
        Ok("{\"action\":\"forget\",\"keyword\":\"tabs\"}".to_string())
    );
    assert!(commands[2].call(" ").is_err());
    let failed = ToolResult {
        call_id: String::new(),
        content: "no".to_string(),
        is_error: true,
        images: vec![],
    };
    assert_eq!(command_outcome(failed), Err("no".to_string()));
}

#[test]
fn memory_comes_once() {
    assert_eq!(
        memory_injection(1, "notes", true),
        Some(SessionEvent::Injected {
            turn: 1,
            text: "notes".to_string(),
            origin: InjectionOrigin::Memory,
        })
    );
    assert_eq!(memory_injection(2, "notes", true), None);
    assert_eq!(memory_injection(1, "", true), None);
    assert_eq!(memory_injection(1, "notes", false), None);
}

#[test]
fn a_colliding_tool_is_left_out() {
    let m = mount_found(&vec![
        Adapted::Tool("a".to_string()),
        Adapted::Refused("taken".to_string()),
        Adapted::Tool("b".to_string()),
    ]);
    assert_eq!(m.mounted, strings(&["a", "b"]));
    assert_eq!(m.skipped, strings(&["mcp: skipping a tool: taken"]));
}

#[test]
fn a_star_stands_for_any_run() {
    assert!(fit("mcp__github__*", "mcp__github__list"));
    assert!(fit("mcp__github__*", "mcp__github__"));
    assert!(!fit("mcp__github__*", "mcp__gitlab__list"));
    assert!(fit("*", ""));
    assert!(fit("a*b*c", "a__b_bc"));
    assert!(!fit("a*b*c", "a__b_b"));
    assert!(!fit("write_file", "write_files"));
}

#[test]
fn exclusion_wins() {
    let p = ToolPolicy::new(strings(&["read*"]), strings(&["read_secret"]));
    assert!(!p.is_open());
    assert!(p.admits("read_file"));
    assert!(!p.admits("read_secret"));
    assert!(!p.admits("write_file"));
    assert!(ToolPolicy::new(vec![], vec![]).is_open());
    assert!(ToolPolicy::new(vec![], vec![]).admits("anything"));
    assert!(catalog_note(&vec![]).contains("Nothing has been kept out so far."));
    assert!(catalog_note(&strings(&["a", "b"])).contains("would be wrong: a, b. The person"));
}

#[test]
fn unmounting_undoes_mounting() {
    let mut catalog = Names::new();
    catalog.insert("grep".to_string());
    let tools = strings(&["read", "edit", "grep", "bash"]);
    let n = mount(&mut catalog, &tools);
    assert_eq!(n, 2, "the third name is taken");
    assert!(catalog.contains("edit") && !catalog.contains("bash"));
    unmount(&mut catalog, &tools, n);
    assert!(!catalog.contains("read") && catalog.contains("grep"));
}

#[test]
fn no_catalog_is_no_error() {
    let tools = strings(&["read", "edit"]);
    let mut none = None;
    assert_eq!(mount_optional(&mut none, &tools), None);
    assert!(none.is_none());
    let mut some = Some(Names::new());
    assert_eq!(mount_optional(&mut some, &tools), Some(2));
    assert!(some.expect("still there").contains("edit"));
}

#[test]
fn house_rules_follow_the_persona() {
    assert_eq!(coding_persona(&None), CODING_PERSONA);
    assert_eq!(coding_persona(&Some("  ".to_string())), CODING_PERSONA);
    assert_eq!(coding_persona(&Some(" be kind ".to_string())), format!("{CODING_PERSONA}\n\nbe kind"));
    assert_eq!(review_model(None, Some("m".to_string())), "m");
    assert_eq!(review_model(None, None), "");
}

#[test]
fn findings_are_taken_once() {
    let mut f = ToolBackedFindings::new();
    f.report("{\"p\":1}".to_string());
    f.report("{\"p\":2}".to_string());
    assert_eq!(f.all().len(), 2);
    assert_eq!(f.take(), strings(&["{\"p\":1}", "{\"p\":2}"]));
    assert!(f.take().is_empty());
}

fn facts() -> Facts {
    Facts {
        session: Some(SessionFacts { id: "s1".to_string(), turn: 2, events: 9, location: None }),
        services: strings(&["tools", "llm", "a", "b", "c", "d", "e"]),
        tools: Some(vec![ToolDef {
            name: "read".to_string(),
            description: "\n  Read a file.\nMore.".to_string(),
        }]),
        operations: None,
        settings_path: "/c".to_string(),
        settings: vec![SettingSpec {
            id: "ui.lang".to_string(),
            label_en: "Language".to_string(),
            label_zh: "语言".to_string(),
            aliases: strings(&["lang"]),
            kind: SettingKind::Choice(strings(&["en", "zh"])),
            apply: "Now".to_string(),
        }],
    }
}

#[test]
fn the_agent_describes_the_tree_that_runs() {
    let f = facts();
    let session = tell("session", &f);
    assert!(session.starts_with("session id: s1\nturn: 2\nevents logged so far: 9\nevent log: nowhere"));
    let services = tell("services", &f);
    assert!(services.contains("(7 of them)"), "{services}");
    assert!(services.ends_with("\n\n  a, b, c, d, e, llm\n  tools"), "{services}");
    assert_eq!(tell("tools", &f), "1 tools are registered right now:\n  read — Read a file.\n");
    assert_eq!(tell("operations", &f), "No row has described a knob in this tree.");
    let settings = tell("settings", &f);
    assert!(settings.ends_with("\n  ui.lang — Language / 语言 (lang) : en | zh → Now"), "{settings}");
    assert_eq!(show_accepted(&SettingKind::Integer { min: 1, max: 9 }), "1..=9");
    let all = DescribeSelf.execute("not JSON", &f);
    assert!(!all.is_error);
    assert!(all.content.contains("session id: s1") && !all.content.contains("ui.lang"));
    let one = DescribeSelf.execute("{\"aspect\":\"tools\"}", &f);
    assert_eq!(one.content, tell("tools", &f));
    assert_eq!(instructions(" \n"), None);
    assert_eq!(instructions("x"), Some("x".to_string()));
}

#[test]
fn a_request_is_dumped_without_its_text() {
    let log = vec![LoggedEvent { seq: 4, event: SessionEvent::TurnStart { turn: 1 } }];
    let messages = vec![Message::user("héllo".to_string())];
    let digests = vec![Digest { text: "00ff".to_string(), reasoning: "0".to_string() }];
    assert_eq!(
        dump_request(12, "s\"1", &log, &messages, &digests, 3),
        "{\"ts\":12,\"session\":\"s\\\"1\",\"events\":1,\"max_seq\":4,\"n_msgs\":1,\"total_chars\":6,\
         \"tool_defs\":3,\"msgs\":[{\"i\":0,\"role\":\"User\",\"len\":6,\"h\":\"00ff\",\"rlen\":0,\
         \"rh\":\"0\",\"calls\":0}]}\n"
    );
}
