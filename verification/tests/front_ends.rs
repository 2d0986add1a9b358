//! The terminal, the JSON-RPC socket and the full screen.
use atomcode_harness::capabilities::WebPlugin;
use atomcode_harness::events::{
    About, Choice, InjectionOrigin, LoggedEvent, Question, SessionEvent, StopReason, ToolCall,
};
use atomcode_harness::message::Message;
use atomcode_harness::plugins::{catalog, Plugin, ToolsPlugin};
use atomcode_harness::protocol::AgentStatus;
use atomcode_harness::turn::TurnOutcome;
use atomcode_harness::ui::{
    after_turn, command, one_shot, one_shot_end, pick, show_agent, show_audit, show_options,
    show_patch, show_rows, show_title, show_unreadable, sort_out, Command, Input, Repl, ReplStep,
    Row,
};
use atomcode_harness::ui_jsonrpc::{
    decode, event_notice, events_since, listed, need_id, need_layer, need_text, outcome_json,
    parse_call, reply, resolve, rows, take_line, transcript, unknown, Incoming, Live, Numbered,
    Request, RpcQuestions, Target,
};
use atomcode_harness::ui_tui::{
    draw, heard, next, render, show_origin, Answer, Key, Keys, Signal, Style, TuiStep, Typing,
};

fn outcome() -> TurnOutcome {
    TurnOutcome {
        turn: 2,
        steps: 3,
        rounds: 3,
        tool_calls: 4,
        stop: StopReason::Stopped,
        text: "say \"hi\"".to_string(),
        error: None,
    }
}

fn json(text: &str) -> serde_json::Value {
    serde_json::from_str(text).expect("JSON")
}

#[test]
fn a_line_is_a_command_or_a_message() {
    assert_eq!(command("  "), Command::Nothing);
    assert_eq!(command(" /quit "), Command::Exit);
    assert_eq!(command("/exit"), Command::Exit);
    assert_eq!(command("/rows"), Command::Rows);
    assert_eq!(command("/patch  a b.toml "), Command::Patch("a b.toml".to_string()));
    assert_eq!(command("/patch /patch x"), Command::Patch("x".to_string()));
    assert_eq!(command("/patch"), Command::Unknown);
    assert_eq!(command("/nope"), Command::Unknown);
    assert_eq!(command(" fix it "), Command::Say("fix it".to_string()));
    assert_eq!(sort_out(" "), Input::Nothing);
    assert_eq!(sort_out(" /stop"), Input::Command("/stop".to_string()));
    assert_eq!(sort_out("go on "), Input::Deliver("go on".to_string()));
}

#[test]
fn what_is_owed_comes_before_what_is_read() {
    let mut repl = Repl::new();
    assert_eq!(repl.next(true), ReplStep::Drive);
    assert_eq!(repl.next(false), ReplStep::Read { prompt: true });
    assert_eq!(repl.next(false), ReplStep::Read { prompt: false });
    assert_eq!(
        repl.heard(Some(Input::Command("/help".to_string()))),
        Some(ReplStep::Handle("/help".to_string()))
    );
    assert_eq!(repl.next(false), ReplStep::Read { prompt: true });
    assert_eq!(repl.heard(Some(Input::Nothing)), None);
    assert_eq!(repl.heard(None), Some(ReplStep::End));
}

#[test]
fn the_terminal_prints_what_commands_ask_for() {
    let row = Row { id: "llm".to_string(), plugin: "llm-replay".to_string(), enabled: false };
    assert_eq!(
        show_rows(&Some(vec![row])),
        vec![format!("\u{1b}[2m  · {:<28} llm-replay\u{1b}[0m", "llm")]
    );
    assert_eq!(show_rows(&None), vec!["\u{1b}[2m  no control service\u{1b}[0m"]);
    assert_eq!(show_audit(&Some(vec![])), vec!["\u{1b}[2m  consistent\u{1b}[0m"]);
    assert_eq!(show_audit(&Some(vec!["odd".to_string()])), vec!["\u{1b}[33m  odd\u{1b}[0m"]);
    assert_eq!(show_agent(7, "Idle"), "\u{1b}[2m  #7 Idle\u{1b}[0m");
    assert_eq!(show_title(None), "\u{1b}[2m  (untitled)\u{1b}[0m");
    assert_eq!(show_patch(Err("bad".to_string())), "\u{1b}[31m  bad\u{1b}[0m");
    assert_eq!(show_unreadable("x", "gone"), "\u{1b}[31m  cannot read x: gone\u{1b}[0m");
    let stopped = TurnOutcome {
        stop: StopReason::Cancelled,
        error: Some("why".to_string()),
        ..outcome()
    };
    assert_eq!(
        after_turn(&stopped),
        vec!["\u{1b}[31mwhy\u{1b}[0m", "\u{1b}[2mstopped\u{1b}[0m"]
    );
    assert_eq!(one_shot(None), Err("this front end needs a prompt".to_string()));
    assert_eq!(one_shot_end(stopped), Err("why".to_string()));
    assert_eq!(one_shot_end(outcome()), Ok(()));
}

#[test]
fn a_typed_answer_picks_the_first_option_it_begins() {
    let options = vec!["Allow once".to_string(), "allow always".to_string(), "Deny".to_string()];
    assert_eq!(pick(&options, " ALLOW A "), Some("allow always".to_string()));
    assert_eq!(pick(&options, "d"), Some("Deny".to_string()));
    assert_eq!(pick(&options, ""), Some("Allow once".to_string()));
    assert_eq!(pick(&options, "x"), None);
    assert_eq!(show_options(&options), "\u{1b}[33m[Allow once/allow always/Deny]\u{1b}[0m ");
}

#[test]
fn a_call_is_read_from_a_line() {
    let call = parse_call(r#"{"id":[1, 2],"method":"agent/send","params":{"text":"hi","agent":3}}"#)
        .expect("a call");
    assert_eq!(call.id, "[1,2]");
    assert_eq!(
        decode(&call),
        Request::Send { agent: Some(3), text: Some("hi".to_string()) }
    );
    let bare = parse_call(r#"{"method":"session/events"}"#).expect("a call");
    assert_eq!((bare.id.as_str(), bare.params.as_str()), ("null", "{}"));
    assert_eq!(decode(&bare), Request::Events { agent: None, after: 0 });
    assert_eq!(parse_call(r#"{"id":1}"#), Err("missing `method`".to_string()));
    assert_eq!(take_line("   "), Incoming::Skip);
    match take_line("{") {
        Incoming::Refuse(line) => {
            assert_eq!(json(&line)["error"]["code"], -32700);
            assert!(json(&line)["id"].is_null());
        }
        other => panic!("not {other:?}"),
    }
    let answer = parse_call(r#"{"method":"user/answer","params":{"id":4,"answer":"yes"}}"#);
    assert_eq!(
        decode(&answer.expect("a call")),
        Request::Answer { id: Some(4), answer: Some("yes".to_string()) }
    );
    let odd = parse_call(r#"{"method":"x/y"}"#).expect("a call");
    assert_eq!(decode(&odd), Request::Unknown("x/y".to_string()));
    assert_eq!(unknown("x/y"), "unknown method `x/y`");
}

#[test]
fn nobody_guesses_which_agent_is_meant() {
    assert_eq!(resolve(Some(2), &vec![1, 2]), Ok(Target::Agent(2)));
    assert_eq!(resolve(Some(9), &vec![1]), Err("no agent #9".to_string()));
    assert_eq!(resolve(None, &vec![5]), Ok(Target::Agent(5)));
    assert_eq!(resolve(None, &vec![]), Ok(Target::Create));
    assert_eq!(
        resolve(None, &vec![1, 2]),
        Err("several agents exist; name one with `agent`".to_string())
    );
    assert_eq!(need_text(None), Err("missing `text`".to_string()));
    assert_eq!(need_layer(None), Err("missing `patch` (a TOML layer)".to_string()));
    assert_eq!(need_id(None), Err("missing `id`".to_string()));
    assert_eq!(need_id(Some(1)), Ok(1));
}

#[test]
fn every_call_is_answered() {
    let (line, on) = reply("7", Ok(Some("{\"queued\":true}".to_string())));
    assert!(on);
    assert_eq!(line, "{\"id\":7,\"jsonrpc\":\"2.0\",\"result\":{\"queued\":true}}");
    let (line, on) = reply("7", Ok(None));
    assert!(!on, "a shutdown is the last call");
    assert_eq!(json(&line)["result"]["ok"], true);
    let (line, on) = reply("null", Err("no \"way\"".to_string()));
    assert!(on);
    assert_eq!(json(&line)["error"]["code"], -32000);
    assert_eq!(json(&line)["error"]["message"], "no \"way\"");
}

#[test]
fn results_are_json() {
    let v = json(&outcome_json(&outcome(), 9));
    assert_eq!(v["agent"], 9);
    assert_eq!(v["text"], "say \"hi\"");
    assert_eq!(v["stop"], "Stopped");
    assert!(v["error"].is_null());
    let v = json(&listed(&vec![Live { id: 1, status: AgentStatus::Working }]));
    assert_eq!(v["agents"][0]["status"], "Working");
    let v = json(&transcript(&vec![Message::user("a\nb".to_string())]));
    assert_eq!(v["messages"][0]["role"], "User");
    assert_eq!(v["messages"][0]["text"], "a\nb");
    let logged = vec![
        Numbered { seq: 1, event: "{}".to_string() },
        Numbered { seq: 2, event: "{\"x\":1}".to_string() },
    ];
    let v = json(&events_since(&logged, 1));
    assert_eq!(v["events"].as_array().map(|a| a.len()), Some(1));
    assert_eq!(v["events"][0]["event"]["x"], 1);
    let v = json(&event_notice("s", 4, "{}"));
    assert_eq!(v["params"]["seq"], 4);
    let v = json(&rows(&vec![Row {
        id: "a".to_string(),
        plugin: "b".to_string(),
        enabled: true,
    }]));
    assert_eq!(v["rows"][0]["enabled"], true);
}

#[test]
fn a_client_answers_a_question_once() {
    let mut q = RpcQuestions::new();
    let question = Question {
        prompt: "go?".to_string(),
        options: vec![Choice { value: "yes".to_string(), label: "Yes".to_string() }],
        asker: None,
        about: Some(About {
            tool: "bash".to_string(),
            arguments: "{}".to_string(),
            grant: None,
        }),
    };
    let (id, line) = q.ask(&question);
    assert_eq!(id, 1);
    assert_eq!(json(&line)["params"]["options"][0], "yes");
    assert_eq!(json(&line)["params"]["about"]["tool"], "bash");
    let (other, _) = q.ask(&question);
    assert_eq!(other, 2);
    assert!(q.settle(id));
    assert!(!q.settle(id), "it is settled");
    assert!(q.settle(other));
    assert!(!q.settle(99));
}

#[test]
fn the_screen_shows_the_log() {
    let log: Vec<LoggedEvent> = vec![
        SessionEvent::UserMessage { turn: 1, text: "hello".to_string(), images: vec![] },
        SessionEvent::Injected {
            turn: 1,
            text: "first\nsecond".to_string(),
            origin: InjectionOrigin::Peer { from: "a\"b".to_string() },
        },
        SessionEvent::AssistantMessage {
            turn: 1,
            round: 1,
            text: "one\ntwo".to_string(),
            reasoning: String::new(),
            tool_calls: vec![ToolCall {
                id: "c".to_string(),
                name: "read".to_string(),
                arguments: "y".repeat(91),
            }],
            meta: None,
        },
        SessionEvent::ToolResultLogged {
            turn: 1,
            round: 1,
            call_id: "c".to_string(),
            content: "bad\nmore".to_string(),
            is_error: true,
            images: vec![],
        },
        SessionEvent::TurnEnd { turn: 1, stop: StopReason::Cancelled, error: None },
    ]
    .into_iter()
    .enumerate()
    .map(|(i, event)| LoggedEvent { seq: i as u64 + 1, event })
    .collect();
    let lines = render(&log);
    let text: Vec<&str> = lines.iter().map(|l| l.text.as_str()).collect();
    assert_eq!(text[0], "› hello");
    assert_eq!(text[1], format!("[{}] first", "Peer { from: \"a\\\"b\" }"));
    assert_eq!(text[2], "one");
    assert_eq!(text[3], "two");
    assert_eq!(text[4], format!("⚒ read {}…", "y".repeat(90)));
    assert_eq!(text[5], "  ✗ bad");
    assert_eq!(lines[5].style, Style::Error);
    assert_eq!(text[6], "— Cancelled");
    assert_eq!(Style::Error.ansi(), "\u{1b}[31m");
    assert_eq!(show_origin(&InjectionOrigin::Memory), "Memory");

    let drawn = draw(&lines, 3, AgentStatus::Idle, &Some("t".to_string()), "typing", 20, 5);
    assert!(drawn.starts_with("\u{1b}[H\u{1b}[2J\u{1b}[7m  atomcode harness"), "{drawn:?}");
    assert!(drawn.contains("#3 Idle · t"));
    assert!(!drawn.contains("two"), "only the newest lines fit");
    assert!(drawn.contains("— Cancelled"));
    assert!(drawn.contains(&"─".repeat(20)));
    assert!(drawn.ends_with("› typing\u{1b}[2m  (ctrl-d to quit)\u{1b}[0m"));
}

#[test]
fn keys_make_a_line() {
    let plain = |c| Key::Char { c, control: false };
    let mut keys = Keys::new();
    for c in "hix".chars() {
        assert_eq!(keys.press(plain(c)), Signal::Redraw);
    }
    assert_eq!(keys.press(Key::Backspace), Signal::Redraw);
    assert_eq!(keys.text(), "hi");
    assert_eq!(keys.press(Key::Char { c: 'c', control: true }), Signal::Cancel);
    assert_eq!(keys.text(), "hi");
    assert_eq!(keys.press(Key::Enter), Signal::Deliver("hi".to_string()));
    assert_eq!(keys.text(), "");
    assert_eq!(keys.press(Key::Enter), Signal::Redraw);
    assert_eq!(keys.press(Key::Char { c: 'd', control: true }), Signal::Quit);
    assert_eq!(keys.press(Key::Esc), Signal::Cancel);
    for c in "/quit".chars() {
        keys.press(plain(c));
    }
    assert_eq!(keys.press(Key::Enter), Signal::Quit);
    assert_eq!(next(true), TuiStep::Drive);
    assert_eq!(heard(&None), Some(TuiStep::End));
    assert_eq!(heard(&Some(Signal::Redraw)), None);

    let options = vec!["yes".to_string(), "no".to_string()];
    let mut answer = Answer::new();
    assert_eq!(answer.press(plain('N')), Typing::More);
    assert_eq!(answer.press(Key::Enter), Typing::Done);
    assert_eq!(answer.picks(&options), Some("no".to_string()));
    assert_eq!(answer.press(Key::Esc), Typing::Declined);
}

#[test]
fn plugin_names_are_unique() {
    let mut names: Vec<String> = catalog().into_iter().map(|m| m.name).collect();
    let n = names.len();
    assert_eq!(n, 80);
    assert!(names.contains(&"llm-stream-recovery".to_string()));
    names.sort();
    names.dedup();
    assert_eq!(names.len(), n);
    assert_eq!(ToolsPlugin.manifest().provides, vec!["tools"]);
    assert_eq!(WebPlugin::new().manifest().name, "tool-web");
    let keyed = WebPlugin::with_api_key("k".to_string());
    assert_eq!(keyed.manifest().name, "tool-web-keyed");
    assert_eq!(keyed.api_key(), Some("k".to_string()));
}
