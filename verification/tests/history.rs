//! Folding, storing, naming and finding what was said.
use atomcode_harness::calendar;
use atomcode_harness::calendar::civil_from_days;
use atomcode_harness::compaction::{
    show_stubs, stub_on_overflow, wire_bytes, with_decision, Layout, Plan, Provenance,
    SummarisingCompaction, Summing, Traced,
};
use atomcode_harness::events::{Committed, LoggedEvent, SessionEvent, SessionLog, StopReason, ToolCall, TokenUsage};
use atomcode_harness::json::{quote_or_null, read, write_strings, Json};
use atomcode_harness::message::{Message, Role};
use atomcode_harness::order::{sort, sort_once};
use atomcode_harness::protocol::CompactTrigger;
use atomcode_harness::recall::{
    bad_arguments, clip, rank, sessions_to_read, started_at, turns_of, Hit, RecallTool, Turn,
};
use atomcode_harness::session;
use atomcode_harness::session::{
    check_version, file_name, header_line, list, log_facts, parse, parse_header, safe,
    HeaderFacts, TokenTotals, TurnBoundary,
};
use atomcode_harness::session_title::{
    tidy, title_of, FirstPromptTitle, ModelTitle, TitleWatch,
};
use atomcode_harness::span::{
    listed_summary, settled_span, split_listed, truncate, CompactedSpan, LISTED_MAX,
};
use atomcode_harness::strategy::{Deciding, DecideStep};
use atomcode_harness::text;
use atomcode_harness::text::{
    bare, contains, lines_of, number, pad, read_u64, split_by, split_keeping, split_words,
};

fn strings(items: &[&str]) -> Vec<String> {
    items.iter().map(|s| s.to_string()).collect()
}

fn logged(events: Vec<SessionEvent>) -> Vec<LoggedEvent> {
    events
        .into_iter()
        .enumerate()
        .map(|(i, event)| LoggedEvent { seq: i as u64 + 1, event })
        .collect()
}

fn said(turn: u64, text: &str) -> SessionEvent {
    SessionEvent::UserMessage { turn, text: text.to_string(), images: vec![] }
}

fn answer(turn: u64, text: &str, calls: Vec<ToolCall>) -> SessionEvent {
    SessionEvent::AssistantMessage {
        turn,
        round: 1,
        text: text.to_string(),
        reasoning: String::new(),
        tool_calls: calls,
        meta: None,
    }
}

fn call(id: &str, name: &str) -> ToolCall {
    ToolCall { id: id.to_string(), name: name.to_string(), arguments: "{}".to_string() }
}

fn span(prior: Vec<String>, prompts: &[&str], tools: &[&str]) -> CompactedSpan {
    CompactedSpan { through: 9, prior, prompts: strings(prompts), tools: strings(tools) }
}

// ---- the listed summary -----------------------------------------------------

#[test]
fn two_steps_are_one() {
    let many: Vec<String> = (0..45).map(|i| format!("request {i}")).collect();
    let (p, q) = many.split_at(42);
    let of = |prior: Vec<String>, prompts: &[String], tools: &[&str]| CompactedSpan {
        through: 9,
        prior,
        prompts: prompts.to_vec(),
        tools: strings(tools),
    };
    let first = listed_summary(&of(vec![], p, &["read", "bash"]));
    let then = listed_summary(&of(vec![first], q, &["grep", "read"]));
    assert_eq!(then, listed_summary(&of(vec![], &many, &["read", "bash", "grep", "read"])));
    assert!(then.contains("- (5 earlier requests not listed)\n"), "{then}");
    assert!(then.contains("Tools used: bash, grep, read\n"), "{then}");
}

#[test]
fn a_fold_is_not_repeated() {
    let mut log = SessionLog {
        id: "s".to_string(),
        events: vec![LoggedEvent {
            seq: 1,
            event: SessionEvent::UserMessage {
                turn: 1,
                text: "fix it".to_string(),
                images: vec![],
            },
        }],
        current_turn: 1,
    };
    let found = settled_span(&log, 0).expect("there is a request to fold");
    assert_eq!(found.prompts, strings(&["fix it"]));
    log.events.push(LoggedEvent {
        seq: 2,
        event: SessionEvent::Compacted {
            turn: 1,
            through: found.through,
            summary: listed_summary(&found),
            from: 0,
        },
    });
    assert!(settled_span(&log, 0).is_none());
}

#[test]
fn where_a_turn_is_kept_a_fold_is_never_repeated() {
    let asked = |seq: u64, turn: u64| LoggedEvent { seq, event: said(turn, "fix it") };
    let mut log = SessionLog {
        id: "s".to_string(),
        events: vec![asked(1, 1), asked(2, 9)],
        current_turn: 2,
    };
    let found = settled_span(&log, 1).expect("there is a request to fold");
    assert_eq!(found.through, 1);
    log.events.push(LoggedEvent {
        seq: 3,
        event: SessionEvent::Compacted {
            turn: 2,
            through: found.through,
            summary: listed_summary(&found),
            from: 0,
        },
    });
    assert!(settled_span(&log, 1).is_none());
    assert!(settled_span(&log, 0).is_some(), "a later turn asked in between");
}

#[test]
fn a_list_reads_back() {
    let first = listed_summary(&span(
        vec!["Someone wrote this.".to_string()],
        &["fix it", "(3 things) to do"],
        &["read", "bash", "read"],
    ));
    let apart = split_listed(&first);
    assert_eq!(apart.written, "Someone wrote this.");
    assert_eq!(apart.asked, strings(&["fix it", "(3 things) to do"]));
    assert_eq!(apart.omitted, 0);
    assert_eq!(apart.tools, strings(&["bash", "read"]));
}

#[test]
fn folding_again_loses_nothing() {
    let many: Vec<String> = (0..45).map(|i| format!("request {i}")).collect();
    let refs: Vec<&str> = many.iter().map(|s| s.as_str()).collect();
    let first = listed_summary(&span(vec![], &refs, &["read"]));
    assert!(first.contains("- (5 earlier requests not listed)\n"), "{first}");
    let second = listed_summary(&span(vec![first], &["one more"], &["edit"]));
    let apart = split_listed(&second);
    assert_eq!(apart.asked.len(), LISTED_MAX);
    assert_eq!(apart.omitted, 6);
    assert_eq!(apart.asked.last().map(String::as_str), Some("one more"));
    assert_eq!(apart.tools, strings(&["edit", "read"]));
    assert_eq!(second.matches("=== EARLIER IN THIS SESSION ===").count(), 1);
}

#[test]
fn a_span_keeps_the_latest_turns() {
    let log = SessionLog {
        id: "s".to_string(),
        events: logged(vec![
            SessionEvent::TurnStart { turn: 1 },
            said(1, "first"),
            answer(1, "ok", vec![call("a", "read")]),
            SessionEvent::TurnEnd { turn: 1, stop: StopReason::Stopped, error: None },
            SessionEvent::TurnStart { turn: 2 },
            said(2, "second"),
            SessionEvent::TurnEnd { turn: 2, stop: StopReason::Stopped, error: None },
        ]),
        current_turn: 2,
    };
    let found = settled_span(&log, 1).expect("turn one is settled");
    assert_eq!(found.prompts, strings(&["first"]));
    assert_eq!(found.tools, strings(&["read"]));
    assert!(found.digest().contains("- first\n"), "{}", found.digest());
    assert!(settled_span(&log, 2).is_none(), "every turn still fits");
    assert_eq!(truncate("a\nb", 10), "a b");
}

#[test]
fn a_model_writes_the_summary_or_the_list_stands_in() {
    let log = SessionLog {
        id: "s".to_string(),
        events: logged(vec![
            said(1, "first"),
            SessionEvent::TurnEnd { turn: 1, stop: StopReason::Stopped, error: None },
            said(9, "latest"),
        ]),
        current_turn: 9,
    };
    let c = SummarisingCompaction { keep_turns: 2, max_tokens: 100, timeout_secs: 5 };
    let Summing::Ask { span, prompt } = c.begin(&log, None) else { panic!("there is a span") };
    assert_eq!(prompt.len(), 2);
    assert_eq!(
        c.finish(&span, Some("short".to_string())).summary,
        "=== EARLIER IN THIS SESSION ===\nshort\n"
    );
    assert_eq!(c.finish(&span, None).summary, listed_summary(&span));
}

// ---- a strategy's plan ------------------------------------------------------

fn traced(message: Message, seq: u64) -> Traced {
    Traced { message, source: Provenance::Event(seq) }
}

fn tool_message(id: &str, text: &str) -> Message {
    Message {
        role: Role::Tool,
        tool_call_id: Some(id.to_string()),
        ..Message::user(text.to_string())
    }
}

fn assistant(text: &str, calls: Vec<ToolCall>) -> Message {
    Message { role: Role::Assistant, tool_calls: calls, ..Message::user(text.to_string()) }
}

#[test]
fn long_output_is_stubbed_on_an_overflow() {
    let long = "x".repeat(600);
    let conversation = vec![
        traced(Message::user("go".to_string()), 1),
        traced(assistant("", vec![call("a", "bash")]), 2),
        traced(tool_message("a", &long), 3),
        traced(tool_message("a", "short"), 4),
    ];
    let found = stub_on_overflow(&conversation, &CompactTrigger::Overflow).expect("one");
    assert_eq!(found.len(), 1);
    assert_eq!((found[0].seq, found[0].tool.as_str(), found[0].ok), (3, "bash", true));
    let d = show_stubs(&found, vec!["[bash: 600 bytes]".to_string()]);
    assert_eq!(d.rewrites[0].seq, 3);
    assert!(stub_on_overflow(&conversation, &CompactTrigger::Manual { focus: None }).is_none());
}

#[test]
fn a_plan_lands_only_where_it_shrinks() {
    let conversation = vec![
        traced(Message::user("the first request".to_string()), 1),
        traced(assistant("a long answer indeed", vec![]), 2),
        traced(Message::user("more".to_string()), 3),
    ];
    let events = logged(vec![
        said(1, "the first request"),
        answer(1, "a long answer indeed", vec![]),
        said(2, "more"),
    ]);
    let plan = Plan {
        drain_from: 0,
        drain_to: 2,
        summary: Some("s".to_string()),
        resume_note: None,
        rewrites: vec![],
    };
    let project = |log: &Vec<LoggedEvent>| -> Vec<Message> {
        let folded = log.iter().find_map(|l| match &l.event {
            SessionEvent::Compacted { from, through, summary, .. } => {
                Some((*from, *through, summary.clone()))
            }
            _ => None,
        });
        let mut out = vec![];
        for l in log {
            match (&l.event, &folded) {
                (_, Some((f, t, _))) if l.seq > *f && l.seq <= *t => {}
                (SessionEvent::UserMessage { text, .. }, _) => out.push(Message::user(text.clone())),
                (SessionEvent::AssistantMessage { text, .. }, _) => {
                    out.push(assistant(text, vec![]))
                }
                (SessionEvent::Compacted { summary, .. }, _) => {
                    out.push(Message::user(summary.clone()))
                }
                _ => {}
            }
        }
        out
    };
    let run = |plan: Plan| {
        let layout = Layout::of(&conversation).expect("something was asked");
        assert_eq!(layout.floor, 1);
        let (mut d, mut step) = Deciding::begin(layout, events.clone(), plan);
        loop {
            match step {
                DecideStep::Project(log) => step = d.projected(&project(&log)),
                DecideStep::Done(landed) => return landed,
            }
        }
    };
    let landed = run(plan.clone()).expect("it is smaller");
    assert_eq!((landed.from, landed.through), (1, 2), "the head is kept");
    assert_eq!(landed.summary, "s");
    assert!(wire_bytes(&project(&with_decision(&events, &landed))) < wire_bytes(&project(&events)));
    let wordy = Plan { summary: Some("x".repeat(100)), ..plan.clone() };
    assert!(run(wordy).is_none(), "it would grow");
    let nothing = Plan { drain_to: 0, ..plan };
    assert!(run(nothing).is_none());
    assert!(Layout::of(&vec![]).is_none());
}

#[test]
fn ranking_loses_no_hit() {
    let hit = |rank: u64, turn: u64| Hit {
        rank,
        turn: Turn {
            session: "s".to_string(),
            turn,
            started: 1,
            hay: String::new(),
            asked: String::new(),
            answered: String::new(),
        },
    };
    let ranked = rank(vec![hit(1, 1), hit(5, 2), hit(1, 1), hit(9, 3)]);
    let ranks: Vec<u64> = ranked.iter().map(|h| h.rank).collect();
    assert_eq!(ranks, vec![1, 1, 5, 9]);
}

// ---- the stored log ---------------------------------------------------------

#[test]
fn a_log_reads_back() {
    assert_eq!(
        session::write(7, "{ \"b\": 1, \"a\": [ ] }"),
        Ok("{\"event\":{\"a\":[],\"b\":1},\"seq\":7}\n".to_string())
    );
    let mut content = header_line("{\"version\":1}");
    content.push_str(&session::write(1, "{ \"kind\": \"a\\nb\" }").expect("JSON"));
    content.push_str(&session::write(2, "{\"kind\":\"c\"}").expect("JSON"));
    let frames = parse("f", &content).expect("it reads");
    assert_eq!(frames.len(), 2);
    assert_eq!((frames[0].seq, frames[0].event.as_str()), (1, "{\"kind\":\"a\\nb\"}"));
    assert_eq!((frames[1].seq, frames[1].event.as_str()), (2, "{\"kind\":\"c\"}"));
    assert!(session::write(1, "{").is_err());
    assert!(parse("f", "nonsense\n{\"seq\":1,\"event\":{}}\n").is_err());
    assert_eq!((frames[0].line, frames[1].line), (2, 3), "the header is the first line");
    assert_eq!(parse_header("f", &content), Ok(Some("{\"version\":1}".to_string())));
    assert!(check_version("f", 2, 1).is_err());
    assert_eq!(check_version("f", 1, 1), Ok(()));
}

#[test]
fn an_id_stays_in_its_directory() {
    assert!(!safe("../../etc/passwd").contains('/'));
    assert!(file_name("a/b").ends_with(".jsonl"));
    assert_eq!(list(&strings(&["b", "a"])).len(), 2);
    let facts = log_facts(
        "/x.jsonl",
        &Some(HeaderFacts {
            created_at: 5,
            cwd: Some("/w".to_string()),
            parent: Some("p".to_string()),
            inherited: 3,
        }),
    );
    assert_eq!(
        facts,
        "event log: /x.jsonl\n  started at: 5 (unix ms, as the log recorded it)\n  working directory: /w\n  forked from: p (the first 3 events are inherited)"
    );
}

#[test]
fn totals_add_up() {
    let mut totals = TokenTotals::new();
    for prompt in [3, 4] {
        totals.fold(&SessionEvent::Usage {
            turn: 1,
            round: 1,
            usage: TokenUsage { prompt, completion: 1, cached: 2 },
        });
    }
    assert_eq!((totals.prompt, totals.completion, totals.cached), (7, 2, 4));
    let mut b = TurnBoundary::new();
    b.fold(&SessionEvent::TurnStart { turn: 4 });
    b.fold(&SessionEvent::TurnEnd { turn: 4, stop: StopReason::Stopped, error: None });
    assert_eq!(b.turns.len(), 1);
    assert_eq!(b.turns[0].stop, Some(StopReason::Stopped));
}

// ---- titles -----------------------------------------------------------------

#[test]
fn a_title_is_one_line() {
    let title = tidy("  \"Fix the\nparser\"  ", 8, 60).expect("a title");
    assert!(!title.contains('\n') && !title.contains('"'), "{title}");
    assert_eq!(tidy("  ", 8, 60), None);
    assert_eq!(tidy("one two three, four", 3, 60), Some("one two three".to_string()));
    assert_eq!(tidy("\"'quoted'\"", 8, 60), Some("quoted".to_string()));
    assert_eq!(tidy("ééééé", 8, 9), Some("éé".to_string()), "a quarter of the bytes");
    let events = logged(vec![said(1, "please fix the parser")]);
    let first = FirstPromptTitle::default().title(&events).expect("named after the prompt");
    assert!(first.to_lowercase().contains("fix"), "{first}");
    let model = ModelTitle::default();
    assert_eq!(model.title(&events, Some("Parser fix".to_string())), Some("Parser fix".to_string()));
    assert_eq!(model.title(&events, None), FirstPromptTitle::default().title(&events));
    assert_eq!(title_of(&events), None);
}

#[test]
fn a_session_is_named_once() {
    let mut watch = TitleWatch::new();
    let events = logged(vec![said(1, "hello there")]);
    let c = Committed { session: "s".to_string(), seq: 1, event: said(1, "hello there") };
    assert!(watch.hear(&c, true, &events));
    assert!(!watch.hear(&c, true, &events), "it is being named");
    let fact = watch.answered("s", Some("Hello".to_string()), &events, 1);
    assert_eq!(fact, Some(SessionEvent::Titled { turn: 1, title: "Hello".to_string() }));
}

// ---- recall -----------------------------------------------------------------

#[test]
fn the_best_turn_comes_first() {
    let turn = |n: u64, asked: &str| Turn {
        session: "s".to_string(),
        turn: n,
        started: 0,
        hay: asked.to_string(),
        asked: asked.to_string(),
        answered: "fine".to_string(),
    };
    let turns = vec![turn(1, "worse"), turn(2, "miss"), turn(3, "better")];
    let r = RecallTool.answer("q", &turns, &vec![Some(5), None, Some(1)], None);
    assert!(r.content.starts_with("2 matching turn(s), best first:\n"), "{}", r.content);
    assert!(r.content.find("better") < r.content.find("worse"));
    assert!(!r.content.contains("miss"));
    let none = RecallTool.answer("q", &turns, &vec![None, None, None], None);
    assert!(none.content.contains("matches “q”"), "{}", none.content);
    assert!(RecallTool.screen(0, true).expect("refused").is_error);
    assert!(RecallTool.screen(1, false).expect("refused").is_error);
    assert_eq!(RecallTool.screen(1, true), None);
    assert_eq!(bad_arguments("x").content, "recall: invalid arguments: x");
}

#[test]
fn turns_are_read_off_a_log() {
    let turns = turns_of(
        "s",
        &logged(vec![
            SessionEvent::TurnStart { turn: 1 },
            said(1, "Where is It?"),
            answer(1, "Here.", vec![]),
        ]),
    );
    assert_eq!(turns.len(), 1);
    assert_eq!(turns[0].asked, "Where is It?");
    assert_eq!(turns[0].answered, "Here.");
    assert!(turns[0].hay.contains("where is it?"), "{}", turns[0].hay);
    assert_eq!(
        sessions_to_read(&strings(&["a", "b"]), &Some("a".to_string())),
        strings(&["b"])
    );
    assert_eq!(clip("a  b\nc", 10), "a b c");
    let _ = started_at("x");
}

#[test]
fn a_day_has_one_date() {
    assert_eq!(civil_from_days(0), (1970, 1, 1));
    assert_eq!(civil_from_days(11_016), (2000, 2, 29));
    assert_eq!(civil_from_days(11_017), (2000, 3, 1));
    assert_eq!(civil_from_days(-1), (1969, 12, 31));
    assert_eq!(civil_from_days(-719_469), (0, 2, 29));
    assert!(calendar::when(951_782_400_000).contains("2000-02-29"), "{}", calendar::when(951_782_400_000));
}

// ---- texts ------------------------------------------------------------------

#[test]
fn texts_are_taken_apart_and_put_together() {
    assert_eq!(lines_of("a\r\nb\n"), strings(&["a", "b"]));
    assert_eq!(split_keeping("a b ", ' '), strings(&["a ", "b "]));
    assert_eq!(split_by("a, b,c", ", "), strings(&["a", "b,c"]));
    assert_eq!(split_words("  a \t b "), strings(&["a", "b"]));
    assert_eq!(bare("\"'x'\"", "\"'"), "x");
    assert_eq!(number(18_446_744_073_709_551_615), "18446744073709551615");
    assert_eq!(read_u64("+7"), Some(7));
    assert_eq!(read_u64("18446744073709551616"), None);
    assert_eq!(pad(7, 3), "007");
    assert_eq!(text::column("é", 3), "é  ");
    assert!(contains("haystack", "sta") && !contains("haystack", "x"));
    assert_eq!(sort(&strings(&["b", "a", "b"])), strings(&["a", "b", "b"]));
    assert_eq!(sort_once(&strings(&["b", "a", "b"])), strings(&["a", "b"]));
}

#[test]
fn json_is_read_one_level_at_a_time() {
    let j = read(r#"{"a":{"b":[1, 2]},"n":3,"t":"x\ny","f":true,"neg":-1}"#).expect("JSON");
    assert_eq!(j.get("a"), Some("{\"b\":[1,2]}".to_string()));
    assert_eq!(j.whole_at("n"), Some(3));
    assert_eq!(j.whole_at("neg"), None);
    assert_eq!(j.text_at("t"), Some("x\ny".to_string()));
    assert_eq!(j.bool_at("f"), Some(true));
    assert_eq!(j.get("missing"), None);
    assert_eq!(read("null"), Ok(Json::Null));
    assert!(read("{").is_err());
    assert_eq!(write_strings(&strings(&["a\"b"])), "[\"a\\\"b\"]");
    assert_eq!(quote_or_null(&None), "null");
    assert_eq!(quote_or_null(&Some("\n".to_string())), "\"\\n\"");
}
