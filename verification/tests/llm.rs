//! The rows that fill the model slot.
use atomcode_harness::effort::{fill, resolve_child_effort, EffortRow, Offer, Offers, ReasoningEffort};
use atomcode_harness::json;
use atomcode_harness::llm::{
    context_line, from_config, missing_config, openai_compat, using, AdapterConfig, AdapterKnobs,
    ConfigRow, Endpoint, OpenAiCompatRow, ReplayCall, ReplayProvider, ReplayRow, ReplayStep,
    UtilityRow, Want,
};
use atomcode_harness::turn::StreamEvent;

/// What an adapter starts from: the window it falls back to and what it guesses from
/// the model's name.
fn start(model: &str, guess: bool) -> AdapterConfig {
    AdapterConfig {
        api_key: "k".to_string(),
        base_url: "https://gw/v1".to_string(),
        model: model.to_string(),
        context_window: 128_000,
        supports_vision: guess,
        thinking_type: None,
        thinking_keep: None,
        supports_reasoning_effort: false,
    }
}

#[test]
fn the_row_overrules_the_name_heuristic_in_both_directions() {
    let forced_on = openai_compat(
        start("deepseek-v4", false),
        AdapterKnobs { supports_vision: Some(true), ..AdapterKnobs::default() },
    );
    assert!(forced_on.supports_vision, "an explicit true must beat a text-only-looking name");

    let forced_off = openai_compat(
        start("gpt-4o", true),
        AdapterKnobs { supports_vision: Some(false), ..AdapterKnobs::default() },
    );
    assert!(!forced_off.supports_vision, "an explicit false must beat a vision-looking name");
}

#[test]
fn an_unset_row_leaves_the_heuristic_in_charge() {
    let unset = openai_compat(start("gpt-4o", true), AdapterKnobs::default());
    assert!(unset.supports_vision, "unset is not the same as false");
}

#[test]
fn the_configured_window_reaches_the_provider() {
    let provider = openai_compat(
        start("some-1m-model", false),
        AdapterKnobs { context_window: Some(1_000_000), ..AdapterKnobs::default() },
    );
    assert_eq!(
        provider.context_window, 1_000_000,
        "an explicit window must be what the provider reports"
    );
}

#[test]
fn the_description_carries_the_providers_own_window() {
    let provider = openai_compat(
        start("m", false),
        AdapterKnobs { context_window: Some(262_144), ..AdapterKnobs::default() },
    );
    let line = context_line(provider.context_window, "stated on the `llm` row");
    assert!(line.contains("262144"), "the reported window must be the provider's:\n{line}");
}

#[test]
fn a_fallback_window_is_not_reported_as_if_it_were_known() {
    let built_in = context_line(128_000, "the built-in default");
    assert!(built_in.contains("128000"), "{built_in}");
    assert!(built_in.contains("default"), "{built_in}");

    let stated = context_line(1_000_000, "stated on the `llm` row");
    assert!(stated.contains("stated"), "{stated}");
    assert!(!stated.contains("default"), "{stated}");
}

fn row() -> OpenAiCompatRow {
    OpenAiCompatRow {
        base_url: None,
        model: None,
        api_key_env: None,
        context_window: None,
        supports_vision: None,
        thinking_type: None,
        thinking_keep: None,
        supports_reasoning_effort: true,
    }
}

fn endpoint() -> Endpoint {
    Endpoint {
        base_url: "https://gw/v1".to_string(),
        model: "m".to_string(),
        api_key: "k".to_string(),
        context_window: Some(64_000),
        supports_vision: Some(true),
        thinking_type: Some("enabled".to_string()),
        thinking_keep: None,
        supports_reasoning_effort: false,
        origin: "config.toml".to_string(),
    }
}

#[test]
fn a_whole_endpoint_is_taken_at_its_word() {
    assert_eq!(row().want(), Want::Environment { api_key_env: None });
    let half = OpenAiCompatRow { base_url: Some("u".to_string()), ..row() };
    assert_eq!(half.want(), Want::Environment { api_key_env: None });
    let whole = OpenAiCompatRow {
        base_url: Some("u".to_string()),
        model: Some("m".to_string()),
        api_key_env: Some("KEY".to_string()),
        ..row()
    };
    assert_eq!(
        whole.want(),
        Want::Explicit {
            base_url: "u".to_string(),
            model: "m".to_string(),
            api_key_env: Some("KEY".to_string()),
        }
    );
    let side = UtilityRow {
        model: "small".to_string(),
        base_url: None,
        api_key_env: None,
        context_window: None,
        thinking_type: Some("disabled".to_string()),
        thinking_keep: None,
        supports_reasoning_effort: false,
    };
    assert_eq!(
        side.want(),
        Want::EnvironmentWithModel { api_key_env: None, model: "small".to_string() }
    );
    let knobs = side.knobs(&endpoint());
    assert_eq!(knobs.context_window, Some(64_000));
    assert_eq!(knobs.supports_vision, None, "a side call carries no image");
    assert_eq!(knobs.thinking_type.as_deref(), Some("disabled"));
    assert_eq!(knobs.supports_reasoning_effort, Some(false));
    let config = ConfigRow { model: Some("fast".to_string()), path: None };
    assert_eq!(
        config.want(),
        Want::UserConfig { selection: Some("fast".to_string()), path: None }
    );
    assert_eq!(config.locate("/default.toml"), "/default.toml");
    let elsewhere = ConfigRow { model: None, path: Some("/p.toml".to_string()) };
    assert_eq!(
        elsewhere.want(),
        Want::UserConfig { selection: None, path: Some("/p.toml".to_string()) }
    );
    assert_eq!(elsewhere.locate("/default.toml"), "/p.toml");
}

#[test]
fn the_row_comes_before_what_was_found() {
    let knobs = OpenAiCompatRow { context_window: Some(1_000), ..row() }.knobs(&endpoint());
    assert_eq!(knobs.context_window, Some(1_000));
    assert_eq!(knobs.supports_vision, Some(true));
    assert_eq!(knobs.thinking_type, None, "leaving it out stays out");
    assert_eq!(knobs.supports_reasoning_effort, Some(true));
    let cfg = from_config(start("m", false), &endpoint());
    assert_eq!(cfg.context_window, 64_000);
    assert!(cfg.supports_vision);
    assert_eq!(cfg.thinking_type.as_deref(), Some("enabled"));
}

#[test]
fn descriptions_say_where_the_window_came_from() {
    let silent = row().describe("m", "u", 128_000);
    assert!(silent.contains("ATOMCODE_MODEL / ATOMCODE_API_KEY."), "{silent}");
    assert!(silent.contains("the adapter's fallback"), "{silent}");
    let stated = OpenAiCompatRow { context_window: Some(5), ..row() }.describe("m", "u", 5);
    assert!(stated.contains("Context window: 5 tokens (stated on the `llm` row)."), "{stated}");
    let config = ConfigRow { model: None, path: None }.describe(&endpoint(), 64_000);
    assert!(config.contains("`(the configured default)`"), "{config}");
    assert!(missing_config("/x").starts_with("/x does not exist.\n"));
    assert_eq!(using(&endpoint()), "\u{1b}[2musing `m` from config.toml\u{1b}[0m");
    let replay = ReplayRow::default();
    assert_eq!(replay.window(), 128_000);
    assert!(replay.describe().contains("with 0 canned answer(s)"), "{}", replay.describe());
}

#[test]
fn a_script_is_played_word_by_word() {
    let mut p = ReplayProvider::new(vec![
        ReplayStep {
            text: "one two".to_string(),
            calls: vec![ReplayCall { name: "read".to_string(), args: "{}".to_string() }],
            fail: None,
        },
        ReplayStep { text: String::new(), calls: vec![], fail: Some("no network".to_string()) },
    ]);
    let first = p.answer().expect("an answer");
    assert_eq!(first[0], StreamEvent::TextDelta("one ".to_string()));
    assert_eq!(first[1], StreamEvent::TextDelta("two".to_string()));
    match &first[2] {
        StreamEvent::ToolCall(c) => assert_eq!(c.id, "replay-0-0"),
        other => panic!("a call, not {other:?}"),
    }
    assert!(matches!(first[3], StreamEvent::Usage(u) if u.prompt == 100 && u.completion == 20));
    assert_eq!(p.answer().unwrap_err().message, "no network");
    let past = p.answer().expect("it says so");
    let said: String = past
        .iter()
        .filter_map(|e| match e {
            StreamEvent::TextDelta(t) => Some(t.as_str()),
            _ => None,
        })
        .collect();
    assert_eq!(said, "(replay script exhausted)");
}

fn effort_row(json: &str) -> EffortRow {
    EffortRow::of(&json::read(json).expect("JSON"))
}

#[test]
fn an_empty_row_has_no_opinion() {
    assert_eq!(effort_row("{}").level, None);
}

#[test]
fn the_row_carries_a_level_and_nothing_about_the_model() {
    let row = effort_row(r#"{"level":"high"}"#);
    assert_eq!(row.level.as_deref(), Some("high"));
    assert_eq!(row.effort(), Some(ReasoningEffort::High));
}

#[test]
fn an_unknown_level_is_no_opinion_not_a_failure() {
    for typo in ["hihg", "", "none", "off"] {
        let row = effort_row(&format!("{{\"level\":\"{typo}\"}}"));
        assert_eq!(
            ReasoningEffort::from_config(row.level.as_deref()),
            None,
            "`{typo}` is not a level this stack can put on the wire"
        );
    }
}

#[test]
fn a_request_keeps_its_own_level() {
    assert_eq!(fill(None, ReasoningEffort::Low), Some(ReasoningEffort::Low));
    assert_eq!(fill(Some(ReasoningEffort::Max), ReasoningEffort::Low), Some(ReasoningEffort::Max));
    let catalog = Some(Offers {
        current: Some("a".to_string()),
        models: vec![Offer { id: "a".to_string(), effort_levels: vec!["low".to_string()] }],
    });
    assert_eq!(resolve_child_effort(&catalog, None, None), Ok(None));
    assert_eq!(resolve_child_effort(&catalog, None, Some("low")), Ok(Some(ReasoningEffort::Low)));
    assert_eq!(
        resolve_child_effort(&catalog, None, Some("high")),
        Err("`a` does not take `high`; it accepts: low".to_string())
    );
    assert!(resolve_child_effort(&catalog, None, Some("hihg"))
        .unwrap_err()
        .starts_with("`hihg` is not a thinking level; use one of: "));
}
