use cc_proxy::config::{Config, ModelProfile, ProviderConfig, WireApi};
use cc_proxy::json::Json;
use cc_proxy::reasoning::apply_effort::{
    apply_effort_word, apply_reasoning_effort, effort_tier, is_off_word, resolve_effort,
    try_apply_reasoning_effort,
};
use cc_proxy::reasoning::replay::{requires_reasoning_content, should_replay_reasoning_content};
use cc_proxy::table::Table;

fn table(entries: &[(&str, &str)]) -> Table<String> {
    let mut t = Table::new();
    for (k, v) in entries {
        t.insert(k.to_string(), v.to_string());
    }
    t
}

fn deepseek_provider() -> ProviderConfig {
    ProviderConfig {
        reasoning_field: "reasoning_content".to_string(),
        reasoning_field_alt: vec![],
        thinking_param: Some("thinking".to_string()),
        thinking_type_enabled: Some("enabled".to_string()),
        thinking_type_disabled: Some("disabled".to_string()),
        disable_thinking: false,
        effort_param: "reasoning_effort".to_string(),
        effort_map: table(&[
            ("low", "high"),
            ("medium", "high"),
            ("high", "high"),
            ("max", "max"),
            ("xhigh", "max"),
        ]),
        responses_reasoning_summary: None,
        cache_policy: None,
    }
}

fn kimi_provider() -> ProviderConfig {
    ProviderConfig {
        reasoning_field: "reasoning".to_string(),
        reasoning_field_alt: vec![],
        thinking_param: None,
        thinking_type_enabled: None,
        thinking_type_disabled: None,
        disable_thinking: true,
        effort_param: "reasoning_effort".to_string(),
        effort_map: table(&[
            ("low", "low"),
            ("medium", "medium"),
            ("high", "high"),
            ("max", "max"),
            ("xhigh", "max"),
        ]),
        responses_reasoning_summary: None,
        cache_policy: None,
    }
}

fn provider(map: &[(&str, &str)]) -> ProviderConfig {
    ProviderConfig { effort_map: table(map), ..deepseek_provider() }
}

fn member<'a>(body: &'a Json, name: &str) -> &'a str {
    body.get(name).and_then(|v| v.as_str()).expect("string member")
}

fn thinking_type(body: &Json) -> &str {
    member(body.get("thinking").expect("thinking switch"), "type")
}

#[test]
fn test_deepseek_max() {
    let mut body = Json::object();
    apply_reasoning_effort(&mut body, Some("max"), &deepseek_provider());
    assert_eq!(member(&body, "reasoning_effort"), "max");
    assert_eq!(thinking_type(&body), "enabled");
}

#[test]
fn test_deepseek_off() {
    let mut body = Json::object();
    apply_reasoning_effort(&mut body, Some("off"), &deepseek_provider());
    assert_eq!(thinking_type(&body), "disabled");
    assert!(body.get("reasoning_effort").is_none());
}

#[test]
fn test_deepseek_low() {
    let mut body = Json::object();
    apply_reasoning_effort(&mut body, Some("low"), &deepseek_provider());
    assert_eq!(member(&body, "reasoning_effort"), "high");
    assert_eq!(thinking_type(&body), "enabled");
}

#[test]
fn test_no_effort() {
    let mut body = Json::object();
    apply_reasoning_effort(&mut body, None, &deepseek_provider());
    assert_eq!(body, Json::object());
}

#[test]
fn test_kimi_max() {
    let mut body = Json::object();
    apply_reasoning_effort(&mut body, Some("max"), &kimi_provider());
    assert_eq!(member(&body, "reasoning_effort"), "max");
    assert!(body.get("thinking").is_none());
}

#[test]
fn test_kimi_xhigh() {
    let mut body = Json::object();
    apply_reasoning_effort(&mut body, Some("xhigh"), &kimi_provider());
    assert_eq!(member(&body, "reasoning_effort"), "max");
    assert!(body.get("thinking").is_none());
}

#[test]
fn test_kimi_off() {
    let mut body = Json::object();
    apply_reasoning_effort(&mut body, Some("off"), &kimi_provider());
    assert_eq!(member(&body, "reasoning_effort"), "low");
    assert!(body.get("thinking").is_none());
}

#[test]
fn test_kimi_low() {
    let mut body = Json::object();
    apply_reasoning_effort(&mut body, Some("low"), &kimi_provider());
    assert_eq!(member(&body, "reasoning_effort"), "low");
    assert!(body.get("thinking").is_none());
}

#[test]
fn effort_words_count_whatever_their_case_and_outer_space() {
    let mut body = Json::object();
    apply_reasoning_effort(&mut body, Some("  XHigh\n"), &deepseek_provider());
    assert_eq!(member(&body, "reasoning_effort"), "max");
    let mut body = Json::Null;
    apply_reasoning_effort(&mut body, Some(" OFF "), &deepseek_provider());
    assert_eq!(thinking_type(&body), "disabled");
}

#[test]
fn levels_that_are_not_mapped_are_resolved_by_tier() {
    let mut p = deepseek_provider();
    p.effort_map = table(&[("xhigh", "max")]);
    let mut body = Json::object();
    apply_reasoning_effort(&mut body, Some("max"), &p);
    assert_eq!(member(&body, "reasoning_effort"), "max");
    assert_eq!(thinking_type(&body), "enabled");
    let mut body = Json::Null;
    apply_effort_word(&mut body, "minimal", &kimi_provider());
    assert_eq!(member(&body, "reasoning_effort"), "low");
    let mut body = Json::Null;
    apply_effort_word(&mut body, "turbo", &kimi_provider());
    assert_eq!(member(&body, "reasoning_effort"), "high");
}

#[test]
fn a_switch_is_taken_out_where_thinking_cannot_be_turned_off() {
    let mut p = kimi_provider();
    p.thinking_param = Some("thinking".to_string());
    let mut body = Json::parse(r#"{"thinking":{"type":"enabled"},"model":"k"}"#).unwrap();
    apply_effort_word(&mut body, "none", &p);
    assert!(body.get("thinking").is_none());
    assert_eq!(member(&body, "reasoning_effort"), "low");
    assert_eq!(member(&body, "model"), "k");
}

#[test]
fn an_effort_is_taken_out_where_thinking_is_turned_off() {
    let mut body = Json::parse(r#"{"reasoning_effort":"max"}"#).unwrap();
    apply_effort_word(&mut body, "false", &deepseek_provider());
    assert!(body.get("reasoning_effort").is_none());
    let mut other = Json::Bool(true);
    let mut p = deepseek_provider();
    p.thinking_param = None;
    apply_effort_word(&mut other, "off", &p);
    assert_eq!(other, Json::Bool(true));
}

#[test]
fn efforts_are_not_put_where_they_cannot_stand() {
    let mut body = Json::Array(vec![]);
    assert!(!try_apply_reasoning_effort(&mut body, Some("Max"), &deepseek_provider()));
    assert_eq!(body, Json::Array(vec![]));
    assert!(try_apply_reasoning_effort(&mut body, None, &deepseek_provider()));
    let mut p = deepseek_provider();
    p.thinking_param = None;
    assert!(try_apply_reasoning_effort(&mut body, Some("OFF"), &p));
    assert_eq!(body, Json::Array(vec![]));
    let mut body = Json::Null;
    assert!(try_apply_reasoning_effort(&mut body, Some("OFF"), &kimi_provider()));
    assert_eq!(member(&body, "reasoning_effort"), "low");
}

#[test]
fn tier_identity_groups_xhigh_and_max() {
    assert_eq!(effort_tier("xhigh"), effort_tier("max"));
    assert!(effort_tier("xhigh") > effort_tier("high"));
    assert_eq!(effort_tier("bogus"), None);
}

#[test]
fn exact_map_hit_is_byte_identical_to_legacy() {
    let p = provider(&[
        ("low", "high"),
        ("medium", "high"),
        ("high", "high"),
        ("max", "max"),
        ("xhigh", "max"),
    ]);
    assert_eq!(resolve_effort("xhigh", &p), "max");
    assert_eq!(resolve_effort("low", &p), "high");
    assert_eq!(resolve_effort("max", &p), "max");
}

#[test]
fn inbound_max_passes_through_when_upstream_supports_max_without_key() {
    let p = provider(&[
        ("none", "none"),
        ("minimal", "minimal"),
        ("low", "low"),
        ("medium", "medium"),
        ("high", "high"),
        ("xhigh", "max"),
    ]);
    assert_eq!(resolve_effort("max", &p), "max");
    assert_eq!(resolve_effort("xhigh", &p), "max");
    assert_eq!(resolve_effort("medium", &p), "medium");
}

#[test]
fn missing_level_falls_to_nearest_lower_tier() {
    let p = provider(&[
        ("low", "high"),
        ("medium", "high"),
        ("high", "high"),
        ("max", "max"),
        ("xhigh", "max"),
    ]);
    assert_eq!(resolve_effort("medium", &p), "high");
    assert_eq!(resolve_effort("minimal", &p), "high");
}

#[test]
fn kimi_medium_maps_low_via_explicit_entry() {
    let p = provider(&[
        ("low", "low"),
        ("medium", "low"),
        ("high", "high"),
        ("max", "max"),
        ("xhigh", "max"),
    ]);
    assert_eq!(resolve_effort("medium", &p), "low");
    assert_eq!(resolve_effort("max", &p), "max");
}

#[test]
fn unknown_inbound_word_uses_legacy_high_fallback() {
    let p = provider(&[("high", "high"), ("xhigh", "max")]);
    assert_eq!(resolve_effort("turbo", &p), "high");
}

#[test]
fn degenerate_empty_map_falls_back_high() {
    let p = provider(&[]);
    assert_eq!(resolve_effort("xhigh", &p), "high");
}

#[test]
fn ties_go_to_the_lower_tier() {
    let p = provider(&[("a", "low"), ("b", "high")]);
    assert_eq!(resolve_effort("medium", &p), "low");
}

#[test]
fn values_of_one_tier_go_by_their_text() {
    let p = provider(&[("a", "xhigh"), ("b", "max")]);
    assert_eq!(resolve_effort("max", &p), "max");
    let p = provider(&[("a", "off"), ("b", "none"), ("c", "disabled")]);
    assert_eq!(resolve_effort("false", &p), "disabled");
}

#[test]
fn values_without_a_tier_come_last() {
    let p = provider(&[("a", "custom"), ("b", "minimal")]);
    assert_eq!(resolve_effort("max", &p), "minimal");
    let p = provider(&[("a", "custom")]);
    assert_eq!(resolve_effort("max", &p), "custom");
}

#[test]
fn top_names_resolve_alike_where_neither_is_mapped() {
    let p = provider(&[("low", "low"), ("high", "max")]);
    assert_eq!(resolve_effort("xhigh", &p), resolve_effort("max", &p));
}

#[test]
fn off_words_are_the_lowest_tier() {
    for word in ["off", "disabled", "none", "false"] {
        assert!(is_off_word(word));
        assert_eq!(effort_tier(word), Some(0));
    }
    assert!(!is_off_word("low"));
    assert_eq!(effort_tier("minimal"), Some(1));
    assert_eq!(effort_tier("low"), Some(2));
    assert_eq!(effort_tier("medium"), Some(3));
    assert_eq!(effort_tier("high"), Some(4));
    assert_eq!(effort_tier("xhigh"), Some(5));
}

fn one_model_config(reasoning_enabled: bool, reasoning_replay: bool) -> Config {
    let mut profile_by_name = Table::new();
    profile_by_name.insert("m".to_string(), 0usize);
    profile_by_name.insert("lost".to_string(), 9usize);
    Config {
        listen_addr: String::new(),
        eswitch_url: String::new(),
        moonshot_official_url: String::new(),
        moonshot_official_api_key: String::new(),
        api_key: String::new(),
        log_level: String::new(),
        model_mapping: Table::new(),
        default_model: "m".to_string(),
        model_profiles: vec![ModelProfile {
            name: "m".to_string(),
            provider: "p".to_string(),
            reasoning_enabled,
            reasoning_replay,
            toolcall_requires_reasoning: false,
            aliases: vec![],
            wire_api: WireApi::ChatCompletions,
        }],
        providers: Table::new(),
        profile_by_name,
    }
}

#[test]
fn reasoning_goes_by_the_profile() {
    assert!(requires_reasoning_content("m", &one_model_config(true, false)));
    assert!(!requires_reasoning_content("m", &one_model_config(false, true)));
    assert!(!requires_reasoning_content("other", &one_model_config(true, true)));
    assert!(!requires_reasoning_content("lost", &one_model_config(true, true)));
}

#[test]
fn stored_reasoning_is_replayed_unless_turned_off() {
    let config = one_model_config(true, true);
    assert!(should_replay_reasoning_content("m", Some("max"), &config));
    assert!(should_replay_reasoning_content("m", None, &config));
    assert!(!should_replay_reasoning_content("m", Some("off"), &config));
    assert!(!should_replay_reasoning_content("m", Some("max"), &one_model_config(true, false)));
    assert!(!should_replay_reasoning_content("other", Some("max"), &config));
}
