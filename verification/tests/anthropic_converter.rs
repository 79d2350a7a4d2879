use cc_proxy::anthropic::converter::{
    apply_effort_direct, convert_request, convert_request_with_relocation, inbound_effort,
    map_model_to_upstream, map_model_to_upstream_for_responses, relocated_system,
    system_to_relocate, ChatDraft, Relocation,
};
use cc_proxy::anthropic::types::{
    ContentBlock, ContentValue, Message, MessagesRequest, Metadata, SystemContentBlock,
    SystemPrompt, ThinkingConfig, Tool, ToolChoice, ToolResultContent,
};
use cc_proxy::cache::{CachePolicy, HistoryPolicy, RelocatePolicy, ReplayPolicy, UsagePolicy};
use cc_proxy::config::{Config, ModelProfile, ProviderConfig, WireApi};
use cc_proxy::json::Json;
use cc_proxy::openai::types::ChatCompletionRequest;
use cc_proxy::table::Table;

fn json(text: &str) -> Json {
    Json::parse(text).expect("valid JSON")
}

fn table(entries: &[(&str, &str)]) -> Table<String> {
    let mut t = Table::new();
    for (k, v) in entries {
        t.insert(k.to_string(), v.to_string());
    }
    t
}

fn thinking_provider(effort_map: &[(&str, &str)]) -> ProviderConfig {
    ProviderConfig {
        reasoning_field: "reasoning_content".to_string(),
        reasoning_field_alt: vec![],
        thinking_param: Some("thinking".to_string()),
        thinking_type_enabled: Some("enabled".to_string()),
        thinking_type_disabled: Some("disabled".to_string()),
        disable_thinking: false,
        effort_param: "reasoning_effort".to_string(),
        effort_map: table(effort_map),
        responses_reasoning_summary: None,
        cache_policy: None,
    }
}

fn profile(name: &str, provider: &str, reasoning_replay: bool, aliases: &[&str]) -> ModelProfile {
    ModelProfile {
        name: name.to_string(),
        provider: provider.to_string(),
        reasoning_enabled: true,
        reasoning_replay,
        toolcall_requires_reasoning: provider == "deepseek",
        aliases: aliases.iter().map(|s| s.to_string()).collect(),
        wire_api: WireApi::ChatCompletions,
    }
}

fn test_config() -> Config {
    let mapping = table(&[
        ("opus-4", "deepseek-v4-pro"),
        ("sonnet-4", "deepseek-v4-flash"),
        ("haiku-4", "deepseek-v4-pro"),
    ]);
    let mut providers = Table::new();
    providers.insert(
        "deepseek".to_string(),
        thinking_provider(&[
            ("low", "high"),
            ("medium", "high"),
            ("high", "high"),
            ("max", "max"),
            ("xhigh", "max"),
        ]),
    );
    providers.insert(
        "moonshot".to_string(),
        ProviderConfig {
            reasoning_field: "reasoning".to_string(),
            reasoning_field_alt: vec![],
            thinking_param: None,
            thinking_type_enabled: None,
            thinking_type_disabled: None,
            disable_thinking: true,
            effort_param: "reasoning_effort".to_string(),
            effort_map: table(&[
                ("low", "low"),
                ("medium", "medium"),
                ("high", "high"),
                ("max", "max"),
                ("xhigh", "max"),
            ]),
            responses_reasoning_summary: None,
            cache_policy: None,
        },
    );
    providers.insert(
        "glm".to_string(),
        thinking_provider(&[
            ("none", "none"),
            ("minimal", "minimal"),
            ("low", "low"),
            ("medium", "medium"),
            ("high", "high"),
            ("xhigh", "xhigh"),
            ("max", "max"),
        ]),
    );
    let model_profiles = vec![
        profile("deepseek-v4-pro", "deepseek", true, &["deepseek-chat", "deepseek-reasoner"]),
        profile("deepseek-v4-flash", "deepseek", true, &[]),
        profile("kimi-k3", "moonshot", true, &[]),
        profile("glm-5.2", "glm", false, &[]),
    ];
    let mut profile_by_name = Table::new();
    for (i, profile) in model_profiles.iter().enumerate() {
        profile_by_name.insert(profile.name.clone(), i);
        for alias in &profile.aliases {
            profile_by_name.insert(alias.clone(), i);
        }
    }
    Config {
        listen_addr: "0.0.0.0:11435".to_string(),
        eswitch_url: "http://127.0.0.1:11434".to_string(),
        moonshot_official_url: String::new(),
        moonshot_official_api_key: String::new(),
        api_key: "test-key".to_string(),
        log_level: "info".to_string(),
        model_mapping: mapping,
        default_model: "deepseek-v4-pro".to_string(),
        model_profiles,
        providers,
        profile_by_name,
    }
}

fn user(text: &str) -> Message {
    Message {
        role: "user".to_string(),
        content: ContentValue::Text(text.to_string()),
    }
}

fn request(model: &str, max_tokens: u32, thinking: Option<ThinkingConfig>) -> MessagesRequest {
    MessagesRequest {
        model: model.to_string(),
        system: None,
        messages: vec![user("hello")],
        max_tokens,
        stream: Some(false),
        thinking,
        tools: None,
        tool_choice: None,
        metadata: None,
        stop_sequences: None,
        top_k: None,
        output_config: None,
    }
}

fn thinking_enabled(budget: u32) -> ThinkingConfig {
    ThinkingConfig::Enabled {
        config_type: "enabled".to_string(),
        budget_tokens: Some(budget),
        display: None,
    }
}

fn thinking_disabled() -> ThinkingConfig {
    ThinkingConfig::Disabled { config_type: "disabled".to_string() }
}

fn convert(req: &MessagesRequest, config: &Config) -> ChatCompletionRequest {
    convert_request(req, config, None).request
}

fn thinking_type(request: &ChatCompletionRequest) -> &str {
    &request.thinking.as_ref().expect("thinking").thinking_type
}

/// The request with a key that somebody made, whether or not it was asked for.
fn finished(draft: ChatDraft) -> ChatCompletionRequest {
    draft.finish(vec![], Some("0123456789abcdef0123456789abcdef".to_string()))
}

#[test]
fn test_basic_conversion() {
    let config = test_config();
    let mut req = request("deepseek-v4-pro", 4096, None);
    req.system = Some(SystemPrompt::Text("You are helpful".to_string()));
    let draft = convert_request(&req, &config, None);
    assert_eq!(draft.relocation, Relocation::Stay);
    let result = draft.finish(
        vec![
            json(r#"{"role": "system", "content": "You are helpful"}"#),
            json(r#"{"role": "user", "content": "hello"}"#),
        ],
        None,
    );
    assert_eq!(result.model, "deepseek-v4-pro");
    assert_eq!(result.messages.len(), 2);
    assert_eq!(result.messages[0].to_value()["role"], "system");
    assert_eq!(result.messages[1].to_value()["role"], "user");
}

#[test]
fn test_thinking_enabled() {
    let config = test_config();
    let req = request("deepseek-v4-pro", 32768, Some(thinking_enabled(16000)));
    let result = convert(&req, &config);
    assert_eq!(result.reasoning_effort, Some("max".to_string()));
    assert_eq!(thinking_type(&result), "enabled");
}

#[test]
fn test_thinking_adaptive_on_reasoning_model() {
    let config = test_config();
    let req = request("deepseek-v4-pro", 32768, Some(thinking_enabled(0)));
    let result = convert(&req, &config);
    assert_eq!(result.reasoning_effort, Some("max".to_string()));
}

#[test]
fn test_thinking_disabled() {
    let config = test_config();
    let req = request("deepseek-v4-pro", 4096, Some(thinking_disabled()));
    let result = convert(&req, &config);
    assert_eq!(thinking_type(&result), "disabled");
    assert_eq!(result.reasoning_effort, None);
}

#[test]
fn test_model_mapping() {
    let config = test_config();
    let req = request("opus-4", 4096, None);
    let result = convert(&req, &config);
    assert_eq!(result.model, "deepseek-v4-pro");
}

#[test]
fn test_kimi_k3_no_thinking_type() {
    let config = test_config();
    let req = request("kimi-k3", 4096, Some(thinking_enabled(16000)));
    let result = convert(&req, &config);
    assert_eq!(result.reasoning_effort, Some("max".to_string()));
    assert!(result.thinking.is_none(), "Kimi K3 should not have thinking.type");
}

#[test]
fn test_kimi_k3_off_effort() {
    let config = test_config();
    let req = request("kimi-k3", 4096, Some(thinking_disabled()));
    let result = convert(&req, &config);
    assert_eq!(result.reasoning_effort, Some("low".to_string()));
    assert!(result.thinking.is_none(), "Kimi K3 should not have thinking.type");
}

#[test]
fn test_kimi_k3_xhigh_effort() {
    let config = test_config();
    let req = request("kimi-k3", 4096, Some(thinking_enabled(32768)));
    let result = convert(&req, &config);
    assert_eq!(result.reasoning_effort, Some("max".to_string()));
    assert!(result.thinking.is_none(), "Kimi K3 should not have thinking.type");
}

#[test]
fn test_alias_passthrough() {
    let config = test_config();
    let req = request("deepseek-chat", 4096, None);
    let result = convert(&req, &config);
    assert_eq!(result.model, "deepseek-chat");
}

#[test]
fn test_glm_reasoning_model() {
    let config = test_config();
    let req = request("glm-5.2", 4096, None);
    let result = convert(&req, &config);
    assert_eq!(result.reasoning_effort, Some("xhigh".to_string()));
    assert_eq!(thinking_type(&result), "enabled");
}

#[test]
fn test_glm_reasoning_replay_disabled() {
    let config = test_config();
    let req = request("glm-5.2", 4096, Some(thinking_enabled(16000)));
    let draft = convert_request(&req, &config, None);
    assert!(!draft.assistant_replay);
    let result = draft.request;
    assert_eq!(result.reasoning_effort, Some("xhigh".to_string()));
    assert_eq!(thinking_type(&result), "enabled");
}

fn tool(name: &str, description: &str) -> Tool {
    Tool {
        name: name.to_string(),
        description: Some(description.to_string()),
        input_schema: json(r#"{"type": "object"}"#),
    }
}

#[test]
fn test_tool_conversion_sorted() {
    let config = test_config();
    let mut req = request("deepseek-v4-pro", 4096, None);
    req.tools = Some(vec![tool("zebra", "z"), tool("alpha", "a")]);
    let result = convert(&req, &config);
    let tools = result.tools.unwrap();
    assert_eq!(tools[0].function.name, "alpha");
    assert_eq!(tools[1].function.name, "zebra");
}

#[test]
fn test_tool_choice_auto() {
    let config = test_config();
    let mut req = request("deepseek-v4-pro", 4096, None);
    req.tool_choice = Some(ToolChoice::Auto { choice_type: "auto".to_string() });
    let result = convert(&req, &config);
    assert_eq!(result.tool_choice, Some(json("\"auto\"")));
}

#[test]
fn test_tool_choice_any() {
    let config = test_config();
    let mut req = request("deepseek-v4-pro", 4096, None);
    req.tool_choice = Some(ToolChoice::Any { choice_type: "any".to_string() });
    let result = convert(&req, &config);
    assert_eq!(result.tool_choice, Some(json("\"required\"")));
}

#[test]
fn test_tool_choice_specific() {
    let config = test_config();
    let mut req = request("deepseek-v4-pro", 4096, None);
    req.tool_choice = Some(ToolChoice::Tool {
        choice_type: "tool".to_string(),
        name: "read_file".to_string(),
    });
    let result = convert(&req, &config);
    assert_eq!(
        result.tool_choice.map(|choice| choice.to_text()),
        Some(json(r#"{"type": "function", "function": {"name": "read_file"}}"#).to_text())
    );
}

#[test]
fn test_stream_option() {
    let config = test_config();
    let mut req = request("deepseek-v4-pro", 4096, None);
    req.stream = Some(true);
    let result = convert(&req, &config);
    assert_eq!(result.stream, Some(true));
    assert!(result.stream_options.is_some());
    assert!(result.stream_options.unwrap().include_usage);
}

fn policy(upstream: Option<&str>) -> CachePolicy {
    CachePolicy {
        usage: UsagePolicy::Off,
        upstream: upstream.map(|s| s.to_string()),
        effort_enum: None,
        replay: ReplayPolicy::Off,
        history: HistoryPolicy::Off,
        relocate: RelocatePolicy::Off,
        pinned_effort: None,
        prompt_cache_key_enabled: false,
    }
}

fn with_policy(provider: &str, policy: CachePolicy) -> Config {
    let mut config = test_config();
    let mut entry = config.providers.get(provider).expect("provider").clone();
    entry.cache_policy = Some(policy);
    config.providers.insert(provider.to_string(), entry);
    config
}

fn kimi_optin_config() -> Config {
    with_policy(
        "moonshot",
        CachePolicy { prompt_cache_key_enabled: true, ..policy(Some("official")) },
    )
}

fn kimi_req_with_metadata(user_id: Option<&str>) -> MessagesRequest {
    let mut req = request("kimi-k3", 4096, None);
    req.metadata = Some(Metadata { user_id: user_id.map(|s| s.to_string()) });
    req
}

#[test]
fn default_policy_keeps_prompt_cache_key_absent_on_wire() {
    let config = test_config();
    let draft = convert_request_with_relocation(
        &kimi_req_with_metadata(Some("user-42")),
        &config,
        false,
    );
    assert!(draft.cache_key.is_none());
    assert_eq!(finished(draft).prompt_cache_key, None);
}

#[test]
fn optin_missing_source_omits_key_fail_closed() {
    let config = kimi_optin_config();
    for user_id in [None, Some("")] {
        let draft =
            convert_request_with_relocation(&kimi_req_with_metadata(user_id), &config, false);
        assert_eq!(finished(draft).prompt_cache_key, None, "user_id={user_id:?}");
    }
}

#[test]
fn opting_in_on_the_official_upstream_asks_for_a_key() {
    let config = kimi_optin_config();
    let draft = convert_request_with_relocation(
        &kimi_req_with_metadata(Some("user-42")),
        &config,
        false,
    );
    let source = draft.cache_key.as_ref().expect("a key is asked for");
    assert_eq!(source.user_id, "user-42");
    assert_eq!(source.provider, "moonshot");
    assert_eq!(source.model, "kimi-k3");
    assert_eq!(
        finished(draft).prompt_cache_key.as_deref(),
        Some("0123456789abcdef0123456789abcdef")
    );
}

#[test]
fn key_sources_differ_by_user_and_by_nothing_else() {
    let config = kimi_optin_config();
    let source = |user: &str| {
        let draft = convert_request(&kimi_req_with_metadata(Some(user)), &config, None);
        format!("{:?}", draft.cache_key.expect("a key is asked for"))
    };
    assert_ne!(source("user-a"), source("user-b"));
    assert_eq!(source("user-same"), source("user-same"));
}

#[test]
fn optin_without_official_binding_does_not_inject() {
    let config = with_policy(
        "moonshot",
        CachePolicy { prompt_cache_key_enabled: true, ..policy(None) },
    );
    let draft = convert_request(&kimi_req_with_metadata(Some("user-42")), &config, None);
    assert_eq!(finished(draft).prompt_cache_key, None);
}

#[test]
fn legacy_moonshot_official_without_policy_does_not_inject() {
    let mut config = test_config();
    let legacy = config.providers.get("moonshot").unwrap().clone();
    config.providers.insert("moonshot-official".to_string(), legacy);
    let idx = *config.profile_by_name.get("kimi-k3").expect("kimi profile");
    config.model_profiles[idx].provider = "moonshot-official".to_string();
    let draft = convert_request(&kimi_req_with_metadata(Some("user-42")), &config, None);
    assert_eq!(finished(draft).prompt_cache_key, None);
}

#[test]
fn non_kimi_provider_never_injected_even_with_source() {
    let config = test_config();
    let mut req = kimi_req_with_metadata(Some("user-42"));
    req.model = "deepseek-v4-pro".to_string();
    let draft = convert_request(&req, &config, None);
    assert_eq!(finished(draft).prompt_cache_key, None);
}

fn effort_enum() -> Option<Vec<String>> {
    Some(vec!["low".to_string(), "high".to_string(), "max".to_string()])
}

fn kimi_pinned_config(pin: Option<&str>) -> Config {
    with_policy(
        "moonshot",
        CachePolicy {
            effort_enum: effort_enum(),
            pinned_effort: pin.map(|s| s.to_string()),
            ..policy(Some("official"))
        },
    )
}

fn kimi_req_with_thinking_budget(budget: Option<u32>) -> MessagesRequest {
    let mut req = kimi_req_with_metadata(None);
    req.thinking = budget.map(thinking_enabled);
    req
}

fn converted(req: &MessagesRequest, config: &Config) -> ChatCompletionRequest {
    convert_request_with_relocation(req, config, false).request
}

#[test]
fn pinned_effort_low_is_stable_across_thinking_budgets() {
    let config = kimi_pinned_config(Some("low"));
    for budget in [0, 512, 4095, 4096, 16000, 32768] {
        let result = converted(&kimi_req_with_thinking_budget(Some(budget)), &config);
        assert_eq!(
            result.reasoning_effort.as_deref(),
            Some("low"),
            "pinned low must not flip with budget={budget}"
        );
        assert!(result.thinking.is_none(), "Kimi K3 has no thinking.type");
    }
    let result = converted(&kimi_req_with_thinking_budget(None), &config);
    assert_eq!(result.reasoning_effort.as_deref(), Some("low"));
}

#[test]
fn pinned_effort_high_is_stable_across_thinking_budgets() {
    let config = kimi_pinned_config(Some("high"));
    for budget in [0, 512, 4095, 16000, 32768] {
        let result = converted(&kimi_req_with_thinking_budget(Some(budget)), &config);
        assert_eq!(
            result.reasoning_effort.as_deref(),
            Some("high"),
            "pinned high must not flip with budget={budget}"
        );
    }
    let result = converted(&kimi_req_with_thinking_budget(None), &config);
    assert_eq!(result.reasoning_effort.as_deref(), Some("high"));
}

#[test]
fn pinned_effort_max_is_stable_across_thinking_budgets() {
    let config = kimi_pinned_config(Some("max"));
    for budget in [0, 512, 4095, 16000, 32768] {
        let result = converted(&kimi_req_with_thinking_budget(Some(budget)), &config);
        assert_eq!(
            result.reasoning_effort.as_deref(),
            Some("max"),
            "pinned max must not flip with budget={budget}"
        );
    }
}

#[test]
fn missing_pinned_effort_keeps_dynamic_derivation() {
    let config = kimi_pinned_config(None);
    for budget in [512, 16000] {
        let result = converted(&kimi_req_with_thinking_budget(Some(budget)), &config);
        assert_eq!(
            result.reasoning_effort.as_deref(),
            Some("max"),
            "no pin => dynamic derivation preserved for budget={budget}"
        );
    }
}

#[test]
fn optout_policy_preserves_dynamic_derivation() {
    let config = kimi_optin_config();
    let result = converted(&kimi_req_with_thinking_budget(Some(16000)), &config);
    assert_eq!(result.reasoning_effort.as_deref(), Some("max"));
}

fn deepseek_req(output_config: Option<&str>) -> MessagesRequest {
    let mut req = kimi_req_with_thinking_budget(Some(16000));
    req.model = "deepseek-v4-pro".to_string();
    req.output_config = output_config.map(json);
    req
}

#[test]
fn inbound_output_config_effort_overrides_default_xhigh() {
    let config = test_config();
    let result = converted(&deepseek_req(Some(r#"{"effort": "medium"}"#)), &config);
    assert_eq!(result.reasoning_effort.as_deref(), Some("high"));
    let result = converted(&deepseek_req(Some(r#"{"effort": "xhigh"}"#)), &config);
    assert_eq!(result.reasoning_effort.as_deref(), Some("max"));
}

#[test]
fn pinned_effort_beats_inbound_output_config() {
    let config = kimi_pinned_config(Some("low"));
    let mut req = kimi_req_with_thinking_budget(Some(16000));
    req.output_config = Some(json(r#"{"effort": "max"}"#));
    let result = converted(&req, &config);
    assert_eq!(
        result.reasoning_effort.as_deref(),
        Some("low"),
        "pin must win over inbound effort"
    );
}

#[test]
fn inbound_effort_unknown_word_falls_back_to_default_xhigh() {
    let config = test_config();
    let result = converted(&deepseek_req(Some(r#"{"effort": "turbo"}"#)), &config);
    assert_eq!(result.reasoning_effort.as_deref(), Some("max"));
    let result = converted(&deepseek_req(Some(r#"{"effort": 3}"#)), &config);
    assert_eq!(result.reasoning_effort.as_deref(), Some("max"));
}

#[test]
fn inbound_effort_absent_output_config_keeps_legacy_default() {
    let config = test_config();
    let result = converted(&deepseek_req(None), &config);
    assert_eq!(result.reasoning_effort.as_deref(), Some("max"));
}

fn kimi_req_with_thinking_disabled() -> MessagesRequest {
    let mut req = kimi_req_with_metadata(None);
    req.thinking = Some(thinking_disabled());
    req
}

#[test]
fn inbound_effort_does_not_apply_when_thinking_disabled() {
    let config = test_config();
    let mut req = kimi_req_with_thinking_disabled();
    req.model = "deepseek-v4-pro".to_string();
    req.output_config = Some(json(r#"{"effort": "max"}"#));
    let result = converted(&req, &config);
    assert_eq!(result.reasoning_effort, None);
}

#[test]
fn inbound_effort_does_not_change_prefix_fingerprint_inputs() {
    let config = test_config();
    let a = deepseek_req(None);
    let mut b = a.clone();
    b.output_config = Some(json(r#"{"effort": "low"}"#));
    let ra = converted(&a, &config);
    let rb = converted(&b, &config);
    assert_ne!(ra.reasoning_effort, rb.reasoning_effort);
}

#[test]
fn pinned_effort_without_official_binding_does_not_pin() {
    let config = with_policy(
        "moonshot",
        CachePolicy {
            effort_enum: effort_enum(),
            pinned_effort: Some("high".to_string()),
            ..policy(None)
        },
    );
    let result = converted(&kimi_req_with_thinking_budget(Some(16000)), &config);
    assert_eq!(
        result.reasoning_effort.as_deref(),
        Some("max"),
        "no official binding => pin must not apply"
    );
}

#[test]
fn pinned_effort_does_not_apply_to_non_moonshot_providers() {
    let config = test_config();
    let result = converted(&deepseek_req(None), &config);
    assert_eq!(result.reasoning_effort.as_deref(), Some("max"));
}

#[test]
fn pinned_effort_does_not_change_prompt_cache_key_behavior() {
    let config = kimi_pinned_config(Some("high"));
    let draft = convert_request_with_relocation(
        &kimi_req_with_metadata(Some("user-42")),
        &config,
        false,
    );
    assert_eq!(finished(draft).prompt_cache_key, None);
}

#[test]
fn pinned_effort_with_explicit_disabled_thinking_stays_disabled() {
    let config = kimi_pinned_config(Some("high"));
    let result = converted(&kimi_req_with_thinking_disabled(), &config);
    assert_eq!(
        result.reasoning_effort.as_deref(),
        Some("low"),
        "explicit disabled thinking must NOT be pinned to high"
    );
    assert!(result.thinking.is_none(), "Kimi K3 has no thinking.type");
}

fn kimi_replay_config(replay: ReplayPolicy, upstream: Option<&str>) -> Config {
    with_policy(
        "moonshot",
        CachePolicy { effort_enum: effort_enum(), replay, ..policy(upstream) },
    )
}

fn kimi_history_req(thinking: Option<ThinkingConfig>, parts: Vec<ContentBlock>) -> MessagesRequest {
    let mut req = kimi_req_with_metadata(None);
    req.messages = vec![
        Message {
            role: "assistant".to_string(),
            content: ContentValue::Blocks(parts),
        },
        user("Next question"),
    ];
    req.thinking = thinking;
    req
}

fn thought_and_text() -> Vec<ContentBlock> {
    vec![
        ContentBlock::Thinking { thinking: "r".to_string(), signature: "s".to_string() },
        ContentBlock::Text { text: "a".to_string() },
    ]
}

#[test]
fn full_replay_does_not_inject_prompt_cache_key() {
    let config = kimi_replay_config(ReplayPolicy::FullAssistant, Some("official"));
    let mut req = kimi_history_req(Some(thinking_disabled()), thought_and_text());
    req.metadata = Some(Metadata { user_id: Some("user-42".to_string()) });
    let draft = convert_request_with_relocation(&req, &config, false);
    assert_eq!(finished(draft).prompt_cache_key, None);
}

#[test]
fn stored_reasoning_goes_by_the_current_request_without_full_replay() {
    for config in [
        kimi_replay_config(ReplayPolicy::Off, Some("official")),
        kimi_replay_config(ReplayPolicy::FullAssistant, None),
    ] {
        let off = kimi_history_req(Some(thinking_disabled()), thought_and_text());
        assert!(!convert_request_with_relocation(&off, &config, false).assistant_replay);
        let on = kimi_history_req(Some(thinking_enabled(16000)), thought_and_text());
        assert!(convert_request_with_relocation(&on, &config, false).assistant_replay);
    }
    let mut other = kimi_history_req(Some(thinking_disabled()), thought_and_text());
    other.model = "deepseek-v4-pro".to_string();
    assert!(!convert_request_with_relocation(&other, &test_config(), false).assistant_replay);
}

#[test]
fn full_replay_does_not_go_by_the_current_request() {
    let config = kimi_replay_config(ReplayPolicy::FullAssistant, Some("official"));
    for thinking in [None, Some(thinking_disabled()), Some(thinking_enabled(512))] {
        let req = kimi_history_req(thinking, thought_and_text());
        assert!(convert_request_with_relocation(&req, &config, false).assistant_replay);
    }
    let req = kimi_history_req(Some(thinking_disabled()), thought_and_text());
    let result = converted(&req, &config);
    assert!(result.thinking.is_none());
    assert_eq!(result.reasoning_effort.as_deref(), Some("low"));
}

fn kimi_history_policy_config(history: HistoryPolicy, upstream: Option<&str>) -> Config {
    with_policy(
        "moonshot",
        CachePolicy { effort_enum: effort_enum(), history, ..policy(upstream) },
    )
}

fn kimi_append_only_req() -> MessagesRequest {
    let mut req = kimi_req_with_metadata(None);
    let big = "y".repeat(12000);
    let result = ContentBlock::ToolResult {
        tool_use_id: "toolu_big".to_string(),
        content: ToolResultContent::Text(big),
        is_error: None,
    };
    req.messages = vec![
        Message {
            role: "assistant".to_string(),
            content: ContentValue::Blocks(vec![ContentBlock::ToolUse {
                id: "toolu_orphan".to_string(),
                name: "read_file".to_string(),
                input: json(r#"{"path": "/tmp/x"}"#),
            }]),
        },
        Message {
            role: "user".to_string(),
            content: ContentValue::Blocks(vec![result.clone(), result]),
        },
        user("done"),
        Message {
            role: "assistant".to_string(),
            content: ContentValue::Text("final".to_string()),
        },
    ];
    req
}

#[test]
fn append_only_history_does_not_touch_effort_replay_or_key() {
    let config = kimi_history_policy_config(HistoryPolicy::AppendOnly, Some("official"));
    let mut req = kimi_append_only_req();
    req.metadata = Some(Metadata { user_id: Some("user-42".to_string()) });
    let draft = convert_request_with_relocation(&req, &config, false);
    assert!(draft.append_only);
    let result = finished(draft);
    assert!(result.thinking.is_none());
    assert_eq!(result.prompt_cache_key, None);
}

#[test]
fn history_is_preserved_only_where_the_policy_and_the_upstream_say_so() {
    let req = kimi_append_only_req();
    let append_only = |config: &Config, req: &MessagesRequest| {
        convert_request_with_relocation(req, config, false).append_only
    };
    let on = kimi_history_policy_config(HistoryPolicy::AppendOnly, Some("official"));
    assert!(append_only(&on, &req));
    assert!(!append_only(&kimi_history_policy_config(HistoryPolicy::Off, Some("official")), &req));
    assert!(!append_only(&kimi_history_policy_config(HistoryPolicy::AppendOnly, None), &req));
    let mut other = kimi_append_only_req();
    other.model = "deepseek-v4-pro".to_string();
    assert!(!append_only(&on, &other));
}

#[test]
fn volatile_blocks_move_only_where_the_policy_or_the_setting_says_so() {
    let split = |upstream: Option<&str>| {
        with_policy(
            "moonshot",
            CachePolicy { relocate: RelocatePolicy::SplitTail, ..policy(upstream) },
        )
    };
    let req = kimi_req_with_metadata(None);
    let relocation = |config: &Config, relocate: bool| {
        convert_request_with_relocation(&req, config, relocate).relocation
    };
    assert_eq!(relocation(&split(Some("official")), false), Relocation::SplitTail);
    assert_eq!(relocation(&split(Some("official")), true), Relocation::SplitTail);
    assert_eq!(relocation(&split(None), false), Relocation::Stay);
    assert_eq!(relocation(&split(None), true), Relocation::Migrate);
    assert_eq!(relocation(&test_config(), true), Relocation::Migrate);
    assert_eq!(
        convert_request(&req, &test_config(), Some("")).relocation,
        Relocation::Migrate
    );
    assert_eq!(convert_request(&req, &test_config(), None).relocation, Relocation::Stay);
}

#[test]
fn model_names_lose_their_suffix_and_outer_space() {
    let config = test_config();
    for (name, expected) in [
        ("kimi-k3", "kimi-k3"),
        ("kimi-k3[1m]", "kimi-k3"),
        (" kimi-k3 [1m][1m]", "kimi-k3"),
        ("sonnet-4[1m]", "deepseek-v4-flash"),
        ("no-such-model", "deepseek-v4-pro"),
        ("", "deepseek-v4-pro"),
    ] {
        assert_eq!(map_model_to_upstream(name, &config), expected);
        assert_eq!(map_model_to_upstream_for_responses(name, &config), expected);
    }
}

#[test]
fn declared_efforts_are_known_words() {
    let mut req = request("kimi-k3", 16, None);
    assert_eq!(inbound_effort(&req), None);
    for word in [
        "off", "disabled", "none", "false", "minimal", "low", "medium", "high", "xhigh", "max",
    ] {
        req.output_config = Some(json(&format!("{{\"effort\": \"{word}\"}}")));
        assert_eq!(inbound_effort(&req).as_deref(), Some(word));
    }
    for text in ["{}", "[]", "null", r#"{"effort": null}"#, r#"{"effort": "MAX"}"#] {
        req.output_config = Some(json(text));
        assert_eq!(inbound_effort(&req), None, "{text}");
    }
}

fn gpt_config() -> Config {
    let mut config = test_config();
    let mut provider = thinking_provider(&[("low", "low"), ("max", "max")]);
    provider.thinking_param = None;
    config.providers.insert("gpt".to_string(), provider);
    config.model_profiles.push(profile("gpt-5.6", "gpt", false, &[]));
    config.profile_by_name.insert("gpt-5.6".to_string(), 4);
    config
}

#[test]
fn the_gpt_provider_gets_no_effort_together_with_tools() {
    let config = gpt_config();
    for thinking in [None, Some(thinking_enabled(1))] {
        let mut req = request("gpt-5.6", 64, thinking);
        assert_eq!(convert(&req, &config).reasoning_effort.as_deref(), Some("max"));
        req.tools = Some(vec![]);
        let result = convert(&req, &config);
        assert_eq!(result.reasoning_effort, None);
        assert!(result.thinking.is_none());
    }
}

#[test]
fn unknown_models_get_the_common_words() {
    let mut config = test_config();
    config.default_model = "mystery".to_string();
    let result = convert(&request("x", 64, Some(thinking_enabled(1))), &config);
    assert_eq!(result.model, "mystery");
    assert_eq!(result.reasoning_effort.as_deref(), Some("high"));
    assert_eq!(thinking_type(&result), "enabled");
    let result = convert(&request("x", 64, Some(thinking_disabled())), &config);
    assert_eq!(result.reasoning_effort, None);
    assert_eq!(thinking_type(&result), "disabled");
    let result = convert(&request("x", 64, None), &config);
    assert_eq!(result.reasoning_effort, None);
    assert!(result.thinking.is_none());
}

#[test]
fn glm_models_keep_their_thinking() {
    let config = test_config();
    let result = convert(&request("glm-5.2", 64, None), &config);
    assert_eq!(result.thinking.expect("thinking").clear_thinking, Some(false));
    let result = convert(&request("deepseek-v4-pro", 64, None), &config);
    assert_eq!(result.thinking.expect("thinking").clear_thinking, None);
}

#[test]
fn limits_and_streaming_are_taken_over() {
    let config = test_config();
    let mut req = request("kimi-k3", 77, None);
    req.stream = None;
    let result = convert(&req, &config);
    assert_eq!(result.max_completion_tokens, Some(77));
    assert_eq!(result.max_tokens, None);
    assert_eq!(result.stream, Some(false));
    assert_eq!(result.stream_options, None);
    assert!(result.messages.is_empty());
    let draft = convert_request(&req, &config, None);
    let whole = draft.finish(vec![Json::Null], None);
    assert_eq!(whole.messages, vec![Json::Null]);
}

#[test]
fn efforts_are_put_into_the_words_of_the_provider() {
    let config = test_config();
    let mut request = convert(&request("kimi-k3", 64, Some(thinking_disabled())), &config);
    apply_effort_direct(&mut request, "medium", &config);
    assert_eq!(request.reasoning_effort.as_deref(), Some("medium"));
    apply_effort_direct(&mut request, "minimal", &config);
    assert_eq!(request.reasoning_effort.as_deref(), Some("low"));
    assert!(request.thinking.is_none());
}

#[test]
fn relocation_starts_and_ends_with_a_system_prompt() {
    assert_eq!(system_to_relocate(&None), SystemPrompt::Text(String::new()));
    let blocks = SystemPrompt::Blocks(vec![SystemContentBlock {
        block_type: "text".to_string(),
        text: "x".to_string(),
    }]);
    assert_eq!(system_to_relocate(&Some(blocks.clone())), blocks);
    assert_eq!(relocated_system(blocks.clone()), Some(blocks));
    assert_eq!(relocated_system(SystemPrompt::Text(String::new())), None);
    let text = SystemPrompt::Text("t".to_string());
    assert_eq!(relocated_system(text.clone()), Some(text));
}
