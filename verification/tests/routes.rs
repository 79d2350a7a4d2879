use cc_proxy::anthropic::types::{
    ContentValue, Message, MessagesRequest, MessagesResponse, ResponseContentBlock, Usage,
};
use cc_proxy::cache::{CachePolicy, HistoryPolicy, RelocatePolicy, ReplayPolicy, UsagePolicy};
use cc_proxy::config::{Config, ModelProfile, ProviderConfig, WireApi};
use cc_proxy::ids::{message_id_of, new_message_id, new_request_id};
use cc_proxy::json::Json;
use cc_proxy::openai::converter::EmptyTextGuard;
use cc_proxy::openai::types::{ChatCompletionResponse, ChatMessage, Choice};
use cc_proxy::routes::messages::{
    cache_policy_for, check_empty_content, complete, get_reasoning_fields,
    has_text_or_tool, next_attempt,
    route_request, routes_officially, select_client, stream_settings, ErrorReply, Retry,
};
use cc_proxy::settings::{idle_timeout_secs, max_retries};
use cc_proxy::table::Table;
use std::sync::Arc;

fn table(entries: &[(&str, &str)]) -> Table<String> {
    let mut t = Table::new();
    for (k, v) in entries {
        t.insert(k.to_string(), v.to_string());
    }
    t
}

fn provider(reasoning_field: &str, disable_thinking: bool, thinking: bool) -> ProviderConfig {
    ProviderConfig {
        reasoning_field: reasoning_field.to_string(),
        reasoning_field_alt: vec![],
        thinking_param: if thinking { Some("thinking".to_string()) } else { None },
        thinking_type_enabled: None,
        thinking_type_disabled: None,
        disable_thinking,
        effort_param: "reasoning_effort".to_string(),
        effort_map: table(&[("low", "low"), ("high", "high"), ("max", "max"), ("xhigh", "max")]),
        responses_reasoning_summary: None,
        cache_policy: None,
    }
}

fn profile(name: &str, provider: &str, wire_api: WireApi) -> ModelProfile {
    ModelProfile {
        name: name.to_string(),
        provider: provider.to_string(),
        reasoning_enabled: true,
        reasoning_replay: true,
        toolcall_requires_reasoning: false,
        aliases: vec![],
        wire_api,
    }
}

fn test_config() -> Config {
    let mut providers = Table::new();
    providers.insert("deepseek".to_string(), provider("reasoning_content", false, true));
    providers.insert("moonshot".to_string(), provider("reasoning", true, false));
    providers.insert("glm".to_string(), provider("reasoning_content", false, true));
    providers.insert("gpt".to_string(), provider("reasoning_content", false, false));
    let model_profiles = vec![
        profile("deepseek-v4-pro", "deepseek", WireApi::ChatCompletions),
        profile("deepseek-v4-flash", "deepseek", WireApi::ChatCompletions),
        profile("kimi-k3", "moonshot", WireApi::ChatCompletions),
        profile("glm-5.2", "glm", WireApi::ChatCompletions),
        profile("gpt-5.6-luna", "gpt", WireApi::Responses),
    ];
    let mut profile_by_name = Table::new();
    for (i, p) in model_profiles.iter().enumerate() {
        profile_by_name.insert(p.name.clone(), i);
    }
    Config {
        listen_addr: "0.0.0.0:11435".to_string(),
        eswitch_url: "http://127.0.0.1:11434".to_string(),
        moonshot_official_url: String::new(),
        moonshot_official_api_key: String::new(),
        api_key: "test-key".to_string(),
        log_level: "info".to_string(),
        model_mapping: table(&[("opus-4", "deepseek-v4-pro")]),
        default_model: "deepseek-v4-pro".to_string(),
        model_profiles,
        providers,
        profile_by_name,
    }
}

fn policy(upstream: Option<&str>) -> CachePolicy {
    CachePolicy {
        usage: UsagePolicy::Off,
        prompt_cache_key_enabled: false,
        upstream: upstream.map(|s| s.to_string()),
        effort_enum: None,
        replay: ReplayPolicy::Off,
        history: HistoryPolicy::Off,
        relocate: RelocatePolicy::Off,
        pinned_effort: None,
    }
}

fn set_policy(config: &mut Config, name: &str, policy: Option<CachePolicy>) {
    let mut provider = config.providers.get(name).expect("provider exists").clone();
    provider.cache_policy = policy;
    config.providers.insert(name.to_string(), provider);
}

fn set_kimi_provider(config: &mut Config, provider: &str) {
    let kimi = config
        .model_profiles
        .iter_mut()
        .find(|p| p.name == "kimi-k3")
        .expect("kimi-k3 profile exists in test_config");
    kimi.provider = provider.to_string();
}

fn assert_routes_to(model: &str, config: &Config, expected_official: bool) {
    let client = Arc::new("http://default.test".to_string());
    let official_client = Arc::new("http://official.test".to_string());
    let selected = select_client(model, config, &client, &official_client);
    let is_official = Arc::ptr_eq(selected, &official_client);
    assert_eq!(
        is_official,
        expected_official,
        "model '{model}' should route to {}",
        if expected_official { "official" } else { "default" }
    );
    assert_eq!(routes_officially(model, config), expected_official);
}

#[test]
fn legacy_config_without_policy_keeps_default_routing_for_all_models() {
    let config = test_config();
    assert_routes_to("kimi-k3", &config, false);
    assert_routes_to("deepseek-v4-pro", &config, false);
    assert_routes_to("deepseek-v4-flash", &config, false);
    assert_routes_to("glm-5.2", &config, false);
    assert_routes_to("gpt-5.6-luna", &config, false);
}

#[test]
fn official_client_is_selected_by_policy_upstream_binding() {
    let mut config = test_config();
    set_policy(&mut config, "moonshot", Some(policy(Some("official"))));
    assert_routes_to("kimi-k3", &config, true);
    assert_routes_to("deepseek-v4-pro", &config, false);
    assert_routes_to("glm-5.2", &config, false);
    assert_routes_to("gpt-5.6-luna", &config, false);
}

#[test]
fn legacy_moonshot_official_provider_name_still_resolves_to_official_upstream() {
    let mut config = test_config();
    set_kimi_provider(&mut config, "moonshot-official");
    set_policy(&mut config, "moonshot", Some(policy(Some("official"))));
    assert_routes_to("kimi-k3", &config, true);
}

#[test]
fn upstream_binding_other_than_official_keeps_default_routing() {
    let mut config = test_config();
    set_policy(&mut config, "moonshot", Some(policy(Some("eswitch"))));
    assert_routes_to("kimi-k3", &config, false);
}

fn live_shape_config() -> Config {
    let mut config = test_config();
    let mut legacy = config.providers.get("moonshot").expect("moonshot").clone();
    legacy.reasoning_field = "reasoning_content".to_string();
    legacy.reasoning_field_alt = vec!["reasoning".to_string()];
    legacy.cache_policy = None;
    config.providers.insert("moonshot-official".to_string(), legacy);
    set_kimi_provider(&mut config, "moonshot-official");
    config
}

#[test]
fn live_shape_explicit_moonshot_official_block_without_policy_routes_to_official() {
    let config = live_shape_config();
    assert_routes_to("kimi-k3", &config, true);
    assert_routes_to("deepseek-v4-pro", &config, false);
    assert_routes_to("glm-5.2", &config, false);
    assert_routes_to("gpt-5.6-luna", &config, false);
}

#[test]
fn live_shape_canonical_moonshot_without_policy_keeps_eswitch_routing() {
    let mut canonical = live_shape_config();
    set_kimi_provider(&mut canonical, "moonshot");
    assert_routes_to("kimi-k3", &canonical, false);
}

#[test]
fn legacy_moonshot_official_explicit_cache_policy_upstream_routes_official() {
    let mut config = live_shape_config();
    set_policy(&mut config, "moonshot-official", Some(policy(Some("official"))));
    assert_routes_to("kimi-k3", &config, true);
    assert_routes_to("deepseek-v4-pro", &config, false);
}

#[test]
fn declared_policy_without_upstream_keeps_legacy_default_official_binding() {
    let mut config = live_shape_config();
    set_policy(&mut config, "moonshot-official", Some(policy(None)));
    assert_routes_to("kimi-k3", &config, true);
}

#[test]
fn unknown_models_go_to_the_default_client() {
    assert_routes_to("no-such-model", &live_shape_config(), false);
}

#[test]
fn the_old_provider_name_stands_for_the_canonical_provider() {
    let mut config = test_config();
    set_kimi_provider(&mut config, "moonshot-official");
    assert_eq!(get_reasoning_fields("kimi-k3", &config).0, "reasoning");
    let live = live_shape_config();
    let (field, alternatives) = get_reasoning_fields("kimi-k3", &live);
    assert_eq!(field, "reasoning_content");
    assert_eq!(alternatives, vec!["reasoning".to_string()]);
}

#[test]
fn reasoning_fields_fall_back_to_the_common_names() {
    let (field, alternatives) = get_reasoning_fields("no-such-model", &test_config());
    assert_eq!(field, "reasoning_content");
    assert_eq!(alternatives, vec!["reasoning".to_string()]);
}

#[test]
fn cache_policies_are_looked_up_by_model() {
    let mut config = test_config();
    assert_eq!(cache_policy_for(&config, "kimi-k3"), None);
    let mut declared = policy(Some("official"));
    declared.effort_enum = Some(vec!["low".to_string()]);
    set_policy(&mut config, "moonshot", Some(declared.clone()));
    assert_eq!(cache_policy_for(&config, "kimi-k3"), Some(declared));
    assert_eq!(cache_policy_for(&config, "glm-5.2"), None);
    assert_eq!(cache_policy_for(&config, "no-such-model"), None);
}

fn request(model: &str, stream: Option<bool>) -> MessagesRequest {
    MessagesRequest {
        model: model.to_string(),
        system: None,
        messages: vec![Message {
            role: "user".to_string(),
            content: ContentValue::Text("hello".to_string()),
        }],
        max_tokens: 4096,
        stream,
        thinking: None,
        tools: None,
        tool_choice: None,
        metadata: None,
        stop_sequences: None,
        top_k: None,
        output_config: None,
    }
}

#[test]
fn requests_are_routed_by_their_upstream_model() {
    let config = test_config();
    let route = route_request(&request("gpt-5.6-luna[1m]", Some(true)), &config);
    assert_eq!(route.upstream_model, "gpt-5.6-luna");
    assert_eq!(route.wire_api, WireApi::Responses);
    assert!(route.stream);
    assert!(!route.official);
    let route = route_request(&request("opus-4", None), &config);
    assert_eq!(route.upstream_model, "deepseek-v4-pro");
    assert_eq!(route.wire_api, WireApi::ChatCompletions);
    assert!(!route.stream);
    let route = route_request(&request("kimi-k3", None), &live_shape_config());
    assert!(route.official);
}

#[test]
fn retries_double_their_pause_and_end() {
    assert_eq!(next_attempt(0, 2), Retry::After { retries: 1, delay_secs: 2 });
    assert_eq!(next_attempt(1, 2), Retry::After { retries: 2, delay_secs: 4 });
    assert_eq!(next_attempt(2, 2), Retry::GiveUp);
    assert_eq!(next_attempt(0, 0), Retry::GiveUp);
    assert_eq!(
        next_attempt(62, 100),
        Retry::After { retries: 63, delay_secs: 9223372036854775808 }
    );
}

#[test]
fn retry_settings_are_numbers_or_the_default() {
    assert_eq!(max_retries(None), 2);
    assert_eq!(max_retries(Some("5")), 5);
    assert_eq!(max_retries(Some("+7")), 7);
    assert_eq!(max_retries(Some("007")), 7);
    assert_eq!(max_retries(Some("4294967295")), 4294967295);
    assert_eq!(max_retries(Some("4294967296")), 2);
    for word in ["", "+", "-1", " 3", "3 ", "1e2", "abc", "18446744073709551616"] {
        assert_eq!(max_retries(Some(word)), 2, "{word:?}");
    }
}

#[test]
fn idle_timeouts_are_numbers_or_the_default() {
    assert_eq!(idle_timeout_secs(None), 600);
    assert_eq!(idle_timeout_secs(Some("30")), 30);
    assert_eq!(idle_timeout_secs(Some("18446744073709551615")), u64::MAX);
    assert_eq!(idle_timeout_secs(Some("18446744073709551616")), 600);
    assert_eq!(idle_timeout_secs(Some("soon")), 600);
}

fn text_of<'a>(value: &'a Json, outer: &str, inner: &str) -> &'a str {
    value
        .get(outer)
        .and_then(|v| v.get(inner))
        .and_then(|v| v.as_str())
        .expect("string member")
}

#[test]
fn error_replies_have_their_status_and_body() {
    let reply = ErrorReply::bad_request("no".to_string());
    assert_eq!(reply.status, 400);
    let body = reply.body();
    assert_eq!(body.get("type").and_then(|v| v.as_str()), Some("error"));
    assert_eq!(text_of(&body, "error", "type"), "invalid_request_error");
    assert_eq!(text_of(&body, "error", "message"), "no");
    let reply = ErrorReply::bad_gateway("down".to_string());
    assert_eq!(reply.status, 502);
    assert_eq!(text_of(&reply.body(), "error", "type"), "api_error");
    let reply = ErrorReply::conversion_failed("why");
    assert_eq!(reply.status, 400);
    assert_eq!(reply.message, "Failed to convert request: why");
    let reply = ErrorReply::retries_exhausted(10, "timeout");
    assert_eq!(reply.status, 500);
    assert_eq!(reply.message, "Upstream error after 10 retries: timeout");
    let reply = ErrorReply::unreadable_response("eof");
    assert_eq!(reply.status, 500);
    assert_eq!(reply.message, "Failed to parse response: eof");
}

fn answer(content: Vec<ResponseContentBlock>, stop_reason: Option<&str>) -> MessagesResponse {
    MessagesResponse {
        id: "msg_1".to_string(),
        response_type: "message".to_string(),
        role: "assistant".to_string(),
        content,
        model: "m".to_string(),
        stop_reason: stop_reason.map(|s| s.to_string()),
        stop_sequence: None,
        usage: Usage {
            input_tokens: 0,
            output_tokens: 0,
            cache_read_input_tokens: None,
            cache_creation_input_tokens: None,
        },
    }
}

fn thinking_block() -> ResponseContentBlock {
    ResponseContentBlock::Thinking {
        thinking: "hm".to_string(),
        signature: "s".to_string(),
    }
}

#[test]
fn an_enforcing_guard_rejects_answers_without_text_and_tools() {
    let silent = answer(vec![thinking_block()], Some("end_turn"));
    assert!(!has_text_or_tool(&silent));
    let reply = check_empty_content(&silent, EmptyTextGuard::Enforce).expect("rejected");
    assert_eq!(reply.status, 502);
    assert_eq!(
        reply.message,
        "upstream returned empty content (finish_reason=end_turn)"
    );
    assert!(check_empty_content(&silent, EmptyTextGuard::Warn).is_none());
    assert!(check_empty_content(&silent, EmptyTextGuard::Off).is_none());
    let unfinished = answer(vec![], None);
    assert!(check_empty_content(&unfinished, EmptyTextGuard::Enforce).is_none());
    let text = answer(
        vec![thinking_block(), ResponseContentBlock::Text { text: "hi".to_string() }],
        Some("end_turn"),
    );
    assert!(has_text_or_tool(&text));
    assert!(check_empty_content(&text, EmptyTextGuard::Enforce).is_none());
    let tool = answer(
        vec![ResponseContentBlock::ToolUse {
            id: "c".to_string(),
            name: "n".to_string(),
            input: Json::Null,
        }],
        Some("tool_use"),
    );
    assert!(has_text_or_tool(&tool));
    assert!(check_empty_content(&tool, EmptyTextGuard::Enforce).is_none());
}

fn completion(content: Option<&str>, reasoning: Option<&str>) -> ChatCompletionResponse {
    ChatCompletionResponse {
        id: "chatcmpl-1".to_string(),
        choices: vec![Choice {
            index: 0,
            message: Some(ChatMessage {
                role: Some("assistant".to_string()),
                content: content.map(|s| s.to_string()),
                reasoning_content: None,
                reasoning: reasoning.map(|s| s.to_string()),
                tool_calls: None,
            }),
            delta: None,
            finish_reason: Some("length".to_string()),
        }],
        usage: None,
    }
}

#[test]
fn completions_are_answered_in_the_fields_of_the_model() {
    let config = test_config();
    let answer = complete(
        &completion(Some("hi"), Some("because")),
        "kimi-k3[1m]",
        "msg_7",
        "kimi-k3",
        &config,
        EmptyTextGuard::Enforce,
    )
    .expect("answered");
    assert_eq!(answer.model, "kimi-k3[1m]");
    assert_eq!(answer.id, "msg_7");
    assert_eq!(answer.content.len(), 2);
    assert_eq!(answer.stop_reason, Some("max_tokens".to_string()));
    let reply = complete(
        &completion(Some("  \n"), Some("because")),
        "kimi-k3",
        "msg_7",
        "kimi-k3",
        &config,
        EmptyTextGuard::Enforce,
    )
    .expect_err("rejected");
    assert_eq!(
        reply.message,
        "upstream returned empty content (finish_reason=max_tokens)"
    );
}

#[test]
fn streams_are_read_with_the_settings_of_the_model() {
    let mut config = test_config();
    set_policy(&mut config, "moonshot", Some(policy(None)));
    let settings = stream_settings("kimi-k3", &config);
    assert!(settings.is_reasoning_model);
    assert_eq!(settings.reasoning_field, "reasoning");
    assert!(settings.reasoning_field_alt.is_empty());
    assert_eq!(settings.cache_policy, Some(policy(None)));
    let settings = stream_settings("no-such-model", &config);
    assert!(!settings.is_reasoning_model);
    assert_eq!(settings.cache_policy, None);
}

fn is_lower_hex(s: &str) -> bool {
    s.chars().all(|c| c.is_ascii_digit() || ('a'..='f').contains(&c))
}

#[test]
fn identifiers_are_random_uuids_in_simple_form() {
    let a = new_request_id();
    let b = new_request_id();
    assert_eq!(a.len(), 32);
    assert!(is_lower_hex(&a));
    assert_eq!(&a[12..13], "4");
    assert!(["8", "9", "a", "b"].contains(&&a[16..17]));
    assert_ne!(a, b);
    let id = new_message_id();
    assert_eq!(id.len(), 24);
    assert!(id.starts_with("msg_"));
    assert!(is_lower_hex(&id[4..]));
    assert_eq!(message_id_of("abc"), "msg_abc");
    assert_eq!(
        message_id_of("71efd9b296ae4770be9f35f20dbac7af"),
        "msg_71efd9b296ae4770be9f"
    );
}
