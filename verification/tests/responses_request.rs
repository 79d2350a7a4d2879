use cc_proxy::anthropic::types::{
    ContentBlock, ContentValue, ImageSource, Message, MessagesRequest, Metadata,
    SystemContentBlock, SystemPrompt, ThinkingConfig, Tool, ToolChoice, ToolResultContent,
    ToolResultContentBlock,
};
use cc_proxy::config::{Config, ModelProfile, ProviderConfig, WireApi};
use cc_proxy::json::Json;
use cc_proxy::responses::request::{
    append_assistant_parts, append_content_value, append_synthetic_context_tail, convert_request,
    convert_request_with_relocation, reasoning_config, system_text, text_content_type,
    tool_result_text, wants_relocation, ConvertError, Relocated, ResponsesDraft,
};
use cc_proxy::conversation::{build_conversation, build_parts, Turn};
use cc_proxy::responses::types::ResponsesRequest;
use cc_proxy::table::Table;

fn json(text: &str) -> Json {
    Json::parse(text).expect("valid JSON")
}

fn provider(effort_map: &[(&str, &str)]) -> ProviderConfig {
    let mut map = Table::new();
    for (k, v) in effort_map {
        map.insert(k.to_string(), v.to_string());
    }
    ProviderConfig {
        reasoning_field: String::new(),
        reasoning_field_alt: Vec::new(),
        thinking_param: None,
        thinking_type_enabled: None,
        thinking_type_disabled: None,
        disable_thinking: false,
        effort_param: "reasoning_effort".to_string(),
        effort_map: map,
        responses_reasoning_summary: None,
        cache_policy: None,
    }
}

fn config_with(provider: ProviderConfig) -> Config {
    let mut providers = Table::new();
    providers.insert("gpt".to_string(), provider);
    let mut profile_by_name = Table::new();
    profile_by_name.insert("gpt-5.6-luna".to_string(), 0usize);
    Config {
        listen_addr: String::new(),
        eswitch_url: String::new(),
        moonshot_official_url: String::new(),
        moonshot_official_api_key: String::new(),
        api_key: String::new(),
        log_level: String::new(),
        model_mapping: Table::new(),
        default_model: "gpt-5.6-luna".to_string(),
        model_profiles: vec![ModelProfile {
            name: "gpt-5.6-luna".to_string(),
            provider: "gpt".to_string(),
            reasoning_enabled: true,
            reasoning_replay: false,
            toolcall_requires_reasoning: false,
            aliases: Vec::new(),
            wire_api: WireApi::Responses,
        }],
        providers,
        profile_by_name,
    }
}

fn test_config() -> Config {
    config_with(provider(&[("max", "max")]))
}

fn message(role: &str, content: ContentValue) -> Message {
    Message { role: role.to_string(), content }
}

fn text_message(role: &str, text: &str) -> Message {
    message(role, ContentValue::Text(text.to_string()))
}

fn request_of(messages: Vec<Message>) -> MessagesRequest {
    MessagesRequest {
        model: "gpt-5.6-luna".to_string(),
        system: None,
        messages,
        max_tokens: 128,
        stream: None,
        thinking: None,
        tools: None,
        tool_choice: None,
        metadata: None,
        stop_sequences: None,
        top_k: None,
        output_config: None,
    }
}

fn thinking() -> ThinkingConfig {
    ThinkingConfig::Enabled {
        config_type: "enabled".to_string(),
        budget_tokens: Some(32000),
        display: None,
    }
}

/// A canonical text stands in for a hash: it does not depend on the order of members.
fn canonical_hash(value: &Json) -> String {
    value.to_text()
}

fn sealed(draft: ResponsesDraft) -> ResponsesRequest {
    draft.seal_by(canonical_hash)
}

/// Converts a request that is not relocated.
fn convert_with(req: &MessagesRequest, config: &Config) -> Result<ResponsesDraft, ConvertError> {
    convert_request(req, config, None, &Relocated::unmoved(&req.system))
}

fn convert(req: &MessagesRequest) -> Result<ResponsesDraft, ConvertError> {
    convert_with(req, &test_config())
}

fn member<'a>(value: &'a Json, name: &str) -> &'a str {
    value.get(name).and_then(|v| v.as_str()).expect("string member")
}

fn content<'a>(item: &'a Json, i: usize) -> &'a Json {
    &item.get("content").and_then(|v| v.as_array()).expect("content")[i]
}

fn tool_result(id: &str, text: &str) -> ContentBlock {
    ContentBlock::ToolResult {
        tool_use_id: id.to_string(),
        content: ToolResultContent::Text(text.to_string()),
        is_error: None,
    }
}

#[test]
fn tool_result_is_function_call_output_and_arguments_are_json() {
    let req = request_of(vec![message(
        "user",
        ContentValue::Blocks(vec![tool_result("call-1", "ok")]),
    )]);
    let wire = sealed(convert(&req).unwrap());
    assert_eq!(member(&wire.input[0], "type"), "function_call_output");
    assert_eq!(member(&wire.input[0], "call_id"), "call-1");
}

#[test]
fn responses_request_never_carries_prompt_cache_key() {
    let mut req = request_of(vec![text_message("user", "hello")]);
    req.metadata = Some(Metadata { user_id: Some("user-42".to_string()) });
    let wire = sealed(convert(&req).unwrap());
    let shown = format!("{wire:?}");
    assert!(!shown.contains("prompt_cache_key"));
    assert!(!shown.contains("user-42"));
}

#[test]
fn responses_uses_provider_max_effort_for_gpt() {
    let config = config_with(provider(&[("max", "max")]));
    let mut req = request_of(vec![text_message("user", "question")]);
    req.thinking = Some(thinking());
    let wire = sealed(convert_with(&req, &config).unwrap());
    let reasoning = wire.reasoning.as_ref().expect("reasoning");
    assert_eq!(reasoning.effort, "max");
    assert_eq!(reasoning.summary.as_deref(), Some("auto"));
    assert_eq!(
        wire.static_prefix_hash,
        canonical_hash(&json(
            r#"{"model": "gpt-5.6-luna", "instructions": null, "tools": null,
                "tool_choice": null, "reasoning": {"effort": "max"}}"#
        ))
    );
}

#[test]
fn summary_control_does_not_change_cache_relevant_input_hashes() {
    let mut req = request_of(vec![text_message("user", "question")]);
    req.thinking = Some(thinking());
    let wire = sealed(convert(&req).unwrap());
    let input_hash = canonical_hash(&Json::Array(wire.input.clone()));
    assert_eq!(input_hash, wire.wire_input_hash);
    assert_eq!(
        wire.static_prefix_hash,
        canonical_hash(&json(
            r#"{"model": "gpt-5.6-luna", "instructions": null, "tools": null,
                "tool_choice": null, "reasoning": {"effort": "max"}}"#
        ))
    );
    let mut quiet = provider(&[("max", "max")]);
    quiet.responses_reasoning_summary = Some("off".to_string());
    let other =
        sealed(convert_with(&req, &config_with(quiet)).unwrap());
    assert_eq!(other.reasoning.as_ref().expect("reasoning").summary, None);
    assert_eq!(other.static_prefix_hash, wire.static_prefix_hash);
    assert_eq!(other.wire_input_hash, wire.wire_input_hash);
}

#[test]
fn assistant_text_uses_output_text_while_user_text_uses_input_text() {
    let req = request_of(vec![
        text_message("user", "question"),
        text_message("assistant", "answer"),
    ]);
    let wire =
        sealed(convert(&req).unwrap());
    assert_eq!(member(content(&wire.input[0], 0), "type"), "input_text");
    assert_eq!(member(content(&wire.input[1], 0), "type"), "output_text");
}

fn block(text: &str) -> SystemContentBlock {
    SystemContentBlock { block_type: "text".to_string(), text: text.to_string() }
}

fn round_env(round: &str) -> String {
    format!("<env>date: {round}</env>")
}

fn request(round: &str) -> MessagesRequest {
    let mut req = request_of(vec![
        text_message("user", "hello"),
        message(
            "assistant",
            ContentValue::Blocks(vec![ContentBlock::ToolUse {
                id: "call-1".to_string(),
                name: "lookup".to_string(),
                input: json(r#"{"q":"Paris"}"#),
            }]),
        ),
        message("user", ContentValue::Blocks(vec![tool_result("call-1", "ok")])),
    ]);
    req.system =
        Some(SystemPrompt::Blocks(vec![block("stable policy"), block(&round_env(round))]));
    req
}

fn relocated(round: &str) -> Relocated {
    Relocated {
        system: SystemPrompt::Blocks(vec![block("stable policy")]),
        volatile_texts: vec![round_env(round)],
    }
}

#[test]
fn the_setting_decides_whatever_its_value() {
    let round = "2026-08-05";
    let by_setting = |setting: Option<&str>| {
        let mut wire = sealed(
            convert_request(&request(round), &test_config(), setting, &relocated(round)).unwrap(),
        );
        wire.request_id = String::new();
        format!("{wire:?}")
    };
    let by_flag = |relocate: bool| {
        let mut wire = sealed(
            convert_request_with_relocation(
                &request(round),
                &test_config(),
                relocate,
                &relocated(round),
            )
            .unwrap(),
        );
        wire.request_id = String::new();
        format!("{wire:?}")
    };
    assert_eq!(by_setting(None), by_flag(false));
    assert_eq!(by_setting(Some("")), by_flag(true));
    assert_eq!(by_setting(Some("0")), by_flag(true));
    assert_ne!(by_flag(true), by_flag(false));
}

#[test]
fn nothing_is_moved_out_of_an_unmoved_prompt() {
    let system = Some(SystemPrompt::Text("policy".to_string()));
    let unmoved = Relocated::unmoved(&system);
    assert_eq!(Some(unmoved.system), system);
    assert!(unmoved.volatile_texts.is_empty());
    assert_eq!(Relocated::unmoved(&None).system, SystemPrompt::Text(String::new()));
}

fn convert_round(round: &str) -> ResponsesRequest {
    sealed(
        convert_request_with_relocation(&request(round), &test_config(), true, &relocated(round))
            .unwrap(),
    )
}

#[test]
fn relocated_responses_wire_keeps_three_round_history_stable() {
    let first = convert_round("2026-08-05");
    let second = convert_round("2026-08-06");
    let third = convert_round("2026-08-07");
    let history_len = first.input.len() - 1;
    assert_eq!(first.input[..history_len], second.input[..history_len]);
    assert_eq!(second.input[..history_len], third.input[..history_len]);
    assert_eq!(member(&first.input[history_len], "role"), "user");
    assert_eq!(member(content(&first.input[history_len], 0), "type"), "input_text");
    assert!(first.synthetic_tail_present);
    assert_eq!(first.history_prefix_hash, second.history_prefix_hash);
    assert_ne!(first.wire_input_hash, second.wire_input_hash);
    assert_eq!(first.instructions.as_deref(), Some("stable policy"));
}

#[test]
fn three_hashes_have_independent_canonical_semantics() {
    let base = convert_round("2026-08-05");
    let tail_changed = convert_round("2026-08-06");
    let no_tail = sealed(
        convert_request_with_relocation(
            &request("2026-08-05"),
            &test_config(),
            false,
            &relocated("2026-08-05"),
        )
        .unwrap(),
    );
    assert_eq!(base.history_prefix_hash, tail_changed.history_prefix_hash);
    assert_ne!(base.wire_input_hash, tail_changed.wire_input_hash);
    assert_ne!(base.history_prefix_hash, base.wire_input_hash);
    assert_eq!(no_tail.history_prefix_hash, no_tail.wire_input_hash);
    assert_eq!(
        canonical_hash(&json(r#"{"b": 2, "a": 1}"#)),
        canonical_hash(&json(r#"{"a": 1, "b": 2}"#))
    );
}

#[test]
fn requests_below_the_token_limit_are_refused() {
    let mut req = request_of(vec![text_message("user", "hi")]);
    req.max_tokens = 15;
    assert_eq!(
        convert(&req).err(),
        Some(ConvertError::MaxTokens)
    );
    assert_eq!(
        ConvertError::MaxTokens.message(),
        "max_tokens must be at least 16 for Responses API"
    );
    req.max_tokens = 16;
    let wire = sealed(convert(&req).unwrap());
    assert_eq!(wire.max_output_tokens, 16);
    assert_eq!(wire.request_id.len(), 32);
    assert!(!wire.stream);
    assert_eq!(wire.parallel_tool_calls, None);
}

#[test]
fn requests_without_messages_are_not_relocated() {
    let mut req = request("2026-08-05");
    req.messages = vec![];
    let wire = sealed(
        convert_request(&req, &test_config(), Some("1"), &relocated("2026-08-05")).unwrap(),
    );
    assert!(wire.input.is_empty());
    assert!(!wire.synthetic_tail_present);
    assert_eq!(
        wire.instructions.as_deref(),
        Some("stable policy\n<env>date: 2026-08-05</env>")
    );
    assert!(!wants_relocation(&req, Some("1")));
    assert!(wants_relocation(&request("x"), Some("")));
    assert!(!wants_relocation(&request("x"), None));
}

#[test]
fn item_types_are_types_or_roles() {
    let wire = convert_round("2026-08-05");
    assert_eq!(
        wire.input_item_types,
        vec!["role:user", "function_call", "function_call_output", "role:user"]
    );
}

#[test]
fn content_before_an_item_becomes_a_message_of_its_own() {
    let image = ImageSource {
        source_type: "base64".to_string(),
        media_type: "image/png".to_string(),
        data: "AAAA".to_string(),
    };
    let blocks = vec![
        ContentBlock::Thinking { thinking: "t".to_string(), signature: "s".to_string() },
        ContentBlock::Text { text: "a".to_string() },
        ContentBlock::Image { source: image },
        ContentBlock::ToolUse {
            id: "c1".to_string(),
            name: "f".to_string(),
            input: json(r#"{"b":1,"a":[true]}"#),
        },
        ContentBlock::Unknown,
        ContentBlock::RedactedThinking { data: "d".to_string() },
        tool_result("c1", "out"),
        ContentBlock::Text { text: "b".to_string() },
    ];
    let value = ContentValue::Blocks(blocks);
    let expected = vec![
        json(
            r#"{"role":"assistant","content":[{"type":"output_text","text":"a"},
                {"type":"input_image","image_url":"data:image/png;base64,AAAA"}]}"#,
        ),
        json(
            r#"{"type":"function_call","call_id":"c1","name":"f",
                "arguments":"{\"a\":[true],\"b\":1}"}"#,
        ),
        json(r#"{"type":"function_call_output","call_id":"c1","output":"out"}"#),
        json(r#"{"role":"assistant","content":[{"type":"output_text","text":"b"}]}"#),
    ];
    let texts = |items: &Vec<Json>| items.iter().map(canonical_hash).collect::<Vec<_>>();
    let mut by_value = vec![];
    append_content_value(&mut by_value, "assistant", &value);
    assert_eq!(texts(&by_value), texts(&expected));
    let mut by_parts = vec![];
    append_assistant_parts(&mut by_parts, &build_parts(&value));
    assert_eq!(texts(&by_parts), texts(&expected));
}

#[test]
fn content_forms_become_items() {
    let mut input = vec![];
    append_content_value(&mut input, "system", &ContentValue::Text("x".to_string()));
    append_content_value(&mut input, "user", &ContentValue::Null);
    append_content_value(&mut input, "user", &ContentValue::Blocks(vec![]));
    assert_eq!(input.len(), 1);
    assert_eq!(
        canonical_hash(&input[0]),
        canonical_hash(&json(
            r#"{"role":"system","content":[{"type":"input_text","text":"x"}]}"#
        ))
    );
    assert_eq!(text_content_type("assistant"), "output_text");
    assert_eq!(text_content_type("tool"), "input_text");
}

#[test]
fn turns_go_by_their_role() {
    let messages = vec![
        text_message("user", "a"),
        text_message("assistant", "b"),
        text_message("system", "c"),
    ];
    let tail = vec!["t".to_string()];
    let conversation = build_conversation(None, &messages, &tail);
    assert!(matches!(conversation.turns[0], Turn::User { .. }));
    assert!(matches!(conversation.turns[1], Turn::Assistant { .. }));
    assert!(matches!(conversation.turns[2], Turn::Unknown { role: "system", .. }));
    assert_eq!(conversation.synthetic_tail, &tail);
}

#[test]
fn the_tail_introduces_the_moved_texts() {
    let mut input = vec![];
    append_synthetic_context_tail(&mut input, &vec![]);
    assert!(input.is_empty());
    append_synthetic_context_tail(&mut input, &vec!["a".to_string(), "b".to_string()]);
    assert_eq!(member(&input[0], "role"), "user");
    assert_eq!(
        member(content(&input[0], 0), "text"),
        "\n\n<permafrost:relocated-context>\nMoved out of the cache prefix so it can change \
         without resetting the cache. Same meaning, later position.\n\
         </permafrost:relocated-context>\n\na\nb\n"
    );
}

#[test]
fn tool_results_keep_their_text_blocks() {
    let image = ImageSource {
        source_type: "base64".to_string(),
        media_type: "image/png".to_string(),
        data: "AAAA".to_string(),
    };
    let content = ToolResultContent::Blocks(vec![
        ToolResultContentBlock::Text { text: "a".to_string() },
        ToolResultContentBlock::Image { source: image },
        ToolResultContentBlock::Unknown,
        ToolResultContentBlock::Text { text: "b".to_string() },
    ]);
    assert_eq!(tool_result_text(&content), "a\nb");
    assert_eq!(tool_result_text(&ToolResultContent::Text("c".to_string())), "c");
    assert_eq!(tool_result_text(&ToolResultContent::Blocks(vec![])), "");
}

#[test]
fn instructions_are_none_where_they_are_empty() {
    assert_eq!(system_text(None), None);
    assert_eq!(system_text(Some(&SystemPrompt::Text(String::new()))), None);
    assert_eq!(system_text(Some(&SystemPrompt::Blocks(vec![]))), None);
    assert_eq!(
        system_text(Some(&SystemPrompt::Blocks(vec![block(""), block("")]))).as_deref(),
        Some("\n")
    );
    assert_eq!(
        system_text(Some(&SystemPrompt::Text("x".to_string()))).as_deref(),
        Some("x")
    );
}

#[test]
fn reasoning_needs_thinking_and_a_model_that_reasons() {
    let config = test_config();
    let mut req = request_of(vec![]);
    assert!(reasoning_config(&req, &config, "gpt-5.6-luna").is_none());
    req.thinking = Some(thinking());
    assert!(reasoning_config(&req, &config, "gpt-5.6-luna").is_some());
    assert!(reasoning_config(&req, &config, "other").is_none());
    req.output_config = Some(json(r#"{"effort":"low"}"#));
    let config = config_with(provider(&[("low", "minimal"), ("max", "max")]));
    assert_eq!(
        reasoning_config(&req, &config, "gpt-5.6-luna").expect("reasoning").effort,
        "minimal"
    );
}

#[test]
fn summaries_have_three_settings() {
    let mut req = request_of(vec![]);
    req.thinking = Some(thinking());
    for (setting, expected) in [
        (None, Some("auto")),
        (Some("DETAILED"), Some("detailed")),
        (Some("Off"), None),
        (Some("concise"), Some("auto")),
    ] {
        let mut p = provider(&[("max", "max")]);
        p.responses_reasoning_summary = setting.map(|s: &str| s.to_string());
        let reasoning =
            reasoning_config(&req, &config_with(p), "gpt-5.6-luna").expect("reasoning");
        assert_eq!(reasoning.summary.as_deref(), expected);
    }
}

fn tool(name: &str, description: Option<&str>) -> Tool {
    Tool {
        name: name.to_string(),
        description: description.map(|s| s.to_string()),
        input_schema: json(r#"{"type":"object"}"#),
    }
}

#[test]
fn tools_are_sorted_and_part_of_the_static_prefix() {
    let mut req = request_of(vec![text_message("user", "x")]);
    req.tools = Some(vec![tool("zebra", Some("z")), tool("alpha", None)]);
    req.tool_choice = Some(ToolChoice::Tool {
        choice_type: "tool".to_string(),
        name: "alpha".to_string(),
    });
    req.stream = Some(true);
    let wire = sealed(convert(&req).unwrap());
    let tools = wire.tools.as_ref().expect("tools");
    assert_eq!(tools[0].name, "alpha");
    assert_eq!(tools[1].name, "zebra");
    assert_eq!(tools[1].tool_type, "function");
    assert!(wire.stream);
    assert_eq!(
        wire.static_prefix_hash,
        canonical_hash(&json(
            r#"{"model": "gpt-5.6-luna", "instructions": null,
                "tools": [
                    {"type":"function","name":"alpha","parameters":{"type":"object"}},
                    {"type":"function","name":"zebra","description":"z",
                     "parameters":{"type":"object"}}],
                "tool_choice": {"type":"function","name":"alpha"}, "reasoning": null}"#
        ))
    );
    req.tool_choice = Some(ToolChoice::Any { choice_type: "any".to_string() });
    let wire = sealed(convert(&req).unwrap());
    assert_eq!(wire.tool_choice, Some(Json::string("required")));
    req.tool_choice = Some(ToolChoice::Auto { choice_type: "auto".to_string() });
    let wire = sealed(convert(&req).unwrap());
    assert_eq!(wire.tool_choice, Some(Json::string("auto")));
}

#[test]
fn later_turns_extend_history() {
    let shorter = request("x");
    let mut longer = request("x");
    longer.messages.push(text_message("assistant", "done"));
    let a = sealed(convert(&shorter).unwrap());
    let b = sealed(convert(&longer).unwrap());
    assert_eq!(a.input[..], b.input[..a.input.len()]);
    assert_eq!(b.input.len(), a.input.len() + 1);
}
