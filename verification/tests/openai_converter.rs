use cc_proxy::anthropic::types::{
    ContentBlockDeltaData, ContentBlockStartData, ResponseContentBlock, SseEvent, StreamUsage,
    Usage,
};
use cc_proxy::cache::{
    chat_usage_view, chat_usage_view_from_buckets, from_chat_usage, CachePolicy, HistoryPolicy,
    RelocatePolicy, ReplayPolicy, UsagePolicy,
};
use cc_proxy::json::Json;
use cc_proxy::openai::converter::{
    convert_non_stream_response, map_finish_reason, EmptyTextGuard, SseStateMachine,
};
use cc_proxy::openai::types::{
    ChatCompletionResponse, ChatDelta, ChatMessage, Choice, DeltaError, FunctionCall, ToolCall,
    Usage as UpstreamUsage,
};

fn json(text: &str) -> Json {
    Json::parse(text).expect("valid JSON")
}

fn delta(text: &str) -> ChatDelta {
    ChatDelta::from_json(&json(text)).expect("valid delta")
}

fn usage(text: &str) -> UpstreamUsage {
    UpstreamUsage::from_json(&json(text)).expect("valid usage")
}

fn message(content: Option<&str>, reasoning_content: Option<&str>) -> ChatMessage {
    ChatMessage {
        role: Some("assistant".to_string()),
        content: content.map(|s| s.to_string()),
        reasoning_content: reasoning_content.map(|s| s.to_string()),
        reasoning: None,
        tool_calls: None,
    }
}

fn response(message: ChatMessage, usage: Option<UpstreamUsage>) -> ChatCompletionResponse {
    ChatCompletionResponse {
        id: "chatcmpl-123".to_string(),
        choices: vec![Choice {
            index: 0,
            message: Some(message),
            delta: None,
            finish_reason: Some("stop".to_string()),
        }],
        usage,
    }
}

#[test]
fn test_convert_non_stream_with_thinking() {
    let openai_resp = response(
        message(Some("answer"), Some("let me think")),
        Some(UpstreamUsage {
            prompt_tokens: Some(10),
            completion_tokens: Some(5),
            total_tokens: Some(15),
            prompt_cache_hit_tokens: None,
            prompt_cache_miss_tokens: None,
            cached_tokens: None,
            prompt_tokens_details: None,
        }),
    );
    let result = convert_non_stream_response(
        &openai_resp,
        "deepseek-v4",
        "msg_123",
        "reasoning_content",
        &vec![],
        None,
    );
    assert_eq!(result.content.len(), 2);
    assert!(matches!(
        result.content[0],
        ResponseContentBlock::Thinking { .. }
    ));
    assert!(matches!(
        result.content[1],
        ResponseContentBlock::Text { .. }
    ));
    assert_eq!(result.stop_reason, Some("end_turn".to_string()));
}

fn raw_policy() -> CachePolicy {
    CachePolicy {
        usage: UsagePolicy::TopLevelCachedTokens,
        prompt_cache_key_enabled: false,
        upstream: None,
        effort_enum: None,
        replay: ReplayPolicy::Off,
        history: HistoryPolicy::Off,
        relocate: RelocatePolicy::Off,
        pinned_effort: None,
    }
}

fn convert_usage(text: &str, policy: Option<&CachePolicy>) -> Usage {
    convert_non_stream_response(
        &response(message(Some("answer"), None), Some(usage(text))),
        "kimi-k3-turbo",
        "msg_1",
        "reasoning_content",
        &vec![],
        policy,
    )
    .usage
}

#[test]
fn chat_non_stream_usage_legacy_matches_historical_wire_exactly() {
    let usage = convert_usage(
        r#"{"prompt_tokens": 100, "completion_tokens": 20, "total_tokens": 120,
            "prompt_tokens_details": {"cached_tokens": 70}}"#,
        None,
    );
    assert_eq!(usage.input_tokens, 100);
    assert_eq!(usage.output_tokens, 20);
    assert_eq!(usage.cache_read_input_tokens, Some(70));
    assert_eq!(usage.cache_creation_input_tokens, Some(30));
}

#[test]
fn chat_non_stream_usage_legacy_ignores_top_level_cached_tokens() {
    let usage = convert_usage(
        r#"{"prompt_tokens": 100, "completion_tokens": 20, "total_tokens": 120,
            "cached_tokens": 70}"#,
        None,
    );
    assert_eq!(usage.cache_read_input_tokens, None);
    assert_eq!(usage.cache_creation_input_tokens, None);
}

#[test]
fn chat_non_stream_usage_raw_opt_in_reads_top_level_and_never_fabricates_creation() {
    let usage = convert_usage(
        r#"{"prompt_tokens": 100, "completion_tokens": 20, "total_tokens": 120,
            "cached_tokens": 70}"#,
        Some(&raw_policy()),
    );
    assert_eq!(usage.input_tokens, 100);
    assert_eq!(usage.output_tokens, 20);
    assert_eq!(usage.cache_read_input_tokens, Some(70));
    assert_eq!(usage.cache_creation_input_tokens, None);
}

#[test]
fn chat_non_stream_usage_raw_falls_back_to_nested_when_top_level_absent() {
    let usage = convert_usage(
        r#"{"prompt_tokens": 100, "completion_tokens": 20, "total_tokens": 120,
            "prompt_tokens_details": {"cached_tokens": 60}}"#,
        Some(&raw_policy()),
    );
    assert_eq!(usage.cache_read_input_tokens, Some(60));
    assert_eq!(usage.cache_creation_input_tokens, None);
}

#[test]
fn chat_non_stream_usage_raw_deepseek_hit_is_read_and_creation_stays_none() {
    let usage = convert_usage(
        r#"{"prompt_tokens": 100, "completion_tokens": 20, "total_tokens": 120,
            "prompt_cache_hit_tokens": 60, "prompt_cache_miss_tokens": 40}"#,
        Some(&raw_policy()),
    );
    assert_eq!(usage.cache_read_input_tokens, Some(60));
    assert_eq!(usage.cache_creation_input_tokens, None);
}

#[test]
fn chat_non_stream_usage_without_usage_emits_zero_wire() {
    let resp = ChatCompletionResponse {
        id: "chatcmpl-1".to_string(),
        choices: vec![],
        usage: None,
    };
    let converted = convert_non_stream_response(
        &resp,
        "kimi-k3-turbo",
        "msg_1",
        "reasoning_content",
        &vec![],
        None,
    );
    assert_eq!(converted.usage.input_tokens, 0);
    assert_eq!(converted.usage.output_tokens, 0);
    assert_eq!(converted.usage.cache_read_input_tokens, None);
    assert_eq!(converted.usage.cache_creation_input_tokens, None);
    assert!(converted.content.is_empty());
    assert_eq!(converted.stop_reason, None);
}

#[test]
fn tool_calls_become_tool_use_blocks() {
    let mut msg = message(Some("   "), Some("\n"));
    msg.tool_calls = Some(vec![
        ToolCall {
            id: "call_1".to_string(),
            function: Some(FunctionCall {
                name: "get_weather".to_string(),
                arguments: r#"{"city":"SF"}"#.to_string(),
            }),
        },
        ToolCall {
            id: "call_2".to_string(),
            function: Some(FunctionCall {
                name: "broken".to_string(),
                arguments: "{not json".to_string(),
            }),
        },
        ToolCall { id: "call_3".to_string(), function: None },
    ]);
    let result = convert_non_stream_response(
        &response(msg, None),
        "m",
        "msg_1",
        "reasoning_content",
        &vec![],
        None,
    );
    assert_eq!(result.content.len(), 3, "blank text and reasoning are left out");
    match &result.content[0] {
        ResponseContentBlock::ToolUse { id, name, input } => {
            assert_eq!(id, "call_1");
            assert_eq!(name, "get_weather");
            assert_eq!(input.get("city").and_then(|v| v.as_str()), Some("SF"));
        }
        other => panic!("unexpected {other:?}"),
    }
    match &result.content[1] {
        ResponseContentBlock::ToolUse { name, input, .. } => {
            assert_eq!(name, "broken");
            assert_eq!(*input, Json::Null);
        }
        other => panic!("unexpected {other:?}"),
    }
    match &result.content[2] {
        ResponseContentBlock::ToolUse { id, name, input } => {
            assert_eq!(id, "call_3");
            assert_eq!(name, "unknown");
            assert_eq!(*input, Json::Null);
        }
        other => panic!("unexpected {other:?}"),
    }
}

#[test]
fn finish_reasons_have_anthropic_names() {
    assert_eq!(map_finish_reason("stop"), "end_turn");
    assert_eq!(map_finish_reason("tool_calls"), "tool_use");
    assert_eq!(map_finish_reason("length"), "max_tokens");
    assert_eq!(map_finish_reason("content_filter"), "content_filter");
}

#[test]
fn usage_views_clamp_and_guard() {
    let legacy = chat_usage_view_from_buckets(Some(10), Some(12), None, None);
    assert_eq!(legacy.creation, Some(0));
    assert_eq!(legacy.miss, Some(0));
    let raw = chat_usage_view_from_buckets(Some(10), None, Some(12), Some(&raw_policy()));
    assert_eq!(raw.read, Some(12));
    assert_eq!(raw.miss, None);
    assert_eq!(raw.creation, None);
    let raw = chat_usage_view_from_buckets(Some(12), None, Some(10), Some(&raw_policy()));
    assert_eq!(raw.miss, Some(2));
    let none = chat_usage_view(None, None);
    assert_eq!((none.input, none.read, none.creation, none.miss), (None, None, None, None));
    let u = usage(r#"{"cached_tokens": 3, "prompt_cache_hit_tokens": 9}"#);
    assert_eq!(from_chat_usage(&u).cache_read_tokens, Some(3));
}

#[test]
fn usage_objects_are_read_or_refused() {
    let u = usage(r#"{"prompt_tokens": null, "completion_tokens": 7, "extra": "x"}"#);
    assert_eq!(u.prompt_tokens, None);
    assert_eq!(u.completion_tokens, Some(7));
    for text in [
        "null",
        "[]",
        r#"{"prompt_tokens": "7"}"#,
        r#"{"prompt_tokens": -1}"#,
        r#"{"prompt_tokens": 1.5}"#,
        r#"{"prompt_tokens": 4294967296}"#,
        r#"{"prompt_tokens_details": 3}"#,
        r#"{"prompt_tokens_details": {"cached_tokens": "3"}}"#,
    ] {
        assert!(UpstreamUsage::from_json(&json(text)).is_none(), "{text}");
    }
}

fn usage_only_delta() -> ChatDelta {
    ChatDelta {
        role: None,
        content: Default::default(),
        reasoning_content: Default::default(),
        reasoning: Default::default(),
        tool_calls: None,
    }
}

fn message_delta_usage(events: &[SseEvent]) -> StreamUsage {
    events
        .iter()
        .find_map(|event| match event {
            SseEvent::MessageDelta { usage: Some(u), .. } => Some(*u),
            _ => None,
        })
        .expect("message_delta with usage present")
}

fn machine(policy: Option<CachePolicy>) -> SseStateMachine {
    SseStateMachine::new(false, "reasoning_content".into(), vec![], policy)
}

const NESTED: &str = r#"{"prompt_tokens": 100, "completion_tokens": 20, "total_tokens": 120,
    "prompt_tokens_details": {"cached_tokens": 70}}"#;
const TOP_LEVEL: &str = r#"{"prompt_tokens": 100, "completion_tokens": 20, "total_tokens": 120,
    "cached_tokens": 70}"#;

#[test]
fn chat_stream_final_usage_legacy_preserves_historical_wire() {
    let mut sm = machine(None);
    let u = usage(NESTED);
    let events = sm.process_delta(&usage_only_delta(), Some(&u));
    assert!(events.is_empty(), "usage-only chunk emits no events");
    let final_events = sm.finalize(Some("stop"), Some(20), Some(&u));
    let md = message_delta_usage(&final_events);
    assert_eq!(md.input_tokens, Some(100));
    assert_eq!(md.output_tokens, Some(20));
    assert_eq!(md.cache_read_input_tokens, Some(70));
    assert_eq!(md.cache_creation_input_tokens, Some(30));
    assert!(matches!(final_events.last(), Some(SseEvent::MessageStop)));
}

#[test]
fn chat_stream_final_usage_raw_opt_in_reads_top_level_cached_tokens() {
    let mut sm = machine(Some(raw_policy()));
    let u = usage(TOP_LEVEL);
    let _ = sm.process_delta(&usage_only_delta(), Some(&u));
    let final_events = sm.finalize(Some("stop"), Some(20), Some(&u));
    let md = message_delta_usage(&final_events);
    assert_eq!(md.input_tokens, Some(100));
    assert_eq!(md.cache_read_input_tokens, Some(70));
    assert_eq!(md.cache_creation_input_tokens, None);
}

#[test]
fn chat_stream_final_usage_raw_top_level_wins_over_nested_no_double_count() {
    let mut sm = machine(Some(raw_policy()));
    let u = usage(
        r#"{"prompt_tokens": 100, "completion_tokens": 20, "total_tokens": 120,
            "cached_tokens": 70, "prompt_tokens_details": {"cached_tokens": 60}}"#,
    );
    let final_events = sm.finalize(Some("stop"), Some(20), Some(&u));
    let md = message_delta_usage(&final_events);
    assert_eq!(md.cache_read_input_tokens, Some(70));
    assert_eq!(md.cache_creation_input_tokens, None);
}

#[test]
fn chat_stream_final_usage_raw_falls_back_to_nested_when_top_level_absent() {
    let mut sm = machine(Some(raw_policy()));
    let u = usage(
        r#"{"prompt_tokens": 100, "completion_tokens": 20, "total_tokens": 120,
            "prompt_tokens_details": {"cached_tokens": 60}}"#,
    );
    let _ = sm.process_delta(&usage_only_delta(), Some(&u));
    let final_events = sm.finalize(Some("stop"), Some(20), Some(&u));
    let md = message_delta_usage(&final_events);
    assert_eq!(md.cache_read_input_tokens, Some(60));
    assert_eq!(md.cache_creation_input_tokens, None);
}

#[test]
fn chat_stream_final_usage_legacy_top_level_only_reads_unknown() {
    let mut sm = machine(None);
    let u = usage(TOP_LEVEL);
    let final_events = sm.finalize(Some("stop"), Some(20), Some(&u));
    let md = message_delta_usage(&final_events);
    assert_eq!(md.cache_read_input_tokens, None);
    assert_eq!(md.cache_creation_input_tokens, None);
}

#[test]
fn chat_stream_final_usage_legacy_uses_captured_state_when_final_chunk_lacks_usage() {
    let mut sm = machine(None);
    let u = usage(NESTED);
    let _ = sm.process_delta(&usage_only_delta(), Some(&u));
    let final_events = sm.finalize(Some("stop"), Some(20), None);
    let md = message_delta_usage(&final_events);
    assert_eq!(md.input_tokens, Some(100));
    assert_eq!(md.cache_read_input_tokens, Some(70));
    assert_eq!(md.cache_creation_input_tokens, Some(30));
}

#[test]
fn chat_stream_final_usage_raw_uses_captured_raw_read_when_final_chunk_lacks_usage() {
    let mut sm = machine(Some(raw_policy()));
    let u = usage(TOP_LEVEL);
    let _ = sm.process_delta(&usage_only_delta(), Some(&u));
    let final_events = sm.finalize(Some("stop"), Some(20), None);
    let md = message_delta_usage(&final_events);
    assert_eq!(md.input_tokens, Some(100));
    assert_eq!(md.cache_read_input_tokens, Some(70));
    assert_eq!(md.cache_creation_input_tokens, None);
}

#[test]
fn chat_stream_finalize_without_usage_keeps_none_not_zero() {
    let mut sm = machine(None);
    let final_events = sm.finalize(None, None, None);
    let md = message_delta_usage(&final_events);
    assert_eq!(md.input_tokens, None);
    assert_eq!(md.output_tokens, None);
    assert_eq!(md.cache_read_input_tokens, None);
    assert_eq!(md.cache_creation_input_tokens, None);
    assert!(matches!(final_events.last(), Some(SseEvent::MessageStop)));
}

#[test]
fn process_delta_array_content_emits_text_block() {
    let mut sm = machine(None);
    let d = delta(
        r#"{"content": [{"type": "text", "text": "Hello"}, {"type": "text", "text": " world"}]}"#,
    );
    let events = sm.process_delta(&d, None);
    assert!(matches!(events[0], SseEvent::ContentBlockStart { .. }));
    assert!(matches!(
        events[1],
        SseEvent::ContentBlockDelta {
            delta: ContentBlockDeltaData::TextDelta { .. },
            ..
        }
    ));
    if let SseEvent::ContentBlockDelta {
        delta: ContentBlockDeltaData::TextDelta { text },
        ..
    } = &events[1]
    {
        assert_eq!(text, "Hello world");
    }
}

#[test]
fn process_delta_reasoning_array_goes_to_thinking_not_text() {
    let mut sm = SseStateMachine::new(true, "reasoning".into(), vec![], None);
    let d = delta(
        r#"{"reasoning": [{"type": "reasoning_summary_text", "summary_text": "let me think"}]}"#,
    );
    let events = sm.process_delta(&d, None);
    assert!(matches!(
        events[0],
        SseEvent::ContentBlockStart {
            content_block: ContentBlockStartData::Thinking { .. },
            ..
        }
    ));
    assert!(matches!(
        events[1],
        SseEvent::ContentBlockDelta {
            delta: ContentBlockDeltaData::ThinkingDelta { .. },
            ..
        }
    ));
}

const TOOL: &str = r#"{"tool_calls": [{"index": 0, "id": "call_1", "type": "function",
    "function": {"name": "get_weather", "arguments": "{\"city\":\"SF\"}"}}]}"#;

#[test]
fn process_delta_tool_calls_not_treated_as_text() {
    let mut sm = machine(None);
    let events = sm.process_delta(&delta(TOOL), None);
    assert!(matches!(
        events[0],
        SseEvent::ContentBlockStart {
            content_block: ContentBlockStartData::ToolUse { .. },
            ..
        }
    ));
}

fn start_usage(event: &SseEvent) -> StreamUsage {
    match event {
        SseEvent::MessageStart { message } => message.usage.expect("usage object"),
        other => panic!("unexpected {other:?}"),
    }
}

#[test]
fn chat_stream_message_start_usage_is_non_null_object() {
    let mut sm = machine(None);
    let event = sm.message_start("kimi-k3-turbo", "msg_b10");
    let usage = start_usage(&event);
    assert!(usage.input_tokens.is_some());
    assert!(usage.output_tokens.is_some());
    assert!(usage.cache_read_input_tokens.is_some());
    assert!(usage.cache_creation_input_tokens.is_some());
    match &event {
        SseEvent::MessageStart { message } => {
            assert_eq!(message.id, "msg_b10");
            assert_eq!(message.model, "kimi-k3-turbo");
            assert_eq!(message.msg_type, "message");
            assert_eq!(message.role, "assistant");
            assert!(message.content.is_empty());
        }
        other => panic!("unexpected {other:?}"),
    }
}

#[test]
fn chat_stream_message_start_placeholder_never_overrides_terminal_usage() {
    let mut sm = machine(None);
    let start = sm.message_start("kimi-k3-turbo", "msg_b10");
    let u = usage(NESTED);
    let _ = sm.process_delta(&usage_only_delta(), Some(&u));
    let final_events = sm.finalize(Some("stop"), Some(20), Some(&u));
    let md = message_delta_usage(&final_events);
    assert_eq!(md.input_tokens, Some(100));
    assert_eq!(md.output_tokens, Some(20));
    assert_eq!(md.cache_read_input_tokens, Some(70));
    assert_eq!(md.cache_creation_input_tokens, Some(30));
    assert_ne!(start_usage(&start).input_tokens, Some(100));
}

#[test]
fn empty_text_guard_default_is_warn() {
    let sm = machine(None);
    assert_eq!(sm.empty_text_guard(), EmptyTextGuard::Warn);
}

#[test]
fn empty_text_guard_enforce_empty_returns_error_not_message_stop() {
    let mut sm = machine(None);
    sm.set_empty_text_guard(EmptyTextGuard::Enforce);
    let events = sm.finalize(Some("stop"), Some(20), None);
    assert_eq!(events.len(), 1);
    match &events[0] {
        SseEvent::Error { error } => {
            assert_eq!(error.error_type, "stream_error");
            assert!(error.message.contains("upstream returned empty content"));
            assert!(error.message.contains("finish_reason=stop"));
        }
        other => panic!("expected SseEvent::Error, got {other:?}"),
    }
}

#[test]
fn empty_text_guard_enforce_length_with_thinking_returns_error() {
    let mut sm = SseStateMachine::new(true, "reasoning_content".into(), vec![], None);
    sm.set_empty_text_guard(EmptyTextGuard::Enforce);
    let thinking =
        delta(r#"{"reasoning_content": "deep reasoning consumes the whole budget"}"#);
    let _ = sm.process_delta(&thinking, None);
    let events = sm.finalize(Some("length"), Some(64000), None);
    assert_eq!(events.len(), 1);
    match &events[0] {
        SseEvent::Error { error } => {
            assert!(error.message.contains("finish_reason=length"));
        }
        other => panic!("expected SseEvent::Error, got {other:?}"),
    }
}

#[test]
fn empty_text_guard_enforce_with_text_forwards_normally() {
    let mut sm = machine(None);
    sm.set_empty_text_guard(EmptyTextGuard::Enforce);
    let _ = sm.process_delta(&delta(r#"{"content": "hello world"}"#), None);
    let events = sm.finalize(Some("stop"), Some(10), None);
    assert!(matches!(events.last(), Some(SseEvent::MessageStop)));
    assert!(!events.iter().any(|e| matches!(e, SseEvent::Error { .. })));
}

#[test]
fn empty_text_guard_enforce_with_tool_use_forwards_normally() {
    let mut sm = machine(None);
    sm.set_empty_text_guard(EmptyTextGuard::Enforce);
    let tool = delta(
        r#"{"tool_calls": [{"index": 0, "id": "call_1", "type": "function",
            "function": {"name": "get_weather", "arguments": "{}"}}]}"#,
    );
    let _ = sm.process_delta(&tool, None);
    let events = sm.finalize(Some("tool_calls"), Some(10), None);
    assert!(matches!(events.last(), Some(SseEvent::MessageStop)));
    assert!(!events.iter().any(|e| matches!(e, SseEvent::Error { .. })));
}

#[test]
fn empty_text_guard_off_and_warn_forward_empty_unchanged() {
    for guard in [EmptyTextGuard::Off, EmptyTextGuard::Warn] {
        let mut sm = machine(None);
        sm.set_empty_text_guard(guard);
        let events = sm.finalize(Some("stop"), Some(20), None);
        assert!(matches!(events.last(), Some(SseEvent::MessageStop)));
        assert!(!events.iter().any(|e| matches!(e, SseEvent::Error { .. })));
    }
}

#[test]
fn empty_text_guard_whitespace_only_text_counts_as_empty() {
    let mut sm = machine(None);
    sm.set_empty_text_guard(EmptyTextGuard::Enforce);
    let _ = sm.process_delta(&delta(r#"{"content": "   \n\t  "}"#), None);
    let events = sm.finalize(Some("stop"), Some(5), None);
    assert!(matches!(events[0], SseEvent::Error { .. }));
}

#[test]
fn guard_settings_have_names() {
    assert_eq!(EmptyTextGuard::from_env(Some("off")), EmptyTextGuard::Off);
    assert_eq!(EmptyTextGuard::from_env(Some("enforce")), EmptyTextGuard::Enforce);
    assert_eq!(EmptyTextGuard::from_env(Some("warn")), EmptyTextGuard::Warn);
    assert_eq!(EmptyTextGuard::from_env(Some("OFF")), EmptyTextGuard::Warn);
    assert_eq!(EmptyTextGuard::from_env(None), EmptyTextGuard::Warn);
}

#[test]
fn the_enforced_error_reports_the_counts() {
    let mut sm = SseStateMachine::new(true, "reasoning_content".into(), vec![], None);
    sm.set_empty_text_guard(EmptyTextGuard::Enforce);
    let _ = sm.process_delta(&delta(r#"{"reasoning_content": "hé"}"#), None);
    let events = sm.finalize(None, None, None);
    match &events[0] {
        SseEvent::Error { error } => assert_eq!(
            error.message,
            "upstream returned empty content (finish_reason=(none), output_tokens=0, \
             thinking_chars=3)"
        ),
        other => panic!("unexpected {other:?}"),
    }
}

/// A short form of events, for comparison.
fn short(events: &[SseEvent]) -> Vec<String> {
    events
        .iter()
        .map(|e| match e {
            SseEvent::MessageStart { .. } => "message_start".to_string(),
            SseEvent::ContentBlockStart { index, content_block } => match content_block {
                ContentBlockStartData::Thinking { .. } => format!("start {index} thinking"),
                ContentBlockStartData::Text { .. } => format!("start {index} text"),
                ContentBlockStartData::ToolUse { id, name, .. } => {
                    format!("start {index} tool {id} {name}")
                }
            },
            SseEvent::ContentBlockDelta { index, delta } => match delta {
                ContentBlockDeltaData::ThinkingDelta { thinking } => {
                    format!("{index} thinks {thinking}")
                }
                ContentBlockDeltaData::TextDelta { text } => format!("{index} says {text}"),
                ContentBlockDeltaData::InputJsonDelta { partial_json } => {
                    format!("{index} json {partial_json}")
                }
                ContentBlockDeltaData::SignatureDelta { signature } => {
                    format!("{index} signed {signature}")
                }
            },
            SseEvent::ContentBlockStop { index } => format!("stop {index}"),
            SseEvent::MessageDelta { delta, .. } => {
                format!("message_delta {}", delta.stop_reason.as_deref().unwrap_or("-"))
            }
            SseEvent::MessageStop => "message_stop".to_string(),
            SseEvent::Error { error } => format!("error {}", error.message),
        })
        .collect()
}

#[test]
fn blocks_open_and_close_in_order() {
    let mut sm =
        SseStateMachine::new(true, "reasoning_content".into(), vec!["reasoning".into()], None);
    let mut events = Vec::new();
    for text in [
        r#"{"role": "assistant"}"#,
        r#"{"reasoning": "a"}"#,
        r#"{"reasoning_content": "b", "reasoning": "ignored"}"#,
        r#"{"content": "c"}"#,
        r#"{"content": "d"}"#,
        r#"{"tool_calls": [{"index": 1, "id": "x", "function": {"name": "f", "arguments": "{"}}]}"#,
        r#"{"tool_calls": [{"index": 1, "function": {"arguments": "}"}}, {"index": 2}]}"#,
        r#"{"content": "e"}"#,
    ] {
        events.extend(sm.process_delta(&delta(text), None));
    }
    events.extend(sm.finalize(Some("tool_calls"), Some(1), None));
    assert_eq!(
        short(&events),
        vec![
            "start 0 thinking",
            "0 thinks a",
            "0 thinks b",
            "0 signed sig_proxy_placeholder",
            "stop 0",
            "start 1 text",
            "1 says c",
            "1 says d",
            "stop 1",
            "start 2 tool x f",
            "2 json {",
            "2 json }",
            "start 3 tool unknown_call unknown_tool",
            "start 4 text",
            "4 says e",
            "stop 4",
            "stop 2",
            "stop 3",
            "message_delta tool_use",
            "message_stop",
        ]
    );
}

#[test]
fn an_open_thinking_block_is_signed_at_the_end() {
    let mut sm = SseStateMachine::new(true, "reasoning".into(), vec![], None);
    let mut events = sm.process_delta(&delta(r#"{"reasoning": "a"}"#), None);
    events.extend(sm.finalize(Some("stop"), None, None));
    assert_eq!(
        short(&events),
        vec![
            "start 0 thinking",
            "0 thinks a",
            "0 signed sig_proxy_placeholder",
            "stop 0",
            "message_delta end_turn",
            "message_stop",
        ]
    );
}

#[test]
fn models_that_do_not_reason_lose_reasoning() {
    let mut sm = machine(None);
    let events = sm.process_delta(&delta(r#"{"reasoning_content": "a", "content": "b"}"#), None);
    assert_eq!(short(&events), vec!["start 0 text", "0 says b"]);
}

#[test]
fn reasoning_behind_text_closes_the_text_block_first() {
    let mut sm = SseStateMachine::new(true, "reasoning_content".into(), vec![], None);
    let _ = sm.process_delta(&delta(r#"{"content": "hi"}"#), None);
    let mut events = sm.process_delta(&delta(r#"{"reasoning_content": "x"}"#), None);
    assert_eq!(short(&events), vec!["stop 0", "start 1 thinking", "1 thinks x"]);
    events = sm.process_delta(&delta(r#"{"content": "b"}"#), None);
    events.extend(sm.finalize(Some("stop"), None, None));
    assert_eq!(
        short(&events),
        vec![
            "1 signed sig_proxy_placeholder",
            "stop 1",
            "start 2 text",
            "2 says b",
            "stop 2",
            "message_delta end_turn",
            "message_stop",
        ]
    );
}

#[test]
fn counts_come_only_from_changes_that_bring_nothing_else() {
    let mut sm = machine(None);
    let u = usage(NESTED);
    let _ = sm.process_delta(&delta(r#"{"content": "a"}"#), Some(&u));
    let events = sm.finalize(Some("stop"), None, None);
    assert_eq!(message_delta_usage(&events).input_tokens, None);
}

#[test]
fn changes_are_read_or_refused() {
    assert_eq!(
        ChatDelta::from_json(&json("null")).err(),
        Some(DeltaError::NotAnObject)
    );
    assert_eq!(
        ChatDelta::from_json(&json(r#"{"role": 3}"#)).err(),
        Some(DeltaError::Role)
    );
    for text in [
        r#"{"tool_calls": "not-an-array"}"#,
        r#"{"tool_calls": [3]}"#,
        r#"{"tool_calls": [{"index": -1}]}"#,
        r#"{"tool_calls": [{"id": 3}]}"#,
        r#"{"tool_calls": [{"function": "f"}]}"#,
        r#"{"tool_calls": [{"function": {"name": 3}}]}"#,
    ] {
        assert_eq!(
            ChatDelta::from_json(&json(text)).err(),
            Some(DeltaError::ToolCalls),
            "{text}"
        );
    }
}

#[test]
fn content_is_read_in_all_its_forms() {
    let d = delta(r#"{"content": null, "reasoning": {"text": "a"}, "role": null}"#);
    assert!(d.content.is_empty());
    assert_eq!(d.reasoning.text.as_deref(), Some("a"));
    assert_eq!(d.role, None);
    let d = delta(r#"{"content": ["a", {"summary_text": "b"}, {"weird": 1}, 7]}"#);
    assert_eq!(d.content.text.as_deref(), Some("ab"));
    assert_eq!(d.content.raw.len(), 2);
    assert!(d.has_unparseable_content());
    assert!(!d.has_no_text());
    assert_eq!(d.unparseable_preview(), r#"{"weird":1}; 7"#);
    let d = delta(r#"{"content": 12345, "reasoning": false}"#);
    assert!(d.has_unparseable_content());
    assert!(d.has_no_text());
    assert_eq!(d.unparseable_preview(), "12345; false");
    let d = delta(r#"{"content": {"text": 3, "summary_text": "s"}}"#);
    assert_eq!(d.content.text.as_deref(), Some("s"));
    let d = delta(r#"{"content": []}"#);
    assert!(d.content.is_empty());
    assert!(!d.has_unparseable_content());
}

#[test]
fn previews_are_cut_between_characters() {
    let long = "中".repeat(600);
    let d = delta(&format!("{{\"content\": {{\"weird\": \"{long}\"}}}}"));
    let preview = d.unparseable_preview();
    assert_eq!(preview.chars().count(), 500);
    assert!(preview.starts_with("{\"weird\":\"中"));
}

#[test]
fn reasoning_is_taken_from_the_first_field_that_has_some() {
    let d = delta(r#"{"reasoning_content": "", "reasoning": "r"}"#);
    let names = vec!["other".to_string(), "reasoning".to_string()];
    assert_eq!(d.get_reasoning("reasoning_content", &names), Some("r"));
    assert_eq!(d.get_reasoning("reasoning_content", &vec![]), None);
    assert_eq!(d.get_reasoning("reasoning", &vec![]), Some("r"));
    let m = message(None, Some("x"));
    assert_eq!(m.get_reasoning("reasoning", &vec!["reasoning_content".to_string()]), Some("x"));
    assert_eq!(m.get_reasoning("thoughts", &vec![]), None);
}

#[test]
fn arguments_go_to_the_block_of_their_call() {
    let mut sm = machine(None);
    let mut events = sm.process_delta(
        &delta(
            r#"{"tool_calls": [
                {"index": 0, "id": "a", "function": {"name": "f", "arguments": "{"}},
                {"index": 1, "id": "b", "function": {"name": "g", "arguments": "["}}
            ]}"#,
        ),
        None,
    );
    events.extend(sm.process_delta(
        &delta(
            r#"{"tool_calls": [
                {"index": 1, "function": {"arguments": "]"}},
                {"index": 0, "function": {"arguments": "}"}}
            ]}"#,
        ),
        None,
    ));
    assert_eq!(
        short(&events),
        vec![
            "start 0 tool a f",
            "0 json {",
            "start 1 tool b g",
            "1 json [",
            "1 json ]",
            "0 json }",
        ]
    );
}
