use cc_proxy::anthropic::types::{ContentBlockDeltaData, SseEvent};
use cc_proxy::openai::converter::EmptyTextGuard;
use cc_proxy::sse::stream::{ChatStream, Phase, Remark, MAX_SSE_BUF};
use serde_json::Value;

fn start(is_reasoning_model: bool, reasoning_field: &str) -> (ChatStream, Vec<SseEvent>) {
    ChatStream::start(
        "kimi-k3",
        "msg_test",
        is_reasoning_model,
        reasoning_field.to_string(),
        vec![],
        None,
        EmptyTextGuard::Warn,
    )
}

/// What serde says of tool calls that are no list.
fn cause(delta: &Value) -> String {
    match serde_json::from_value::<Option<Vec<Value>>>(delta["tool_calls"].clone()) {
        Ok(_) => panic!("tool calls are a list"),
        Err(e) => e.to_string(),
    }
}

/// Runs a stream over one chunk and the end of the upstream.
fn run_stream(is_reasoning_model: bool, reasoning_field: &str, body: &str) -> Vec<SseEvent> {
    let (mut stream, mut events) = start(is_reasoning_model, reasoning_field);
    events.extend(stream.on_bytes(body.as_bytes()));
    if let Some(delta) = stream.undecodable() {
        let cause = cause(&delta.to_value());
        events.extend(stream.on_undecodable(&cause));
    }
    events.extend(stream.on_end());
    events.extend(stream.on_drained());
    assert_eq!(stream.phase(), Phase::Closed);
    events
}

fn count(events: &[SseEvent], name: &str) -> usize {
    events.iter().filter(|e| e.event_name() == name).count()
}

fn position(events: &[SseEvent], name: &str) -> Option<usize> {
    events.iter().position(|e| e.event_name() == name)
}

fn concat_text_deltas(events: &[SseEvent]) -> String {
    let mut s = String::new();
    for event in events {
        if let SseEvent::ContentBlockDelta {
            delta: ContentBlockDeltaData::TextDelta { text },
            ..
        } = event
        {
            s.push_str(text);
        }
    }
    s
}

fn output_tokens(events: &[SseEvent]) -> Option<u32> {
    events
        .iter()
        .find_map(|e| match e {
            SseEvent::MessageDelta { usage: Some(u), .. } => Some(u.output_tokens),
            _ => None,
        })
        .expect("message_delta present")
}

fn error_message(events: &[SseEvent]) -> &str {
    events
        .iter()
        .find_map(|e| match e {
            SseEvent::Error { error } => Some(error.message.as_str()),
            _ => None,
        })
        .expect("error present")
}

#[test]
fn stream_preserves_array_content_deltas() {
    let body = "data: {\"id\":\"c1\",\"choices\":[{\"index\":0,\"delta\":{\"role\":\"assistant\",\"content\":\"\"}}]}\n\n\
data: {\"id\":\"c1\",\"choices\":[{\"index\":0,\"delta\":{\"content\":[{\"type\":\"text\",\"text\":\"Hello\"}]}}]}\n\n\
data: {\"id\":\"c1\",\"choices\":[{\"index\":0,\"delta\":{\"content\":[{\"type\":\"text\",\"text\":\" world\"}]}}]}\n\n\
data: {\"id\":\"c1\",\"usage\":{\"prompt_tokens\":120,\"completion_tokens\":512,\"total_tokens\":632,\"prompt_tokens_details\":{\"cached_tokens\":0}},\"choices\":[]}\n\n\
data: {\"id\":\"c1\",\"choices\":[{\"index\":0,\"delta\":{},\"finish_reason\":\"length\"}],\"usage\":{\"prompt_tokens\":120,\"completion_tokens\":512,\"total_tokens\":632,\"prompt_tokens_details\":{\"cached_tokens\":0}}}\n\n\
data: [DONE]\n\n";
    let frames = run_stream(false, "reasoning", body);
    assert!(count(&frames, "content_block_start") > 0);
    assert!(count(&frames, "content_block_delta") > 0);
    assert_eq!(concat_text_deltas(&frames), "Hello world");
    assert!(count(&frames, "message_delta") > 0);
    assert!(count(&frames, "message_stop") > 0);
    match &frames[position(&frames, "message_start").expect("message_start present")] {
        SseEvent::MessageStart { message } => assert!(message.usage.is_some()),
        other => panic!("unexpected {other:?}"),
    }
    assert_eq!(count(&frames, "error"), 0);
    assert!(position(&frames, "message_delta") < position(&frames, "message_stop"));
    assert_eq!(output_tokens(&frames), Some(512));
}

#[test]
fn stream_string_content_delta_still_works() {
    let body = "data: {\"id\":\"c1\",\"choices\":[{\"index\":0,\"delta\":{\"role\":\"assistant\",\"content\":\"\"}}]}\n\n\
data: {\"id\":\"c1\",\"choices\":[{\"index\":0,\"delta\":{\"content\":\"Hello\"}}]}\n\n\
data: {\"id\":\"c1\",\"choices\":[{\"index\":0,\"delta\":{},\"finish_reason\":\"stop\"}]}\n\n\
data: [DONE]\n\n";
    let frames = run_stream(false, "reasoning", body);
    assert_eq!(concat_text_deltas(&frames), "Hello");
    assert!(count(&frames, "content_block_stop") > 0);
    assert_eq!(count(&frames, "message_delta"), 1);
    assert_eq!(count(&frames, "message_stop"), 1);
    assert_eq!(count(&frames, "error"), 0);
}

#[test]
fn stream_malformed_delta_emits_error_terminal_not_silent_success() {
    let body = "data: {\"id\":\"c1\",\"choices\":[{\"index\":0,\"delta\":{\"role\":\"assistant\",\"content\":\"Hello\"}}]}\n\n\
data: {\"id\":\"c1\",\"choices\":[{\"index\":0,\"delta\":{\"tool_calls\":\"not-an-array\"}}]}\n\n\
data: [DONE]\n\n";
    let frames = run_stream(false, "reasoning", body);
    assert!(count(&frames, "error") > 0);
    assert_eq!(count(&frames, "message_stop"), 0);
    assert_eq!(
        error_message(&frames),
        "undecodable streaming delta: invalid type: string \"not-an-array\", expected a sequence"
    );
}

const BAD: &str = "data: {\"choices\":[{\"delta\":{\"tool_calls\":7}}]}\n";

#[test]
fn an_undecodable_change_waits_for_its_cause() {
    let (mut stream, _) = start(false, "reasoning");
    assert!(stream.undecodable().is_none());
    assert!(stream.on_undecodable("too early").is_empty());
    assert_eq!(stream.phase(), Phase::Reading);
    let events = stream.on_bytes(format!("{TEXT}{BAD}{TEXT}{FINISH}").as_bytes());
    assert_eq!(concat_text_deltas(&events), "a");
    assert_eq!(count(&events, "error"), 0);
    assert_eq!(stream.phase(), Phase::Undecodable);
    assert_eq!(
        stream.undecodable().map(|delta| delta.to_value().to_string()).as_deref(),
        Some("{\"tool_calls\":7}")
    );
    assert!(stream.on_bytes(TEXT.as_bytes()).is_empty());
    assert!(stream.on_end().is_empty());
    assert!(stream.on_idle_timeout().is_empty());
    assert!(stream.on_transport_error("reset".to_string()).is_empty());
    assert!(stream.on_drained().is_empty());
    assert_eq!(stream.phase(), Phase::Undecodable);
    let events = stream.on_undecodable("tool_calls is 7");
    assert_eq!(events.len(), 1);
    assert_eq!(error_message(&events), "undecodable streaming delta: tool_calls is 7");
    assert_eq!(stream.phase(), Phase::Closed);
    assert!(stream.undecodable().is_none());
    assert!(stream.on_undecodable("again").is_empty());
}

#[test]
fn remarks_tell_what_was_passed_over() {
    let (mut stream, _) = start(false, "reasoning");
    assert!(stream.take_remarks().is_empty());
    stream.on_bytes(b"data: {oops\n");
    stream.on_bytes(
        b"data: {\"choices\":[{\"delta\":{\"content\":[{\"type\":\"text\",\"text\":\"a\"},7]}}]}\n",
    );
    match stream.take_remarks().as_slice() {
        [Remark::Skipped(data), Remark::Partial(_)] => assert_eq!(data, "{oops"),
        other => panic!("unexpected {other:?}"),
    }
    assert!(stream.take_remarks().is_empty());
    stream.on_bytes(&vec![b'x'; MAX_SSE_BUF + 1]);
    assert!(matches!(stream.take_remarks().as_slice(), [Remark::Overflow]));
}

#[test]
fn a_stream_is_silent_until_text_goes_out() {
    let (mut stream, _) = start(true, "reasoning");
    assert!(stream.is_silent());
    stream.on_bytes(b"data: {\"choices\":[{\"delta\":{\"reasoning\":\"hm\"}}]}\n");
    assert!(stream.is_silent());
    stream.on_bytes(TEXT.as_bytes());
    assert!(!stream.is_silent());
    let (mut stream, _) = start(true, "reasoning");
    stream.on_bytes(b"data: {\"choices\":[{\"delta\":{\"tool_calls\":[{\"index\":0,\"id\":\"c\",\"function\":{\"name\":\"f\"}}]}}]}\n");
    assert!(!stream.is_silent());
}

#[test]
fn stream_unknown_content_shape_aborts_not_silent_success() {
    let body = "data: {\"id\":\"c1\",\"choices\":[{\"index\":0,\"delta\":{\"role\":\"assistant\",\"content\":12345}}]}\n\n\
data: {\"id\":\"c1\",\"choices\":[{\"index\":0,\"delta\":{},\"finish_reason\":\"stop\"}]}\n\n\
data: [DONE]\n\n";
    let frames = run_stream(false, "reasoning", body);
    assert!(count(&frames, "error") > 0);
    assert_eq!(count(&frames, "message_stop"), 0);
    assert_eq!(
        error_message(&frames),
        "streaming delta content could not be decoded: 12345"
    );
}

#[test]
fn stream_multibyte_unparseable_content_aborts_not_panic() {
    let long = "中".repeat(300);
    let body = format!(
        "data: {{\"id\":\"c1\",\"choices\":[{{\"index\":0,\"delta\":{{\"role\":\"assistant\",\"content\":{{\"weird\":\"{long}\"}}}}}}]}}\n\ndata: [DONE]\n\n"
    );
    let frames = run_stream(false, "reasoning", &body);
    assert!(count(&frames, "error") > 0);
    assert_eq!(count(&frames, "message_stop"), 0);
}

const TEXT: &str = "data: {\"choices\":[{\"delta\":{\"content\":\"a\"}}]}\n";
const FINISH: &str = "data: {\"choices\":[{\"delta\":{},\"finish_reason\":\"stop\"}]}\n";
const USAGE: &str =
    "data: {\"choices\":[],\"usage\":{\"prompt_tokens\":3,\"completion_tokens\":4}}\n";

#[test]
fn cuts_of_the_upstream_do_not_matter() {
    let whole = format!("{TEXT}{FINISH}{USAGE}data: [DONE]\n");
    let once = run_stream(false, "reasoning", &whole);
    let (mut stream, mut events) = start(false, "reasoning");
    for byte in whole.as_bytes() {
        events.extend(stream.on_bytes(&[*byte]));
    }
    events.extend(stream.on_end());
    events.extend(stream.on_drained());
    assert_eq!(format!("{events:?}"), format!("{once:?}"));
}

#[test]
fn a_stream_ends_once_reason_and_counts_are_there() {
    let (mut stream, _) = start(false, "reasoning");
    let events = stream.on_bytes(format!("{TEXT}{FINISH}").as_bytes());
    assert_eq!(count(&events, "message_stop"), 0);
    assert_eq!(stream.phase(), Phase::Reading);
    let events = stream.on_bytes(USAGE.as_bytes());
    assert_eq!(count(&events, "message_stop"), 1);
    assert_eq!(output_tokens(&events), Some(4));
    assert_eq!(stream.phase(), Phase::Draining);
    assert!(stream.on_bytes(TEXT.as_bytes()).is_empty());
    assert!(stream.on_end().is_empty());
    assert!(stream.on_drained().is_empty());
    assert_eq!(stream.phase(), Phase::Closed);
    assert_eq!(stream.last_usage().and_then(|u| u.prompt_tokens), Some(3));
    assert!(stream.on_drained().is_empty());
}

#[test]
fn only_the_first_finish_reason_counts() {
    let body = "data: {\"choices\":[{\"delta\":{\"content\":\"a\"},\"finish_reason\":\"length\"},{\"finish_reason\":\"stop\"}]}\n";
    let events = run_stream(false, "reasoning", body);
    assert_eq!(count(&events, "message_stop"), 1);
    let reason = events.iter().find_map(|e| match e {
        SseEvent::MessageDelta { delta, .. } => delta.stop_reason.clone(),
        _ => None,
    });
    assert_eq!(reason.as_deref(), Some("max_tokens"));
}

#[test]
fn a_stream_without_a_reason_ends_when_it_is_drained() {
    for body in [TEXT.to_string(), format!("{TEXT}data: [DONE]\n"), format!("{TEXT}data:[DONE]\n")] {
        let (mut stream, _) = start(false, "reasoning");
        let mut events = stream.on_bytes(body.as_bytes());
        events.extend(stream.on_end());
        assert_eq!(count(&events, "message_stop"), 0);
        let events = stream.on_drained();
        assert_eq!(count(&events, "message_stop"), 1);
        assert_eq!(output_tokens(&events), None);
    }
}

#[test]
fn a_pending_reason_is_passed_on_at_the_end() {
    let (mut stream, _) = start(false, "reasoning");
    let body = "data: {\"choices\":[{\"delta\":{\"content\":\"a\"},\"finish_reason\":\"stop\"}]}\n";
    assert_eq!(count(&stream.on_bytes(body.as_bytes()), "message_stop"), 0);
    assert_eq!(count(&stream.on_end(), "message_stop"), 1);
    assert!(stream.on_drained().is_empty());
}

#[test]
fn silence_ends_the_message() {
    let (mut stream, _) = start(false, "reasoning");
    let _ = stream.on_bytes(TEXT.as_bytes());
    let events = stream.on_idle_timeout();
    assert_eq!(count(&events, "message_stop"), 1);
    assert_eq!(count(&events, "content_block_stop"), 1);
    assert_eq!(stream.phase(), Phase::Closed);
    assert!(stream.on_bytes(TEXT.as_bytes()).is_empty());
    let (mut stream, _) = start(false, "reasoning");
    let _ = stream.on_bytes(FINISH.as_bytes());
    assert_eq!(count(&stream.on_idle_timeout(), "message_stop"), 1);
}

#[test]
fn a_failed_connection_is_an_error() {
    let (mut stream, _) = start(false, "reasoning");
    let events = stream.on_transport_error("connection reset".to_string());
    assert_eq!(events.len(), 1);
    assert_eq!(error_message(&events), "connection reset");
    assert!(stream.on_end().is_empty());
    assert!(stream.on_drained().is_empty());
    assert!(stream.on_idle_timeout().is_empty());
}

#[test]
fn lines_that_are_no_payload_do_not_count() {
    let body = format!(": comment\n\nevent: x\n  data: {{broken\ndata: 17\n\t{TEXT}{FINISH}");
    let events = run_stream(false, "reasoning", &body);
    assert_eq!(concat_text_deltas(&events), "a");
    assert_eq!(count(&events, "message_stop"), 1);
    assert_eq!(count(&events, "error"), 0);
}

#[test]
fn empty_finish_reasons_do_not_count() {
    let body = "data: {\"choices\":[{\"delta\":{\"content\":\"a\"},\"finish_reason\":\"\"}]}\n";
    let (mut stream, _) = start(false, "reasoning");
    let mut events = stream.on_bytes(body.as_bytes());
    events.extend(stream.on_end());
    assert_eq!(count(&events, "message_stop"), 0);
    assert_eq!(count(&stream.on_drained(), "message_stop"), 1);
}

#[test]
fn malformed_utf8_is_replaced() {
    let (mut stream, _) = start(false, "reasoning");
    let mut body = b"data: {\"choices\":[{\"delta\":{\"content\":\"".to_vec();
    body.push(0xff);
    body.extend_from_slice("é\"}}]}\n".as_bytes());
    let events = stream.on_bytes(&body);
    assert_eq!(concat_text_deltas(&events), "\u{fffd}é");
}

#[test]
fn a_line_that_grows_too_long_is_given_up() {
    let (mut stream, _) = start(false, "reasoning");
    let chunk = vec![b'x'; MAX_SSE_BUF];
    assert!(stream.on_bytes(&chunk).is_empty());
    assert_eq!(stream.phase(), Phase::Reading);
    assert!(stream.on_bytes(b"x").is_empty());
    assert_eq!(stream.phase(), Phase::Draining);
    assert_eq!(count(&stream.on_drained(), "message_stop"), 1);
}

#[test]
fn a_line_that_grows_too_long_leaves_no_stream_hanging() {
    let (mut stream, _) = start(false, "reasoning");
    stream.on_bytes(
        b"data: {\"choices\":[{\"delta\":{\"content\":\"hi\"},\"finish_reason\":\"stop\"}]}\n",
    );
    assert!(stream.on_bytes(&vec![b'x'; MAX_SSE_BUF + 1]).is_empty());
    assert_eq!(stream.phase(), Phase::Draining);
    let events = stream.on_drained();
    assert_eq!(count(&events, "message_delta"), 1);
    assert_eq!(count(&events, "message_stop"), 1);
    assert_eq!(events.last().map(|e| e.event_name()), Some("message_stop"));
    assert_eq!(stream.phase(), Phase::Closed);
    assert!(stream.on_drained().is_empty());
}

#[test]
fn chunks_can_be_cut_between_any_two_characters() {
    let body = "data: {\"choices\":[{\"delta\":{\"reasoning\":\"hmé\"}}]}\n\ndata: \
                {\"choices\":[{\"delta\":{\"content\":\"日本\"},\"finish_reason\":\"stop\"}]}\n\
                data: [DONE]\ndata: ignored\n";
    let whole = run_stream(true, "reasoning", body);
    let (mut stream, mut events) = start(true, "reasoning");
    for c in body.chars() {
        events.extend(stream.on_bytes(c.to_string().as_bytes()));
    }
    events.extend(stream.on_end());
    events.extend(stream.on_drained());
    assert_eq!(format!("{events:?}"), format!("{whole:?}"));
    assert_eq!(position(&whole, "message_start"), Some(0));
    assert_eq!(count(&whole, "message_start"), 1);
    assert_eq!(position(&whole, "message_delta"), Some(whole.len() - 2));
    assert_eq!(position(&whole, "message_stop"), Some(whole.len() - 1));
    assert_eq!(count(&whole, "error"), 0);
}

#[test]
fn an_enforced_guard_ends_a_silent_stream_with_an_error() {
    let (mut stream, _) = ChatStream::start(
        "m",
        "msg_1",
        true,
        "reasoning".to_string(),
        vec![],
        None,
        EmptyTextGuard::Enforce,
    );
    let mut events = stream.on_bytes(
        b"data: {\"choices\":[{\"delta\":{\"reasoning\":\"hm\"}}]}\ndata: {\"choices\":[{\"delta\":{},\"finish_reason\":\"length\"}],\"usage\":{\"completion_tokens\":9}}\n",
    );
    events.extend(stream.on_drained());
    assert_eq!(count(&events, "error"), 1);
    assert_eq!(count(&events, "message_stop"), 0);
    assert_eq!(
        error_message(&events),
        "upstream returned empty content (finish_reason=length, output_tokens=9, thinking_chars=2)"
    );
}
