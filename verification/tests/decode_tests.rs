use hobbes::decode::{FinishAction, StreamDecoder};
use hobbes::json::JsonValue;
use hobbes::model::{McpContext, McpServerContext, StreamMessage, ToolCallStatus, ToolDef};

fn weather_catalog() -> McpContext {
    McpContext {
        servers: vec![McpServerContext {
            name: "weather_server".to_string(),
            description: "Provides weather information".to_string(),
            tools: vec![ToolDef {
                name: "get_weather".to_string(),
                description: "Get the current weather".to_string(),
                input_schema: JsonValue::Obj(vec![]),
            }],
        }],
    }
}

fn bytes(text: &str) -> Vec<u8> {
    text.as_bytes().to_vec()
}

#[test]
fn hello_world_deltas_in_stream_order() {
    let mut decoder = StreamDecoder::new();
    let events = decoder.on_bytes(
        &bytes(
            "data: {\"candidates\": [{\"content\": {\"parts\": [{\"text\": \"Hello\"}]}}]}\n\
             data: {\"candidates\": [{\"content\": {\"parts\": [{\"text\": \" world\"}]}}]}\n",
        ),
        None,
    );
    assert_eq!(events.len(), 2);
    assert!(matches!(&events[0], StreamMessage::Text(t) if t == "Hello"));
    assert!(matches!(&events[1], StreamMessage::Text(t) if t == " world"));
    assert!(matches!(decoder.finish_attempt(), FinishAction::Done));
}

#[test]
fn partial_lines_are_buffered_across_reads() {
    let mut decoder = StreamDecoder::new();
    let first = decoder.on_bytes(
        &bytes("data: {\"candidates\": [{\"content\": {\"parts\": [{\"te"),
        None,
    );
    assert!(first.is_empty());
    let second = decoder.on_bytes(&bytes("xt\": \"Hello\"}]}}]}\n"), None);
    assert_eq!(second.len(), 1);
    assert!(matches!(&second[0], StreamMessage::Text(t) if t == "Hello"));
}

#[test]
fn non_data_lines_and_blank_payloads_are_ignored() {
    let mut decoder = StreamDecoder::new();
    let events = decoder.on_bytes(
        &bytes(": comment\n\ndata: \ndata: {\"candidates\": [{\"content\": {\"parts\": [{\"text\": \"ok\"}]}}]}\n"),
        None,
    );
    assert_eq!(events.len(), 1);
    assert!(matches!(&events[0], StreamMessage::Text(t) if t == "ok"));
}

#[test]
fn matched_tool_call_is_surfaced_with_its_server() {
    let mut decoder = StreamDecoder::new();
    let events = decoder.on_bytes(
        &bytes(
            "data: {\"candidates\": [{\"content\": {\"parts\": [{\"functionCall\": {\"name\": \"get_weather\", \"args\": {\"loc\": \"NYC\"}}}]}}]}\n",
        ),
        Some(&weather_catalog()),
    );
    assert_eq!(events.len(), 1);
    match &events[0] {
        StreamMessage::ToolCall(tc) => {
            assert_eq!(tc.server_name, "weather_server");
            assert_eq!(tc.tool_name, "get_weather");
            assert_eq!(tc.arguments, "{\"loc\":\"NYC\"}");
            assert_eq!(tc.status, ToolCallStatus::Running);
            assert_eq!(tc.response, "");
        },
        _ => panic!("expected a tool call event"),
    }
}

#[test]
fn unknown_tool_names_are_dropped() {
    let mut decoder = StreamDecoder::new();
    let events = decoder.on_bytes(
        &bytes(
            "data: {\"candidates\": [{\"content\": {\"parts\": [{\"functionCall\": {\"name\": \"nonexistent\", \"args\": {}}}]}}]}\n",
        ),
        Some(&weather_catalog()),
    );
    assert!(events.is_empty());
    // Nothing was surfaced, so the stream's end still synthesizes a delta.
    match decoder.finish_attempt() {
        FinishAction::Emit(t) => {
            assert_eq!(t, "[Hobbes did not provide a response due to an internal error.]")
        },
        _ => panic!("expected a synthetic delta"),
    }
}

#[test]
fn safety_finish_without_deltas_yields_the_fixed_text() {
    let mut decoder = StreamDecoder::new();
    let events = decoder.on_bytes(
        &bytes("data: {\"candidates\": [{\"finishReason\": \"SAFETY\", \"content\": {\"parts\": []}}]}\n"),
        None,
    );
    assert!(events.is_empty());
    match decoder.finish_attempt() {
        FinishAction::Emit(t) => {
            assert_eq!(t, "[Hobbes did not provide a response due to the safety filter.]")
        },
        _ => panic!("expected the safety-filter delta"),
    }
}

#[test]
fn other_finish_reasons_are_named_in_the_synthetic_delta() {
    let mut decoder = StreamDecoder::new();
    let events = decoder.on_bytes(
        &bytes("data: {\"candidates\": [{\"finishReason\": \"RECITATION\"}]}\n"),
        None,
    );
    assert!(events.is_empty());
    match decoder.finish_attempt() {
        FinishAction::Emit(t) => {
            assert_eq!(t, "[Hobbes did not provide a response. Finish Reason: RECITATION]")
        },
        _ => panic!("expected a synthetic delta"),
    }
}

#[test]
fn malformed_calls_retry_until_the_ceiling() {
    let mut decoder = StreamDecoder::new();
    let malformed =
        bytes("data: {\"candidates\": [{\"finishReason\": \"MALFORMED_FUNCTION_CALL\"}]}\n");
    let events = decoder.on_bytes(&malformed, None);
    assert!(events.is_empty());
    // The first attempt is retried from scratch.
    assert!(matches!(decoder.finish_attempt(), FinishAction::Retry));
    // A second malformed finish exceeds the ceiling of two attempts.
    let events2 = decoder.on_bytes(&malformed, None);
    assert!(events2.is_empty());
    match decoder.finish_attempt() {
        FinishAction::Emit(t) => {
            assert_eq!(t, "[Hobbes failed to process a tool call after multiple retries.]")
        },
        _ => panic!("expected the retry-failure delta"),
    }
}

#[test]
fn malformed_marker_in_unparseable_chunk_also_retries() {
    let mut decoder = StreamDecoder::new();
    let events = decoder.on_bytes(&bytes("data: ...MALFORMED_FUNCTION_CALL...\n"), None);
    assert!(events.is_empty());
    assert!(matches!(decoder.finish_attempt(), FinishAction::Retry));
}

#[test]
fn unparseable_chunk_is_fatal_with_the_fixed_error_delta() {
    let mut decoder = StreamDecoder::new();
    let events = decoder.on_bytes(
        &bytes("data: {nonsense\ndata: {\"candidates\": [{\"content\": {\"parts\": [{\"text\": \"late\"}]}}]}\n"),
        None,
    );
    // The error delta is surfaced and the later line is never processed.
    assert_eq!(events.len(), 1);
    assert!(matches!(
        &events[0],
        StreamMessage::Text(t)
            if t == "[Hobbes encountered a stream error. Please check the logs for details.]"
    ));
    assert!(matches!(decoder.finish_attempt(), FinishAction::Done));
}

#[test]
fn text_after_a_tool_call_keeps_streaming() {
    let mut decoder = StreamDecoder::new();
    let events = decoder.on_bytes(
        &bytes(
            "data: {\"candidates\": [{\"content\": {\"parts\": [{\"functionCall\": {\"name\": \"get_weather\", \"args\": {}}}]}}]}\n\
             data: {\"candidates\": [{\"content\": {\"parts\": [{\"text\": \"and then\"}]}}]}\n",
        ),
        Some(&weather_catalog()),
    );
    assert_eq!(events.len(), 2);
    assert!(matches!(&events[0], StreamMessage::ToolCall(_)));
    assert!(matches!(&events[1], StreamMessage::Text(t) if t == "and then"));
}
