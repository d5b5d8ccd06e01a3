use hobbes::json::JsonValue;
use hobbes::model::{ToolCall, ToolCallRecord, ToolCallStatus, ToolResult};
use hobbes::processor::{ConversationProcessor, build_recent_history, summary_from_json};
use hobbes::session::{Session, SessionState};
use hobbes::settings::SettingsManager;
use hobbes::summarize::ToolCallSummarizer;
use hobbes::textfmt::u64_string;
use hobbes::orchestrator::Turn;

#[test]
fn decimal_formatting_is_exact() {
    assert_eq!(u64_string(0), "0");
    assert_eq!(u64_string(7), "7");
    assert_eq!(u64_string(10), "10");
    assert_eq!(u64_string(120034), "120034");
    assert_eq!(u64_string(u64::MAX), "18446744073709551615");
}

#[test]
fn sessions_are_created_named_and_deleted() {
    let mut state = SessionState::new();
    state.create_session("a1".to_string());
    state.create_session("b2".to_string());
    assert_eq!(state.sessions.len(), 2);
    assert_eq!(state.sessions[0].name, "Chat 1");
    assert_eq!(state.sessions[1].name, "Chat 2");
    assert_eq!(state.active_session_id, "b2");

    state.update_session_name(&"a1".to_string(), "Errands".to_string());
    assert_eq!(state.sessions[0].name, "Errands");

    // Deleting the active session falls back to the first remaining one.
    state.delete_session(&"b2".to_string());
    assert_eq!(state.sessions.len(), 1);
    assert_eq!(state.active_session_id, "a1");
    state.delete_session(&"a1".to_string());
    assert_eq!(state.sessions.len(), 0);
    assert_eq!(state.active_session_id, "");

    state.touch_active_session(123);
}

#[test]
fn touch_updates_the_active_session_timestamp() {
    let mut state = SessionState::new();
    state.create_session("a1".to_string());
    state.touch_active_session(456789);
    assert_eq!(state.sessions[0].last_updated, 456789);
    assert!(state.get_active_session().is_some());
}

#[test]
fn settings_manager_remembers_its_path() {
    let manager = SettingsManager::new("/tmp/settings.json".to_string());
    assert_eq!(manager.settings_path, "/tmp/settings.json");
}

#[test]
fn summarizer_folds_the_audit_log_into_context_snapshots() {
    let mut session = Session::new("s".to_string(), "n".to_string());
    session.tool_call_history.push(ToolCallRecord {
        call: ToolCall {
            execution_id: "ex-9".to_string(),
            server_name: "weather_server".to_string(),
            tool_name: "get_weather".to_string(),
            arguments: "{}".to_string(),
            status: ToolCallStatus::Completed,
            response: "{\"temp\":72}".to_string(),
        },
        result: ToolResult {
            status: ToolCallStatus::Completed,
            response: "{\"temp\":72}".to_string(),
        },
    });
    let summarizer = ToolCallSummarizer::new();
    summarizer.summarize_and_cleanup(&mut session);
    assert!(session.tool_call_history.is_empty());
    assert_eq!(session.active_context.extra.len(), 1);
    let (key, snapshot) = &session.active_context.extra[0];
    assert_eq!(key, "tool_snapshot_ex-9");
    let summary = hobbes::json::get_field(snapshot, &"result_summary".to_string()).unwrap();
    assert_eq!(
        *summary,
        JsonValue::Str(
            "Tool call 'get_weather' on server 'weather_server' finished with status 'Completed'."
                .to_string()
        )
    );
    let full_ref = hobbes::json::get_field(snapshot, &"full_result_ref".to_string()).unwrap();
    assert_eq!(*full_ref, JsonValue::Str("qdrant_vector_id:ex-9".to_string()));
}

#[test]
fn recent_history_formats_the_last_window() {
    let mut session = Session::new("s".to_string(), "n".to_string());
    let mut turn = Turn::begin_turn(&mut session, "first".to_string());
    turn.on_text_delta(&mut session, "reply one");
    let mut turn2 = Turn::begin_turn(&mut session, "second".to_string());
    turn2.on_text_delta(&mut session, "reply two");
    let text = build_recent_history(&session.messages, 3);
    assert_eq!(text, "Hobbes: reply one\nUser: second\nHobbes: reply two");
    let all = build_recent_history(&session.messages, 10);
    assert_eq!(all, "User: first\nHobbes: reply one\nUser: second\nHobbes: reply two");
}

#[test]
fn summary_replies_are_read_back_exactly() {
    let reply = hobbes::json::parse_json(
        "{\"summary\": \"We planned a trip.\", \"sentiment\": \"curious\", \"entities\": {\"user_name\": \"Sam\", \"city\": \"NYC\"}}",
    )
    .unwrap();
    let summary = summary_from_json(&reply).expect("well-shaped reply");
    assert_eq!(summary.summary, "We planned a trip.");
    assert_eq!(summary.sentiment, "curious");
    assert_eq!(summary.entities.user_name, "Sam");
    assert_eq!(summary.entities.other_entities.len(), 1);
    assert_eq!(summary.entities.other_entities[0].0, "city");

    // A present field of the wrong shape refuses the whole reply.
    let bad = hobbes::json::parse_json("{\"summary\": 7}").unwrap();
    assert!(summary_from_json(&bad).is_none());

    // Absent fields default to empty.
    let sparse = hobbes::json::parse_json("{}").unwrap();
    let s = summary_from_json(&sparse).expect("defaults");
    assert_eq!(s.summary, "");
    assert_eq!(s.entities.user_name, "");

    // Installing a summary on the session.
    let mut session = Session::new("s".to_string(), "n".to_string());
    let processor = ConversationProcessor::new();
    assert!(processor.apply_summary(&mut session, &reply));
    assert_eq!(session.active_context.conversation_summary.entities.user_name, "Sam");
    assert!(!processor.apply_summary(&mut session, &bad));
    assert_eq!(session.active_context.conversation_summary.entities.user_name, "Sam");
}

#[test]
fn processing_a_reply_returns_the_latest_text() {
    let mut session = Session::new("s".to_string(), "n".to_string());
    let mut turn = Turn::begin_turn(&mut session, "what now?".to_string());
    turn.on_text_delta(&mut session, "all done");
    let reply = hobbes::json::parse_json("{\"summary\": \"brief\", \"sentiment\": \"calm\"}").unwrap();
    let processor = ConversationProcessor::new();
    let text = processor.process_and_respond(&mut session, &reply);
    assert_eq!(text, "all done");
    assert_eq!(session.active_context.conversation_summary.summary, "brief");
}

#[test]
fn summarizer_prompt_embeds_both_texts() {
    let p = hobbes::processor::build_summarizer_prompt("old summary", "User: hi");
    assert!(p.starts_with("\nYou are an AI assistant that refines a conversation summary."));
    assert!(p.contains("Previous Summary:\n---\nold summary\n---\n"));
    assert!(p.ends_with("Recent Messages:\n---\nUser: hi\n"));
}

#[test]
fn secure_storage_errors_spell_themselves_out() {
    let e = hobbes::security::SecureStorageError::Encryption("no key".to_string());
    assert_eq!(e.message(), "Encryption failed: no key");
    let d = hobbes::security::SecureStorageError::Decryption("bad data".to_string());
    assert_eq!(d.message(), "Decryption failed: bad data");
    let p = hobbes::security::SecureStorageError::Platform("locked".to_string());
    assert_eq!(p.message(), "Platform-specific error: locked");
}

#[test]
fn tool_calls_start_running_with_serialized_arguments() {
    let call = ToolCall::new(
        "srv".to_string(),
        "tool".to_string(),
        &JsonValue::Arr(vec![JsonValue::Num("1".to_string()), JsonValue::Null]),
    );
    assert_eq!(call.server_name, "srv");
    assert_eq!(call.tool_name, "tool");
    assert_eq!(call.arguments, "[1,null]");
    assert_eq!(call.status, ToolCallStatus::Running);
    assert_eq!(call.response, "");
}

#[test]
fn invocations_are_checked_against_the_catalog() {
    let catalog = hobbes::model::McpContext {
        servers: vec![hobbes::model::McpServerContext {
            name: "local".to_string(),
            description: "".to_string(),
            tools: vec![hobbes::model::ToolDef {
                name: "echo".to_string(),
                description: "".to_string(),
                input_schema: JsonValue::Null,
            }],
        }],
    };
    let obj_args = JsonValue::Obj(vec![]);
    assert!(hobbes::mcp::prepare_invocation(
        &catalog,
        &"local".to_string(),
        &"echo".to_string(),
        &obj_args
    )
    .is_ok());
    assert_eq!(
        hobbes::mcp::prepare_invocation(
            &catalog,
            &"remote".to_string(),
            &"echo".to_string(),
            &obj_args
        ),
        Err("Server not found: remote".to_string())
    );
    assert_eq!(
        hobbes::mcp::prepare_invocation(
            &catalog,
            &"local".to_string(),
            &"fetch".to_string(),
            &obj_args
        ),
        Err("Tool not found: fetch".to_string())
    );
    assert_eq!(
        hobbes::mcp::prepare_invocation(
            &catalog,
            &"local".to_string(),
            &"echo".to_string(),
            &JsonValue::Num("7".to_string())
        ),
        Err("Tool arguments must be a JSON object".to_string())
    );
}
