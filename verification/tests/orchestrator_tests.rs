use hobbes::dispatch::{
    DispatchAction, ServiceOutcome, deny_permission, dispatch_decide, resolve_approved,
    resolve_tool_call,
};
use hobbes::json::JsonValue;
use hobbes::model::{Author, MessageContent, ToolCall, ToolCallStatus};
use hobbes::orchestrator::{Turn, TurnPhase, complete_fan_in};
use hobbes::permissions::{PermissionManager, PermissionStatus, ToolCategory};
use hobbes::prompt::PromptBuilder;
use hobbes::session::Session;
use hobbes::settings::Settings;

fn fresh_session() -> Session {
    Session::new("s1".to_string(), "Chat 1".to_string())
}

fn weather_call() -> ToolCall {
    ToolCall::new(
        "weather_server".to_string(),
        "get_weather".to_string(),
        &JsonValue::Obj(vec![("loc".to_string(), JsonValue::Str("NYC".to_string()))]),
    )
}

#[test]
fn turn_without_tool_calls_gains_exactly_two_messages() {
    let mut session = fresh_session();
    let mut turn = Turn::begin_turn(&mut session, "Hi".to_string());
    turn.on_text_delta(&mut session, "Hello");
    turn.on_text_delta(&mut session, " world");
    let waiting = turn.on_stream_done();
    assert!(!waiting);
    assert_eq!(turn.phase, TurnPhase::Done);
    // Exactly two messages: the user's text and one agent text message.
    assert_eq!(session.messages.len(), 2);
    assert!(matches!(session.messages[0].author, Author::User));
    assert!(matches!(&session.messages[0].content, MessageContent::Text(t) if t == "Hi"));
    assert!(matches!(session.messages[1].author, Author::Agent));
    assert!(matches!(&session.messages[1].content, MessageContent::Text(t) if t == "Hello world"));
}

#[test]
fn weather_tool_round_trip_feeds_the_followup_prompt() {
    let mut session = fresh_session();
    let mut turn = Turn::begin_turn(&mut session, "What's the weather?".to_string());

    // The stream's first content is one tool call; it repurposes the
    // placeholder message.
    let call = weather_call();
    assert_eq!(call.arguments, "{\"loc\":\"NYC\"}");
    let message_id = turn.on_tool_call(&mut session, call);
    assert_eq!(turn.dispatched, 1);
    assert_eq!(session.messages.len(), 2);

    let waiting = turn.on_stream_done();
    assert!(waiting);
    assert_eq!(turn.phase, TurnPhase::AwaitingToolResults);

    // The service answers with success; the record and the transcript both
    // carry the result.
    let snapshot = match &session.messages[1].content {
        MessageContent::ToolCall(tc) => hobbes::dispatch::clone_tool_call(tc),
        _ => panic!("placeholder should hold the tool call"),
    };
    let outcome = ServiceOutcome::Success(JsonValue::Obj(vec![(
        "temp".to_string(),
        JsonValue::Num("72".to_string()),
    )]));
    let record = resolve_tool_call(&mut session, message_id, &snapshot, outcome);
    assert_eq!(record.result.status, ToolCallStatus::Completed);
    assert!(record.result.response.contains("72"));
    match &session.messages[1].content {
        MessageContent::ToolCall(tc) => {
            assert_eq!(tc.status, ToolCallStatus::Completed);
            assert!(tc.response.contains("72"));
        },
        _ => panic!("the message should stay a tool call"),
    }

    // Fan-in: the one record lands before the follow-up is built.
    turn.on_record(record);
    assert_eq!(turn.records.len() as u64, turn.dispatched);
    let (turn, follow_up) = complete_fan_in(&mut session, turn);
    assert!(follow_up);
    assert_eq!(turn.phase, TurnPhase::AwaitingModel);
    assert_eq!(session.tool_call_history.len(), 1);

    // The follow-up prompt carries the function-call/function-result pair.
    let settings = Settings::default();
    let builder = PromptBuilder::new(&session, &settings);
    let prompt = builder.build_prompt(String::new(), None);
    let call_entry = prompt
        .contents
        .iter()
        .find(|c| c.parts[0].text.contains("functionCall"))
        .expect("function-call entry present");
    assert!(call_entry.parts[0].text.contains("get_weather"));
    assert_eq!(call_entry.role, "model");
    let result_entry = prompt
        .contents
        .iter()
        .find(|c| c.parts[0].text.contains("functionResponse"))
        .expect("function-result entry present");
    assert!(result_entry.parts[0].text.contains("get_weather"));
    assert!(result_entry.parts[0].text.contains("72"));
    assert_eq!(result_entry.role, "user");
}

#[test]
fn records_are_counted_regardless_of_completion_order() {
    let mut session = fresh_session();
    let mut turn = Turn::begin_turn(&mut session, "do three things".to_string());
    let mut ids = Vec::new();
    let mut calls = Vec::new();
    for _ in 0..3 {
        let call = weather_call();
        calls.push(hobbes::dispatch::clone_tool_call(&call));
        ids.push(turn.on_tool_call(&mut session, call));
    }
    assert_eq!(turn.dispatched, 3);
    let waiting = turn.on_stream_done();
    assert!(waiting);

    // The dispatched calls resolve in reverse order; the fan-in still
    // collects exactly three records before the follow-up is built.
    for k in [2usize, 0, 1] {
        let outcome = ServiceOutcome::Failure("boom".to_string());
        let record = resolve_tool_call(&mut session, ids[k], &calls[k], outcome);
        turn.on_record(record);
    }
    assert_eq!(turn.records.len(), 3);
    assert_eq!(turn.records.len() as u64, turn.dispatched);
    let (_turn, follow_up) = complete_fan_in(&mut session, turn);
    assert!(follow_up);
    assert_eq!(session.tool_call_history.len(), 3);
}

#[test]
fn followup_depth_is_capped() {
    let mut session = fresh_session();
    let mut turn = Turn::begin_turn(&mut session, "loop forever".to_string());
    let mut round = 0;
    loop {
        let call = weather_call();
        let snapshot = hobbes::dispatch::clone_tool_call(&call);
        let id = turn.on_tool_call(&mut session, call);
        assert!(turn.on_stream_done());
        let record = resolve_tool_call(
            &mut session,
            id,
            &snapshot,
            ServiceOutcome::Failure("nope".to_string()),
        );
        turn.on_record(record);
        let (next_turn, follow_up) = complete_fan_in(&mut session, turn);
        turn = next_turn;
        round += 1;
        if !follow_up {
            break;
        }
        assert!(round <= 4, "the fifth round must be cut off");
    }
    assert_eq!(round, 5);
    // Even the cut-off round's record reached the audit log: no silent drops.
    assert_eq!(session.tool_call_history.len(), 5);
    assert_eq!(turn.phase, TurnPhase::Done);
    assert!(matches!(
        &session.messages.last().unwrap().content,
        MessageContent::Text(t)
            if t == "[Hobbes stopped this turn: too many consecutive tool-call rounds.]"
    ));
}

#[test]
fn denied_gate_never_reaches_the_service() {
    // A test double for the tool execution service: counts its calls.
    let mut service_calls = 0;

    // The budget is exhausted: every check is denied.
    let mut manager = PermissionManager::new();
    let mut settings = Settings::default();
    settings.permission_settings.max_requests = 1;
    let mut i = 0;
    while i < 2 {
        manager.note_request();
        i += 1;
    }
    let gate = manager.check_permission(&settings.permission_settings, &ToolCategory::Mcp);
    assert!(matches!(&gate, PermissionStatus::Denied(reason) if reason == "Request limit reached"));

    match dispatch_decide(&gate) {
        DispatchAction::Invoke => {
            service_calls += 1;
        },
        DispatchAction::AskPermission => panic!("a denied call must not prompt"),
        DispatchAction::Refuse(reason) => {
            assert_eq!(reason, "Request limit reached");
        },
    }
    assert_eq!(service_calls, 0);
}

#[test]
fn gate_decisions_follow_the_policy() {
    let manager = PermissionManager::new();
    let mut settings = Settings::default();
    // Auto-approval on and the category granted: allowed.
    let gate = manager.check_permission(&settings.permission_settings, &ToolCategory::Mcp);
    assert!(matches!(gate, PermissionStatus::Allowed));
    // Auto-approval off: every call prompts.
    settings.permission_settings.auto_approval_enabled = false;
    let gate = manager.check_permission(&settings.permission_settings, &ToolCategory::Mcp);
    assert!(matches!(gate, PermissionStatus::RequiresPrompt));
    // Auto-approval on but the category not granted: denied with the fixed
    // category text.
    settings.permission_settings.auto_approval_enabled = true;
    settings.permission_settings.granular_permissions = vec![(ToolCategory::Mcp, false)];
    let gate = manager.check_permission(&settings.permission_settings, &ToolCategory::Mcp);
    assert!(matches!(
        &gate,
        PermissionStatus::Denied(reason)
            if reason == "Auto-approval is on, but permission is denied for category: Mcp"
    ));
    // Cost exhausted: denied with the cost text.
    let broke = PermissionManager { request_count: 0, current_cost_cents: 100 };
    let gate = broke.check_permission(&Settings::default().permission_settings, &ToolCategory::Mcp);
    assert!(matches!(&gate, PermissionStatus::Denied(reason) if reason == "Cost limit reached"));
}

#[test]
fn midcall_approval_demand_becomes_a_permission_request() {
    let mut session = fresh_session();
    let mut turn = Turn::begin_turn(&mut session, "restricted thing".to_string());
    let call = weather_call();
    let snapshot = hobbes::dispatch::clone_tool_call(&call);
    let id = turn.on_tool_call(&mut session, call);
    // The service's failure payload is itself a serialized tool call: the
    // server demands approval mid-call.
    let demand = format!(
        "{{\"execution_id\":\"{}\",\"server_name\":\"weather_server\",\"tool_name\":\"get_weather\",\"arguments\":\"{{}}\",\"status\":\"Running\",\"response\":\"\"}}",
        snapshot.execution_id
    );
    let record = resolve_tool_call(&mut session, id, &snapshot, ServiceOutcome::Failure(demand));
    assert_eq!(record.result.status, ToolCallStatus::Error);
    assert!(matches!(
        &session.messages[1].content,
        MessageContent::PermissionRequest(tc) if tc.tool_name == "get_weather"
    ));

    // The user denies: the request becomes an errored call, no service
    // contact.
    let ok = deny_permission(&mut session, &snapshot.execution_id);
    assert!(ok);
    match &session.messages[1].content {
        MessageContent::ToolCall(tc) => {
            assert_eq!(tc.status, ToolCallStatus::Error);
            assert_eq!(tc.response, "Denied by user.");
        },
        _ => panic!("the denied request should be a tool call again"),
    }
}

#[test]
fn approval_resolves_with_the_service_outcome() {
    let mut session = fresh_session();
    let mut turn = Turn::begin_turn(&mut session, "restricted thing".to_string());
    let call = weather_call();
    let snapshot = hobbes::dispatch::clone_tool_call(&call);
    let id = turn.on_tool_call(&mut session, call);
    let demand = format!(
        "{{\"execution_id\":\"{}\",\"server_name\":\"weather_server\",\"tool_name\":\"get_weather\",\"arguments\":\"{{}}\",\"status\":\"Running\",\"response\":\"\"}}",
        snapshot.execution_id
    );
    resolve_tool_call(&mut session, id, &snapshot, ServiceOutcome::Failure(demand));
    let ok = resolve_approved(
        &mut session,
        &snapshot.execution_id,
        ServiceOutcome::Success(JsonValue::Obj(vec![(
            "temp".to_string(),
            JsonValue::Num("72".to_string()),
        )])),
    );
    assert!(ok);
    match &session.messages[1].content {
        MessageContent::ToolCall(tc) => {
            assert_eq!(tc.status, ToolCallStatus::Completed);
            assert_eq!(tc.response, "{\"temp\":72}");
        },
        _ => panic!("the approved request should be a completed tool call"),
    }
}
