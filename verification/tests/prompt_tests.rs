use hobbes::json::{JsonValue, get_field};
use hobbes::model::{McpContext, McpServerContext, ToolCall, ToolCallRecord, ToolCallStatus,
    ToolDef, ToolResult};
use hobbes::prompt::{PromptBuilder, function_call_string, function_response_string};
use hobbes::session::{Session, SessionState};
use hobbes::settings::Settings;

fn obj(entries: Vec<(&str, JsonValue)>) -> JsonValue {
    JsonValue::Obj(entries.into_iter().map(|(k, v)| (k.to_string(), v)).collect())
}

fn s(text: &str) -> JsonValue {
    JsonValue::Str(text.to_string())
}

fn n(text: &str) -> JsonValue {
    JsonValue::Num(text.to_string())
}

fn weather_catalog() -> McpContext {
    let tool = ToolDef {
        name: "get_weather".to_string(),
        description: "Get the current weather".to_string(),
        input_schema: obj(vec![
            ("$schema", s("http://json-schema.org/draft-07/schema#")),
            ("type", s("object")),
            ("additionalProperties", JsonValue::Bool(false)),
            (
                "properties",
                obj(vec![(
                    "location",
                    obj(vec![("type", s("string")), ("exclusiveMaximum", n("100"))]),
                )]),
            ),
        ]),
    };
    McpContext {
        servers: vec![McpServerContext {
            name: "weather_server".to_string(),
            description: "Provides weather information".to_string(),
            tools: vec![tool],
        }],
    }
}

fn mock_session_with_tools() -> Session {
    let mut session = Session::new("test_session".to_string(), "Test Session".to_string());
    session.active_context.conversation_summary.sentiment = "neutral".to_string();
    session.active_context.conversation_summary.entities.user_name = "TestUser".to_string();
    session.active_context.mcp_tools = Some(weather_catalog());
    session
}

#[test]
fn test_build_prompt_renames_schema_and_removes_keys() {
    let session = mock_session_with_tools();
    let settings = Settings::default();
    let _session_state = SessionState::new();
    let builder = PromptBuilder::new(&session, &settings);

    let prompt = builder.build_prompt("What's the weather?".to_string(), None);

    let tools = prompt.tools.expect("Should have tools");
    let tool_declarations = &tools[0].function_declarations;
    assert_eq!(tool_declarations.len(), 1);

    let tool_json = &tool_declarations[0];

    // The schema entry was renamed from `inputSchema` to `parameters`.
    assert!(get_field(tool_json, &"parameters".to_string()).is_some());
    assert!(get_field(tool_json, &"inputSchema".to_string()).is_none());

    // The keys the endpoint does not understand are gone, at every level.
    let parameters = get_field(tool_json, &"parameters".to_string()).unwrap();
    let properties = get_field(parameters, &"properties".to_string()).unwrap();
    let location = get_field(properties, &"location".to_string()).unwrap();
    assert!(get_field(location, &"exclusiveMaximum".to_string()).is_none());
    assert!(get_field(location, &"type".to_string()).is_some());
    assert!(get_field(parameters, &"$schema".to_string()).is_none());
    assert!(get_field(parameters, &"additionalProperties".to_string()).is_none());
}

#[test]
fn prompt_contents_end_with_the_pending_user_text() {
    let session = mock_session_with_tools();
    let settings = Settings::default();
    let builder = PromptBuilder::new(&session, &settings);
    let prompt = builder.build_prompt("What's the weather?".to_string(), None);
    let last = prompt.contents.last().expect("pending text present");
    assert_eq!(last.role, "user");
    assert_eq!(last.parts[0].text, "What's the weather?");
}

#[test]
fn first_user_message_survives_the_history_window() {
    let mut session = Session::new("id".to_string(), "name".to_string());
    let mut turn = hobbes::orchestrator::Turn::begin_turn(
        &mut session,
        "remember the anchor".to_string(),
    );
    turn.on_text_delta(&mut session, "answer zero");
    // Far more exchanges than the window of eight keeps.
    let mut i = 0;
    while i < 20 {
        let mut t = hobbes::orchestrator::Turn::begin_turn(&mut session, format!("question {}", i));
        t.on_text_delta(&mut session, "answer");
        i += 1;
    }
    let settings = Settings::default();
    assert!(session.messages.len() > settings.chat_history_length);
    let builder = PromptBuilder::new(&session, &settings);
    let prompt = builder.build_prompt(String::new(), None);
    assert_eq!(prompt.contents[0].role, "user");
    assert_eq!(prompt.contents[0].parts[0].text, "remember the anchor");
    // And it is not repeated by the recent window.
    let repeats = prompt
        .contents
        .iter()
        .filter(|c| c.parts[0].text == "remember the anchor")
        .count();
    assert_eq!(repeats, 1);
}

#[test]
fn audit_records_become_call_and_result_entries() {
    let mut session = Session::new("id".to_string(), "name".to_string());
    session.tool_call_history.push(ToolCallRecord {
        call: ToolCall {
            execution_id: "x1".to_string(),
            server_name: "weather_server".to_string(),
            tool_name: "get_weather".to_string(),
            arguments: "{\"loc\":\"NYC\"}".to_string(),
            status: ToolCallStatus::Completed,
            response: "{\"temp\":72}".to_string(),
        },
        result: ToolResult {
            status: ToolCallStatus::Completed,
            response: "{\"temp\":72}".to_string(),
        },
    });
    let settings = Settings::default();
    let builder = PromptBuilder::new(&session, &settings);
    let prompt = builder.build_prompt(String::new(), None);
    assert_eq!(prompt.contents.len(), 2);
    assert_eq!(prompt.contents[0].role, "model");
    assert_eq!(
        prompt.contents[0].parts[0].text,
        "{\"functionCall\": {\"name\": \"get_weather\", \"args\": {\"loc\":\"NYC\"}}}"
    );
    assert_eq!(prompt.contents[1].role, "user");
    assert_eq!(
        prompt.contents[1].parts[0].text,
        "{\"functionResponse\": {\"name\": \"get_weather\", \"response\": {\"result\": {\"temp\":72}}}}"
    );
}

#[test]
fn entry_texts_are_exact() {
    assert_eq!(
        function_call_string(&"t".to_string(), &"{}".to_string()),
        "{\"functionCall\": {\"name\": \"t\", \"args\": {}}}"
    );
    assert_eq!(
        function_response_string(&"t".to_string(), &"7".to_string()),
        "{\"functionResponse\": {\"name\": \"t\", \"response\": {\"result\": 7}}}"
    );
}

#[test]
fn system_instruction_carries_persona_and_directives() {
    let session = mock_session_with_tools();
    let settings = Settings::default();
    let builder = PromptBuilder::new(&session, &settings);
    let prompt = builder.build_prompt("hello".to_string(), None);
    let instruction = prompt.system_instruction.expect("instruction present");
    let text = &instruction.parts[0].text;
    assert!(text.contains("You are Hobbes, a helpful AI assistant."));
    assert!(text.contains("CRITICAL INSTRUCTION:"));
    // The user's name is known, so the ask-the-name directive is absent.
    assert!(!text.contains("user_instruction"));
    assert!(text.contains("current_time"));
    // An unknown name brings the directive in.
    let mut anonymous = mock_session_with_tools();
    anonymous.active_context.conversation_summary.entities.user_name = "  ".to_string();
    let builder2 = PromptBuilder::new(&anonymous, &settings);
    let prompt2 = builder2.build_prompt("hello".to_string(), None);
    let text2 = &prompt2.system_instruction.expect("instruction present").parts[0].text;
    assert!(text2.contains(
        "Your user's name is not in the current SYSTEM_CONTEXT. Please ask them what they would like to be called."
    ));
}
