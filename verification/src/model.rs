//! The conversation data model: messages, tool calls and the records kept of
//! them, and the wire-level prompt shapes handed to the model endpoint.

use vstd::prelude::*;
use crate::json::{JsonView, JsonValue, view_of};

verus! {

/// Who authored a transcript message.
#[derive(Clone, Copy, Debug, PartialEq, Eq, Structural)]
pub enum Author {
    User,
    Agent,
}

/// Where a dispatched tool call stands.  The status only ever moves from
/// `Running` to `Completed` or `Error`.
#[derive(Clone, Copy, Debug, PartialEq, Eq, Structural)]
pub enum ToolCallStatus {
    Running,
    Completed,
    Error,
}

/// One model-requested tool invocation and its lifecycle.
#[derive(Debug, Clone)]
pub struct ToolCall {
    pub execution_id: String,
    pub server_name: String,
    pub tool_name: String,
    /// The call's arguments, as raw JSON text.
    pub arguments: String,
    pub status: ToolCallStatus,
    /// Empty while the call is running.
    pub response: String,
}

/// The ghost mirror of `ToolCall`.
pub struct ToolCallData {
    pub execution_id: Seq<char>,
    pub server_name: Seq<char>,
    pub tool_name: Seq<char>,
    pub arguments: Seq<char>,
    pub status: ToolCallStatus,
    pub response: Seq<char>,
}

impl View for ToolCall {
    type V = ToolCallData;

    open spec fn view(&self) -> ToolCallData {
        ToolCallData {
            execution_id: self.execution_id@,
            server_name: self.server_name@,
            tool_name: self.tool_name@,
            arguments: self.arguments@,
            status: self.status,
            response: self.response@,
        }
    }
}

/// Relies on uuid's Uuid::new_v4 and to_string: a freshly drawn random
/// identifier; nothing is promised of its value.
#[verifier::external_body]
fn new_execution_id() -> String {
    uuid::Uuid::new_v4().to_string()
}

impl ToolCall {
    /// A well-formed call record: the response is empty while it is running.
    pub open spec fn wf(self) -> bool {
        self.status is Running ==> self.response@.len() == 0
    }

    /// A fresh call of `tool_name` on `server_name`: running, no response
    /// yet, the arguments serialized, and a newly drawn execution id.
    pub fn new(server_name: String, tool_name: String, args: &JsonValue) -> (r: ToolCall)
        ensures
            r@.server_name == server_name@,
            r@.tool_name == tool_name@,
            r@.arguments == crate::json::text_of(args@),
            r@.status is Running,
            r@.response.len() == 0,
            r.wf(),
    {
        ToolCall {
            execution_id: new_execution_id(),
            server_name,
            tool_name,
            arguments: crate::json::json_text(args),
            status: ToolCallStatus::Running,
            response: String::new(),
        }
    }
}

/// What a transcript message holds.  The variant changes at most once: a
/// streamed `Text` placeholder can become a `ToolCall`, and a `ToolCall`
/// becomes a `PermissionRequest` when execution needs the user's approval.
#[derive(Debug, Clone)]
pub enum MessageContent {
    Text(String),
    ToolCall(ToolCall),
    PermissionRequest(ToolCall),
}

/// The ghost mirror of `MessageContent`.
pub enum MessageContentView {
    Text(Seq<char>),
    ToolCall(ToolCallData),
    PermissionRequest(ToolCallData),
}

impl View for MessageContent {
    type V = MessageContentView;

    open spec fn view(&self) -> MessageContentView {
        match self {
            MessageContent::Text(t) => MessageContentView::Text(t@),
            MessageContent::ToolCall(c) => MessageContentView::ToolCall(c@),
            MessageContent::PermissionRequest(c) => MessageContentView::PermissionRequest(c@),
        }
    }
}

/// One transcript message.  `visible` is false on synthetic messages that
/// must reach the model but never render.
#[derive(Debug, Clone)]
pub struct Message {
    pub id: u64,
    pub author: Author,
    pub visible: bool,
    pub content: MessageContent,
}

/// The ghost mirror of `Message`.
pub struct MessageView {
    pub id: u64,
    pub author: Author,
    pub visible: bool,
    pub content: MessageContentView,
}

impl View for Message {
    type V = MessageView;

    open spec fn view(&self) -> MessageView {
        MessageView {
            id: self.id,
            author: self.author,
            visible: self.visible,
            content: self.content@,
        }
    }
}

/// The views of a list of messages.
pub open spec fn message_views(s: Seq<Message>) -> Seq<MessageView> {
    Seq::new(s.len(), |i: int| s[i]@)
}

/// How a dispatched tool call resolved.
#[derive(Debug, Clone)]
pub struct ToolResult {
    pub status: ToolCallStatus,
    pub response: String,
}

/// The ghost mirror of `ToolResult`.
pub struct ToolResultView {
    pub status: ToolCallStatus,
    pub response: Seq<char>,
}

impl View for ToolResult {
    type V = ToolResultView;

    open spec fn view(&self) -> ToolResultView {
        ToolResultView { status: self.status, response: self.response@ }
    }
}

/// An immutable audit entry: the call as dispatched, and how it resolved.
#[derive(Debug, Clone)]
pub struct ToolCallRecord {
    pub call: ToolCall,
    pub result: ToolResult,
}

/// The ghost mirror of `ToolCallRecord`.
pub struct ToolCallRecordView {
    pub call: ToolCallData,
    pub result: ToolResultView,
}

impl View for ToolCallRecord {
    type V = ToolCallRecordView;

    open spec fn view(&self) -> ToolCallRecordView {
        ToolCallRecordView { call: self.call@, result: self.result@ }
    }
}

/// The views of a list of tool-call records.
pub open spec fn record_views(s: Seq<ToolCallRecord>) -> Seq<ToolCallRecordView> {
    Seq::new(s.len(), |i: int| s[i]@)
}

/// One decoded event of the model's response stream.
#[derive(Debug, Clone)]
pub enum StreamMessage {
    Text(String),
    ToolCall(ToolCall),
}

/// The ghost mirror of `StreamMessage`.
pub enum StreamMessageView {
    Text(Seq<char>),
    ToolCall(ToolCallData),
}

impl View for StreamMessage {
    type V = StreamMessageView;

    open spec fn view(&self) -> StreamMessageView {
        match self {
            StreamMessage::Text(t) => StreamMessageView::Text(t@),
            StreamMessage::ToolCall(c) => StreamMessageView::ToolCall(c@),
        }
    }
}

/// One role-tagged part of the prompt sent to the model endpoint.
#[derive(Debug, Clone)]
pub struct Part {
    pub text: String,
}

/// A role-tagged prompt entry: `role` is `user` or `model`.
#[derive(Debug, Clone)]
pub struct Content {
    pub role: String,
    pub parts: Vec<Part>,
}

/// The ghost mirror of `Content`: the role and the texts of its parts.
pub struct ContentView {
    pub role: Seq<char>,
    pub parts: Seq<Seq<char>>,
}

impl View for Content {
    type V = ContentView;

    open spec fn view(&self) -> ContentView {
        ContentView {
            role: self.role@,
            parts: Seq::new(self.parts@.len(), |i: int| self.parts@[i].text@),
        }
    }
}

/// The views of a list of prompt entries.
pub open spec fn content_views(s: Seq<Content>) -> Seq<ContentView> {
    Seq::new(s.len(), |i: int| s[i]@)
}

/// The serialized system instruction handed to the model endpoint.
#[derive(Debug, Clone)]
pub struct SystemInstruction {
    pub parts: Vec<Part>,
}

/// One tool offered by a connected tool server, with its declared schema.
#[derive(Debug)]
pub struct ToolDef {
    pub name: String,
    pub description: String,
    /// The schema of the tool's input, as the tool server declared it.
    pub input_schema: JsonValue,
}

/// The ghost mirror of `ToolDef`.
pub struct ToolDefView {
    pub name: Seq<char>,
    pub description: Seq<char>,
    pub input_schema: JsonView,
}

impl View for ToolDef {
    type V = ToolDefView;

    open spec fn view(&self) -> ToolDefView {
        ToolDefView {
            name: self.name@,
            description: self.description@,
            input_schema: view_of(self.input_schema),
        }
    }
}

/// The tool catalog of one connected tool server.
#[derive(Debug)]
pub struct McpServerContext {
    pub name: String,
    pub description: String,
    pub tools: Vec<ToolDef>,
}

/// The ghost mirror of `McpServerContext`.
pub struct McpServerContextView {
    pub name: Seq<char>,
    pub description: Seq<char>,
    pub tools: Seq<ToolDefView>,
}

impl View for McpServerContext {
    type V = McpServerContextView;

    open spec fn view(&self) -> McpServerContextView {
        McpServerContextView {
            name: self.name@,
            description: self.description@,
            tools: Seq::new(self.tools@.len(), |i: int| self.tools@[i]@),
        }
    }
}

/// The combined tool catalog of every connected tool server.
#[derive(Debug)]
pub struct McpContext {
    pub servers: Vec<McpServerContext>,
}

/// The ghost mirror of `McpContext`.
pub struct McpContextView {
    pub servers: Seq<McpServerContextView>,
}

impl View for McpContext {
    type V = McpContextView;

    open spec fn view(&self) -> McpContextView {
        McpContextView {
            servers: Seq::new(self.servers@.len(), |i: int| self.servers@[i]@),
        }
    }
}

/// One independent chat conversation, as the durable record store sees it.
#[derive(Debug, Clone)]
pub struct ChatSession {
    /// A unique identifier for the chat session.
    pub id: String,
    /// An optional, user-editable title for the conversation.
    pub title: Option<String>,
    /// When the chat session was created.
    pub created_at: String,
    /// When the session last gained a message.
    pub last_updated_at: String,
}

/// One message within a `ChatSession`, as the durable record store sees it.
#[derive(Debug, Clone)]
pub struct ChatMessage {
    /// A unique identifier for the message.
    pub id: String,
    /// The `ChatSession` this message belongs to.
    pub session_id: String,
    /// The parent message, where conversations branch; none for the first
    /// message of a branch.
    pub parent_message_id: Option<String>,
    /// The textual content of the message.
    pub content: String,
    /// When the message was created.
    pub timestamp: String,
    /// Who or what created the message.
    pub source: MessageSource,
}

/// Who or what created a stored chat message.
#[derive(Debug, Clone)]
pub enum MessageSource {
    /// The human user.
    User,
    /// The application itself: status updates, errors.
    Agent,
    /// A large language model, with its required metadata.
    Llm { metadata: LlmMetadata },
}

/// Metadata of a stored model-authored message.
#[derive(Debug, Clone)]
pub struct LlmMetadata {
    /// The model that generated the response.
    pub model_name: String,
    /// How many tokens the response took.
    pub token_count: u32,
    /// Why the model stopped generating.
    pub stop_reason: String,
}

/// How one tool server is launched; read from configuration.
#[derive(Debug, Clone)]
pub struct McpServerConfig {
    pub name: String,
    pub command: String,
    pub description: String,
    pub env: Vec<(String, String)>,
    pub disabled: bool,
}

} // verus!
