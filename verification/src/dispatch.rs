//! The tool dispatcher's decisions: whether a call may go to the tool
//! execution service at all, and how its outcome lands in the transcript and
//! the audit log.  The service call itself is I/O and happens outside the
//! library; every decision around it is here.

use vstd::prelude::*;
use crate::json::{JsonValue, JsonView, json_text, lookup, text_of, get_field, view_of};
use crate::model::{
    MessageContent, MessageContentView, MessageView, ToolCall, ToolCallData, ToolCallRecord,
    ToolCallStatus, ToolResult,
};
use crate::permissions::{PermissionStatus, PermissionStatusView};
use crate::session::{Session, msg_index_of, lemma_msg_index_of};

verus! {

/// What the dispatcher does with one tool call, before any I/O.
#[derive(Debug)]
pub enum DispatchAction {
    /// Contact the tool execution service now.
    Invoke,
    /// Rewrite the call's message into a permission request and wait for the
    /// user; the service is not contacted until approval.
    AskPermission,
    /// Record the call as failed with this reason; the service is never
    /// contacted.
    Refuse(String),
}

/// The ghost mirror of `DispatchAction`.
pub enum DispatchActionView {
    Invoke,
    AskPermission,
    Refuse(Seq<char>),
}

impl View for DispatchAction {
    type V = DispatchActionView;

    open spec fn view(&self) -> DispatchActionView {
        match self {
            DispatchAction::Invoke => DispatchActionView::Invoke,
            DispatchAction::AskPermission => DispatchActionView::AskPermission,
            DispatchAction::Refuse(reason) => DispatchActionView::Refuse(reason@),
        }
    }
}

/// The dispatcher's decision for each permission answer: allowed calls run,
/// prompted calls wait for the user, denied calls fail on the spot.
pub open spec fn dispatch_decision(gate: PermissionStatusView) -> DispatchActionView {
    match gate {
        PermissionStatusView::Allowed => DispatchActionView::Invoke,
        PermissionStatusView::RequiresPrompt => DispatchActionView::AskPermission,
        PermissionStatusView::Denied(reason) => DispatchActionView::Refuse(reason),
    }
}

/// Decides what to do with a tool call given the permission gate's verdict,
/// exactly as `dispatch_decision` says.
pub fn dispatch_decide(gate: &PermissionStatus) -> (r: DispatchAction)
    ensures
        r@ == dispatch_decision(gate@),
{
    match gate {
        PermissionStatus::Allowed => DispatchAction::Invoke,
        PermissionStatus::RequiresPrompt => DispatchAction::AskPermission,
        PermissionStatus::Denied(reason) => DispatchAction::Refuse(reason.clone()),
    }
}

/// A denied call never reaches the tool execution service: whenever the
/// permission check answers `Denied`, the dispatcher refuses the call, never
/// invoking and never asking.
pub proof fn lemma_denied_never_invoked(gate: PermissionStatusView)
    requires
        gate is Denied,
    ensures
        dispatch_decision(gate) matches DispatchActionView::Refuse(reason) && reason == gate->0,
        !(dispatch_decision(gate) is Invoke),
        !(dispatch_decision(gate) is AskPermission),
{
}

/// The string field of a JSON object, if present as a string.
pub open spec fn str_field(v: JsonView, k: Seq<char>) -> Option<Seq<char>> {
    match v {
        JsonView::Obj(entries) => match lookup(entries, k) {
            Some(JsonView::Str(s)) => Some(s),
            _ => None,
        },
        _ => None,
    }
}

/// The status field of a serialized tool call.
pub open spec fn status_of_text(s: Seq<char>) -> Option<ToolCallStatus> {
    if s == "Running"@ {
        Some(ToolCallStatus::Running)
    } else if s == "Completed"@ {
        Some(ToolCallStatus::Completed)
    } else if s == "Error"@ {
        Some(ToolCallStatus::Error)
    } else {
        None
    }
}

/// The tool call a JSON document describes, where it describes one: all six
/// fields present with their expected shapes.
pub open spec fn tool_call_of_json(v: JsonView) -> Option<ToolCallData> {
    match (
        str_field(v, "execution_id"@),
        str_field(v, "server_name"@),
        str_field(v, "tool_name"@),
        str_field(v, "arguments"@),
        str_field(v, "status"@),
        str_field(v, "response"@),
    ) {
        (Some(ex), Some(sn), Some(tn), Some(args), Some(st), Some(resp)) => match status_of_text(
            st,
        ) {
            Some(status) => Some(
                ToolCallData {
                    execution_id: ex,
                    server_name: sn,
                    tool_name: tn,
                    arguments: args,
                    status,
                    response: resp,
                },
            ),
            None => None,
        },
        _ => None,
    }
}

fn string_field(v: &JsonValue, k: &str) -> (r: Option<String>)
    ensures
        match r {
            Some(s) => str_field(v@, k@) == Some(s@),
            None => str_field(v@, k@) is None,
        },
{
    let key: String = k.to_owned();
    match get_field(v, &key) {
        Some(JsonValue::Str(s)) => Some(s.clone()),
        _ => None,
    }
}

fn status_field(v: &JsonValue) -> (r: Option<ToolCallStatus>)
    ensures
        ({
            let sf = str_field(v@, "status"@);
            match r {
                Some(st) => sf is Some && status_of_text(sf->0) == Some(st),
                None => sf is None || status_of_text(sf->0) is None,
            }
        }),
{
    match string_field(v, "status") {
        Some(s) => {
            if s.eq(&"Running".to_owned()) {
                Some(ToolCallStatus::Running)
            } else if s.eq(&"Completed".to_owned()) {
                Some(ToolCallStatus::Completed)
            } else if s.eq(&"Error".to_owned()) {
                Some(ToolCallStatus::Error)
            } else {
                None
            }
        },
        None => None,
    }
}

/// Reads a serialized tool call back out of a JSON document, exactly as
/// `tool_call_of_json` says.  A tool server that only discovers mid-call that
/// approval is needed answers with such a document.
pub fn tool_call_from_json(v: &JsonValue) -> (r: Option<ToolCall>)
    ensures
        match r {
            Some(tc) => tool_call_of_json(v@) == Some(tc@),
            None => tool_call_of_json(v@) is None,
        },
{
    let execution_id = match string_field(v, "execution_id") {
        Some(s) => s,
        None => {
            return None;
        },
    };
    let server_name = match string_field(v, "server_name") {
        Some(s) => s,
        None => {
            return None;
        },
    };
    let tool_name = match string_field(v, "tool_name") {
        Some(s) => s,
        None => {
            return None;
        },
    };
    let arguments = match string_field(v, "arguments") {
        Some(s) => s,
        None => {
            return None;
        },
    };
    let status = match status_field(v) {
        Some(s) => s,
        None => {
            return None;
        },
    };
    let response = match string_field(v, "response") {
        Some(s) => s,
        None => {
            return None;
        },
    };
    Some(ToolCall { execution_id, server_name, tool_name, arguments, status, response })
}

/// A field-for-field copy of a tool call.
pub fn clone_tool_call(c: &ToolCall) -> (r: ToolCall)
    ensures
        r@ == c@,
{
    ToolCall {
        execution_id: c.execution_id.clone(),
        server_name: c.server_name.clone(),
        tool_name: c.tool_name.clone(),
        arguments: c.arguments.clone(),
        status: c.status,
        response: c.response.clone(),
    }
}

/// How the tool execution service answered one invocation.
#[derive(Debug)]
pub enum ServiceOutcome {
    /// The tool ran; this is its result document.
    Success(JsonValue),
    /// The tool failed; this is the human-readable reason.
    Failure(String),
}

/// The result entry a service outcome resolves to: a success is recorded
/// completed with the serialized result; a failure is recorded as an error
/// with its reason, also when the reason is itself a permission request.
pub open spec fn outcome_result(outcome: ServiceOutcome) -> (ToolCallStatus, Seq<char>) {
    match outcome {
        ServiceOutcome::Success(v) => (ToolCallStatus::Completed, text_of(view_of(v))),
        ServiceOutcome::Failure(e) => (ToolCallStatus::Error, e@),
    }
}

/// What the transcript message of a resolved call ends up holding.
pub open spec fn resolved_content(call: ToolCallData, outcome: ServiceOutcome) -> MessageContentView {
    match outcome {
        ServiceOutcome::Success(v) => MessageContentView::ToolCall(
            ToolCallData {
                status: ToolCallStatus::Completed,
                response: text_of(view_of(v)),
                ..call
            },
        ),
        ServiceOutcome::Failure(e) => match crate::json::parsed_json(e@) {
            Some(doc) => match tool_call_of_json(doc) {
                // A structured approval demand: the message becomes a
                // permission request instead of a hard error.
                Some(req) => MessageContentView::PermissionRequest(req),
                None => MessageContentView::ToolCall(
                    ToolCallData { status: ToolCallStatus::Error, response: e@, ..call },
                ),
            },
            None => MessageContentView::ToolCall(
                ToolCallData { status: ToolCallStatus::Error, response: e@, ..call },
            ),
        },
    }
}

/// Resolves one dispatched call: updates the call's transcript message as
/// `resolved_content` says (where the message still exists) and returns the
/// audit record of `outcome_result`.  The record is returned for every
/// outcome: the fan-in loses no call.
pub fn resolve_tool_call(
    session: &mut Session,
    message_id: u64,
    call: &ToolCall,
    outcome: ServiceOutcome,
) -> (r: ToolCallRecord)
    ensures
            r@.call == call@,
            r@.result.status == outcome_result(outcome).0,
            r@.result.response == outcome_result(outcome).1,
            old(session).wf() ==> final(session).wf(),
            final(session).next_message_id == old(session).next_message_id,
            final(session).active_context == old(session).active_context,
            final(session).tool_call_history == old(session).tool_call_history,
            match msg_index_of(old(session)@.messages, message_id) {
                None => final(session).messages == old(session).messages,
                Some(j) => final(session)@.messages == old(session)@.messages.update(
                    j,
                    MessageView {
                        content: resolved_content(call@, outcome),
                        ..old(session)@.messages[j]
                    },
                ),
            },
{
    let (status, response, content): (ToolCallStatus, String, MessageContent) = match &outcome {
        ServiceOutcome::Success(v) => {
            let text = json_text(v);
            let mut updated = clone_tool_call(call);
            updated.status = ToolCallStatus::Completed;
            updated.response = text.clone();
            (ToolCallStatus::Completed, text, MessageContent::ToolCall(updated))
        },
        ServiceOutcome::Failure(e) => {
            let parsed = crate::json::parse_json(e.as_str());
            let req = match &parsed {
                Some(doc) => tool_call_from_json(doc),
                None => None,
            };
            match req {
                Some(request) => (
                    ToolCallStatus::Error,
                    e.clone(),
                    MessageContent::PermissionRequest(request),
                ),
                None => {
                    let mut failed = clone_tool_call(call);
                    failed.status = ToolCallStatus::Error;
                    failed.response = e.clone();
                    (ToolCallStatus::Error, e.clone(), MessageContent::ToolCall(failed))
                },
            }
        },
    };
    session.set_message_content(message_id, content);
    ToolCallRecord { call: clone_tool_call(call), result: ToolResult { status, response } }
}

/// The position of the first message holding a permission request with this
/// execution id, if any.
pub open spec fn perm_index_of(s: Seq<MessageView>, ex: Seq<char>) -> Option<int>
    decreases s,
{
    if s.len() == 0 {
        None
    } else if s[0].content matches MessageContentView::PermissionRequest(tc) && tc.execution_id
        == ex {
        Some(0int)
    } else {
        match perm_index_of(s.subrange(1, s.len() as int), ex) {
            Some(j) => Some(j + 1),
            None => None,
        }
    }
}

pub proof fn lemma_perm_index_of(s: Seq<MessageView>, ex: Seq<char>)
    ensures
        match perm_index_of(s, ex) {
            Some(j) => 0 <= j < s.len() && (s[j].content matches
                MessageContentView::PermissionRequest(tc) && tc.execution_id == ex) && (forall|
                i: int,
            |
                0 <= i < j ==> !(#[trigger] s[i].content matches
                    MessageContentView::PermissionRequest(tc) && tc.execution_id == ex)),
            None => forall|i: int|
                0 <= i < s.len() ==> !(#[trigger] s[i].content matches
                    MessageContentView::PermissionRequest(tc) && tc.execution_id == ex),
        },
    decreases s,
{
    if s.len() > 0 {
        let rest = s.subrange(1, s.len() as int);
        lemma_perm_index_of(rest, ex);
        assert(forall|i: int| 1 <= i < s.len() ==> s[i] == rest[i - 1]);
    }
}

fn find_permission_request(session: &Session, execution_id: &String) -> (r: Option<usize>)
    ensures
        match r {
            Some(j) => perm_index_of(session@.messages, execution_id@) == Some(j as int),
            None => perm_index_of(session@.messages, execution_id@) is None,
        },
{
    proof {
        lemma_perm_index_of(session@.messages, execution_id@);
    }
    let mut i: usize = 0;
    while i < session.messages.len()
        invariant
            0 <= i <= session@.messages.len(),
            forall|j: int|
                0 <= j < i ==> !(#[trigger] session@.messages[j].content matches
                    MessageContentView::PermissionRequest(tc) && tc.execution_id == execution_id@),
        decreases session@.messages.len() - i,
    {
        let hit = match &session.messages[i].content {
            MessageContent::PermissionRequest(tc) => tc.execution_id.eq(execution_id),
            _ => false,
        };
        if hit {
            proof {
                lemma_perm_index_of(session@.messages, execution_id@);
                match perm_index_of(session@.messages, execution_id@) {
                    Some(j) => {
                        if j < i as int {
                            assert(!(session@.messages[j].content matches
                                MessageContentView::PermissionRequest(tc) && tc.execution_id
                                == execution_id@));
                            assert(false);
                        }
                        if j > i as int {
                            assert(!(session@.messages[i as int].content matches
                                MessageContentView::PermissionRequest(tc) && tc.execution_id
                                == execution_id@));
                            assert(false);
                        }
                    },
                    None => {
                        assert(session@.messages[i as int].content matches
                            MessageContentView::PermissionRequest(tc) && tc.execution_id
                            == execution_id@);
                        assert(false);
                    },
                }
            }
            return Some(i);
        }
        i += 1;
    }
    None
}

pub open spec fn denied_by_user_text() -> Seq<char> {
    "Denied by user."@
}

/// The user denied a pending permission request: the suspended call's message
/// becomes an errored tool call with the fixed denial text, and the tool
/// execution service is never contacted for it.  Reports whether such a
/// request was found.
pub fn deny_permission(session: &mut Session, execution_id: &String) -> (r: bool)
    requires
        old(session).wf(),
    ensures
        final(session).wf(),
        final(session).next_message_id == old(session).next_message_id,
        final(session).tool_call_history == old(session).tool_call_history,
        final(session).active_context == old(session).active_context,
        match perm_index_of(old(session)@.messages, execution_id@) {
            None => !r && final(session).messages == old(session).messages,
            Some(j) => r && (old(session)@.messages[j].content matches
                MessageContentView::PermissionRequest(tc) ==> final(session)@.messages == old(
                session,
            )@.messages.update(
                j,
                MessageView {
                    content: MessageContentView::ToolCall(
                        ToolCallData {
                            status: ToolCallStatus::Error,
                            response: denied_by_user_text(),
                            ..tc
                        },
                    ),
                    ..old(session)@.messages[j]
                },
            )),
        },
{
    proof {
        lemma_perm_index_of(session@.messages, execution_id@);
    }
    match find_permission_request(session, execution_id) {
        None => false,
        Some(j) => {
            let updated = match &session.messages[j].content {
                MessageContent::PermissionRequest(tc) => {
                    let mut u = clone_tool_call(tc);
                    u.status = ToolCallStatus::Error;
                    u.response = "Denied by user.".to_owned();
                    u
                },
                _ => {
                    proof {
                        assert(false);
                    }
                    ToolCall {
                        execution_id: String::new(),
                        server_name: String::new(),
                        tool_name: String::new(),
                        arguments: String::new(),
                        status: ToolCallStatus::Error,
                        response: String::new(),
                    }
                },
            };
            let id = session.messages[j].id;
            proof {
                lemma_msg_index_of(session@.messages, id);
                crate::session::lemma_unique_id_index(old(session)@.messages, j as int);
            }
            session.set_message_content(id, MessageContent::ToolCall(updated));
            true
        },
    }
}

/// The user approved a pending permission request and the service answered:
/// the suspended call's message becomes a tool call resolved by the outcome
/// (a late structured approval demand counts as a plain error here).  Reports
/// whether such a request was found.
pub fn resolve_approved(session: &mut Session, execution_id: &String, outcome: ServiceOutcome) -> (r:
    bool)
    requires
        old(session).wf(),
    ensures
        final(session).wf(),
        final(session).next_message_id == old(session).next_message_id,
        final(session).tool_call_history == old(session).tool_call_history,
        final(session).active_context == old(session).active_context,
        match perm_index_of(old(session)@.messages, execution_id@) {
            None => !r && final(session).messages == old(session).messages,
            Some(j) => r && (old(session)@.messages[j].content matches
                MessageContentView::PermissionRequest(tc) ==> final(session)@.messages == old(
                session,
            )@.messages.update(
                j,
                MessageView {
                    content: MessageContentView::ToolCall(
                        ToolCallData {
                            status: outcome_result(outcome).0,
                            response: outcome_result(outcome).1,
                            ..tc
                        },
                    ),
                    ..old(session)@.messages[j]
                },
            )),
        },
{
    proof {
        lemma_perm_index_of(session@.messages, execution_id@);
    }
    match find_permission_request(session, execution_id) {
        None => false,
        Some(j) => {
            let (status, response): (ToolCallStatus, String) = match &outcome {
                ServiceOutcome::Success(v) => (ToolCallStatus::Completed, json_text(v)),
                ServiceOutcome::Failure(e) => (ToolCallStatus::Error, e.clone()),
            };
            let updated = match &session.messages[j].content {
                MessageContent::PermissionRequest(tc) => {
                    let mut u = clone_tool_call(tc);
                    u.status = status;
                    u.response = response;
                    u
                },
                _ => {
                    proof {
                        assert(false);
                    }
                    ToolCall {
                        execution_id: String::new(),
                        server_name: String::new(),
                        tool_name: String::new(),
                        arguments: String::new(),
                        status: ToolCallStatus::Error,
                        response: String::new(),
                    }
                },
            };
            let id = session.messages[j].id;
            proof {
                lemma_msg_index_of(session@.messages, id);
                crate::session::lemma_unique_id_index(old(session)@.messages, j as int);
            }
            session.set_message_content(id, MessageContent::ToolCall(updated));
            true
        },
    }
}

} // verus!