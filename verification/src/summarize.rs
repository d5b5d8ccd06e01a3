//! The tool-call summarizer: after a turn, the audit log is folded into the
//! session's free-form context as compact snapshots, so follow-up prompts can
//! refer to past calls without carrying their full payloads.

use vstd::prelude::*;
use crate::json::{JsonValue, JsonView, views_of_entries, lemma_views_of_entries,
    lemma_views_of_entries_push};
use crate::model::{ToolCallRecord, ToolCallRecordView, ToolCallStatus, record_views};
use crate::session::Session;

verus! {

/// The display word of a call status.
pub open spec fn status_text(s: ToolCallStatus) -> Seq<char> {
    match s {
        ToolCallStatus::Running => "Running"@,
        ToolCallStatus::Completed => "Completed"@,
        ToolCallStatus::Error => "Error"@,
    }
}

/// The one-line summary a resolved call is remembered by.
pub open spec fn snapshot_summary_text(r: ToolCallRecordView) -> Seq<char> {
    "Tool call '"@ + r.call.tool_name + "' on server '"@ + r.call.server_name
        + "' finished with status '"@ + status_text(r.result.status) + "'."@
}

/// The context key a call's snapshot is stored under.
pub open spec fn snapshot_key(r: ToolCallRecordView) -> Seq<char> {
    "tool_snapshot_"@ + r.call.execution_id
}

/// Where the call's full result can be retrieved from long-term storage.
pub open spec fn snapshot_ref_text(r: ToolCallRecordView) -> Seq<char> {
    "qdrant_vector_id:"@ + r.call.execution_id
}

/// The snapshot document of one resolved call.
pub open spec fn snapshot_json(r: ToolCallRecordView) -> JsonView {
    JsonView::Obj(
        seq![
            ("tool_name"@, JsonView::Str(r.call.tool_name)),
            ("arguments"@, JsonView::Str(r.call.arguments)),
            ("result_summary"@, JsonView::Str(snapshot_summary_text(r))),
            ("full_result_ref"@, JsonView::Str(snapshot_ref_text(r))),
        ],
    )
}

/// The context entries the records fold into, in order.
pub open spec fn snapshot_entries(rs: Seq<ToolCallRecordView>) -> Seq<(Seq<char>, JsonView)>
    decreases rs,
{
    if rs.len() == 0 {
        Seq::empty()
    } else {
        seq![(snapshot_key(rs[0]), snapshot_json(rs[0]))]
            + snapshot_entries(rs.subrange(1, rs.len() as int))
    }
}

proof fn lemma_snapshot_entries_push(rs: Seq<ToolCallRecordView>, r: ToolCallRecordView)
    ensures
        snapshot_entries(rs.push(r)) == snapshot_entries(rs).push((snapshot_key(r), snapshot_json(r))),
    decreases rs,
{
    let s = rs.push(r);
    if rs.len() == 0 {
        assert(s[0] == r);
        assert(snapshot_entries(Seq::<ToolCallRecordView>::empty())
            =~= Seq::<(Seq<char>, JsonView)>::empty());
        assert(s.subrange(1, s.len() as int) =~= Seq::<ToolCallRecordView>::empty());
        assert(snapshot_entries(s) =~= snapshot_entries(rs).push((snapshot_key(r), snapshot_json(r))));
    } else {
        let rest = rs.subrange(1, rs.len() as int);
        lemma_snapshot_entries_push(rest, r);
        assert(s[0] == rs[0]);
        assert(s.subrange(1, s.len() as int) =~= rest.push(r));
        assert(snapshot_entries(s) =~= snapshot_entries(rs).push((snapshot_key(r), snapshot_json(r))));
    }
}

/// The display word of a call status.
pub fn status_string(s: ToolCallStatus) -> (r: String)
    ensures
        r@ == status_text(s),
{
    match s {
        ToolCallStatus::Running => "Running".to_owned(),
        ToolCallStatus::Completed => "Completed".to_owned(),
        ToolCallStatus::Error => "Error".to_owned(),
    }
}

fn build_snapshot(record: &ToolCallRecord) -> (r: (String, JsonValue))
    ensures
        r.0@ == snapshot_key(record@),
        r.1@ == snapshot_json(record@),
{
    let mut summary: String = "Tool call '".to_owned();
    summary.append(record.call.tool_name.as_str());
    summary.append("' on server '");
    summary.append(record.call.server_name.as_str());
    summary.append("' finished with status '");
    summary.append(status_string(record.result.status).as_str());
    summary.append("'.");

    let mut key: String = "tool_snapshot_".to_owned();
    key.append(record.call.execution_id.as_str());

    let mut result_ref: String = "qdrant_vector_id:".to_owned();
    result_ref.append(record.call.execution_id.as_str());

    let mut entries: Vec<(String, JsonValue)> = Vec::new();
    entries.push(("tool_name".to_owned(), JsonValue::Str(record.call.tool_name.clone())));
    entries.push(("arguments".to_owned(), JsonValue::Str(record.call.arguments.clone())));
    entries.push(("result_summary".to_owned(), JsonValue::Str(summary)));
    entries.push(("full_result_ref".to_owned(), JsonValue::Str(result_ref)));
    proof {
        lemma_views_of_entries(entries@);
        assert(views_of_entries(entries@) =~= snapshot_json(record@)->Obj_0);
    }
    (key, JsonValue::Obj(entries))
}

/// Folds resolved tool calls into the session context between turns.
#[derive(Debug)]
pub struct ToolCallSummarizer {
}

impl ToolCallSummarizer {
    pub fn new() -> ToolCallSummarizer {
        ToolCallSummarizer {  }
    }

    /// Empties the session's audit log, leaving one compact snapshot entry
    /// per record in the session's free-form context, in order.
    #[verifier::loop_isolation(false)]
    pub fn summarize_and_cleanup(&self, session: &mut Session)
        ensures
            final(session)@.tool_call_history.len() == 0,
            views_of_entries(final(session).active_context.extra@) == views_of_entries(
                old(session).active_context.extra@,
            ) + snapshot_entries(old(session)@.tool_call_history),
            final(session).messages == old(session).messages,
            final(session).next_message_id == old(session).next_message_id,
            final(session).active_context.system_persona == old(
                session,
            ).active_context.system_persona,
            final(session).active_context.user_instruction == old(
                session,
            ).active_context.user_instruction,
            final(session).active_context.conversation_summary == old(
                session,
            ).active_context.conversation_summary,
            final(session).active_context.mcp_tools == old(session).active_context.mcp_tools,
            old(session).wf() ==> final(session).wf(),
    {
        let ghost history0 = session@.tool_call_history;
        let ghost extra0 = views_of_entries(session.active_context.extra@);
        proof {
            assert(history0.subrange(0, 0) =~= Seq::<ToolCallRecordView>::empty());
            assert(snapshot_entries(history0.subrange(0, 0)) =~= Seq::<(Seq<char>, JsonView)>::empty());
            assert(extra0 + snapshot_entries(history0.subrange(0, 0)) =~= extra0);
        }
        let n = session.tool_call_history.len();
        let mut i: usize = 0;
        while i < n
            invariant
                0 <= i <= n,
                n == session.tool_call_history@.len(),
                session.tool_call_history == old(session).tool_call_history,
                history0.len() == n,
                views_of_entries(session.active_context.extra@) == extra0 + snapshot_entries(
                    history0.subrange(0, i as int),
                ),
                session.messages == old(session).messages,
                session.next_message_id == old(session).next_message_id,
                session.active_context.system_persona == old(session).active_context.system_persona,
                session.active_context.user_instruction == old(
                    session,
                ).active_context.user_instruction,
                session.active_context.conversation_summary == old(
                    session,
                ).active_context.conversation_summary,
                session.active_context.mcp_tools == old(session).active_context.mcp_tools,
            decreases n - i,
        {
            let ghost pre = history0.subrange(0, i as int);
            proof {
                assert(record_views(session.tool_call_history@)[i as int]
                    == session.tool_call_history@[i as int]@);
                assert(history0.subrange(0, i + 1 as int) =~= pre.push(history0[i as int]));
                lemma_snapshot_entries_push(pre, history0[i as int]);
            }
            let snapshot = build_snapshot(&session.tool_call_history[i]);
            proof {
                lemma_views_of_entries_push(session.active_context.extra@, (snapshot.0, snapshot.1));
            }
            session.active_context.extra.push(snapshot);
            i += 1;
        }
        proof {
            assert(history0.subrange(0, n as int) =~= history0);
        }
        session.tool_call_history = Vec::new();
        proof {
            assert(session@.tool_call_history =~= Seq::<ToolCallRecordView>::empty());
        }
    }
}

} // verus!
