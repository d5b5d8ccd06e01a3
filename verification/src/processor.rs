//! The conversation processor's decisions: formatting the recent transcript
//! for the summarizer model, and reading the refined summary back out of the
//! model's reply.  The model call between the two is I/O and happens outside
//! the library.

use vstd::prelude::*;
use crate::json::{JsonValue, JsonView, lookup, views_of_entries, remove_key,
    lemma_views_of_entries, lemma_remove_key_push, lemma_views_of_entries_push};
use crate::model::{Author, Message, MessageContentView, MessageView, message_views};
use crate::session::{
    ConversationSummary, ConversationSummaryEntities, ConversationSummaryView,
    ConversationSummaryEntitiesView, Session,
};

verus! {

/// The label a message's author gets in the summarizer's transcript.
pub open spec fn author_label(a: Author) -> Seq<char> {
    if a is User {
        "User"@
    } else {
        "Hobbes"@
    }
}

/// One transcript line for the summarizer: the author's label, then the
/// message's text, a tool call named in brackets.
pub open spec fn message_line(m: MessageView) -> Seq<char> {
    author_label(m.author) + ": "@ + (match m.content {
        MessageContentView::Text(t) => t,
        MessageContentView::ToolCall(c) => "[Tool Call: "@ + c.tool_name + "]"@,
        MessageContentView::PermissionRequest(c) => "[Tool Call: "@ + c.tool_name + "]"@,
    })
}

/// The lines of a stretch of transcript, newline-joined.
pub open spec fn history_lines(ms: Seq<MessageView>) -> Seq<char>
    decreases ms,
{
    if ms.len() == 0 {
        Seq::empty()
    } else if ms.len() == 1 {
        message_line(ms[0])
    } else {
        message_line(ms[0]) + "\n"@ + history_lines(ms.subrange(1, ms.len() as int))
    }
}

proof fn lemma_history_lines_push(ms: Seq<MessageView>, m: MessageView)
    ensures
        history_lines(ms.push(m)) == if ms.len() == 0 {
            message_line(m)
        } else {
            history_lines(ms) + "\n"@ + message_line(m)
        },
    decreases ms,
{
    let s = ms.push(m);
    assert(s.len() == ms.len() + 1);
    if ms.len() == 0 {
        assert(s[0] == m);
    } else {
        let rest = ms.subrange(1, ms.len() as int);
        lemma_history_lines_push(rest, m);
        assert(s[0] == ms[0]);
        assert(s.subrange(1, s.len() as int) =~= rest.push(m));
        if ms.len() == 1 {
            assert(rest =~= Seq::<MessageView>::empty());
        }
    }
}

/// The summarizer's view of the recent conversation: the last `window`
/// messages, one line each.
pub open spec fn recent_history_text(ms: Seq<MessageView>, window: int) -> Seq<char> {
    let start = if ms.len() > window {
        ms.len() - window
    } else {
        0
    };
    history_lines(ms.subrange(start as int, ms.len() as int))
}

fn render_line(m: &Message, out: &mut String)
    ensures
        final(out)@ == old(out)@ + message_line(m@),
{
    match m.author {
        Author::User => out.append("User"),
        Author::Agent => out.append("Hobbes"),
    }
    out.append(": ");
    match &m.content {
        crate::model::MessageContent::Text(t) => out.append(t.as_str()),
        crate::model::MessageContent::ToolCall(c) => {
            out.append("[Tool Call: ");
            out.append(c.tool_name.as_str());
            out.append("]");
        },
        crate::model::MessageContent::PermissionRequest(c) => {
            out.append("[Tool Call: ");
            out.append(c.tool_name.as_str());
            out.append("]");
        },
    }
}

/// Formats the last `window` messages for the summarizer, exactly as
/// `recent_history_text` says.
#[verifier::loop_isolation(false)]
pub fn build_recent_history(ms: &Vec<Message>, window: usize) -> (r: String)
    ensures
        r@ == recent_history_text(message_views(ms@), window as int),
{
    let ghost msv = message_views(ms@);
    let len = ms.len();
    let start = if len > window {
        len - window
    } else {
        0
    };
    let mut out = String::new();
    let mut i: usize = start;
    proof {
        assert(msv.subrange(start as int, start as int) =~= Seq::<MessageView>::empty());
    }
    while i < len
        invariant
            start <= i <= len,
            out@ == history_lines(msv.subrange(start as int, i as int)),
        decreases len - i,
    {
        let ghost pre = msv.subrange(start as int, i as int);
        proof {
            assert(msv.subrange(start as int, i + 1 as int) =~= pre.push(msv[i as int]));
            lemma_history_lines_push(pre, msv[i as int]);
        }
        if i > start {
            out.append("\n");
        }
        render_line(&ms[i], &mut out);
        i += 1;
    }
    out
}

/// The entities object a summary reply describes: the user's name where one
/// is given as a string, everything else carried along; or nothing, where the
/// shape is not an object or the name is not a string.
pub open spec fn entities_of_json(v: JsonView) -> Option<ConversationSummaryEntitiesView> {
    match v {
        JsonView::Obj(entries) => match lookup(entries, "user_name"@) {
            Some(JsonView::Str(name)) => Some(
                ConversationSummaryEntitiesView {
                    user_name: name,
                    other_entities: remove_key(entries, "user_name"@),
                },
            ),
            Some(_) => None,
            None => Some(
                ConversationSummaryEntitiesView {
                    user_name: Seq::empty(),
                    other_entities: entries,
                },
            ),
        },
        _ => None,
    }
}

/// The string field of an object's entries, where present; empty where
/// absent; nothing where present with another shape.
pub open spec fn opt_text_field(entries: Seq<(Seq<char>, JsonView)>, k: Seq<char>) -> Option<
    Seq<char>,
> {
    match lookup(entries, k) {
        Some(JsonView::Str(s)) => Some(s),
        Some(_) => None,
        None => Some(Seq::empty()),
    }
}

/// The conversation summary a reply document describes: its summary and
/// sentiment texts (absent ones empty) and its entities; or nothing, where a
/// present field has the wrong shape.
pub open spec fn summary_of_json(v: JsonView) -> Option<ConversationSummaryView> {
    match v {
        JsonView::Obj(entries) => match (
            opt_text_field(entries, "summary"@),
            opt_text_field(entries, "sentiment"@),
        ) {
            (Some(summary), Some(sentiment)) => match lookup(entries, "entities"@) {
                Some(ev) => match entities_of_json(ev) {
                    Some(entities) => Some(ConversationSummaryView { summary, sentiment, entities }),
                    None => None,
                },
                None => Some(
                    ConversationSummaryView {
                        summary,
                        sentiment,
                        entities: ConversationSummaryEntitiesView {
                            user_name: Seq::empty(),
                            other_entities: Seq::empty(),
                        },
                    },
                ),
            },
            _ => None,
        },
        _ => None,
    }
}

fn text_field_or_empty(v: &JsonValue, k: &str) -> (r: Option<String>)
    requires
        v@ is Obj,
    ensures
        match r {
            Some(s) => opt_text_field(v@->Obj_0, k@) == Some(s@),
            None => opt_text_field(v@->Obj_0, k@) is None,
        },
{
    let key: String = k.to_owned();
    match crate::json::get_field(v, &key) {
        Some(JsonValue::Str(s)) => Some(s.clone()),
        Some(_) => None,
        None => Some(String::new()),
    }
}

#[verifier::loop_isolation(false)]
fn entities_from_json(v: &JsonValue) -> (r: Option<ConversationSummaryEntities>)
    ensures
        match r {
            Some(e) => entities_of_json(v@) == Some(e@),
            None => entities_of_json(v@) is None,
        },
{
    match v {
        JsonValue::Obj(entries) => {
            proof {
                lemma_views_of_entries(entries@);
            }
            let name_key: String = "user_name".to_owned();
            let user_name: String = match crate::json::get_field(v, &name_key) {
                Some(JsonValue::Str(s)) => s.clone(),
                Some(_) => {
                    return None;
                },
                None => String::new(),
            };
            // Everything but the name entry is carried along.
            let mut others: Vec<(String, JsonValue)> = Vec::new();
            let mut i: usize = 0;
            proof {
                assert(entries@.subrange(0, 0) =~= Seq::<(String, JsonValue)>::empty());
                assert(views_of_entries(entries@.subrange(0, 0))
                    =~= Seq::<(Seq<char>, JsonView)>::empty());
                assert(remove_key(Seq::<(Seq<char>, JsonView)>::empty(), "user_name"@)
                    =~= Seq::<(Seq<char>, JsonView)>::empty());
            }
            while i < entries.len()
                invariant
                    0 <= i <= entries@.len(),
                    views_of_entries(others@) == remove_key(
                        views_of_entries(entries@.subrange(0, i as int)),
                        "user_name"@,
                    ),
                decreases entries@.len() - i,
            {
                let ghost pre = entries@.subrange(0, i as int);
                let ghost e = entries@[i as int];
                proof {
                    assert(entries@.subrange(0, i + 1 as int) =~= pre.push(e));
                    lemma_views_of_entries_push(pre, e);
                    lemma_remove_key_push(
                        views_of_entries(pre),
                        (e.0@, crate::json::view_of(e.1)),
                        "user_name"@,
                    );
                }
                if !entries[i].0.eq(&name_key) {
                    let key = entries[i].0.clone();
                    let val = crate::json::jv_clone(&entries[i].1);
                    proof {
                        lemma_views_of_entries_push(others@, (key, val));
                    }
                    others.push((key, val));
                }
                i += 1;
            }
            proof {
                assert(entries@.subrange(0, entries@.len() as int) =~= entries@);
            }
            // Where no name entry exists, the entries stay whole.
            match crate::json::get_field(v, &name_key) {
                None => {
                    let mut all: Vec<(String, JsonValue)> = Vec::new();
                    let mut k: usize = 0;
                    proof {
                        assert(views_of_entries(all@) =~= views_of_entries(
                            entries@.subrange(0, 0),
                        ));
                    }
                    while k < entries.len()
                        invariant
                            0 <= k <= entries@.len(),
                            views_of_entries(all@) == views_of_entries(
                                entries@.subrange(0, k as int),
                            ),
                        decreases entries@.len() - k,
                    {
                        let ghost pre = entries@.subrange(0, k as int);
                        proof {
                            assert(entries@.subrange(0, k + 1 as int) =~= pre.push(
                                entries@[k as int],
                            ));
                            lemma_views_of_entries_push(pre, entries@[k as int]);
                        }
                        let key = entries[k].0.clone();
                        let val = crate::json::jv_clone(&entries[k].1);
                        proof {
                            lemma_views_of_entries_push(all@, (key, val));
                        }
                        all.push((key, val));
                        k += 1;
                    }
                    proof {
                        assert(entries@.subrange(0, entries@.len() as int) =~= entries@);
                    }
                    Some(ConversationSummaryEntities { user_name, other_entities: all })
                },
                Some(_) => Some(ConversationSummaryEntities { user_name, other_entities: others }),
            }
        },
        _ => None,
    }
}

/// Reads a conversation summary out of a reply document, exactly as
/// `summary_of_json` says.
pub fn summary_from_json(v: &JsonValue) -> (r: Option<ConversationSummary>)
    ensures
        match r {
            Some(cs) => summary_of_json(v@) == Some(cs@),
            None => summary_of_json(v@) is None,
        },
{
    match v {
        JsonValue::Obj(_) => {
            let summary = match text_field_or_empty(v, "summary") {
                Some(s) => s,
                None => {
                    return None;
                },
            };
            let sentiment = match text_field_or_empty(v, "sentiment") {
                Some(s) => s,
                None => {
                    return None;
                },
            };
            let entities_key: String = "entities".to_owned();
            let entities = match crate::json::get_field(v, &entities_key) {
                Some(ev) => match entities_from_json(ev) {
                    Some(e) => e,
                    None => {
                        return None;
                    },
                },
                None => ConversationSummaryEntities {
                    user_name: String::new(),
                    other_entities: Vec::new(),
                },
            };
            proof {
                assert(views_of_entries(Seq::<(String, JsonValue)>::empty())
                    =~= Seq::<(Seq<char>, JsonView)>::empty());
            }
            Some(ConversationSummary { summary, sentiment, entities })
        },
        _ => None,
    }
}


/// The instruction text handed to the summarizer model, with the previous
/// summary and the recent messages filled in.
pub open spec fn summarizer_prompt(previous_summary: Seq<char>, recent_messages: Seq<char>) -> Seq<
    char,
> {
    "\nYou are an AI assistant that refines a conversation summary.\nYou will be given a previous summary (which may be empty) and the most recent messages in a conversation.\nYour primary task is to integrate the new information from the recent messages into the previous summary, updating and extending it.\nPreserve existing information while incorporating new facts, entities, or user preferences.\n\nA crucial part of your task is to analyze the **sentiment and mood** of the user in the \"Recent Messages\".\n\nFormat your response as a single, clean JSON object with three keys: \"summary\", \"entities\", and \"sentiment\".\n- \"summary\": A concise, updated summary of the entire conversation so far.\n- \"entities\": An object containing all key-value pairs of extracted information. If the user mentions their name, be sure to extract it and include it as `{\"user_name\": \"...\"}` in this object.\n- \"sentiment\": A brief string describing the user's current sentiment or mood (e.g., \"curious and collaborative\", \"frustrated but focused\", \"pleased with the progress\", \"neutral\"). This should reflect the feeling of the recent messages.\n\nPrevious Summary:\n---\n"@ + previous_summary + "\n---\n\nRecent Messages:\n---\n"@ + recent_messages + "\n"@
}

/// Builds the summarizer's instruction text, exactly as `summarizer_prompt`
/// says.
pub fn build_summarizer_prompt(previous_summary: &str, recent_messages: &str) -> (r: String)
    ensures
        r@ == summarizer_prompt(previous_summary@, recent_messages@),
{
    let mut out: String = "\nYou are an AI assistant that refines a conversation summary.\nYou will be given a previous summary (which may be empty) and the most recent messages in a conversation.\nYour primary task is to integrate the new information from the recent messages into the previous summary, updating and extending it.\nPreserve existing information while incorporating new facts, entities, or user preferences.\n\nA crucial part of your task is to analyze the **sentiment and mood** of the user in the \"Recent Messages\".\n\nFormat your response as a single, clean JSON object with three keys: \"summary\", \"entities\", and \"sentiment\".\n- \"summary\": A concise, updated summary of the entire conversation so far.\n- \"entities\": An object containing all key-value pairs of extracted information. If the user mentions their name, be sure to extract it and include it as `{\"user_name\": \"...\"}` in this object.\n- \"sentiment\": A brief string describing the user's current sentiment or mood (e.g., \"curious and collaborative\", \"frustrated but focused\", \"pleased with the progress\", \"neutral\"). This should reflect the feeling of the recent messages.\n\nPrevious Summary:\n---\n".to_owned();
    out.append(previous_summary);
    out.append("\n---\n\nRecent Messages:\n---\n");
    out.append(recent_messages);
    out.append("\n");
    out
}

/// Processes the refined-summary reply between turns.
#[derive(Debug)]
pub struct ConversationProcessor {
}

impl ConversationProcessor {
    pub fn new() -> ConversationProcessor {
        ConversationProcessor {  }
    }

    /// Installs the summarizer's reply and hands back the text of the
    /// latest transcript message — what the next model call responds to.
    /// The transcript must not be empty.
    pub fn process_and_respond(&self, session: &mut Session, reply: &JsonValue) -> (r: String)
        requires
            old(session)@.messages.len() > 0,
        ensures
            match summary_of_json(reply@) {
                Some(cs) => final(session).active_context.conversation_summary@ == cs,
                None => final(session).active_context.conversation_summary == old(
                    session,
                ).active_context.conversation_summary,
            },
            final(session).messages == old(session).messages,
            final(session).tool_call_history == old(session).tool_call_history,
            final(session).next_message_id == old(session).next_message_id,
            old(session).wf() ==> final(session).wf(),
            r@ == match old(session)@.messages.last().content {
                MessageContentView::Text(t) => t,
                _ => Seq::<char>::empty(),
            },
    {
        self.apply_summary(session, reply);
        let last = &session.messages[session.messages.len() - 1];
        proof {
            assert(session@.messages.last() == session@.messages[session@.messages.len() - 1]);
        }
        match &last.content {
            crate::model::MessageContent::Text(t) => t.clone(),
            _ => String::new(),
        }
    }

    /// Installs the summarizer's reply on the session, where it describes a
    /// summary; a reply of another shape changes nothing.  Reports whether it
    /// did.
    pub fn apply_summary(&self, session: &mut Session, reply: &JsonValue) -> (r: bool)
        ensures
            match summary_of_json(reply@) {
                Some(cs) => r && final(session).active_context.conversation_summary@ == cs,
                None => !r && final(session).active_context.conversation_summary == old(
                    session,
                ).active_context.conversation_summary,
            },
            final(session).messages == old(session).messages,
            final(session).tool_call_history == old(session).tool_call_history,
            final(session).next_message_id == old(session).next_message_id,
            final(session).active_context.extra == old(session).active_context.extra,
            final(session).active_context.mcp_tools == old(session).active_context.mcp_tools,
            old(session).wf() ==> final(session).wf(),
    {
        match summary_from_json(reply) {
            Some(cs) => {
                session.active_context.conversation_summary = cs;
                true
            },
            None => false,
        }
    }
}

} // verus!
