//! The prompt builder: a pure function from session state, settings and the
//! tool catalog to the structured prompt handed to the model endpoint.

use vstd::prelude::*;
use crate::json::{
    JsonValue, JsonView, json_text, lemma_views_of_entries, lemma_views_of_entries_push,
    lemma_views_of_seq_push, sanitize_tool_schema, sanitize_tool_view, text_of, views_of_entries,
    views_of_seq,
};
use crate::model::{
    Author, Content, ContentView, McpServerContextView, Message, MessageContent,
    MessageContentView, MessageView, Part, SystemInstruction, ToolCallRecord, ToolCallRecordView,
    ToolDefView, content_views, message_views, record_views,
};
use crate::session::{ActiveContextView, ConversationSummaryView, Session, SessionView};
use crate::settings::Settings;

verus! {

/// The role tag a message's author gets in the prompt.
pub open spec fn role_text(a: Author) -> Seq<char> {
    if a is User {
        "user"@
    } else {
        "model"@
    }
}

/// The text a message contributes to the prompt: its plain text; a tool call
/// or permission request contributes nothing this way (the audit log carries
/// them instead).
pub open spec fn rendered_text(m: MessageView) -> Seq<char> {
    match m.content {
        MessageContentView::Text(t) => t,
        _ => Seq::empty(),
    }
}

/// The prompt entry for one transcript message.
pub open spec fn content_of_message(m: MessageView) -> ContentView {
    ContentView { role: role_text(m.author), parts: seq![rendered_text(m)] }
}

/// The position of the first user-authored message, if any.
pub open spec fn first_user_index(ms: Seq<MessageView>) -> Option<int>
    decreases ms,
{
    if ms.len() == 0 {
        None
    } else if ms[0].author is User {
        Some(0int)
    } else {
        match first_user_index(ms.subrange(1, ms.len() as int)) {
            Some(j) => Some(j + 1),
            None => None,
        }
    }
}

pub proof fn lemma_first_user_index(ms: Seq<MessageView>)
    ensures
        match first_user_index(ms) {
            Some(j) => 0 <= j < ms.len() && ms[j].author is User && (forall|i: int|
                0 <= i < j ==> !(ms[i].author is User)),
            None => forall|i: int| 0 <= i < ms.len() ==> !(ms[i].author is User),
        },
    decreases ms,
{
    if ms.len() > 0 {
        let rest = ms.subrange(1, ms.len() as int);
        lemma_first_user_index(rest);
        assert(forall|i: int| 1 <= i < ms.len() ==> ms[i] == rest[i - 1]);
    }
}

/// The transcript's anchor: the first user message, provided it is plain
/// text.  It opens the prompt, so the original intent survives any history
/// window.
pub open spec fn anchor_index(ms: Seq<MessageView>) -> Option<int> {
    match first_user_index(ms) {
        Some(j) => if ms[j].content is Text {
            Some(j)
        } else {
            None
        },
        None => None,
    }
}

/// The prompt entries of the recent-message window: every message in order,
/// skipping the one with id `skip_id` (the anchor, so it is not repeated) and
/// any message that contributes no text.
pub open spec fn window_contents(ms: Seq<MessageView>, skip_id: Option<u64>) -> Seq<ContentView>
    decreases ms,
{
    if ms.len() == 0 {
        Seq::empty()
    } else {
        let rest = window_contents(ms.subrange(1, ms.len() as int), skip_id);
        let skipped = match skip_id {
            Some(id) => ms[0].id == id,
            None => false,
        };
        if skipped || rendered_text(ms[0]).len() == 0 {
            rest
        } else {
            seq![content_of_message(ms[0])] + rest
        }
    }
}

proof fn lemma_window_contents_push(ms: Seq<MessageView>, m: MessageView, skip_id: Option<u64>)
    ensures
        window_contents(ms.push(m), skip_id) == {
            let skipped = match skip_id {
                Some(id) => m.id == id,
                None => false,
            };
            if skipped || rendered_text(m).len() == 0 {
                window_contents(ms, skip_id)
            } else {
                window_contents(ms, skip_id).push(content_of_message(m))
            }
        },
    decreases ms,
{
    let s = ms.push(m);
    if ms.len() == 0 {
        assert(s[0] == m);
        assert(window_contents(Seq::<MessageView>::empty(), skip_id)
            =~= Seq::<ContentView>::empty());
        assert(s.subrange(1, s.len() as int) =~= Seq::<MessageView>::empty());
        assert(window_contents(s, skip_id) =~= {
            let skipped = match skip_id {
                Some(id) => m.id == id,
                None => false,
            };
            if skipped || rendered_text(m).len() == 0 {
                window_contents(ms, skip_id)
            } else {
                window_contents(ms, skip_id).push(content_of_message(m))
            }
        });
    } else {
        let rest = ms.subrange(1, ms.len() as int);
        lemma_window_contents_push(rest, m, skip_id);
        assert(s[0] == ms[0]);
        assert(s.subrange(1, s.len() as int) =~= rest.push(m));
        assert(window_contents(s, skip_id) =~= {
            let skipped = match skip_id {
                Some(id) => m.id == id,
                None => false,
            };
            if skipped || rendered_text(m).len() == 0 {
                window_contents(ms, skip_id)
            } else {
                window_contents(ms, skip_id).push(content_of_message(m))
            }
        });
    }
}

/// The prompt text of the model-authored function-call entry for one audit
/// record.
pub open spec fn function_call_text(name: Seq<char>, args: Seq<char>) -> Seq<char> {
    "{\"functionCall\": {\"name\": \""@ + name + "\", \"args\": "@ + args + "}}"@
}

/// The prompt text of the user-authored function-result entry for one audit
/// record.
pub open spec fn function_response_text(name: Seq<char>, response: Seq<char>) -> Seq<char> {
    "{\"functionResponse\": {\"name\": \""@ + name + "\", \"response\": {\"result\": "@ + response
        + "}}}"@
}

/// The pair of prompt entries for one audit record: the model's call, then
/// the tool's result, spoken by the user role.
pub open spec fn record_pair(r: ToolCallRecordView) -> Seq<ContentView> {
    seq![
        ContentView {
            role: "model"@,
            parts: seq![function_call_text(r.call.tool_name, r.call.arguments)],
        },
        ContentView {
            role: "user"@,
            parts: seq![function_response_text(r.call.tool_name, r.result.response)],
        },
    ]
}

/// The prompt entries of the whole audit log, two per record, in order.
pub open spec fn record_entries(rs: Seq<ToolCallRecordView>) -> Seq<ContentView>
    decreases rs,
{
    if rs.len() == 0 {
        Seq::empty()
    } else {
        record_pair(rs[0]) + record_entries(rs.subrange(1, rs.len() as int))
    }
}

proof fn lemma_record_entries_push(rs: Seq<ToolCallRecordView>, r: ToolCallRecordView)
    ensures
        record_entries(rs.push(r)) == record_entries(rs) + record_pair(r),
    decreases rs,
{
    let s = rs.push(r);
    if rs.len() == 0 {
        assert(s[0] == r);
        assert(record_entries(Seq::<ToolCallRecordView>::empty()) =~= Seq::<ContentView>::empty());
        assert(s.subrange(1, s.len() as int) =~= Seq::<ToolCallRecordView>::empty());
        assert(record_entries(s) =~= record_entries(rs) + record_pair(r));
    } else {
        let rest = rs.subrange(1, rs.len() as int);
        lemma_record_entries_push(rest, r);
        assert(s[0] == rs[0]);
        assert(s.subrange(1, s.len() as int) =~= rest.push(r));
        assert(record_entries(s) =~= record_entries(rs) + record_pair(r));
    }
}

/// The entry the pending user text contributes, when there is any.
pub open spec fn pending_entry(user_text: Seq<char>) -> Seq<ContentView> {
    if user_text.len() == 0 {
        Seq::empty()
    } else {
        seq![ContentView { role: "user"@, parts: seq![user_text] }]
    }
}

/// The window's start: the last `window` messages.
pub open spec fn window_start(len: int, window: int) -> int {
    if len > window {
        len - window
    } else {
        0
    }
}

/// The whole ordered `contents` of a prompt: the anchor first, then the
/// recent window (anchor not repeated, empty renderings dropped), then the
/// function-call/function-result pair of every audit record, then the pending
/// user text.
pub open spec fn prompt_contents(
    ms: Seq<MessageView>,
    history: Seq<ToolCallRecordView>,
    window: int,
    user_text: Seq<char>,
) -> Seq<ContentView> {
    let anchor_part = match anchor_index(ms) {
        Some(j) => seq![content_of_message(ms[j])],
        None => Seq::<ContentView>::empty(),
    };
    let skip_id = match anchor_index(ms) {
        Some(j) => Some(ms[j].id),
        None => None,
    };
    let start = window_start(ms.len() as int, window);
    anchor_part + window_contents(ms.subrange(start, ms.len() as int), skip_id)
        + record_entries(history) + pending_entry(user_text)
}

/// The prompt text of one transcript message.
fn render_message(m: &Message) -> (r: Content)
    ensures
        r@ == content_of_message(m@),
{
    let text: String = match &m.content {
        MessageContent::Text(t) => t.clone(),
        _ => String::new(),
    };
    let role: String = match m.author {
        Author::User => "user".to_owned(),
        Author::Agent => "model".to_owned(),
    };
    let mut parts: Vec<Part> = Vec::new();
    parts.push(Part { text });
    let c = Content { role, parts };
    proof {
        assert(c@.parts =~= seq![rendered_text(m@)]);
    }
    c
}

/// The position of the first user-authored message, if any.
fn find_first_user(ms: &Vec<Message>) -> (r: Option<usize>)
    ensures
        match r {
            Some(j) => first_user_index(message_views(ms@)) == Some(j as int),
            None => first_user_index(message_views(ms@)) is None,
        },
{
    proof {
        lemma_first_user_index(message_views(ms@));
    }
    let mut i: usize = 0;
    while i < ms.len()
        invariant
            0 <= i <= ms@.len(),
            forall|j: int| 0 <= j < i ==> !(message_views(ms@)[j].author is User),
        decreases ms@.len() - i,
    {
        if matches!(ms[i].author, Author::User) {
            proof {
                lemma_first_user_index(message_views(ms@));
                match first_user_index(message_views(ms@)) {
                    Some(j) => {
                        assert(j == i as int);
                    },
                    None => {
                        assert(message_views(ms@)[i as int].author is User);
                        assert(false);
                    },
                }
            }
            return Some(i);
        }
        i += 1;
    }
    None
}

/// The model-authored function-call prompt text for one audit record.
pub fn function_call_string(name: &String, args: &String) -> (r: String)
    ensures
        r@ == function_call_text(name@, args@),
{
    let mut s: String = "{\"functionCall\": {\"name\": \"".to_owned();
    s.append(name.as_str());
    s.append("\", \"args\": ");
    s.append(args.as_str());
    s.append("}}");
    s
}

/// The user-authored function-result prompt text for one audit record.
pub fn function_response_string(name: &String, response: &String) -> (r: String)
    ensures
        r@ == function_response_text(name@, response@),
{
    let mut s: String = "{\"functionResponse\": {\"name\": \"".to_owned();
    s.append(name.as_str());
    s.append("\", \"response\": {\"result\": ");
    s.append(response.as_str());
    s.append("}}}");
    s
}

fn single_part_content(role: &str, text: String) -> (r: Content)
    ensures
        r@ == (ContentView { role: role@, parts: seq![text@] }),
{
    let mut parts: Vec<Part> = Vec::new();
    parts.push(Part { text });
    let c = Content { role: role.to_owned(), parts };
    proof {
        assert(c@.parts =~= seq![c.parts@[0].text@]);
    }
    c
}

/// Builds the ordered `contents` of a prompt, exactly as `prompt_contents`
/// says: anchor, recent window, audit-log pairs, pending user text.
#[verifier::loop_isolation(false)]
pub fn build_contents(
    ms: &Vec<Message>,
    history: &Vec<ToolCallRecord>,
    window: usize,
    user_message: String,
) -> (r: Vec<Content>)
    ensures
        content_views(r@) == prompt_contents(
            message_views(ms@),
            record_views(history@),
            window as int,
            user_message@,
        ),
{
    let ghost msv = message_views(ms@);
    let ghost anchor_part = match anchor_index(msv) {
        Some(j) => seq![content_of_message(msv[j])],
        None => Seq::<ContentView>::empty(),
    };
    let ghost skip_ghost = match anchor_index(msv) {
        Some(j) => Some(msv[j].id),
        None => None,
    };
    let mut out: Vec<Content> = Vec::new();

    // The anchor: the first user message, if it is plain text.
    let skip_id: Option<u64> = match find_first_user(ms) {
        Some(j) => {
            proof {
                lemma_first_user_index(msv);
            }
            if matches!(ms[j].content, MessageContent::Text(_)) {
                let c = render_message(&ms[j]);
                out.push(c);
                Some(ms[j].id)
            } else {
                None
            }
        },
        None => None,
    };
    proof {
        assert(skip_id == skip_ghost);
        assert(content_views(out@) =~= anchor_part);
    }

    // The recent window, anchor not repeated, empty renderings dropped.
    let len = ms.len();
    let start = if len > window {
        len - window
    } else {
        0
    };
    let ghost gstart = window_start(msv.len() as int, window as int);
    let mut i: usize = start;
    while i < len
        invariant
            start <= i <= len,
            content_views(out@) == anchor_part + window_contents(
                msv.subrange(gstart, i as int),
                skip_ghost,
            ),
        decreases len - i,
    {
        let ghost pre = msv.subrange(gstart, i as int);
        proof {
            assert(msv.subrange(gstart, i + 1 as int) =~= pre.push(msv[i as int]));
            lemma_window_contents_push(pre, msv[i as int], skip_ghost);
        }
        let skip_this = match skip_id {
            Some(id) => ms[i].id == id,
            None => false,
        };
        let empty_rendering = match &ms[i].content {
            MessageContent::Text(t) => t.as_str().is_empty(),
            _ => true,
        };
        if !skip_this && !empty_rendering {
            let c = render_message(&ms[i]);
            let ghost prev = out@;
            out.push(c);
            proof {
                assert(content_views(prev.push(c)) =~= content_views(prev).push(c@));
            }
        }
        i += 1;
    }
    proof {
        assert(msv.subrange(gstart, msv.len() as int) =~= msv.subrange(gstart, len as int));
    }

    // The audit log: a function-call and a function-result entry per record.
    let ghost before_records = content_views(out@);
    let mut k: usize = 0;
    while k < history.len()
        invariant
            0 <= k <= history@.len(),
            content_views(out@) == before_records + record_entries(
                record_views(history@).subrange(0, k as int),
            ),
        decreases history@.len() - k,
    {
        let ghost rsv = record_views(history@);
        let ghost pre = rsv.subrange(0, k as int);
        proof {
            assert(rsv.subrange(0, k + 1 as int) =~= pre.push(rsv[k as int]));
            lemma_record_entries_push(pre, rsv[k as int]);
        }
        let call_text = function_call_string(
            &history[k].call.tool_name,
            &history[k].call.arguments,
        );
        let c1 = single_part_content("model", call_text);
        let ghost prev1 = out@;
        out.push(c1);
        proof {
            assert(content_views(prev1.push(c1)) =~= content_views(prev1).push(c1@));
        }
        let response_text = function_response_string(
            &history[k].call.tool_name,
            &history[k].result.response,
        );
        let c2 = single_part_content("user", response_text);
        let ghost prev2 = out@;
        out.push(c2);
        proof {
            assert(content_views(prev2.push(c2)) =~= content_views(prev2).push(c2@));
            assert(content_views(out@) =~= before_records + record_entries(
                rsv.subrange(0, k + 1 as int),
            ));
        }
        k += 1;
    }
    proof {
        assert(record_views(history@).subrange(0, record_views(history@).len() as int)
            =~= record_views(history@));
    }

    // The pending user text, when there is any.
    if !user_message.as_str().is_empty() {
        let ghost prev = out@;
        let c = single_part_content("user", user_message);
        out.push(c);
        proof {
            assert(content_views(prev.push(c)) =~= content_views(prev).push(c@));
        }
    }
    proof {
        assert(content_views(out@) =~= prompt_contents(
            msv,
            record_views(history@),
            window as int,
            user_message@,
        ));
    }
    out
}

/// The first user message always anchors the prompt: whenever the transcript
/// has a first user-authored message holding plain text, the prompt's
/// contents open with exactly that message — also when the transcript is
/// longer than the history window, so the message itself sits outside it.
pub proof fn lemma_first_user_message_anchored(
    ms: Seq<MessageView>,
    history: Seq<ToolCallRecordView>,
    window: int,
    user_text: Seq<char>,
    j: int,
)
    requires
        anchor_index(ms) == Some(j),
    ensures
        0 <= j < ms.len(),
        prompt_contents(ms, history, window, user_text).len() > 0,
        prompt_contents(ms, history, window, user_text)[0] == content_of_message(ms[j]),
{
    lemma_first_user_index(ms);
}

/// Whether the text holds nothing but whitespace.
pub open spec fn is_blank(s: Seq<char>) -> bool {
    forall|i: int| 0 <= i < s.len() ==> is_space_char(#[trigger] s[i])
}

pub open spec fn is_space_char(c: char) -> bool {
    c == ' ' || c == '\t' || c == '\n' || c == '\r'
}

fn blank_str(s: &str) -> (r: bool)
    ensures
        r == is_blank(s@),
{
    let n = s.unicode_len();
    let mut i: usize = 0;
    while i < n
        invariant
            0 <= i <= n,
            n == s@.len(),
            forall|j: int| 0 <= j < i ==> is_space_char(#[trigger] s@[j]),
        decreases n - i,
    {
        let c = s.get_char(i);
        if !(c == ' ' || c == '\t' || c == '\n' || c == '\r') {
            return false;
        }
        i += 1;
    }
    true
}

/// Whether any audit record resolved as an error.
pub open spec fn has_failed_call(history: Seq<ToolCallRecordView>) -> bool {
    exists|i: int| 0 <= i < history.len() && (#[trigger] history[i]).result.status is Error
}

fn history_has_error(history: &Vec<ToolCallRecord>) -> (r: bool)
    ensures
        r == has_failed_call(record_views(history@)),
{
    let mut i: usize = 0;
    while i < history.len()
        invariant
            0 <= i <= history@.len(),
            forall|j: int| 0 <= j < i
                ==> !((#[trigger] record_views(history@)[j]).result.status is Error),
        decreases history@.len() - i,
    {
        if matches!(history[i].result.status, crate::model::ToolCallStatus::Error) {
            proof {
                assert(record_views(history@)[i as int].result.status is Error);
            }
            return true;
        }
        i += 1;
    }
    false
}

pub open spec fn recovery_text() -> Seq<char> {
    "\n\nCRITICAL RECOVERY INSTRUCTION: A previous tool call failed. Analyze the error message in the `<tool_response>` and attempt a different tool call to accomplish the user's goal. Do not repeat the failed tool call."@
}

pub open spec fn ask_name_text() -> Seq<char> {
    "Your user's name is not in the current SYSTEM_CONTEXT. Please ask them what they would like to be called."@
}

/// The persona the system instruction carries: the configured persona,
/// extended with the force-tool-use directive when configured, and with a
/// one-time recovery directive when a past tool call failed.
pub open spec fn persona_text(
    persona: Seq<char>,
    force_tool_use: Option<Seq<char>>,
    failed: bool,
) -> Seq<char> {
    let base = match force_tool_use {
        Some(t) => persona + "\n\nCRITICAL INSTRUCTION: "@ + t,
        None => persona,
    };
    if failed {
        base + recovery_text()
    } else {
        base
    }
}

/// The `entities` object of the serialized summary: the user's name when it
/// is known, then everything else the summarizer extracted.
pub open spec fn entities_json(e: crate::session::ConversationSummaryEntitiesView) -> JsonView {
    JsonView::Obj(
        (if e.user_name.len() > 0 {
            seq![("user_name"@, JsonView::Str(e.user_name))]
        } else {
            Seq::<(Seq<char>, JsonView)>::empty()
        }) + e.other_entities,
    )
}

/// The `conversation_summary` object of the system instruction; empty texts
/// are left out.
pub open spec fn summary_json(cs: ConversationSummaryView) -> JsonView {
    JsonView::Obj(
        (if cs.summary.len() > 0 {
            seq![("summary"@, JsonView::Str(cs.summary))]
        } else {
            Seq::<(Seq<char>, JsonView)>::empty()
        }) + (if cs.sentiment.len() > 0 {
            seq![("sentiment"@, JsonView::Str(cs.sentiment))]
        } else {
            Seq::<(Seq<char>, JsonView)>::empty()
        }) + seq![("entities"@, entities_json(cs.entities))],
    )
}

/// The live timestamp object of the system instruction.
pub open spec fn current_time_json(now_iso: Seq<char>) -> JsonView {
    JsonView::Obj(
        seq![("iso_8601"@, JsonView::Str(now_iso)), ("timezone"@, JsonView::Str("UTC"@))],
    )
}

/// The whole system-instruction document: persona, summary, the context's
/// free-form extras, a directive to learn the user's name when it is unknown,
/// and the live timestamp.
pub open spec fn instruction_json(
    persona: Seq<char>,
    ctx: ActiveContextView,
    now_iso: Seq<char>,
) -> JsonView {
    JsonView::Obj(
        seq![
            ("system_persona"@, JsonView::Str(persona)),
            ("conversation_summary"@, summary_json(ctx.conversation_summary)),
        ] + ctx.extra + (if is_blank(ctx.conversation_summary.entities.user_name) {
            seq![("user_instruction"@, JsonView::Str(ask_name_text()))]
        } else {
            Seq::<(Seq<char>, JsonView)>::empty()
        }) + seq![("current_time"@, current_time_json(now_iso))],
    )
}

/// The serialized system-instruction text of a session at a moment.
pub open spec fn instruction_text(
    session: SessionView,
    settings: Settings,
    now_iso: Seq<char>,
) -> Seq<char> {
    let persona = persona_text(
        settings.persona@,
        match settings.force_tool_use_instruction {
            Some(t) => Some(t@),
            None => None,
        },
        has_failed_call(session.tool_call_history),
    );
    text_of(instruction_json(persona, session.active_context, now_iso))
}

fn build_entities(e: &crate::session::ConversationSummaryEntities) -> (r: JsonValue)
    ensures
        r@ == entities_json(e@),
{
    let mut entries: Vec<(String, JsonValue)> = Vec::new();
    if !e.user_name.as_str().is_empty() {
        entries.push(("user_name".to_owned(), JsonValue::Str(e.user_name.clone())));
    }
    proof {
        lemma_views_of_entries(entries@);
        assert(views_of_entries(entries@) =~= (if e@.user_name.len() > 0 {
            seq![("user_name"@, JsonView::Str(e@.user_name))]
        } else {
            Seq::<(Seq<char>, JsonView)>::empty()
        }));
    }
    let mut i: usize = 0;
    let ghost base = views_of_entries(entries@);
    proof {
        lemma_views_of_entries(e.other_entities@);
        assert(views_of_entries(e.other_entities@).subrange(0, 0)
            =~= Seq::<(Seq<char>, JsonView)>::empty());
    }
    while i < e.other_entities.len()
        invariant
            0 <= i <= e.other_entities@.len(),
            views_of_entries(e.other_entities@).len() == e.other_entities@.len(),
            views_of_entries(entries@) == base + views_of_entries(e.other_entities@).subrange(
                0,
                i as int,
            ),
        decreases e.other_entities@.len() - i,
    {
        proof {
            lemma_views_of_entries(e.other_entities@);
        }
        let key = e.other_entities[i].0.clone();
        let val = crate::json::jv_clone(&e.other_entities[i].1);
        proof {
            lemma_views_of_entries_push(entries@, (key, val));
            assert(views_of_entries(e.other_entities@).subrange(0, i + 1 as int)
                =~= views_of_entries(e.other_entities@).subrange(0, i as int).push(
                (key@, val@),
            ));
        }
        entries.push((key, val));
        i += 1;
    }
    proof {
        lemma_views_of_entries(entries@);
        assert(views_of_entries(e.other_entities@).subrange(
            0,
            views_of_entries(e.other_entities@).len() as int,
        ) =~= views_of_entries(e.other_entities@));
        assert(views_of_entries(entries@) =~= entities_json(e@)->Obj_0);
    }
    JsonValue::Obj(entries)
}

fn build_summary(cs: &crate::session::ConversationSummary) -> (r: JsonValue)
    ensures
        r@ == summary_json(cs@),
{
    let mut entries: Vec<(String, JsonValue)> = Vec::new();
    if !cs.summary.as_str().is_empty() {
        entries.push(("summary".to_owned(), JsonValue::Str(cs.summary.clone())));
    }
    if !cs.sentiment.as_str().is_empty() {
        entries.push(("sentiment".to_owned(), JsonValue::Str(cs.sentiment.clone())));
    }
    let entities = build_entities(&cs.entities);
    entries.push(("entities".to_owned(), entities));
    proof {
        lemma_views_of_entries(entries@);
        assert(views_of_entries(entries@) =~= summary_json(cs@)->Obj_0);
    }
    JsonValue::Obj(entries)
}

/// Builds the serialized system-instruction text, exactly as
/// `instruction_text` says.
#[verifier::loop_isolation(false)]
pub fn build_instruction_text(session: &Session, settings: &Settings, now_iso: &String) -> (r:
    String)
    ensures
        r@ == instruction_text(session@, *settings, now_iso@),
{
    // The persona, with its conditional directives.
    let mut persona = settings.persona.clone();
    match &settings.force_tool_use_instruction {
        Some(t) => {
            persona.append("\n\nCRITICAL INSTRUCTION: ");
            persona.append(t.as_str());
        },
        None => {},
    }
    if history_has_error(&session.tool_call_history) {
        persona.append(
            "\n\nCRITICAL RECOVERY INSTRUCTION: A previous tool call failed. Analyze the error message in the `<tool_response>` and attempt a different tool call to accomplish the user's goal. Do not repeat the failed tool call.",
        );
    }

    let ghost pv = persona@;
    let ctx = &session.active_context;
    let mut entries: Vec<(String, JsonValue)> = Vec::new();
    entries.push(("system_persona".to_owned(), JsonValue::Str(persona)));
    let summary = build_summary(&ctx.conversation_summary);
    entries.push(("conversation_summary".to_owned(), summary));
    proof {
        lemma_views_of_entries(entries@);
        assert(views_of_entries(entries@) =~= seq![
            ("system_persona"@, JsonView::Str(pv)),
            ("conversation_summary"@, summary_json(ctx.conversation_summary@)),
        ]);
    }
    let ghost head = views_of_entries(entries@);
    let mut i: usize = 0;
    proof {
        lemma_views_of_entries(ctx.extra@);
        assert(views_of_entries(ctx.extra@).subrange(0, 0)
            =~= Seq::<(Seq<char>, JsonView)>::empty());
    }
    while i < ctx.extra.len()
        invariant
            0 <= i <= ctx.extra@.len(),
            views_of_entries(ctx.extra@).len() == ctx.extra@.len(),
            views_of_entries(entries@) == head + views_of_entries(ctx.extra@).subrange(
                0,
                i as int,
            ),
        decreases ctx.extra@.len() - i,
    {
        proof {
            lemma_views_of_entries(ctx.extra@);
        }
        let key = ctx.extra[i].0.clone();
        let val = crate::json::jv_clone(&ctx.extra[i].1);
        proof {
            lemma_views_of_entries_push(entries@, (key, val));
            assert(views_of_entries(ctx.extra@).subrange(0, i + 1 as int)
                =~= views_of_entries(ctx.extra@).subrange(0, i as int).push((key@, val@)));
        }
        entries.push((key, val));
        i += 1;
    }
    proof {
        assert(views_of_entries(ctx.extra@).subrange(0, views_of_entries(ctx.extra@).len() as int)
            =~= views_of_entries(ctx.extra@));
    }
    if blank_str(ctx.conversation_summary.entities.user_name.as_str()) {
        let ask_key: String = "user_instruction".to_owned();
        let ask_val = JsonValue::Str(
            "Your user's name is not in the current SYSTEM_CONTEXT. Please ask them what they would like to be called."
                .to_owned(),
        );
        proof {
            lemma_views_of_entries_push(entries@, (ask_key, ask_val));
        }
        entries.push((ask_key, ask_val));
    }
    let mut time_entries: Vec<(String, JsonValue)> = Vec::new();
    time_entries.push(("iso_8601".to_owned(), JsonValue::Str(now_iso.clone())));
    time_entries.push(("timezone".to_owned(), JsonValue::Str("UTC".to_owned())));
    proof {
        lemma_views_of_entries(time_entries@);
        assert(views_of_entries(time_entries@) =~= current_time_json(now_iso@)->Obj_0);
    }
    let time_key: String = "current_time".to_owned();
    let time_val = JsonValue::Obj(time_entries);
    proof {
        lemma_views_of_entries_push(entries@, (time_key, time_val));
    }
    entries.push((time_key, time_val));
    proof {
        assert(views_of_entries(entries@) =~= instruction_json(
            persona_text(
                settings.persona@,
                match settings.force_tool_use_instruction {
                    Some(t) => Some(t@),
                    None => None,
                },
                has_failed_call(session@.tool_call_history),
            ),
            session.active_context@,
            now_iso@,
        )->Obj_0);
    }
    json_text(&JsonValue::Obj(entries))
}

/// The sanitized declaration of one tool, as it is offered to the model
/// endpoint.
pub open spec fn tool_json(t: ToolDefView) -> JsonView {
    sanitize_tool_view(
        JsonView::Obj(
            seq![
                ("name"@, JsonView::Str(t.name)),
                ("description"@, JsonView::Str(t.description)),
                ("inputSchema"@, t.input_schema),
            ],
        ),
    )
}

/// The sanitized declarations of one server's tools, in order.
pub open spec fn decls_of_tools(ts: Seq<ToolDefView>) -> Seq<JsonView>
    decreases ts,
{
    if ts.len() == 0 {
        Seq::empty()
    } else {
        seq![tool_json(ts[0])] + decls_of_tools(ts.subrange(1, ts.len() as int))
    }
}

/// The sanitized declarations of every connected server's tools, in order.
pub open spec fn decls_of_servers(ss: Seq<McpServerContextView>) -> Seq<JsonView>
    decreases ss,
{
    if ss.len() == 0 {
        Seq::empty()
    } else {
        decls_of_tools(ss[0].tools) + decls_of_servers(ss.subrange(1, ss.len() as int))
    }
}

proof fn lemma_decls_of_tools_push(ts: Seq<ToolDefView>, t: ToolDefView)
    ensures
        decls_of_tools(ts.push(t)) == decls_of_tools(ts).push(tool_json(t)),
    decreases ts,
{
    let s = ts.push(t);
    if ts.len() == 0 {
        assert(s[0] == t);
        assert(decls_of_tools(Seq::<ToolDefView>::empty()) =~= Seq::<JsonView>::empty());
        assert(s.subrange(1, s.len() as int) =~= Seq::<ToolDefView>::empty());
        assert(decls_of_tools(s) =~= decls_of_tools(ts).push(tool_json(t)));
    } else {
        let rest = ts.subrange(1, ts.len() as int);
        lemma_decls_of_tools_push(rest, t);
        assert(s[0] == ts[0]);
        assert(s.subrange(1, s.len() as int) =~= rest.push(t));
        assert(decls_of_tools(s) =~= decls_of_tools(ts).push(tool_json(t)));
    }
}

proof fn lemma_decls_of_servers_push(ss: Seq<McpServerContextView>, x: McpServerContextView)
    ensures
        decls_of_servers(ss.push(x)) == decls_of_servers(ss) + decls_of_tools(x.tools),
    decreases ss,
{
    let s = ss.push(x);
    if ss.len() == 0 {
        assert(s[0] == x);
        assert(decls_of_servers(Seq::<McpServerContextView>::empty()) =~= Seq::<JsonView>::empty());
        assert(s.subrange(1, s.len() as int) =~= Seq::<McpServerContextView>::empty());
        assert(decls_of_servers(s) =~= decls_of_servers(ss) + decls_of_tools(x.tools));
    } else {
        let rest = ss.subrange(1, ss.len() as int);
        lemma_decls_of_servers_push(rest, x);
        assert(s[0] == ss[0]);
        assert(s.subrange(1, s.len() as int) =~= rest.push(x));
        assert(decls_of_servers(s) =~= decls_of_servers(ss) + decls_of_tools(x.tools));
    }
}

/// Builds the sanitized declaration of one tool.
fn build_tool_decl(t: &crate::model::ToolDef) -> (r: JsonValue)
    ensures
        r@ == tool_json(t@),
{
    let mut entries: Vec<(String, JsonValue)> = Vec::new();
    entries.push(("name".to_owned(), JsonValue::Str(t.name.clone())));
    entries.push(("description".to_owned(), JsonValue::Str(t.description.clone())));
    entries.push(("inputSchema".to_owned(), crate::json::jv_clone(&t.input_schema)));
    proof {
        lemma_views_of_entries(entries@);
        assert(views_of_entries(entries@) =~= seq![
            ("name"@, JsonView::Str(t@.name)),
            ("description"@, JsonView::Str(t@.description)),
            ("inputSchema"@, t@.input_schema),
        ]);
    }
    sanitize_tool_schema(JsonValue::Obj(entries))
}

/// Builds the flattened, sanitized tool declarations of the whole catalog,
/// exactly as `decls_of_servers` says.
#[verifier::loop_isolation(false)]
pub fn build_tool_decls(ctx: &crate::model::McpContext) -> (r: Vec<JsonValue>)
    ensures
        views_of_seq(r@) == decls_of_servers(ctx@.servers),
{
    let mut out: Vec<JsonValue> = Vec::new();
    proof {
        assert(views_of_seq(out@) =~= Seq::<JsonView>::empty());
    }
    let mut k: usize = 0;
    while k < ctx.servers.len()
        invariant
            0 <= k <= ctx.servers@.len(),
            views_of_seq(out@) == decls_of_servers(ctx@.servers.subrange(0, k as int)),
        decreases ctx.servers@.len() - k,
    {
        let ghost pre_servers = ctx@.servers.subrange(0, k as int);
        proof {
            assert(ctx@.servers.subrange(0, k + 1 as int) =~= pre_servers.push(
                ctx@.servers[k as int],
            ));
            lemma_decls_of_servers_push(pre_servers, ctx@.servers[k as int]);
        }
        let server = &ctx.servers[k];
        let ghost tools_v = server@.tools;
        let ghost base = views_of_seq(out@);
        let mut i: usize = 0;
        proof {
            assert(decls_of_tools(tools_v.subrange(0, 0)) =~= Seq::<JsonView>::empty());
            assert(views_of_seq(out@) =~= base + decls_of_tools(tools_v.subrange(0, 0)));
        }
        while i < server.tools.len()
            invariant
                0 <= i <= server.tools@.len(),
                tools_v.len() == server.tools@.len(),
                views_of_seq(out@) == base + decls_of_tools(tools_v.subrange(0, i as int)),
            decreases server.tools@.len() - i,
        {
            let ghost pre = tools_v.subrange(0, i as int);
            proof {
                assert(tools_v.subrange(0, i + 1 as int) =~= pre.push(tools_v[i as int]));
                lemma_decls_of_tools_push(pre, tools_v[i as int]);
            }
            let decl = build_tool_decl(&server.tools[i]);
            let ghost prev = out@;
            out.push(decl);
            proof {
                lemma_views_of_seq_push(prev, decl);
            }
            i += 1;
        }
        proof {
            assert(tools_v.subrange(0, tools_v.len() as int) =~= tools_v);
        }
        k += 1;
    }
    proof {
        assert(ctx@.servers.subrange(0, ctx@.servers.len() as int) =~= ctx@.servers);
    }
    out
}

/// One tool-catalog attachment of the prompt: the flattened function
/// declarations of every connected server.
#[derive(Debug)]
pub struct Tool {
    pub function_declarations: Vec<JsonValue>,
}

impl View for Tool {
    type V = Seq<JsonView>;

    open spec fn view(&self) -> Seq<JsonView> {
        views_of_seq(self.function_declarations@)
    }
}

/// A structured prompt for the model endpoint.
#[derive(Debug)]
pub struct LlmPrompt {
    pub system_instruction: Option<SystemInstruction>,
    pub contents: Vec<Content>,
    pub tools: Option<Vec<Tool>>,
}

/// The ghost mirror of `LlmPrompt`.
pub struct LlmPromptView {
    pub system_instruction: Option<Seq<Seq<char>>>,
    pub contents: Seq<ContentView>,
    pub tools: Option<Seq<Seq<JsonView>>>,
}

impl View for LlmPrompt {
    type V = LlmPromptView;

    open spec fn view(&self) -> LlmPromptView {
        LlmPromptView {
            system_instruction: match self.system_instruction {
                Some(ref si) => Some(Seq::new(si.parts@.len(), |i: int| si.parts@[i].text@)),
                None => None,
            },
            contents: content_views(self.contents@),
            tools: match self.tools {
                Some(ref ts) => Some(Seq::new(ts@.len(), |i: int| ts@[i]@)),
                None => None,
            },
        }
    }
}

/// The whole prompt of a session at a moment: the serialized system
/// instruction (left out only were it empty), the ordered contents, and the
/// sanitized tool catalog when one is connected.
pub open spec fn prompt_view(
    session: SessionView,
    settings: Settings,
    user_text: Seq<char>,
    now_iso: Seq<char>,
) -> LlmPromptView {
    let text = instruction_text(session, settings, now_iso);
    LlmPromptView {
        system_instruction: if text.len() == 0 || text == "{}"@ {
            None
        } else {
            Some(seq![text])
        },
        contents: prompt_contents(
            session.messages,
            session.tool_call_history,
            settings.chat_history_length as int,
            user_text,
        ),
        tools: match session.active_context.mcp_tools {
            Some(ctx) => Some(seq![decls_of_servers(ctx.servers)]),
            None => None,
        },
    }
}

/// Relies on chrono's Utc::now and DateTime::to_rfc3339: the moment of the
/// call as an RFC 3339 timestamp; a different one on every call.
#[verifier::external_body]
fn now_rfc3339() -> String {
    chrono::Utc::now().to_rfc3339()
}

/// Builds a structured prompt from a session's state and the settings.  It is
/// a pure function of its inputs and the clock: it mutates nothing.
pub struct PromptBuilder<'a> {
    pub session: &'a Session,
    pub settings: &'a Settings,
}

impl<'a> PromptBuilder<'a> {
    pub fn new(session: &'a Session, settings: &'a Settings) -> (r: PromptBuilder<'a>)
        ensures
            r.session == session,
            r.settings == settings,
    {
        PromptBuilder { session, settings }
    }

    /// Builds the prompt for the pending user text at the given moment,
    /// exactly as `prompt_view` says.
    pub fn build_prompt_at(&self, user_message: String, now_iso: &String) -> (r: LlmPrompt)
        ensures
            r@ == prompt_view(self.session@, *self.settings, user_message@, now_iso@),
    {
        let text = build_instruction_text(self.session, self.settings, now_iso);
        let system_instruction = if text.as_str().is_empty() || text.eq(&"{}".to_owned()) {
            None
        } else {
            let mut parts: Vec<Part> = Vec::new();
            parts.push(Part { text });
            Some(SystemInstruction { parts })
        };
        let contents = build_contents(
            &self.session.messages,
            &self.session.tool_call_history,
            self.settings.chat_history_length,
            user_message,
        );
        let tools = match &self.session.active_context.mcp_tools {
            Some(ctx) => {
                let decls = build_tool_decls(ctx);
                let mut ts: Vec<Tool> = Vec::new();
                ts.push(Tool { function_declarations: decls });
                Some(ts)
            },
            None => None,
        };
        let r = LlmPrompt { system_instruction, contents, tools };
        proof {
            let expected = prompt_view(self.session@, *self.settings, user_message@, now_iso@);
            match r.system_instruction {
                Some(ref si) => {
                    assert(r@.system_instruction->0 =~= expected.system_instruction->0);
                },
                None => {},
            }
            match r.tools {
                Some(ref ts) => {
                    assert(r@.tools->0 =~= expected.tools->0);
                },
                None => {},
            }
        }
        r
    }

    /// Builds the prompt for the pending user text now.  The trailing agent
    /// message is accepted for call-site compatibility and not consulted.
    pub fn build_prompt(&self, user_message: String, _last_agent_message: Option<String>) -> (r:
        LlmPrompt)
        ensures
            exists|now_iso: Seq<char>|
                r@ == prompt_view(self.session@, *self.settings, user_message@, now_iso),
    {
        let now = now_rfc3339();
        let r = self.build_prompt_at(user_message, &now);
        proof {
            assert(r@ == prompt_view(self.session@, *self.settings, user_message@, now@));
        }
        r
    }
}

} // verus!
