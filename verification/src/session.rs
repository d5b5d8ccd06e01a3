//! Sessions and their transcripts: the durable conversation state the turn
//! orchestrator mutates.  Loading and saving the state is I/O and lives
//! outside the library.

use vstd::prelude::*;
use crate::json::{JsonValue, JsonView, views_of_entries};
use crate::model::{
    Author, McpContext, McpContextView, Message, MessageContent, MessageContentView, MessageView,
    ToolCallRecord, ToolCallRecordView, message_views, record_views,
};
use crate::textfmt::{dec_digits, u64_string};

verus! {

/// What the summarizer extracted from the conversation so far.
#[derive(Debug)]
pub struct ConversationSummaryEntities {
    pub user_name: String,
    pub other_entities: Vec<(String, JsonValue)>,
}

/// The ghost mirror of `ConversationSummaryEntities`.
pub struct ConversationSummaryEntitiesView {
    pub user_name: Seq<char>,
    pub other_entities: Seq<(Seq<char>, JsonView)>,
}

impl View for ConversationSummaryEntities {
    type V = ConversationSummaryEntitiesView;

    open spec fn view(&self) -> ConversationSummaryEntitiesView {
        ConversationSummaryEntitiesView {
            user_name: self.user_name@,
            other_entities: views_of_entries(self.other_entities@),
        }
    }
}

/// The running summary an external summarizer maintains between turns.
#[derive(Debug)]
pub struct ConversationSummary {
    pub summary: String,
    pub sentiment: String,
    pub entities: ConversationSummaryEntities,
}

/// The ghost mirror of `ConversationSummary`.
pub struct ConversationSummaryView {
    pub summary: Seq<char>,
    pub sentiment: Seq<char>,
    pub entities: ConversationSummaryEntitiesView,
}

impl View for ConversationSummary {
    type V = ConversationSummaryView;

    open spec fn view(&self) -> ConversationSummaryView {
        ConversationSummaryView {
            summary: self.summary@,
            sentiment: self.sentiment@,
            entities: self.entities@,
        }
    }
}

/// The context carried on a session and rebuilt between turns; the core only
/// reads it.
#[derive(Debug)]
pub struct ActiveContext {
    pub system_persona: Option<String>,
    pub user_instruction: Option<String>,
    pub conversation_summary: ConversationSummary,
    pub mcp_tools: Option<McpContext>,
    pub extra: Vec<(String, JsonValue)>,
}

/// The ghost mirror of `ActiveContext`.
pub struct ActiveContextView {
    pub system_persona: Option<Seq<char>>,
    pub user_instruction: Option<Seq<char>>,
    pub conversation_summary: ConversationSummaryView,
    pub mcp_tools: Option<McpContextView>,
    pub extra: Seq<(Seq<char>, JsonView)>,
}

impl View for ActiveContext {
    type V = ActiveContextView;

    open spec fn view(&self) -> ActiveContextView {
        ActiveContextView {
            system_persona: match self.system_persona {
                Some(ref p) => Some(p@),
                None => None,
            },
            user_instruction: match self.user_instruction {
                Some(ref u) => Some(u@),
                None => None,
            },
            conversation_summary: self.conversation_summary@,
            mcp_tools: match self.mcp_tools {
                Some(ref m) => Some(m@),
                None => None,
            },
            extra: views_of_entries(self.extra@),
        }
    }
}

impl ActiveContext {
    /// An empty context: nothing known yet.
    pub fn new() -> (r: ActiveContext)
        ensures
            r@.system_persona is None,
            r@.user_instruction is None,
            r@.conversation_summary.summary.len() == 0,
            r@.conversation_summary.sentiment.len() == 0,
            r@.conversation_summary.entities.user_name.len() == 0,
            r@.conversation_summary.entities.other_entities.len() == 0,
            r@.mcp_tools is None,
            r@.extra.len() == 0,
    {
        ActiveContext {
            system_persona: None,
            user_instruction: None,
            conversation_summary: ConversationSummary {
                summary: String::new(),
                sentiment: String::new(),
                entities: ConversationSummaryEntities {
                    user_name: String::new(),
                    other_entities: Vec::new(),
                },
            },
            mcp_tools: None,
            extra: Vec::new(),
        }
    }
}

/// One conversation: its transcript, context, and the audit log of tool
/// calls resolved during it.
#[derive(Debug)]
pub struct Session {
    pub id: String,
    pub name: String,
    pub messages: Vec<Message>,
    pub active_context: ActiveContext,
    /// When the session was last touched, in milliseconds since the epoch.
    pub last_updated: i64,
    /// The id the next transcript message will get.
    pub next_message_id: u64,
    pub tool_call_history: Vec<ToolCallRecord>,
}

/// The ghost mirror of `Session`.
pub struct SessionView {
    pub id: Seq<char>,
    pub name: Seq<char>,
    pub messages: Seq<MessageView>,
    pub active_context: ActiveContextView,
    pub last_updated: i64,
    pub next_message_id: u64,
    pub tool_call_history: Seq<ToolCallRecordView>,
}

impl View for Session {
    type V = SessionView;

    open spec fn view(&self) -> SessionView {
        SessionView {
            id: self.id@,
            name: self.name@,
            messages: message_views(self.messages@),
            active_context: self.active_context@,
            last_updated: self.last_updated,
            next_message_id: self.next_message_id,
            tool_call_history: record_views(self.tool_call_history@),
        }
    }
}

/// The position of the first message with id `id`, if any.
pub open spec fn msg_index_of(s: Seq<MessageView>, id: u64) -> Option<int>
    decreases s,
{
    if s.len() == 0 {
        None
    } else if s[0].id == id {
        Some(0int)
    } else {
        match msg_index_of(s.subrange(1, s.len() as int), id) {
            Some(j) => Some(j + 1),
            None => None,
        }
    }
}

pub proof fn lemma_msg_index_of(s: Seq<MessageView>, id: u64)
    ensures
        match msg_index_of(s, id) {
            Some(j) => 0 <= j < s.len() && s[j].id == id && (forall|i: int|
                0 <= i < j ==> s[i].id != id),
            None => forall|i: int| 0 <= i < s.len() ==> s[i].id != id,
        },
    decreases s,
{
    if s.len() > 0 {
        let rest = s.subrange(1, s.len() as int);
        lemma_msg_index_of(rest, id);
        assert(forall|i: int| 1 <= i < s.len() ==> s[i] == rest[i - 1]);
    }
}

impl Session {
    /// A well-formed transcript: ids were handed out by the counter, so they
    /// are below it and pairwise distinct.
    pub open spec fn wf(self) -> bool {
        &&& forall|i: int| 0 <= i < self@.messages.len()
            ==> (#[trigger] self@.messages[i].id) < self.next_message_id
        &&& forall|i: int, j: int| 0 <= i < j < self@.messages.len()
            ==> (#[trigger] self@.messages[i].id) != (#[trigger] self@.messages[j].id)
    }

    /// A fresh session with the given id and display name, empty everywhere.
    pub fn new(id: String, name: String) -> (r: Session)
        ensures
            r.wf(),
            r@.id == id@,
            r@.name == name@,
            r@.messages.len() == 0,
            r@.next_message_id == 0,
            r@.tool_call_history.len() == 0,
            r@.active_context.mcp_tools is None,
            r@.last_updated == 0,
    {
        Session {
            id,
            name,
            messages: Vec::new(),
            active_context: ActiveContext::new(),
            last_updated: 0,
            next_message_id: 0,
            tool_call_history: Vec::new(),
        }
    }

    /// Appends a message, handing it the next id; returns that id.
    pub fn push_message(&mut self, author: Author, visible: bool, content: MessageContent) -> (id:
        u64)
        requires
            old(self).wf(),
            old(self).next_message_id < u64::MAX,
        ensures
            final(self).wf(),
            id == old(self).next_message_id,
            final(self)@.messages == old(self)@.messages.push(
                MessageView { id, author, visible, content: content@ },
            ),
            final(self).next_message_id == old(self).next_message_id + 1,
            final(self)@.id == old(self)@.id,
            final(self)@.name == old(self)@.name,
            final(self).active_context == old(self).active_context,
            final(self).last_updated == old(self).last_updated,
            final(self).tool_call_history == old(self).tool_call_history,
    {
        let id = self.next_message_id;
        self.messages.push(Message { id, author, visible, content });
        self.next_message_id = self.next_message_id + 1;
        proof {
            assert(message_views(self.messages@) =~= message_views(old(self).messages@).push(
                MessageView { id, author, visible, content: content@ },
            ));
        }
        id
    }

    /// The position of the first message with id `id`, if any.
    pub fn find_message_index(&self, id: u64) -> (r: Option<usize>)
        ensures
            match r {
                Some(j) => msg_index_of(self@.messages, id) == Some(j as int),
                None => msg_index_of(self@.messages, id) is None,
            },
    {
        proof {
            lemma_msg_index_of(self@.messages, id);
        }
        let mut i: usize = 0;
        while i < self.messages.len()
            invariant
                0 <= i <= self@.messages.len(),
                forall|j: int| 0 <= j < i ==> self@.messages[j].id != id,
            decreases self@.messages.len() - i,
        {
            if self.messages[i].id == id {
                proof {
                    lemma_msg_index_of(self@.messages, id);
                    match msg_index_of(self@.messages, id) {
                        Some(j) => {
                            assert(j == i as int);
                        },
                        None => {
                            assert(self@.messages[i as int].id == id);
                            assert(false);
                        },
                    }
                }
                return Some(i);
            }
            i += 1;
        }
        None
    }

    /// Appends streamed text to the message with id `id`, where that message
    /// exists and holds plain text; reports whether it did.
    pub fn append_text_to_message(&mut self, id: u64, chunk: &str) -> (r: bool)
        ensures
            old(self).wf() ==> final(self).wf(),
            final(self).next_message_id == old(self).next_message_id,
            final(self)@.id == old(self)@.id,
            final(self)@.name == old(self)@.name,
            final(self).active_context == old(self).active_context,
            final(self).last_updated == old(self).last_updated,
            final(self).tool_call_history == old(self).tool_call_history,
            match msg_index_of(old(self)@.messages, id) {
                None => !r && final(self).messages == old(self).messages,
                Some(j) => match old(self)@.messages[j].content {
                    MessageContentView::Text(t) => r && final(self)@.messages
                        == old(self)@.messages.update(
                        j,
                        MessageView {
                            content: MessageContentView::Text(t + chunk@),
                            ..old(self)@.messages[j]
                        },
                    ),
                    _ => !r && final(self).messages == old(self).messages,
                },
            },
    {
        proof {
            lemma_msg_index_of(self@.messages, id);
        }
        match self.find_message_index(id) {
            None => false,
            Some(j) => {
                let new_content = match &self.messages[j].content {
                    MessageContent::Text(t) => {
                        let mut extended = t.clone();
                        extended.append(chunk);
                        Some(MessageContent::Text(extended))
                    },
                    _ => None,
                };
                match new_content {
                    None => false,
                    Some(c) => {
                        self.messages[j].content = c;
                        proof {
                            assert(message_views(self.messages@) =~= message_views(
                                old(self).messages@,
                            ).update(
                                j as int,
                                MessageView {
                                    content: MessageContentView::Text(
                                        old(self)@.messages[j as int].content->Text_0 + chunk@,
                                    ),
                                    ..old(self)@.messages[j as int]
                                },
                            ));
                            assert forall|i: int| 0 <= i < self@.messages.len() implies
                                (#[trigger] self@.messages[i].id)
                                    == old(self)@.messages[i].id by {}
                        }
                        true
                    },
                }
            },
        }
    }

    /// Replaces the content of the message with id `id`, where it exists;
    /// reports whether it did.  This is the one variant change a message ever
    /// sees: a placeholder becoming a tool call, or a tool call becoming a
    /// permission request or recording its result.
    pub fn set_message_content(&mut self, id: u64, content: MessageContent) -> (r: bool)
        ensures
            old(self).wf() ==> final(self).wf(),
            final(self).next_message_id == old(self).next_message_id,
            final(self)@.id == old(self)@.id,
            final(self)@.name == old(self)@.name,
            final(self).active_context == old(self).active_context,
            final(self).last_updated == old(self).last_updated,
            final(self).tool_call_history == old(self).tool_call_history,
            match msg_index_of(old(self)@.messages, id) {
                None => !r && final(self).messages == old(self).messages,
                Some(j) => r && final(self)@.messages == old(self)@.messages.update(
                    j,
                    MessageView { content: content@, ..old(self)@.messages[j] },
                ),
            },
    {
        proof {
            lemma_msg_index_of(self@.messages, id);
        }
        match self.find_message_index(id) {
            None => false,
            Some(j) => {
                self.messages[j].content = content;
                proof {
                    assert(message_views(self.messages@) =~= message_views(old(self).messages@)
                        .update(
                        j as int,
                        MessageView { content: content@, ..old(self)@.messages[j as int] },
                    ));
                    assert forall|i: int| 0 <= i < self@.messages.len() implies
                        (#[trigger] self@.messages[i].id) == old(self)@.messages[i].id by {}
                }
                true
            },
        }
    }

    /// Appends resolved tool-call records to the audit log.
    pub fn extend_history(&mut self, records: Vec<ToolCallRecord>)
        ensures
            final(self)@.tool_call_history == old(self)@.tool_call_history
                + record_views(records@),
            final(self).messages == old(self).messages,
            final(self).next_message_id == old(self).next_message_id,
            final(self)@.id == old(self)@.id,
            final(self)@.name == old(self)@.name,
            final(self).active_context == old(self).active_context,
            final(self).last_updated == old(self).last_updated,
            final(self).wf() == old(self).wf(),
    {
        let mut records = records;
        let ghost rs = records@;
        proof {
            assert(records@ =~= rs.subrange(0, rs.len() as int));
        }
        while records.len() > 0
            invariant
                records@.len() <= rs.len(),
                records@ == rs.subrange(
                    rs.len() - records@.len(),
                    rs.len() as int,
                ),
                record_views(self.tool_call_history@) == record_views(
                    old(self).tool_call_history@,
                ) + record_views(rs.subrange(0, rs.len() - records@.len())),
                self.messages == old(self).messages,
                self.next_message_id == old(self).next_message_id,
                self.id == old(self).id,
                self.name == old(self).name,
                self.active_context == old(self).active_context,
                self.last_updated == old(self).last_updated,
            decreases records@.len(),
        {
            let ghost k = rs.len() - records@.len();
            let r = records.remove(0);
            let ghost prev = self.tool_call_history@;
            proof {
                assert(r == rs[k]);
            }
            self.tool_call_history.push(r);
            proof {
                assert(records@ =~= rs.subrange(k + 1, rs.len() as int));
                assert(self.tool_call_history@ == prev.push(r));
                assert(record_views(prev.push(r)) =~= record_views(prev).push(r@));
                assert(rs.subrange(0, k + 1) =~= rs.subrange(0, k).push(rs[k]));
                assert(record_views(rs.subrange(0, k).push(rs[k])) =~= record_views(
                    rs.subrange(0, k),
                ).push(rs[k]@));
                assert(record_views(prev).push(r@) =~= (record_views(
                    old(self).tool_call_history@,
                ) + record_views(rs.subrange(0, k))).push(rs[k]@));
                assert((record_views(old(self).tool_call_history@) + record_views(
                    rs.subrange(0, k),
                )).push(rs[k]@) =~= record_views(old(self).tool_call_history@) + record_views(
                    rs.subrange(0, k),
                ).push(rs[k]@));
                assert(record_views(self.tool_call_history@) =~= record_views(
                    old(self).tool_call_history@,
                ) + record_views(rs.subrange(0, k + 1)));
            }
        }
        proof {
            assert(rs.subrange(0, rs.len() as int) =~= rs);
            assert(record_views(self.tool_call_history@) =~= record_views(
                old(self).tool_call_history@,
            ) + record_views(rs));
        }
    }
}

/// The position of the first session with id `id`, if any.
pub open spec fn session_index_of(s: Seq<SessionView>, id: Seq<char>) -> Option<int>
    decreases s,
{
    if s.len() == 0 {
        None
    } else if s[0].id == id {
        Some(0int)
    } else {
        match session_index_of(s.subrange(1, s.len() as int), id) {
            Some(j) => Some(j + 1),
            None => None,
        }
    }
}

/// In a transcript with pairwise distinct ids, looking a message's own id up
/// finds exactly that message.
pub proof fn lemma_unique_id_index(s: Seq<MessageView>, j: int)
    requires
        0 <= j < s.len(),
        forall|a: int, b: int| 0 <= a < b < s.len()
            ==> (#[trigger] s[a].id) != (#[trigger] s[b].id),
    ensures
        msg_index_of(s, s[j].id) == Some(j),
{
    lemma_msg_index_of(s, s[j].id);
    match msg_index_of(s, s[j].id) {
        Some(k) => {
            if k < j {
                assert(s[k].id != s[j].id);
                assert(false);
            }
            if k > j {
                assert(s[j].id != s[j].id);
                assert(false);
            }
        },
        None => {
            assert(s[j].id == s[j].id);
            assert(false);
        },
    }
}

pub proof fn lemma_session_index_of(s: Seq<SessionView>, id: Seq<char>)
    ensures
        match session_index_of(s, id) {
            Some(j) => 0 <= j < s.len() && s[j].id == id && (forall|i: int|
                0 <= i < j ==> s[i].id != id),
            None => forall|i: int| 0 <= i < s.len() ==> s[i].id != id,
        },
    decreases s,
{
    if s.len() > 0 {
        let rest = s.subrange(1, s.len() as int);
        lemma_session_index_of(rest, id);
        assert(forall|i: int| 1 <= i < s.len() ==> s[i] == rest[i - 1]);
    }
}

/// Every session, and which one is active.  Window geometry and the file
/// behind this state belong to the shell around the library.
#[derive(Debug)]
pub struct SessionState {
    pub sessions: Vec<Session>,
    pub active_session_id: String,
}

/// The views of a list of sessions.
pub open spec fn session_views(s: Seq<Session>) -> Seq<SessionView> {
    Seq::new(s.len(), |i: int| s[i]@)
}

impl SessionState {
    /// An empty state: no sessions, nothing active.
    pub fn new() -> (r: SessionState)
        ensures
            r.sessions@.len() == 0,
            r.active_session_id@.len() == 0,
    {
        SessionState { sessions: Vec::new(), active_session_id: String::new() }
    }

    /// The position of the session with id `id`, if any.
    pub fn session_index(&self, id: &String) -> (r: Option<usize>)
        ensures
            match r {
                Some(j) => session_index_of(session_views(self.sessions@), id@) == Some(j as int),
                None => session_index_of(session_views(self.sessions@), id@) is None,
            },
    {
        proof {
            lemma_session_index_of(session_views(self.sessions@), id@);
        }
        let mut i: usize = 0;
        while i < self.sessions.len()
            invariant
                0 <= i <= self.sessions@.len(),
                forall|j: int| 0 <= j < i ==> session_views(self.sessions@)[j].id != id@,
            decreases self.sessions@.len() - i,
        {
            if self.sessions[i].id.eq(id) {
                proof {
                    lemma_session_index_of(session_views(self.sessions@), id@);
                    match session_index_of(session_views(self.sessions@), id@) {
                        Some(j) => {
                            assert(j == i as int);
                        },
                        None => {
                            assert(session_views(self.sessions@)[i as int].id == id@);
                            assert(false);
                        },
                    }
                }
                return Some(i);
            }
            i += 1;
        }
        None
    }

    /// The position of the active session, if it exists.
    pub fn active_session_index(&self) -> (r: Option<usize>)
        ensures
            match r {
                Some(j) => session_index_of(session_views(self.sessions@), self.active_session_id@)
                    == Some(j as int),
                None => session_index_of(session_views(self.sessions@), self.active_session_id@)
                    is None,
            },
    {
        let id = self.active_session_id.clone();
        self.session_index(&id)
    }

    /// The active session, if it exists.
    pub fn get_active_session(&self) -> (r: Option<&Session>)
        ensures
            match r {
                Some(s) => match session_index_of(
                    session_views(self.sessions@),
                    self.active_session_id@,
                ) {
                    Some(j) => 0 <= j < self.sessions@.len() && *s == self.sessions@[j],
                    None => false,
                },
                None => session_index_of(session_views(self.sessions@), self.active_session_id@)
                    is None,
            },
    {
        match self.active_session_index() {
            Some(j) => {
                proof {
                    lemma_session_index_of(session_views(self.sessions@), self.active_session_id@);
                }
                Some(&self.sessions[j])
            },
            None => None,
        }
    }

    /// Creates a session with the given id, names it after its position, and
    /// makes it active.
    pub fn create_session(&mut self, id: String)
        requires
            old(self).sessions@.len() < u64::MAX,
        ensures
            final(self).sessions@.len() == old(self).sessions@.len() + 1,
            session_views(final(self).sessions@) == session_views(old(self).sessions@).push(
                final(self).sessions@.last()@,
            ),
            final(self).sessions@.last()@.id == id@,
            final(self).sessions@.last()@.name == "Chat "@ + dec_digits(
                old(self).sessions@.len() + 1 as nat,
            ),
            final(self).sessions@.last()@.messages.len() == 0,
            final(self).sessions@.last()@.tool_call_history.len() == 0,
            final(self).active_session_id@ == id@,
    {
        let mut name: String = "Chat ".to_owned();
        let n = self.sessions.len() as u64;
        name.append(u64_string(n + 1).as_str());
        self.active_session_id = id.clone();
        let s = Session::new(id, name);
        self.sessions.push(s);
        proof {
            assert(session_views(self.sessions@) =~= session_views(old(self).sessions@).push(
                self.sessions@.last()@,
            ));
        }
    }

    /// Removes the session with id `id`, if present.  If it was the active
    /// one, the first remaining session becomes active, or nothing does.
    pub fn delete_session(&mut self, id: &String)
        ensures
            match session_index_of(session_views(old(self).sessions@), id@) {
                None => final(self).sessions == old(self).sessions
                    && final(self).active_session_id == old(self).active_session_id,
                Some(j) => {
                    &&& session_views(final(self).sessions@) == session_views(
                        old(self).sessions@,
                    ).remove(j)
                    &&& final(self).active_session_id@ == if old(self).active_session_id@ == id@ {
                        if session_views(final(self).sessions@).len() > 0 {
                            session_views(final(self).sessions@)[0].id
                        } else {
                            Seq::<char>::empty()
                        }
                    } else {
                        old(self).active_session_id@
                    }
                },
            },
    {
        match self.session_index(id) {
            None => {},
            Some(j) => {
                proof {
                    lemma_session_index_of(session_views(self.sessions@), id@);
                }
                self.sessions.remove(j);
                proof {
                    assert(session_views(self.sessions@) =~= session_views(old(self).sessions@)
                        .remove(j as int));
                }
                if self.active_session_id.eq(id) {
                    if self.sessions.len() > 0 {
                        self.active_session_id = self.sessions[0].id.clone();
                    } else {
                        self.active_session_id = String::new();
                    }
                }
            },
        }
    }

    /// Makes `id` the active session id.
    pub fn set_active_session(&mut self, id: String)
        ensures
            final(self).active_session_id@ == id@,
            final(self).sessions == old(self).sessions,
    {
        self.active_session_id = id;
    }

    /// Marks the active session as touched at `now` (milliseconds since the
    /// epoch), if it exists.
    pub fn touch_active_session(&mut self, now: i64)
        ensures
            match session_index_of(session_views(old(self).sessions@), old(self).active_session_id@) {
                None => final(self).sessions == old(self).sessions,
                Some(j) => session_views(final(self).sessions@) == session_views(
                    old(self).sessions@,
                ).update(j, SessionView { last_updated: now, ..old(self).sessions@[j]@ }),
            },
            final(self).active_session_id == old(self).active_session_id,
    {
        match self.active_session_index() {
            None => {},
            Some(j) => {
                proof {
                    lemma_session_index_of(
                        session_views(self.sessions@),
                        self.active_session_id@,
                    );
                }
                self.sessions[j].last_updated = now;
                proof {
                    assert(session_views(self.sessions@) =~= session_views(old(self).sessions@)
                        .update(
                        j as int,
                        SessionView { last_updated: now, ..old(self).sessions@[j as int]@ },
                    ));
                }
            },
        }
    }

    /// Renames the session with id `id`, if present.
    pub fn update_session_name(&mut self, id: &String, new_name: String)
        ensures
            match session_index_of(session_views(old(self).sessions@), id@) {
                None => final(self).sessions == old(self).sessions,
                Some(j) => session_views(final(self).sessions@) == session_views(
                    old(self).sessions@,
                ).update(j, SessionView { name: new_name@, ..old(self).sessions@[j]@ }),
            },
            final(self).active_session_id == old(self).active_session_id,
    {
        match self.session_index(id) {
            None => {},
            Some(j) => {
                proof {
                    lemma_session_index_of(session_views(self.sessions@), id@);
                }
                self.sessions[j].name = new_name;
                proof {
                    assert(session_views(self.sessions@) =~= session_views(old(self).sessions@)
                        .update(
                        j as int,
                        SessionView { name: new_name@, ..old(self).sessions@[j as int]@ },
                    ));
                }
            },
        }
    }
}

} // verus!
