//! The turn orchestrator's state machine.  One turn runs from new user input
//! to a terminal agent answer: stream events mutate the transcript, tool
//! calls fan out, their records fan back in, and a follow-up prompt repeats
//! the cycle until the model answers in plain text or the follow-up depth is
//! exhausted.  Every transition is a function from state and event to state,
//! stated by a spec function of the same shape; the event loop around it —
//! network reads, task scheduling, the fan-in channel — lives outside the
//! library and hands events in.

use vstd::prelude::*;
use crate::model::{
    Author, Message, MessageContent, MessageContentView, MessageView, ToolCall, ToolCallData,
    ToolCallRecord, ToolCallRecordView, record_views,
};
use crate::session::{Session, SessionView, msg_index_of, lemma_msg_index_of};

verus! {

/// How many follow-up model calls one turn may make before it is cut off.
pub const MAX_FOLLOWUP_DEPTH: u32 = 4;

pub open spec fn depth_exceeded_text() -> Seq<char> {
    "[Hobbes stopped this turn: too many consecutive tool-call rounds.]"@
}

/// Where a turn stands.
#[derive(Clone, Copy, Debug, PartialEq, Eq, Structural)]
pub enum TurnPhase {
    /// A prompt is out; the model's stream has not produced content yet.
    AwaitingModel,
    /// Stream events are arriving.
    Streaming,
    /// The stream ended with tool calls out; their records are fanning in.
    AwaitingToolResults,
    /// The turn ended.
    Done,
}

/// One turn's state.
#[derive(Debug)]
pub struct Turn {
    pub phase: TurnPhase,
    /// The placeholder agent message this turn's text accumulates into.
    pub open_message_id: u64,
    /// Whether the model produced any content yet this round.
    pub first_content_seen: bool,
    /// How many tool calls were dispatched this round.
    pub dispatched: u64,
    /// The records of dispatched calls that resolved so far this round.
    pub records: Vec<ToolCallRecord>,
    /// How many follow-up rounds ran so far.
    pub depth: u32,
}

/// The ghost mirror of `Turn`.
pub struct TurnView {
    pub phase: TurnPhase,
    pub open_message_id: u64,
    pub first_content_seen: bool,
    pub dispatched: u64,
    pub records: Seq<ToolCallRecordView>,
    pub depth: u32,
}

impl View for Turn {
    type V = TurnView;

    open spec fn view(&self) -> TurnView {
        TurnView {
            phase: self.phase,
            open_message_id: self.open_message_id,
            first_content_seen: self.first_content_seen,
            dispatched: self.dispatched,
            records: record_views(self.records@),
            depth: self.depth,
        }
    }
}

/// Whether every dispatched call of this round has reported back: the
/// correctness-critical fan-in condition.
pub open spec fn all_resolved(t: TurnView) -> bool {
    t.records.len() == t.dispatched
}

/// Beginning a turn: the user's message enters the transcript, followed by
/// the empty agent placeholder the stream will fill.
pub open spec fn spec_begin(s: SessionView, user_text: Seq<char>) -> (SessionView, TurnView) {
    let user_msg = MessageView {
        id: s.next_message_id,
        author: Author::User,
        visible: true,
        content: MessageContentView::Text(user_text),
    };
    let placeholder = MessageView {
        id: (s.next_message_id + 1) as u64,
        author: Author::Agent,
        visible: true,
        content: MessageContentView::Text(Seq::empty()),
    };
    (
        SessionView {
            messages: s.messages.push(user_msg).push(placeholder),
            next_message_id: (s.next_message_id + 2) as u64,
            ..s
        },
        TurnView {
            phase: TurnPhase::AwaitingModel,
            open_message_id: (s.next_message_id + 1) as u64,
            first_content_seen: false,
            dispatched: 0,
            records: Seq::empty(),
            depth: 0,
        },
    )
}

/// A text delta: appended to the open message where it still holds plain
/// text, in stream order.
pub open spec fn spec_delta(s: SessionView, t: TurnView, chunk: Seq<char>) -> (
    SessionView,
    TurnView,
) {
    let s2 = match msg_index_of(s.messages, t.open_message_id) {
        Some(j) => match s.messages[j].content {
            MessageContentView::Text(txt) => SessionView {
                messages: s.messages.update(
                    j,
                    MessageView {
                        content: MessageContentView::Text(txt + chunk),
                        ..s.messages[j]
                    },
                ),
                ..s
            },
            _ => s,
        },
        None => s,
    };
    (s2, TurnView { phase: TurnPhase::Streaming, first_content_seen: true, ..t })
}

/// A requested tool call: the first model content of the round repurposes the
/// open placeholder; any later one gets a fresh message.  Either way one more
/// call counts as dispatched.
pub open spec fn spec_tool_call(s: SessionView, t: TurnView, call: ToolCallData) -> (
    SessionView,
    TurnView,
    u64,
) {
    let t2 = TurnView {
        phase: TurnPhase::Streaming,
        first_content_seen: true,
        dispatched: (t.dispatched + 1) as u64,
        ..t
    };
    if !t.first_content_seen {
        let s2 = match msg_index_of(s.messages, t.open_message_id) {
            Some(j) => SessionView {
                messages: s.messages.update(
                    j,
                    MessageView {
                        content: MessageContentView::ToolCall(call),
                        ..s.messages[j]
                    },
                ),
                ..s
            },
            None => s,
        };
        (s2, t2, t.open_message_id)
    } else {
        let m = MessageView {
            id: s.next_message_id,
            author: Author::Agent,
            visible: true,
            content: MessageContentView::ToolCall(call),
        };
        (
            SessionView {
                messages: s.messages.push(m),
                next_message_id: (s.next_message_id + 1) as u64,
                ..s
            },
            t2,
            s.next_message_id,
        )
    }
}

/// One resolved call reporting back on the fan-in.
pub open spec fn spec_record(t: TurnView, rec: ToolCallRecordView) -> TurnView {
    TurnView { records: t.records.push(rec), ..t }
}

/// The stream's end: with calls out, the turn waits for their records; with
/// none, it is done.
pub open spec fn spec_stream_done(t: TurnView) -> TurnView {
    TurnView {
        phase: if t.dispatched > 0 {
            TurnPhase::AwaitingToolResults
        } else {
            TurnPhase::Done
        },
        ..t
    }
}

impl Turn {
    /// Begins a turn, exactly as `spec_begin` says.
    pub fn begin_turn(session: &mut Session, user_text: String) -> (t: Turn)
        requires
            old(session).wf(),
            old(session).next_message_id + 2 <= u64::MAX,
        ensures
            final(session).wf(),
            (final(session)@, t@) == spec_begin(old(session)@, user_text@),
    {
        let ghost expected = spec_begin(session@, user_text@);
        session.push_message(Author::User, true, MessageContent::Text(user_text));
        let open_message_id = session.push_message(
            Author::Agent,
            true,
            MessageContent::Text(String::new()),
        );
        let t = Turn {
            phase: TurnPhase::AwaitingModel,
            open_message_id,
            first_content_seen: false,
            dispatched: 0,
            records: Vec::new(),
            depth: 0,
        };
        proof {
            assert(t@.records =~= Seq::<ToolCallRecordView>::empty());
            assert(final(session)@.messages =~= expected.0.messages);
        }
        t
    }

    /// Applies one text delta, exactly as `spec_delta` says.
    pub fn on_text_delta(&mut self, session: &mut Session, chunk: &str)
        ensures
            (final(session)@, final(self)@) == spec_delta(old(session)@, old(self)@, chunk@),
            old(session).wf() ==> final(session).wf(),
            final(session).next_message_id == old(session).next_message_id,
            final(session).tool_call_history == old(session).tool_call_history,
    {
        session.append_text_to_message(self.open_message_id, chunk);
        self.first_content_seen = true;
        self.phase = TurnPhase::Streaming;
    }

    /// Enters one requested tool call into the transcript and counts it
    /// dispatched, exactly as `spec_tool_call` says; returns the id of the
    /// message that carries it, for the dispatch to resolve into.
    pub fn on_tool_call(&mut self, session: &mut Session, call: ToolCall) -> (message_id: u64)
        requires
            old(session).wf(),
            old(session).next_message_id < u64::MAX,
            old(self)@.dispatched < u64::MAX,
        ensures
            final(session).wf(),
            (final(session)@, final(self)@, message_id) == spec_tool_call(
                old(session)@,
                old(self)@,
                call@,
            ),
    {
        let message_id = if !self.first_content_seen {
            session.set_message_content(self.open_message_id, MessageContent::ToolCall(call));
            self.open_message_id
        } else {
            session.push_message(Author::Agent, true, MessageContent::ToolCall(call))
        };
        self.first_content_seen = true;
        self.phase = TurnPhase::Streaming;
        self.dispatched = self.dispatched + 1;
        message_id
    }

    /// Takes one resolved call's record, exactly as `spec_record` says.
    pub fn on_record(&mut self, record: ToolCallRecord)
        ensures
            final(self)@ == spec_record(old(self)@, record@),
            final(self)@.records.len() == old(self)@.records.len() + 1,
    {
        let ghost prev = self.records@;
        self.records.push(record);
        proof {
            assert(record_views(self.records@) =~= record_views(prev).push(record@));
        }
    }

    /// Notes the end of the model stream, exactly as `spec_stream_done`
    /// says; reports whether dispatched calls are still out.
    pub fn on_stream_done(&mut self) -> (waiting: bool)
        ensures
            final(self)@ == spec_stream_done(old(self)@),
            waiting == (old(self)@.dispatched > 0),
    {
        if self.dispatched > 0 {
            self.phase = TurnPhase::AwaitingToolResults;
            true
        } else {
            self.phase = TurnPhase::Done;
            false
        }
    }
}

/// Completing the fan-in: the collected records join the audit log, and
/// either a fresh placeholder opens the follow-up round, or the follow-up
/// depth is exhausted and the turn ends on the fixed cut-off message.  No
/// record is dropped either way.
pub open spec fn spec_fan_in(s: SessionView, t: TurnView) -> (SessionView, TurnView, bool) {
    if t.depth >= MAX_FOLLOWUP_DEPTH {
        let m = MessageView {
            id: s.next_message_id,
            author: Author::Agent,
            visible: true,
            content: MessageContentView::Text(depth_exceeded_text()),
        };
        (
            SessionView {
                messages: s.messages.push(m),
                next_message_id: (s.next_message_id + 1) as u64,
                tool_call_history: s.tool_call_history + t.records,
                ..s
            },
            TurnView { phase: TurnPhase::Done, records: Seq::empty(), ..t },
            false,
        )
    } else {
        let placeholder = MessageView {
            id: s.next_message_id,
            author: Author::Agent,
            visible: true,
            content: MessageContentView::Text(Seq::empty()),
        };
        (
            SessionView {
                messages: s.messages.push(placeholder),
                next_message_id: (s.next_message_id + 1) as u64,
                tool_call_history: s.tool_call_history + t.records,
                ..s
            },
            TurnView {
                phase: TurnPhase::AwaitingModel,
                open_message_id: s.next_message_id,
                first_content_seen: false,
                dispatched: 0,
                records: Seq::empty(),
                depth: (t.depth + 1) as u32,
            },
            true,
        )
    }
}

/// Completes the fan-in of one round, exactly as `spec_fan_in` says.  It
/// demands that every dispatched call has reported: the follow-up prompt is
/// never built on a partial fan-in.  Returns the turn and whether a follow-up
/// model call must now be made (after which the stream events drive the same
/// turn again).
pub fn complete_fan_in(session: &mut Session, turn: Turn) -> (r: (Turn, bool))
    requires
        old(session).wf(),
        old(session).next_message_id < u64::MAX,
        turn@.phase is AwaitingToolResults,
        all_resolved(turn@),
        turn@.depth < u32::MAX,
    ensures
        final(session).wf(),
        (final(session)@, r.0@, r.1) == spec_fan_in(old(session)@, turn@),
{
    let Turn { phase, open_message_id, first_content_seen, dispatched, records, depth } = turn;
    let ghost tv = TurnView {
        phase,
        open_message_id,
        first_content_seen,
        dispatched,
        records: record_views(records@),
        depth,
    };
    if depth >= MAX_FOLLOWUP_DEPTH {
        session.extend_history(records);
        session.push_message(
            Author::Agent,
            true,
            MessageContent::Text(
                "[Hobbes stopped this turn: too many consecutive tool-call rounds.]".to_owned(),
            ),
        );
        let t = Turn {
            phase: TurnPhase::Done,
            open_message_id,
            first_content_seen,
            dispatched,
            records: Vec::new(),
            depth,
        };
        proof {
            assert(t@.records =~= Seq::<ToolCallRecordView>::empty());
        }
        (t, false)
    } else {
        session.extend_history(records);
        let new_open = session.push_message(Author::Agent, true, MessageContent::Text(String::new()));
        let t = Turn {
            phase: TurnPhase::AwaitingModel,
            open_message_id: new_open,
            first_content_seen: false,
            dispatched: 0,
            records: Vec::new(),
            depth: depth + 1,
        };
        proof {
            assert(t@.records =~= Seq::<ToolCallRecordView>::empty());
        }
        (t, true)
    }
}

/// Any number of text deltas in stream order.
pub open spec fn spec_deltas(s: SessionView, t: TurnView, chunks: Seq<Seq<char>>) -> (
    SessionView,
    TurnView,
)
    decreases chunks.len(),
{
    if chunks.len() == 0 {
        (s, t)
    } else {
        let step = spec_delta(s, t, chunks[0]);
        spec_deltas(step.0, step.1, chunks.subrange(1, chunks.len() as int))
    }
}

proof fn lemma_deltas_preserve(s: SessionView, t: TurnView, chunks: Seq<Seq<char>>)
    ensures
        ({
            let r = spec_deltas(s, t, chunks);
            &&& r.0.messages.len() == s.messages.len()
            &&& (forall|i: int| 0 <= i < s.messages.len()
                ==> (#[trigger] r.0.messages[i]).id == s.messages[i].id
                    && r.0.messages[i].author == s.messages[i].author
                    && r.0.messages[i].visible == s.messages[i].visible)
            &&& (forall|i: int| 0 <= i < s.messages.len() && msg_index_of(
                s.messages,
                t.open_message_id,
            ) != Some(i) ==> #[trigger] r.0.messages[i] == s.messages[i])
            &&& (forall|i: int| 0 <= i < s.messages.len() && (#[trigger] s.messages[i].content)
                is Text ==> r.0.messages[i].content is Text)
            &&& r.1.dispatched == t.dispatched
            &&& r.1.open_message_id == t.open_message_id
            &&& r.1.records == t.records
            &&& r.1.depth == t.depth
            &&& (chunks.len() > 0 ==> r.1.phase is Streaming)
            &&& (chunks.len() == 0 ==> r.1 == t)
            &&& r.0.next_message_id == s.next_message_id
            &&& r.0.tool_call_history == s.tool_call_history
            &&& r.0.id == s.id
        }),
    decreases chunks.len(),
{
    if chunks.len() > 0 {
        let step = spec_delta(s, t, chunks[0]);
        lemma_msg_index_of(s.messages, t.open_message_id);
        lemma_msg_index_same_ids(step.0.messages, s.messages, step.1.open_message_id);
        lemma_deltas_preserve(step.0, step.1, chunks.subrange(1, chunks.len() as int));
    }
}

proof fn lemma_msg_index_same_ids(a: Seq<MessageView>, b: Seq<MessageView>, id: u64)
    requires
        a.len() == b.len(),
        forall|i: int| 0 <= i < a.len() ==> (#[trigger] a[i]).id == b[i].id,
    ensures
        msg_index_of(a, id) == msg_index_of(b, id),
    decreases a,
{
    if a.len() > 0 {
        let ra = a.subrange(1, a.len() as int);
        let rb = b.subrange(1, b.len() as int);
        assert(forall|i: int| 0 <= i < ra.len() ==> (#[trigger] ra[i]).id == rb[i].id);
        lemma_msg_index_same_ids(ra, rb, id);
    }
}

/// A turn with zero tool calls terminates after one model stream, and the
/// transcript gains exactly two messages: the user's text, then one agent
/// text message.  This holds for every starting session and every sequence of
/// text deltas the one stream carries.
pub proof fn lemma_turn_without_tool_calls(
    s0: SessionView,
    user_text: Seq<char>,
    chunks: Seq<Seq<char>>,
)
    requires
        s0.next_message_id + 2 <= u64::MAX,
        forall|i: int| 0 <= i < s0.messages.len()
            ==> (#[trigger] s0.messages[i]).id < s0.next_message_id,
    ensures
        ({
            let begun = spec_begin(s0, user_text);
            let streamed = spec_deltas(begun.0, begun.1, chunks);
            let done = spec_stream_done(streamed.1);
            &&& done.phase is Done
            &&& streamed.0.messages.len() == s0.messages.len() + 2
            &&& streamed.0.messages[s0.messages.len() as int].author is User
            &&& streamed.0.messages[s0.messages.len() as int].content
                == MessageContentView::Text(user_text)
            &&& streamed.0.messages.last().author is Agent
            &&& streamed.0.messages.last().content is Text
        }),
{
    let begun = spec_begin(s0, user_text);
    let s1 = begun.0;
    let t1 = begun.1;
    lemma_deltas_preserve(s1, t1, chunks);
    let streamed = spec_deltas(s1, t1, chunks);
    // The user's message is untouched by deltas: it is not the open message.
    lemma_msg_index_of(s1.messages, t1.open_message_id);
    let j = msg_index_of(s1.messages, t1.open_message_id);
    match j {
        Some(ji) => {
            assert(s1.messages[ji].id == t1.open_message_id);
            if ji != s1.messages.len() - 1 {
                assert(s1.messages[s1.messages.len() - 1].id == t1.open_message_id);
                assert(false);
            }
            assert(j != Some(s0.messages.len() as int));
        },
        None => {},
    }
    assert(streamed.0.messages[s0.messages.len() as int] == s1.messages[s0.messages.len() as int]);
    assert(s1.messages[s1.messages.len() - 1].content is Text);
}

/// Exactly as many records are collected as calls were dispatched, whatever
/// order the records arrive in: starting from a round with none collected,
/// taking any sequence of records leaves one record per element, and the
/// fan-in condition the follow-up demands holds exactly when their number is
/// the number dispatched.
pub proof fn lemma_fan_in_counts(t: TurnView, recs: Seq<ToolCallRecordView>)
    requires
        t.records.len() == 0,
    ensures
        spec_records(t, recs).records.len() == recs.len(),
        spec_records(t, recs).dispatched == t.dispatched,
        all_resolved(spec_records(t, recs)) <==> recs.len() == t.dispatched,
{
    lemma_records_fold(t, recs);
}

/// Any number of fan-in records, in arrival order.
pub open spec fn spec_records(t: TurnView, recs: Seq<ToolCallRecordView>) -> TurnView
    decreases recs.len(),
{
    if recs.len() == 0 {
        t
    } else {
        spec_records(spec_record(t, recs[0]), recs.subrange(1, recs.len() as int))
    }
}

proof fn lemma_records_fold(t: TurnView, recs: Seq<ToolCallRecordView>)
    ensures
        spec_records(t, recs).records.len() == t.records.len() + recs.len(),
        spec_records(t, recs).dispatched == t.dispatched,
    decreases recs.len(),
{
    if recs.len() > 0 {
        lemma_records_fold(spec_record(t, recs[0]), recs.subrange(1, recs.len() as int));
    }
}

} // verus!
