//! The stream decoder: turns the model endpoint's line-oriented chunked
//! transport into typed stream events, buffering partial lines across network
//! reads, detecting malformed-call finishes (retried, up to a ceiling) and
//! unparseable chunks (fatal), and guaranteeing that an empty stream still
//! yields one synthetic text delta.

use vstd::prelude::*;
use crate::json::{JsonValue, JsonView, lookup, parse_json, parsed_json, text_of, get_field};
use crate::model::{
    McpContext, McpContextView, McpServerContext, McpServerContextView, StreamMessage,
    StreamMessageView, ToolCall,
};

verus! {

/// How often one request is attempted before the malformed-call retry gives
/// up.
pub const MAX_STREAM_ATTEMPTS: u32 = 2;

/// The position of the first newline byte, if any.
pub open spec fn first_newline(s: Seq<u8>) -> Option<int>
    decreases s,
{
    if s.len() == 0 {
        None
    } else if s[0] == 10u8 {
        Some(0int)
    } else {
        match first_newline(s.subrange(1, s.len() as int)) {
            Some(j) => Some(j + 1),
            None => None,
        }
    }
}

pub proof fn lemma_first_newline(s: Seq<u8>)
    ensures
        match first_newline(s) {
            Some(j) => 0 <= j < s.len() && s[j] == 10u8 && (forall|i: int|
                0 <= i < j ==> s[i] != 10u8),
            None => forall|i: int| 0 <= i < s.len() ==> s[i] != 10u8,
        },
    decreases s,
{
    if s.len() > 0 {
        let rest = s.subrange(1, s.len() as int);
        lemma_first_newline(rest);
        assert(forall|i: int| 1 <= i < s.len() ==> s[i] == rest[i - 1]);
    }
}

/// ASCII whitespace, as the transport's line trimming sees it.
pub open spec fn is_ws_byte(b: u8) -> bool {
    b == 32u8 || b == 9u8 || b == 10u8 || b == 13u8
}

/// `s` without leading whitespace.
pub open spec fn trim_start_bytes(s: Seq<u8>) -> Seq<u8>
    decreases s,
{
    if s.len() == 0 {
        s
    } else if is_ws_byte(s[0]) {
        trim_start_bytes(s.subrange(1, s.len() as int))
    } else {
        s
    }
}

/// `s` without trailing whitespace.
pub open spec fn trim_end_bytes(s: Seq<u8>) -> Seq<u8>
    decreases s,
{
    if s.len() == 0 {
        s
    } else if is_ws_byte(s.last()) {
        trim_end_bytes(s.drop_last())
    } else {
        s
    }
}

/// `s` without leading and trailing whitespace.
pub open spec fn trim_bytes(s: Seq<u8>) -> Seq<u8> {
    trim_end_bytes(trim_start_bytes(s))
}

/// The bytes of the transport's data-line marker.
pub open spec fn data_marker() -> Seq<u8> {
    seq![100u8, 97u8, 116u8, 97u8, 58u8, 32u8]
}

/// The payload of a data line: what follows `data: ` on the trimmed line, or
/// nothing for any other line.
pub open spec fn data_payload(line: Seq<u8>) -> Option<Seq<u8>> {
    let t = trim_bytes(line);
    if t.len() >= 6 && t.subrange(0, 6) == data_marker() {
        Some(t.subrange(6, t.len() as int))
    } else {
        None
    }
}

/// Pops the first complete line off the buffer: the bytes before the first
/// newline, the newline itself consumed.
#[verifier::loop_isolation(false)]
pub fn take_line(buffer: &mut Vec<u8>) -> (r: Option<Vec<u8>>)
    ensures
        match first_newline(old(buffer)@) {
            Some(j) => r is Some && r->0@ == old(buffer)@.subrange(0, j) && final(buffer)@
                == old(buffer)@.subrange(j + 1, old(buffer)@.len() as int),
            None => r is None && final(buffer)@ == old(buffer)@,
        },
{
    proof {
        lemma_first_newline(buffer@);
    }
    let mut i: usize = 0;
    let n = buffer.len();
    while i < n
        invariant
            0 <= i <= n,
            n == buffer@.len(),
            buffer@ == old(buffer)@,
            forall|j: int| 0 <= j < i ==> buffer@[j] != 10u8,
        decreases n - i,
    {
        if buffer[i] == 10u8 {
            proof {
                lemma_first_newline(buffer@);
                match first_newline(buffer@) {
                    Some(j) => {
                        assert(j == i as int);
                    },
                    None => {
                        assert(buffer@[i as int] == 10u8);
                        assert(false);
                    },
                }
            }
            let mut line: Vec<u8> = Vec::new();
            let mut k: usize = 0;
            while k < i
                invariant
                    0 <= k <= i < buffer@.len(),
                    buffer@ == old(buffer)@,
                    line@ == buffer@.subrange(0, k as int),
                decreases i - k,
            {
                let b = buffer[k];
                line.push(b);
                proof {
                    assert(line@ =~= buffer@.subrange(0, k + 1 as int));
                }
                k += 1;
            }
            let mut rest: Vec<u8> = Vec::new();
            let mut k2: usize = i + 1;
            while k2 < n
                invariant
                    i + 1 <= k2 <= n,
                    n == buffer@.len(),
                    buffer@ == old(buffer)@,
                    rest@ == buffer@.subrange(i + 1 as int, k2 as int),
                decreases n - k2,
            {
                let b = buffer[k2];
                rest.push(b);
                proof {
                    assert(rest@ =~= buffer@.subrange(i + 1 as int, k2 + 1 as int));
                }
                k2 += 1;
            }
            *buffer = rest;
            return Some(line);
        }
        i += 1;
    }
    None
}

fn is_ws(b: u8) -> (r: bool)
    ensures
        r == is_ws_byte(b),
{
    b == 32u8 || b == 9u8 || b == 10u8 || b == 13u8
}

/// The trimmed line's payload, where the line is a data line.
#[verifier::loop_isolation(false)]
#[verifier::rlimit(40)]
pub fn line_payload(line: &Vec<u8>) -> (r: Option<Vec<u8>>)
    ensures
        match data_payload(line@) {
            Some(p) => r is Some && r->0@ == p,
            None => r is None,
        },
{
    // Trim leading whitespace.
    let mut start: usize = 0;
    let n = line.len();
    proof {
        assert(line@.subrange(0, n as int) =~= line@);
    }
    while start < n && is_ws(line[start])
        invariant
            0 <= start <= n,
            trim_start_bytes(line@) == trim_start_bytes(line@.subrange(start as int, n as int)),
        decreases n - start,
    {
        proof {
            let cur = line@.subrange(start as int, n as int);
            assert(cur[0] == line@[start as int]);
            assert(cur.subrange(1, cur.len() as int) =~= line@.subrange(
                start + 1 as int,
                n as int,
            ));
        }
        start += 1;
    }
    proof {
        let cur = line@.subrange(start as int, n as int);
        if start < n {
            assert(cur[0] == line@[start as int]);
            assert(!is_ws_byte(cur[0]));
        }
        assert(trim_start_bytes(line@) == cur);
    }
    // Trim trailing whitespace of the remainder.
    let mut stop: usize = n;
    while stop > start && is_ws(line[stop - 1])
        invariant
            start <= stop <= n,
            trim_end_bytes(line@.subrange(start as int, n as int)) == trim_end_bytes(
                line@.subrange(start as int, stop as int),
            ),
        decreases stop,
    {
        proof {
            let cur = line@.subrange(start as int, stop as int);
            assert(cur.last() == line@[stop - 1]);
            assert(cur.drop_last() =~= line@.subrange(start as int, stop - 1));
        }
        stop -= 1;
    }
    let ghost trimmed = trim_bytes(line@);
    proof {
        let cur = line@.subrange(start as int, stop as int);
        if stop > start {
            assert(cur.last() == line@[stop - 1]);
            assert(!is_ws_byte(cur.last()));
        }
        assert(trimmed == cur);
    }
    // The data marker, byte for byte.
    if stop - start < 6 {
        proof {
            assert(trimmed.len() < 6);
        }
        return None;
    }
    if !(line[start] == 100u8 && line[start + 1] == 97u8 && line[start + 2] == 116u8
        && line[start + 3] == 97u8 && line[start + 4] == 58u8 && line[start + 5] == 32u8) {
        proof {
            assert(forall|i: int| 0 <= i < trimmed.len()
                ==> trimmed[i] == line@[start + i]);
            assert(trimmed.subrange(0, 6) != data_marker());
        }
        return None;
    }
    proof {
        assert(forall|i: int| 0 <= i < trimmed.len() ==> trimmed[i] == line@[start + i]);
        assert(trimmed.subrange(0, 6) =~= data_marker());
    }
    let mut payload: Vec<u8> = Vec::new();
    let mut k: usize = start + 6;
    while k < stop
        invariant
            start + 6 <= k <= stop,
            payload@ == line@.subrange(start + 6, k as int),
        decreases stop - k,
    {
        let b = line[k];
        payload.push(b);
        proof {
            assert(payload@ =~= line@.subrange(start + 6, k + 1 as int));
        }
        k += 1;
    }
    proof {
        assert(payload@ =~= trimmed.subrange(6, trimmed.len() as int));
    }
    Some(payload)
}

/// Relies on std's String::from_utf8_lossy: decodes UTF-8 text, replacing
/// invalid sequences; the result is a function of the bytes alone.
#[verifier::external_body]
fn utf8_lossy(bytes: &Vec<u8>) -> (r: String)
    ensures
        r@ == utf8_text(bytes@),
{
    String::from_utf8_lossy(bytes).into_owned()
}

/// What a byte sequence reads as UTF-8 text, invalid sequences replaced.
pub uninterp spec fn utf8_text(bytes: Seq<u8>) -> Seq<char>;

/// The named entry of a JSON object; nothing on any other document.
pub open spec fn field_of(v: JsonView, k: Seq<char>) -> Option<JsonView> {
    match v {
        JsonView::Obj(entries) => lookup(entries, k),
        _ => None,
    }
}

/// The first element of a JSON array; nothing on any other document.
pub open spec fn first_elem(v: JsonView) -> Option<JsonView> {
    match v {
        JsonView::Arr(items) => if items.len() > 0 {
            Some(items[0])
        } else {
            None
        },
        _ => None,
    }
}

/// A chunk's first candidate, if it has one.
pub open spec fn chunk_candidate(v: JsonView) -> Option<JsonView> {
    match field_of(v, "candidates"@) {
        Some(c) => first_elem(c),
        None => None,
    }
}

/// A chunk's finish reason, if its first candidate carries one.
pub open spec fn chunk_finish(v: JsonView) -> Option<Seq<char>> {
    match chunk_candidate(v) {
        Some(c) => match field_of(c, "finishReason"@) {
            Some(JsonView::Str(s)) => Some(s),
            _ => None,
        },
        None => None,
    }
}

/// A chunk's first content part, if its first candidate carries one.
pub open spec fn chunk_part(v: JsonView) -> Option<JsonView> {
    match chunk_candidate(v) {
        Some(c) => match field_of(c, "content"@) {
            Some(ct) => match field_of(ct, "parts"@) {
                Some(ps) => first_elem(ps),
                None => None,
            },
            None => None,
        },
        None => None,
    }
}

fn json_field<'a>(v: &'a JsonValue, name: &str) -> (r: Option<&'a JsonValue>)
    ensures
        match r {
            Some(x) => field_of(v@, name@) == Some(x@),
            None => field_of(v@, name@) is None,
        },
{
    let key: String = name.to_owned();
    get_field(v, &key)
}

fn json_first<'a>(v: &'a JsonValue) -> (r: Option<&'a JsonValue>)
    ensures
        match r {
            Some(x) => first_elem(v@) == Some(x@),
            None => first_elem(v@) is None,
        },
{
    match v {
        JsonValue::Arr(items) => {
            if items.len() > 0 {
                proof {
                    crate::json::lemma_views_of_seq(items@);
                }
                Some(&items[0])
            } else {
                None
            }
        },
        _ => None,
    }
}

fn chunk_candidate_exec<'a>(v: &'a JsonValue) -> (r: Option<&'a JsonValue>)
    ensures
        match r {
            Some(x) => chunk_candidate(v@) == Some(x@),
            None => chunk_candidate(v@) is None,
        },
{
    match json_field(v, "candidates") {
        Some(c) => json_first(c),
        None => None,
    }
}

fn chunk_part_exec<'a>(v: &'a JsonValue) -> (r: Option<&'a JsonValue>)
    ensures
        match r {
            Some(x) => chunk_part(v@) == Some(x@),
            None => chunk_part(v@) is None,
        },
{
    match chunk_candidate_exec(v) {
        Some(c) => match json_field(c, "content") {
            Some(ct) => match json_field(ct, "parts") {
                Some(ps) => json_first(ps),
                None => None,
            },
            None => None,
        },
        None => None,
    }
}

/// The marker the model endpoint reports a malformed tool call with.
pub open spec fn malformed_marker() -> Seq<char> {
    "MALFORMED_FUNCTION_CALL"@
}

/// Whether the marker occurs anywhere in the text.
pub open spec fn has_marker(s: Seq<char>) -> bool {
    exists|i: int|
        0 <= i && i + malformed_marker().len() <= s.len() && #[trigger] s.subrange(
            i,
            i + malformed_marker().len() as int,
        ) == malformed_marker()
}

/// Whether the malformed-call marker occurs in the text.
#[verifier::loop_isolation(false)]
fn contains_marker(s: &str) -> (r: bool)
    ensures
        r == has_marker(s@),
{
    let marker = "MALFORMED_FUNCTION_CALL";
    let m = marker.unicode_len();
    let n = s.unicode_len();
    if n < m {
        proof {
            assert(!has_marker(s@));
        }
        return false;
    }
    let mut i: usize = 0;
    while i <= n - m
        invariant
            0 <= i <= n - m + 1,
            forall|k: int| 0 <= k < i ==> #[trigger] s@.subrange(
                k,
                k + malformed_marker().len() as int,
            ) != malformed_marker(),
        decreases n + 1 - i,
    {
        let mut j: usize = 0;
        let mut all_equal = true;
        while j < m
            invariant
                0 <= j <= m,
                i + m <= n,
                all_equal || j == m,
                all_equal == (forall|k: int|
                    0 <= k < j ==> s@[i + k] == malformed_marker()[k]),
            decreases m - j,
        {
            let a = s.get_char(i + j);
            let b = marker.get_char(j);
            if a != b {
                all_equal = false;
                proof {
                    assert(s@[i + j] != malformed_marker()[j as int]);
                }
                j = m;
            } else {
                proof {
                    assert(forall|k: int| 0 <= k < j + 1 ==> s@[i + k] == malformed_marker()[k]);
                }
                j += 1;
            }
        }
        if all_equal {
            proof {
                assert(s@.subrange(i as int, i + malformed_marker().len() as int)
                    =~= malformed_marker());
            }
            return true;
        }
        proof {
            if s@.subrange(i as int, i + malformed_marker().len() as int) == malformed_marker() {
                assert(forall|k: int| 0 <= k < m
                    ==> s@.subrange(i as int, i + malformed_marker().len() as int)[k]
                        == malformed_marker()[k]);
                assert(false);
            }
        }
        i += 1;
    }
    proof {
        assert(!has_marker(s@));
    }
    false
}

/// Whether the server offers a tool of this name.
pub open spec fn server_has_tool(s: McpServerContextView, name: Seq<char>) -> bool {
    exists|i: int| 0 <= i < s.tools.len() && (#[trigger] s.tools[i]).name == name
}

/// The position of the first connected server offering a tool of this name,
/// if any.
pub open spec fn matching_server(ss: Seq<McpServerContextView>, name: Seq<char>) -> Option<int>
    decreases ss,
{
    if ss.len() == 0 {
        None
    } else if server_has_tool(ss[0], name) {
        Some(0int)
    } else {
        match matching_server(ss.subrange(1, ss.len() as int), name) {
            Some(j) => Some(j + 1),
            None => None,
        }
    }
}

pub proof fn lemma_matching_server(ss: Seq<McpServerContextView>, name: Seq<char>)
    ensures
        match matching_server(ss, name) {
            Some(j) => 0 <= j < ss.len() && server_has_tool(ss[j], name) && (forall|i: int|
                0 <= i < j ==> !server_has_tool(ss[i], name)),
            None => forall|i: int| 0 <= i < ss.len() ==> !server_has_tool(ss[i], name),
        },
    decreases ss,
{
    if ss.len() > 0 {
        let rest = ss.subrange(1, ss.len() as int);
        lemma_matching_server(rest, name);
        assert(forall|i: int| 1 <= i < ss.len() ==> ss[i] == rest[i - 1]);
    }
}

fn server_offers(server: &McpServerContext, name: &String) -> (r: bool)
    ensures
        r == server_has_tool(server@, name@),
{
    let mut i: usize = 0;
    while i < server.tools.len()
        invariant
            0 <= i <= server.tools@.len(),
            forall|j: int| 0 <= j < i ==> (#[trigger] server@.tools[j]).name != name@,
        decreases server.tools@.len() - i,
    {
        if server.tools[i].name.eq(name) {
            proof {
                assert(server@.tools[i as int].name == name@);
            }
            return true;
        }
        i += 1;
    }
    false
}

/// The first connected server offering a tool of this name, if any.
fn find_matching_server<'a>(catalog: &'a McpContext, name: &String) -> (r: Option<
    &'a McpServerContext,
>)
    ensures
        match r {
            Some(s) => match matching_server(catalog@.servers, name@) {
                Some(j) => 0 <= j < catalog.servers@.len() && *s == catalog.servers@[j],
                None => false,
            },
            None => matching_server(catalog@.servers, name@) is None,
        },
{
    proof {
        lemma_matching_server(catalog@.servers, name@);
    }
    let mut i: usize = 0;
    while i < catalog.servers.len()
        invariant
            0 <= i <= catalog.servers@.len(),
            forall|j: int| 0 <= j < i ==> !server_has_tool(catalog@.servers[j], name@),
        decreases catalog.servers@.len() - i,
    {
        if server_offers(&catalog.servers[i], name) {
            proof {
                lemma_matching_server(catalog@.servers, name@);
                match matching_server(catalog@.servers, name@) {
                    Some(j) => {
                        if j < i as int {
                            assert(!server_has_tool(catalog@.servers[j], name@));
                            assert(false);
                        }
                        if j > i as int {
                            assert(!server_has_tool(catalog@.servers[i as int], name@));
                            assert(false);
                        }
                    },
                    None => {
                        assert(server_has_tool(catalog@.servers[i as int], name@));
                        assert(false);
                    },
                }
            }
            return Some(&catalog.servers[i]);
        }
        i += 1;
    }
    None
}

pub open spec fn stream_error_text() -> Seq<char> {
    "[Hobbes encountered a stream error. Please check the logs for details.]"@
}

pub open spec fn retry_failed_text() -> Seq<char> {
    "[Hobbes failed to process a tool call after multiple retries.]"@
}

pub open spec fn safety_text() -> Seq<char> {
    "[Hobbes did not provide a response due to the safety filter.]"@
}

pub open spec fn internal_error_text() -> Seq<char> {
    "[Hobbes did not provide a response due to an internal error.]"@
}

/// The synthetic delta an empty stream ends with, by finish reason: a fixed
/// safety-filter text, a text naming the reason, or a fixed internal-error
/// text when no reason arrived.
pub open spec fn empty_stream_text(finish: Option<Seq<char>>) -> Seq<char> {
    match finish {
        Some(r) => if r == "SAFETY"@ {
            safety_text()
        } else {
            "[Hobbes did not provide a response. Finish Reason: "@ + r + "]"@
        },
        None => internal_error_text(),
    }
}

/// What one data payload means for the decoder, over the parse of its text.
pub enum PayloadEvent {
    /// Nothing surfaced: an unknown tool, no part, or a malformed-call flag.
    NoEvent,
    /// A streamed text delta.
    TextEvent(Seq<char>),
    /// A matched tool invocation: the serving server, the tool, its
    /// serialized arguments.
    ToolEvent { server: Seq<char>, name: Seq<char>, args: Seq<char> },
    /// A fatal protocol error: the fixed stream-error delta.
    ErrorEvent,
}

/// Whether a payload flags a malformed tool call: by its finish reason when
/// it parses, by the raw marker when it does not.
pub open spec fn payload_malformed(p: Option<JsonView>, payload_text: Seq<char>) -> bool {
    match p {
        None => has_marker(payload_text),
        Some(v) => chunk_finish(v) == Some(malformed_marker()),
    }
}

/// Whether a payload is fatal to the stream: unparseable without even the
/// malformed-call marker.
pub open spec fn payload_fatal(p: Option<JsonView>, payload_text: Seq<char>) -> bool {
    p is None && !has_marker(payload_text)
}

/// The finish reason a payload carries, if any.
pub open spec fn payload_finish(p: Option<JsonView>) -> Option<Seq<char>> {
    match p {
        Some(v) => chunk_finish(v),
        None => None,
    }
}

/// The event one data payload surfaces, given the known tool catalog: a text
/// delta, a matched tool call (an unmatched tool name is dropped), the fatal
/// stream error, or nothing.
pub open spec fn payload_event(
    p: Option<JsonView>,
    payload_text: Seq<char>,
    catalog: Option<McpContextView>,
) -> PayloadEvent {
    match p {
        None => if has_marker(payload_text) {
            PayloadEvent::NoEvent
        } else {
            PayloadEvent::ErrorEvent
        },
        Some(v) => if chunk_finish(v) == Some(malformed_marker()) {
            PayloadEvent::NoEvent
        } else {
            match chunk_part(v) {
                None => PayloadEvent::NoEvent,
                Some(part) => match field_of(part, "functionCall"@) {
                    Some(fc) => match (field_of(fc, "name"@), field_of(fc, "args"@)) {
                        (Some(JsonView::Str(name)), Some(args)) => match catalog {
                            Some(cat) => match matching_server(cat.servers, name) {
                                Some(k) => PayloadEvent::ToolEvent {
                                    server: cat.servers[k].name,
                                    name,
                                    args: text_of(args),
                                },
                                None => PayloadEvent::NoEvent,
                            },
                            None => PayloadEvent::NoEvent,
                        },
                        _ => PayloadEvent::NoEvent,
                    },
                    None => match field_of(part, "text"@) {
                        Some(JsonView::Str(t)) => if t.len() > 0 {
                            PayloadEvent::TextEvent(t)
                        } else {
                            PayloadEvent::NoEvent
                        },
                        _ => PayloadEvent::NoEvent,
                    },
                },
            }
        },
    }
}

/// Whether a decoded stream event realizes an abstract payload event.  A tool
/// event leaves the freshly drawn execution id open.
pub open spec fn event_matches(m: StreamMessageView, e: PayloadEvent) -> bool {
    match e {
        PayloadEvent::NoEvent => false,
        PayloadEvent::TextEvent(t) => m matches StreamMessageView::Text(tt) && tt == t,
        PayloadEvent::ToolEvent { server, name, args } => m matches StreamMessageView::ToolCall(tc)
            && tc.server_name == server && tc.tool_name == name && tc.arguments == args
            && tc.status is Running && tc.response.len() == 0,
        PayloadEvent::ErrorEvent => m matches StreamMessageView::Text(tt) && tt
            == stream_error_text(),
    }
}

pub open spec fn events_match(ms: Seq<StreamMessageView>, es: Seq<PayloadEvent>) -> bool {
    ms.len() == es.len() && forall|i: int|
        0 <= i < ms.len() ==> event_matches(#[trigger] ms[i], es[i])
}

/// The views of a list of stream events.
pub open spec fn stream_views(s: Seq<StreamMessage>) -> Seq<StreamMessageView> {
    Seq::new(s.len(), |i: int| s[i]@)
}

/// Decodes one model response stream: buffers partial lines, surfaces typed
/// events, and tracks what the end of the stream must synthesize.
#[derive(Debug)]
pub struct StreamDecoder {
    /// Bytes received but not yet terminated by a newline.
    pub buffer: Vec<u8>,
    /// Whether any delta or tool call was surfaced this attempt.
    pub has_sent_data: bool,
    /// The last finish reason the stream reported this attempt.
    pub finish_reason: Option<String>,
    /// Whether this attempt saw a malformed-call finish.
    pub malformed: bool,
    /// Whether the stream died on an unparseable chunk.
    pub fatal: bool,
    /// Which attempt this is, counting from zero.
    pub attempt: u32,
}

/// The ghost mirror of `StreamDecoder`.
pub struct DecoderView {
    pub buffer: Seq<u8>,
    pub has_sent_data: bool,
    pub finish_reason: Option<Seq<char>>,
    pub malformed: bool,
    pub fatal: bool,
    pub attempt: u32,
}

impl View for StreamDecoder {
    type V = DecoderView;

    open spec fn view(&self) -> DecoderView {
        DecoderView {
            buffer: self.buffer@,
            has_sent_data: self.has_sent_data,
            finish_reason: match self.finish_reason {
                Some(ref r) => Some(r@),
                None => None,
            },
            malformed: self.malformed,
            fatal: self.fatal,
            attempt: self.attempt,
        }
    }
}

impl StreamDecoder {
    /// A fresh decoder: first attempt, nothing buffered, nothing seen.
    pub fn new() -> (r: StreamDecoder)
        ensures
            r@.buffer.len() == 0,
            !r@.has_sent_data,
            r@.finish_reason is None,
            !r@.malformed,
            !r@.fatal,
            r@.attempt == 0,
    {
        StreamDecoder {
            buffer: Vec::new(),
            has_sent_data: false,
            finish_reason: None,
            malformed: false,
            fatal: false,
            attempt: 0,
        }
    }

    /// Interprets one non-empty data payload: updates the malformed, fatal
    /// and finish-reason state and surfaces the payload's event, exactly as
    /// `payload_event` says over the payload's parse.
    pub fn handle_payload(&mut self, payload: &str, catalog: Option<&McpContext>) -> (r: Option<
        StreamMessage,
    >)
        ensures
            ({
                let p = parsed_json(payload@);
                let cat = match catalog {
                    Some(c) => Some(c@),
                    None => None,
                };
                let ev = payload_event(p, payload@, cat);
                &&& final(self)@.malformed == (old(self)@.malformed || payload_malformed(
                    p,
                    payload@,
                ))
                &&& final(self)@.fatal == (old(self)@.fatal || payload_fatal(p, payload@))
                &&& final(self)@.finish_reason == (match payload_finish(p) {
                    Some(f) => Some(f),
                    None => old(self)@.finish_reason,
                })
                &&& final(self)@.has_sent_data == (old(self)@.has_sent_data || !(ev matches
                    PayloadEvent::NoEvent) && !(ev matches PayloadEvent::ErrorEvent))
                &&& final(self)@.buffer == old(self)@.buffer
                &&& final(self)@.attempt == old(self)@.attempt
                &&& (match r {
                    Some(m) => event_matches(m@, ev),
                    None => ev matches PayloadEvent::NoEvent,
                })
            }),
    {
        match parse_json(payload) {
            None => {
                if contains_marker(payload) {
                    self.malformed = true;
                    None
                } else {
                    self.fatal = true;
                    Some(
                        StreamMessage::Text(
                            "[Hobbes encountered a stream error. Please check the logs for details.]"
                                .to_owned(),
                        ),
                    )
                }
            },
            Some(v) => {
                let mut malformed_here = false;
                match chunk_candidate_exec(&v) {
                    Some(c) => match json_field(c, "finishReason") {
                        Some(JsonValue::Str(reason)) => {
                            let is_malformed = reason.eq(&"MALFORMED_FUNCTION_CALL".to_owned());
                            self.finish_reason = Some(reason.clone());
                            if is_malformed {
                                self.malformed = true;
                                malformed_here = true;
                            }
                        },
                        _ => {},
                    },
                    None => {},
                }
                if malformed_here {
                    return None;
                }
                let part = chunk_part_exec(&v);
                match part {
                    None => None,
                    Some(p) => {
                        match json_field(p, "functionCall") {
                            Some(fc) => {
                                match (json_field(fc, "name"), json_field(fc, "args")) {
                                    (Some(JsonValue::Str(name)), Some(args)) => {
                                        match catalog {
                                            Some(cat) => {
                                                match find_matching_server(cat, name) {
                                                    Some(server) => {
                                                        let tc = ToolCall::new(
                                                            server.name.clone(),
                                                            name.clone(),
                                                            args,
                                                        );
                                                        self.has_sent_data = true;
                                                        Some(StreamMessage::ToolCall(tc))
                                                    },
                                                    None => None,
                                                }
                                            },
                                            None => None,
                                        }
                                    },
                                    _ => None,
                                }
                            },
                            None => {
                                match json_field(p, "text") {
                                    Some(JsonValue::Str(t)) => {
                                        if !t.as_str().is_empty() {
                                            self.has_sent_data = true;
                                            Some(StreamMessage::Text(t.clone()))
                                        } else {
                                            None
                                        }
                                    },
                                    _ => None,
                                }
                            },
                        }
                    },
                }
            },
        }
    }
}

/// What to do when one attempt's stream ends.
#[derive(Debug)]
pub enum FinishAction {
    /// Retry the whole request from scratch.
    Retry,
    /// Surface this synthetic text delta, then the stream is done.
    Emit(String),
    /// The stream is done; nothing to add.
    Done,
}

/// The ghost mirror of `FinishAction`.
pub enum FinishActionView {
    Retry,
    Emit(Seq<char>),
    Done,
}

impl View for FinishAction {
    type V = FinishActionView;

    open spec fn view(&self) -> FinishActionView {
        match self {
            FinishAction::Retry => FinishActionView::Retry,
            FinishAction::Emit(t) => FinishActionView::Emit(t@),
            FinishAction::Done => FinishActionView::Done,
        }
    }
}

/// The decision at the end of one attempt's stream.  A dead stream is done
/// (its error already surfaced).  A malformed-call attempt is retried until
/// the ceiling, then yields the fixed retry-failure delta.  An attempt that
/// surfaced nothing yields the synthetic delta for its finish reason.  So no
/// decoded stream ever ends with zero events: the transcript never shows a
/// permanently empty message.
pub open spec fn finish_decision(d: DecoderView) -> FinishActionView {
    if d.fatal {
        FinishActionView::Done
    } else if d.malformed {
        if d.attempt + 1 < MAX_STREAM_ATTEMPTS {
            FinishActionView::Retry
        } else {
            FinishActionView::Emit(retry_failed_text())
        }
    } else if !d.has_sent_data {
        FinishActionView::Emit(empty_stream_text(d.finish_reason))
    } else {
        FinishActionView::Done
    }
}

impl StreamDecoder {
    /// Ends one attempt, exactly as `finish_decision` says; on `Retry` the
    /// per-attempt state is reset and the attempt counter moves on.
    pub fn finish_attempt(&mut self) -> (r: FinishAction)
        ensures
            r@ == finish_decision(old(self)@),
            r@ is Retry ==> final(self)@ == (DecoderView {
                buffer: Seq::<u8>::empty(),
                has_sent_data: false,
                finish_reason: None,
                malformed: false,
                fatal: false,
                attempt: (old(self)@.attempt + 1) as u32,
            }),
            !(r@ is Retry) ==> *final(self) == *old(self),
    {
        if self.fatal {
            return FinishAction::Done;
        }
        if self.malformed {
            if self.attempt < MAX_STREAM_ATTEMPTS - 1 {
                self.buffer = Vec::new();
                self.has_sent_data = false;
                self.finish_reason = None;
                self.malformed = false;
                self.fatal = false;
                self.attempt = self.attempt + 1;
                proof {
                    assert(self@.buffer =~= Seq::<u8>::empty());
                }
                return FinishAction::Retry;
            }
            return FinishAction::Emit(
                "[Hobbes failed to process a tool call after multiple retries.]".to_owned(),
            );
        }
        if !self.has_sent_data {
            match &self.finish_reason {
                Some(reason) => {
                    if reason.eq(&"SAFETY".to_owned()) {
                        FinishAction::Emit(
                            "[Hobbes did not provide a response due to the safety filter.]"
                                .to_owned(),
                        )
                    } else {
                        let mut t: String =
                            "[Hobbes did not provide a response. Finish Reason: ".to_owned();
                        t.append(reason.as_str());
                        t.append("]");
                        FinishAction::Emit(t)
                    }
                },
                None => FinishAction::Emit(
                    "[Hobbes did not provide a response due to an internal error.]".to_owned(),
                ),
            }
        } else {
            FinishAction::Done
        }
    }
}

/// The decoder state after one data payload, given the tool catalog.
pub open spec fn payload_update(
    d: DecoderView,
    payload_text: Seq<char>,
    catalog: Option<McpContextView>,
) -> DecoderView {
    let p = parsed_json(payload_text);
    let ev = payload_event(p, payload_text, catalog);
    DecoderView {
        malformed: d.malformed || payload_malformed(p, payload_text),
        fatal: d.fatal || payload_fatal(p, payload_text),
        finish_reason: match payload_finish(p) {
            Some(f) => Some(f),
            None => d.finish_reason,
        },
        has_sent_data: d.has_sent_data || !(ev matches PayloadEvent::NoEvent) && !(ev matches
            PayloadEvent::ErrorEvent),
        ..d
    }
}

/// Draining the buffer: every complete line is popped in order and every
/// non-empty data payload among them is interpreted, until a malformed-call
/// flag or a fatal chunk stops the attempt.  Yields the final state and the
/// surfaced events.
pub open spec fn drain(d: DecoderView, catalog: Option<McpContextView>) -> (
    DecoderView,
    Seq<PayloadEvent>,
)
    decreases d.buffer.len(),
    via drain_decreases
{
    if d.fatal || d.malformed {
        (d, Seq::empty())
    } else {
        match first_newline(d.buffer) {
            None => (d, Seq::empty()),
            Some(i) => {
                let line = d.buffer.subrange(0, i);
                let d1 = DecoderView {
                    buffer: d.buffer.subrange(i + 1, d.buffer.len() as int),
                    ..d
                };
                match data_payload(line) {
                    None => drain(d1, catalog),
                    Some(pbytes) => {
                        if pbytes.len() == 0 {
                            drain(d1, catalog)
                        } else {
                            let ptext = utf8_text(pbytes);
                            let d2 = payload_update(d1, ptext, catalog);
                            let ev = payload_event(parsed_json(ptext), ptext, catalog);
                            let evs = if (ev matches PayloadEvent::NoEvent) {
                                Seq::<PayloadEvent>::empty()
                            } else {
                                seq![ev]
                            };
                            let rec = drain(d2, catalog);
                            (rec.0, evs + rec.1)
                        }
                    },
                }
            },
        }
    }
}

#[via_fn]
proof fn drain_decreases(d: DecoderView, catalog: Option<McpContextView>) {
    if !(d.fatal || d.malformed) {
        lemma_first_newline(d.buffer);
    }
}

impl StreamDecoder {
    /// Feeds one network read into the decoder: appends the bytes to the
    /// partial-line buffer and interprets every complete line, exactly as
    /// `drain` says over the extended buffer.
    #[verifier::loop_isolation(false)]
    pub fn on_bytes(&mut self, bytes: &Vec<u8>, catalog: Option<&McpContext>) -> (r: Vec<
        StreamMessage,
    >)
        ensures
            ({
                let cat = match catalog {
                    Some(c) => Some(c@),
                    None => None,
                };
                let fed = DecoderView { buffer: old(self)@.buffer + bytes@, ..old(self)@ };
                &&& final(self)@ == drain(fed, cat).0
                &&& events_match(stream_views(r@), drain(fed, cat).1)
            }),
    {
        let ghost cat = match catalog {
            Some(c) => Some(c@),
            None => None,
        };
        let mut k: usize = 0;
        while k < bytes.len()
            invariant
                0 <= k <= bytes@.len(),
                self@ == (DecoderView {
                    buffer: old(self)@.buffer + bytes@.subrange(0, k as int),
                    ..old(self)@
                }),
            decreases bytes@.len() - k,
        {
            let b = bytes[k];
            self.buffer.push(b);
            proof {
                assert(self@.buffer =~= old(self)@.buffer + bytes@.subrange(0, k + 1 as int));
            }
            k += 1;
        }
        proof {
            assert(old(self)@.buffer + bytes@.subrange(0, bytes@.len() as int)
                =~= old(self)@.buffer + bytes@);
        }
        let ghost fed = self@;
        let mut out: Vec<StreamMessage> = Vec::new();
        let ghost mut emitted: Seq<PayloadEvent> = Seq::empty();
        proof {
            assert(Seq::<PayloadEvent>::empty() + drain(fed, cat).1 =~= drain(fed, cat).1);
            assert(stream_views(out@).len() == 0);
        }
        #[verifier::loop_isolation(true)]
        loop
            invariant
                cat == (match catalog {
                    Some(c) => Some(c@),
                    None => None,
                }),
                drain(fed, cat).0 == drain(self@, cat).0,
                drain(fed, cat).1 == emitted + drain(self@, cat).1,
                events_match(stream_views(out@), emitted),
            ensures
                drain(fed, cat).0 == self@,
                events_match(stream_views(out@), drain(fed, cat).1),
            decreases self@.buffer.len(),
        {
            if self.fatal || self.malformed {
                proof {
                    assert(drain(self@, cat) == (self@, Seq::<PayloadEvent>::empty()));
                    assert(emitted + Seq::<PayloadEvent>::empty() =~= emitted);
                }
                break;
            }
            let ghost pre = self@;
            proof {
                lemma_first_newline(pre.buffer);
            }
            let line_opt = take_line(&mut self.buffer);
            match line_opt {
                None => {
                    proof {
                        assert(drain(self@, cat) == (self@, Seq::<PayloadEvent>::empty()));
                        assert(emitted + Seq::<PayloadEvent>::empty() =~= emitted);
                    }
                    break;
                },
                Some(line) => {
                    let ghost i = first_newline(pre.buffer)->0;
                    let ghost d1 = DecoderView {
                        buffer: pre.buffer.subrange(i + 1, pre.buffer.len() as int),
                        ..pre
                    };
                    proof {
                        assert(line@ == pre.buffer.subrange(0, i));
                        assert(self@ == d1);
                    }
                    match line_payload(&line) {
                        None => {
                            proof {
                                assert(data_payload(line@) is None);
                                assert(drain(pre, cat) == drain(d1, cat));
                            }
                        },
                        Some(payload) => {
                            if payload.len() == 0 {
                                proof {
                                    assert(data_payload(line@) == Some(payload@));
                                    assert(drain(pre, cat) == drain(d1, cat));
                                }
                            } else {
                                let ptext = utf8_lossy(&payload);
                                let ghost d2 = payload_update(d1, ptext@, cat);
                                let ghost e = payload_event(parsed_json(ptext@), ptext@, cat);
                                let ghost evs = if (e matches PayloadEvent::NoEvent) {
                                    Seq::<PayloadEvent>::empty()
                                } else {
                                    seq![e]
                                };
                                let ev = self.handle_payload(ptext.as_str(), catalog);
                                proof {
                                    assert(self@ == d2);
                                    assert(data_payload(line@) == Some(payload@));
                                    assert(utf8_text(payload@) == ptext@);
                                    assert(drain(pre, cat).0 == drain(d2, cat).0);
                                    assert(drain(pre, cat).1 == evs + drain(d2, cat).1);
                                }
                                match ev {
                                    Some(m) => {
                                        let ghost out_prev = out@;
                                        let ghost em_prev = emitted;
                                        proof {
                                            emitted = emitted.push(e);
                                            assert(emitted =~= em_prev + seq![e]);
                                            assert(em_prev + (seq![e] + drain(d2, cat).1)
                                                =~= emitted + drain(d2, cat).1);
                                        }
                                        out.push(m);
                                        proof {
                                            assert(event_matches(m@, e));
                                            assert(out@ == out_prev.push(m));
                                            assert(emitted == em_prev.push(e));
                                            assert(events_match(stream_views(out_prev), em_prev));
                                            assert forall|ii: int|
                                                0 <= ii < out@.len() implies event_matches(
                                                #[trigger] stream_views(out@)[ii],
                                                emitted[ii],
                                            ) by {
                                                if ii < out_prev.len() {
                                                    assert(stream_views(out@)[ii] == out@[ii]@);
                                                    assert(out@[ii] == out_prev[ii]);
                                                    assert(stream_views(out_prev)[ii]
                                                        == out_prev[ii]@);
                                                    assert(emitted[ii] == em_prev[ii]);
                                                    assert(event_matches(
                                                        stream_views(out_prev)[ii],
                                                        em_prev[ii],
                                                    ));
                                                } else {
                                                    assert(out@[ii] == m);
                                                    assert(emitted[ii] == e);
                                                }
                                            }
                                            assert(events_match(stream_views(out@), emitted));
                                        }
                                    },
                                    None => {
                                        proof {
                                            assert(evs =~= Seq::<PayloadEvent>::empty());
                                            assert(evs + drain(d2, cat).1 =~= drain(d2, cat).1);
                                        }
                                    },
                                }
                            }
                        },
                    }
                },
            }
        }
        out
    }
}

} // verus!
