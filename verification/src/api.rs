//! Wire-level protocol types for the remote model API, and the verified
//! pipeline that turns one line of a server-sent-event stream into at most
//! one update for the stream aggregator.
//!
//! The JSON payload of a `data:` line is read through the trusted accessors
//! in `crate::json`; everything around those reads is verified, and the
//! contracts are stated over the spec models below.

use vstd::prelude::*;

use crate::json::json_str_field;
use crate::json::json_str_field2;
use crate::json::json_u64_field;
use crate::json::json_u64_field2;
use crate::json::spec_json_str_field;
use crate::json::spec_json_str_field2;
use crate::json::spec_json_u64_field;
use crate::json::spec_json_u64_field2;
use crate::json::json_array_len;
use crate::json::json_elem_str_field;
use crate::json::spec_json_array_len;
use crate::json::spec_json_elem_str_field;
use crate::text::contains_seq;
use crate::text::spec_digits_of;
use crate::text::starts_with_seq;
use crate::text::str_eq;
use crate::text::str_starts_with;
use crate::text::u64_to_string;

verus! {

/// Whether a cost estimate prices text as prompt input or model output.
#[derive(Clone, Copy, Debug, PartialEq, Eq, Structural)]
pub enum TokenType {
    InputToken,
    OutputToken,
}

/// Who authored a message of the conversation.
#[derive(Clone, Copy, Debug, PartialEq, Eq, Structural)]
pub enum Role {
    User,
    Assistant,
    System,
}

/// One message of the conversation.
#[derive(Clone, Debug)]
pub struct Message {
    pub role: Role,
    pub content: String,
}

/// Spec model of a `Message`.
pub struct MessageModel {
    pub role: Role,
    pub content: Seq<char>,
}

impl DeepView for Message {
    type V = MessageModel;

    open spec fn deep_view(&self) -> MessageModel {
        MessageModel { role: self.role, content: self.content@ }
    }
}

/// Token counts reported by the API for one exchange.
#[derive(Clone, Copy, Debug, PartialEq, Eq, Structural)]
pub struct ResponseUsage {
    pub input_tokens: u32,
    pub output_tokens: u32,
}

impl DeepView for ResponseUsage {
    type V = ResponseUsage;

    open spec fn deep_view(&self) -> ResponseUsage {
        *self
    }
}

/// One content block of a non-streaming response.
#[derive(Clone, Debug)]
pub struct ContentBlock {
    pub content_type: String,
    pub text: String,
}

/// Spec model of a `ContentBlock`.
pub struct ContentBlockModel {
    pub content_type: Seq<char>,
    pub text: Seq<char>,
}

impl DeepView for ContentBlock {
    type V = ContentBlockModel;

    open spec fn deep_view(&self) -> ContentBlockModel {
        ContentBlockModel { content_type: self.content_type@, text: self.text@ }
    }
}

/// The payload of a `content_block_delta` event: one text increment.
#[derive(Clone, Debug)]
pub struct Delta {
    pub delta_type: String,
    pub text: String,
}

/// Spec model of a `Delta`.
pub struct DeltaModel {
    pub delta_type: Seq<char>,
    pub text: Seq<char>,
}

impl DeepView for Delta {
    type V = DeltaModel;

    open spec fn deep_view(&self) -> DeltaModel {
        DeltaModel { delta_type: self.delta_type@, text: self.text@ }
    }
}

/// The payload of a `message_delta` event: terminal metadata.
#[derive(Clone, Debug)]
pub struct MessageDelta {
    pub stop_reason: Option<String>,
    pub stop_sequence: Option<String>,
}

/// Spec model of a `MessageDelta`.
pub struct MessageDeltaModel {
    pub stop_reason: Option<Seq<char>>,
    pub stop_sequence: Option<Seq<char>>,
}

impl DeepView for MessageDelta {
    type V = MessageDeltaModel;

    open spec fn deep_view(&self) -> MessageDeltaModel {
        MessageDeltaModel {
            stop_reason: self.stop_reason.deep_view(),
            stop_sequence: self.stop_sequence.deep_view(),
        }
    }
}

/// The payload of an in-stream `error` event.
#[derive(Clone, Debug)]
pub struct StreamError {
    pub message: String,
}

/// Spec model of a `StreamError`.
pub struct StreamErrorModel {
    pub message: Seq<char>,
}

impl DeepView for StreamError {
    type V = StreamErrorModel;

    open spec fn deep_view(&self) -> StreamErrorModel {
        StreamErrorModel { message: self.message@ }
    }
}

/// The message header carried by a `message_start` event.
#[derive(Clone, Debug)]
pub struct StreamMessage {
    pub id: String,
    pub message_type: String,
    pub role: String,
}

/// Spec model of a `StreamMessage`.
pub struct StreamMessageModel {
    pub id: Seq<char>,
    pub message_type: Seq<char>,
    pub role: Seq<char>,
}

impl DeepView for StreamMessage {
    type V = StreamMessageModel;

    open spec fn deep_view(&self) -> StreamMessageModel {
        StreamMessageModel {
            id: self.id@,
            message_type: self.message_type@,
            role: self.role@,
        }
    }
}

/// One wire event of the streaming response. The set of known variants is
/// closed; anything the decoder does not recognize becomes `Unknown`, which
/// the pipeline skips, so unknown future event types never abort a stream.
#[derive(Clone, Debug)]
pub enum StreamEvent {
    MessageStart { message: StreamMessage },
    ContentBlockStart { index: usize, content_block: ContentBlock },
    ContentBlockDelta { index: usize, delta: Delta },
    ContentBlockStop { index: usize },
    MessageDelta { delta: MessageDelta, usage: Option<ResponseUsage> },
    MessageStop,
    Ping,
    Error { error: StreamError },
    Unknown,
}

/// Spec model of a `StreamEvent`.
pub enum StreamEventModel {
    MessageStart { message: StreamMessageModel },
    ContentBlockStart { index: usize, content_block: ContentBlockModel },
    ContentBlockDelta { index: usize, delta: DeltaModel },
    ContentBlockStop { index: usize },
    MessageDelta { delta: MessageDeltaModel, usage: Option<ResponseUsage> },
    MessageStop,
    Ping,
    Error { error: StreamErrorModel },
    Unknown,
}

impl DeepView for StreamEvent {
    type V = StreamEventModel;

    open spec fn deep_view(&self) -> StreamEventModel {
        match self {
            StreamEvent::MessageStart { message } => StreamEventModel::MessageStart {
                message: message.deep_view(),
            },
            StreamEvent::ContentBlockStart { index, content_block } =>
                StreamEventModel::ContentBlockStart {
                index: *index,
                content_block: content_block.deep_view(),
            },
            StreamEvent::ContentBlockDelta { index, delta } => StreamEventModel::ContentBlockDelta {
                index: *index,
                delta: delta.deep_view(),
            },
            StreamEvent::ContentBlockStop { index } => StreamEventModel::ContentBlockStop {
                index: *index,
            },
            StreamEvent::MessageDelta { delta, usage } => StreamEventModel::MessageDelta {
                delta: delta.deep_view(),
                usage: *usage,
            },
            StreamEvent::MessageStop => StreamEventModel::MessageStop,
            StreamEvent::Ping => StreamEventModel::Ping,
            StreamEvent::Error { error } => StreamEventModel::Error { error: error.deep_view() },
            StreamEvent::Unknown => StreamEventModel::Unknown,
        }
    }
}

/// One element of the lazy streaming sequence: a text increment, a completion
/// marker, or carried usage metadata.
#[derive(Clone, Debug)]
pub struct StreamingBuffer {
    pub content: String,
    pub is_complete: bool,
    pub usage: Option<ResponseUsage>,
}

/// Spec model of a `StreamingBuffer`.
pub struct StreamingBufferModel {
    pub content: Seq<char>,
    pub is_complete: bool,
    pub usage: Option<ResponseUsage>,
}

impl DeepView for StreamingBuffer {
    type V = StreamingBufferModel;

    open spec fn deep_view(&self) -> StreamingBufferModel {
        StreamingBufferModel {
            content: self.content@,
            is_complete: self.is_complete,
            usage: self.usage,
        }
    }
}

/// The aggregate of a non-streaming response: all text blocks concatenated,
/// plus the reported usage.
#[derive(Clone, Debug)]
pub struct ExtractedResponse {
    pub content: String,
    pub usage: ResponseUsage,
}

/// Spec model of an `ExtractedResponse`.
pub struct ExtractedResponseModel {
    pub content: Seq<char>,
    pub usage: ResponseUsage,
}

impl DeepView for ExtractedResponse {
    type V = ExtractedResponseModel;

    open spec fn deep_view(&self) -> ExtractedResponseModel {
        ExtractedResponseModel { content: self.content@, usage: self.usage }
    }
}

/// The usage object of a `message_delta` payload, when both counters are
/// present and fit the wire type.
pub open spec fn spec_decode_usage(s: Seq<char>) -> Option<ResponseUsage> {
    match (
        spec_json_u64_field2(s, "usage"@, "input_tokens"@),
        spec_json_u64_field2(s, "usage"@, "output_tokens"@),
    ) {
        (Some(i), Some(o)) => if i <= u32::MAX && o <= u32::MAX {
            Some(ResponseUsage { input_tokens: i as u32, output_tokens: o as u32 })
        } else {
            None
        },
        _ => None,
    }
}

/// What the JSON payload of a `data:` line decodes to. A missing or
/// malformed tag, or a known tag with its required fields absent, decodes
/// to `Unknown`.
pub open spec fn spec_decode_stream_event(s: Seq<char>) -> StreamEventModel {
    match spec_json_str_field(s, "type"@) {
        None => StreamEventModel::Unknown,
        Some(t) => if t == "content_block_delta"@ {
            match (
                spec_json_u64_field(s, "index"@),
                spec_json_str_field2(s, "delta"@, "type"@),
                spec_json_str_field2(s, "delta"@, "text"@),
            ) {
                (Some(i), Some(dt), Some(tx)) => if i <= usize::MAX {
                    StreamEventModel::ContentBlockDelta {
                        index: i as usize,
                        delta: DeltaModel { delta_type: dt, text: tx },
                    }
                } else {
                    StreamEventModel::Unknown
                },
                _ => StreamEventModel::Unknown,
            }
        } else if t == "message_stop"@ {
            StreamEventModel::MessageStop
        } else if t == "ping"@ {
            StreamEventModel::Ping
        } else if t == "message_delta"@ {
            StreamEventModel::MessageDelta {
                delta: MessageDeltaModel {
                    stop_reason: spec_json_str_field2(s, "delta"@, "stop_reason"@),
                    stop_sequence: spec_json_str_field2(s, "delta"@, "stop_sequence"@),
                },
                usage: spec_decode_usage(s),
            }
        } else if t == "message_start"@ {
            match (
                spec_json_str_field2(s, "message"@, "id"@),
                spec_json_str_field2(s, "message"@, "type"@),
                spec_json_str_field2(s, "message"@, "role"@),
            ) {
                (Some(id), Some(mt), Some(role)) => StreamEventModel::MessageStart {
                    message: StreamMessageModel { id: id, message_type: mt, role: role },
                },
                _ => StreamEventModel::Unknown,
            }
        } else if t == "content_block_start"@ {
            match (
                spec_json_u64_field(s, "index"@),
                spec_json_str_field2(s, "content_block"@, "type"@),
                spec_json_str_field2(s, "content_block"@, "text"@),
            ) {
                (Some(i), Some(ct), Some(tx)) => if i <= usize::MAX {
                    StreamEventModel::ContentBlockStart {
                        index: i as usize,
                        content_block: ContentBlockModel { content_type: ct, text: tx },
                    }
                } else {
                    StreamEventModel::Unknown
                },
                _ => StreamEventModel::Unknown,
            }
        } else if t == "content_block_stop"@ {
            match spec_json_u64_field(s, "index"@) {
                Some(i) => if i <= usize::MAX {
                    StreamEventModel::ContentBlockStop { index: i as usize }
                } else {
                    StreamEventModel::Unknown
                },
                None => StreamEventModel::Unknown,
            }
        } else if t == "error"@ {
            match spec_json_str_field2(s, "error"@, "message"@) {
                Some(m) => StreamEventModel::Error { error: StreamErrorModel { message: m } },
                None => StreamEventModel::Unknown,
            }
        } else {
            StreamEventModel::Unknown
        },
    }
}

/// Decodes the JSON payload of one `data:` line into a stream event.
pub fn decode_stream_event(data: &str) -> (ev: StreamEvent)
    ensures
        ev.deep_view() == spec_decode_stream_event(data@),
{
    let t = match json_str_field(data, "type") {
        None => {
            return StreamEvent::Unknown;
        },
        Some(t) => t,
    };
    if str_eq(t.as_str(), "content_block_delta") {
        match (
            json_u64_field(data, "index"),
            json_str_field2(data, "delta", "type"),
            json_str_field2(data, "delta", "text"),
        ) {
            (Some(i), Some(dt), Some(tx)) => if i <= usize::MAX as u64 {
                StreamEvent::ContentBlockDelta {
                    index: i as usize,
                    delta: Delta { delta_type: dt, text: tx },
                }
            } else {
                StreamEvent::Unknown
            },
            _ => StreamEvent::Unknown,
        }
    } else if str_eq(t.as_str(), "message_stop") {
        StreamEvent::MessageStop
    } else if str_eq(t.as_str(), "ping") {
        StreamEvent::Ping
    } else if str_eq(t.as_str(), "message_delta") {
        let usage = match (
            json_u64_field2(data, "usage", "input_tokens"),
            json_u64_field2(data, "usage", "output_tokens"),
        ) {
            (Some(i), Some(o)) => if i <= u32::MAX as u64 && o <= u32::MAX as u64 {
                Some(ResponseUsage { input_tokens: i as u32, output_tokens: o as u32 })
            } else {
                None
            },
            _ => None,
        };
        StreamEvent::MessageDelta {
            delta: MessageDelta {
                stop_reason: json_str_field2(data, "delta", "stop_reason"),
                stop_sequence: json_str_field2(data, "delta", "stop_sequence"),
            },
            usage,
        }
    } else if str_eq(t.as_str(), "message_start") {
        match (
            json_str_field2(data, "message", "id"),
            json_str_field2(data, "message", "type"),
            json_str_field2(data, "message", "role"),
        ) {
            (Some(id), Some(mt), Some(role)) => StreamEvent::MessageStart {
                message: StreamMessage { id, message_type: mt, role },
            },
            _ => StreamEvent::Unknown,
        }
    } else if str_eq(t.as_str(), "content_block_start") {
        match (
            json_u64_field(data, "index"),
            json_str_field2(data, "content_block", "type"),
            json_str_field2(data, "content_block", "text"),
        ) {
            (Some(i), Some(ct), Some(tx)) => if i <= usize::MAX as u64 {
                StreamEvent::ContentBlockStart {
                    index: i as usize,
                    content_block: ContentBlock { content_type: ct, text: tx },
                }
            } else {
                StreamEvent::Unknown
            },
            _ => StreamEvent::Unknown,
        }
    } else if str_eq(t.as_str(), "content_block_stop") {
        match json_u64_field(data, "index") {
            Some(i) => if i <= usize::MAX as u64 {
                StreamEvent::ContentBlockStop { index: i as usize }
            } else {
                StreamEvent::Unknown
            },
            None => StreamEvent::Unknown,
        }
    } else if str_eq(t.as_str(), "error") {
        match json_str_field2(data, "error", "message") {
            Some(m) => StreamEvent::Error { error: StreamError { message: m } },
            None => StreamEvent::Unknown,
        }
    } else {
        StreamEvent::Unknown
    }
}

/// What one decoded event contributes to the streaming sequence: a text
/// increment for a `text_delta`, the completion marker for `message_stop`,
/// carried usage for a `message_delta`, and nothing otherwise.
pub open spec fn spec_event_to_buffer(ev: StreamEventModel) -> Option<StreamingBufferModel> {
    match ev {
        StreamEventModel::ContentBlockDelta { delta, .. } => if delta.delta_type == "text_delta"@ {
            Some(
                StreamingBufferModel { content: delta.text, is_complete: false, usage: None },
            )
        } else {
            None
        },
        StreamEventModel::MessageStop => Some(
            StreamingBufferModel { content: Seq::empty(), is_complete: true, usage: None },
        ),
        StreamEventModel::MessageDelta { usage, .. } => match usage {
            Some(u) => Some(
                StreamingBufferModel { content: Seq::empty(), is_complete: false, usage: Some(u) },
            ),
            None => None,
        },
        _ => None,
    }
}

/// Maps one decoded event to at most one element of the streaming sequence.
pub fn event_to_buffer(ev: &StreamEvent) -> (r: Option<StreamingBuffer>)
    ensures
        r.deep_view() == spec_event_to_buffer(ev.deep_view()),
{
    match ev {
        StreamEvent::ContentBlockDelta { delta, .. } => if str_eq(
            delta.delta_type.as_str(),
            "text_delta",
        ) {
            Some(
                StreamingBuffer { content: delta.text.clone(), is_complete: false, usage: None },
            )
        } else {
            None
        },
        StreamEvent::MessageStop => Some(
            StreamingBuffer { content: String::new(), is_complete: true, usage: None },
        ),
        StreamEvent::MessageDelta { usage, .. } => match usage {
            Some(u) => Some(
                StreamingBuffer { content: String::new(), is_complete: false, usage: Some(*u) },
            ),
            None => None,
        },
        _ => None,
    }
}

/// What one line of the server-sent-event stream contributes: blank lines
/// and `event:` lines are ignored, a `data:` line is decoded and mapped,
/// and any other line is ignored.
pub open spec fn spec_process_stream_line(line: Seq<char>) -> Option<StreamingBufferModel> {
    if line.len() == 0 {
        None
    } else if starts_with_seq(line, "event: "@) {
        None
    } else if starts_with_seq(line, "data: "@) {
        spec_event_to_buffer(
            spec_decode_stream_event(line.subrange("data: "@.len() as int, line.len() as int)),
        )
    } else {
        None
    }
}

/// Whether an HTTP status code means success.
pub open spec fn spec_status_success(status: u16) -> bool {
    200 <= status < 300
}

/// The error text reported for a response with a non-success status: the
/// status code and the body the server sent.
pub open spec fn spec_api_error_text(status: u16, body: Seq<char>) -> Seq<char> {
    "API error ("@ + spec_digits_of(status as nat) + "): "@ + body
}

/// The error text reported when a success response does not have the
/// expected shape.
pub open spec fn spec_malformed_text() -> Seq<char> {
    "malformed API response"@
}

/// Builds the error text for a non-success response. The text carries
/// both the status code's digits and the body.
pub fn api_error_text(status: u16, body: &str) -> (r: String)
    ensures
        r@ == spec_api_error_text(status, body@),
        contains_seq(r@, spec_digits_of(status as nat)),
        contains_seq(r@, body@),
{
    let mut s = "API error (".to_owned();
    let digits = u64_to_string(status as u64);
    s.append(digits.as_str());
    s.append("): ");
    s.append(body);
    proof {
        let a = "API error ("@.len() as int;
        let d = spec_digits_of(status as nat).len() as int;
        let b = "): "@.len() as int;
        assert(s@.subrange(a, a + d) =~= spec_digits_of(status as nat));
        assert(s@.subrange(a + d + b, a + d + b + body@.len() as int) =~= body@);
    }
    s
}

/// Every content block up to `n` in the response body has its type and
/// text fields, as the response shape requires.
pub open spec fn spec_blocks_valid(body: Seq<char>, n: usize) -> bool {
    forall|i: usize|
        i < n ==> (#[trigger] spec_json_elem_str_field(body, "content"@, i, "type"@)) is Some
            && spec_json_elem_str_field(body, "content"@, i, "text"@) is Some
}

/// The concatenation, in order, of the text of the text-typed content
/// blocks among the first `n` blocks; blocks of other types contribute
/// nothing.
pub open spec fn spec_content_text(body: Seq<char>, n: nat) -> Seq<char>
    decreases n,
{
    if n == 0 {
        Seq::empty()
    } else {
        let prev = spec_content_text(body, (n - 1) as nat);
        match (
            spec_json_elem_str_field(body, "content"@, (n - 1) as usize, "type"@),
            spec_json_elem_str_field(body, "content"@, (n - 1) as usize, "text"@),
        ) {
            (Some(ty), Some(tx)) => prev + (if ty == "text"@ {
                tx
            } else {
                Seq::empty()
            }),
            _ => prev,
        }
    }
}

/// What a success response body means: the text-typed content blocks
/// concatenated in order, plus the reported usage; `None` when the body
/// does not have the expected shape.
pub open spec fn spec_extract_response(body: Seq<char>) -> Option<ExtractedResponseModel> {
    match (
        spec_json_array_len(body, "content"@),
        spec_json_u64_field2(body, "usage"@, "input_tokens"@),
        spec_json_u64_field2(body, "usage"@, "output_tokens"@),
    ) {
        (Some(n), Some(it), Some(ot)) => if it <= u32::MAX && ot <= u32::MAX && spec_blocks_valid(
            body,
            n,
        ) {
            Some(
                ExtractedResponseModel {
                    content: spec_content_text(body, n as nat),
                    usage: ResponseUsage { input_tokens: it as u32, output_tokens: ot as u32 },
                },
            )
        } else {
            None
        },
        _ => None,
    }
}

/// Extracts the aggregate of a success response body, in the sense of
/// `spec_extract_response`.
pub fn extract_response(body: &str) -> (r: Option<ExtractedResponse>)
    ensures
        r.deep_view() == spec_extract_response(body@),
{
    let n = match json_array_len(body, "content") {
        Some(n) => n,
        None => {
            return None;
        },
    };
    let it = match json_u64_field2(body, "usage", "input_tokens") {
        Some(v) => v,
        None => {
            return None;
        },
    };
    let ot = match json_u64_field2(body, "usage", "output_tokens") {
        Some(v) => v,
        None => {
            return None;
        },
    };
    if it > u32::MAX as u64 || ot > u32::MAX as u64 {
        return None;
    }
    let mut content = String::new();
    let mut i: usize = 0;
    while i < n
        invariant
            0 <= i <= n,
            spec_json_array_len(body@, "content"@) == Some(n),
            spec_json_u64_field2(body@, "usage"@, "input_tokens"@) == Some(it),
            spec_json_u64_field2(body@, "usage"@, "output_tokens"@) == Some(ot),
            it <= u32::MAX,
            ot <= u32::MAX,
            forall|k: usize|
                k < i ==> (#[trigger] spec_json_elem_str_field(
                    body@,
                    "content"@,
                    k,
                    "type"@,
                )) is Some && spec_json_elem_str_field(body@, "content"@, k, "text"@) is Some,
            content@ == spec_content_text(body@, i as nat),
        decreases n - i,
    {
        let ty = match json_elem_str_field(body, "content", i, "type") {
            Some(t) => t,
            None => {
                proof {
                    assert(!spec_blocks_valid(body@, n));
                }
                return None;
            },
        };
        let tx = match json_elem_str_field(body, "content", i, "text") {
            Some(t) => t,
            None => {
                proof {
                    assert(!spec_blocks_valid(body@, n));
                }
                return None;
            },
        };
        if str_eq(ty.as_str(), "text") {
            content.append(tx.as_str());
        }
        i += 1;
    }
    Some(
        ExtractedResponse {
            content,
            usage: ResponseUsage { input_tokens: it as u32, output_tokens: ot as u32 },
        },
    )
}

/// Turns one HTTP response to `send` into its result: a non-success
/// status becomes the structured error text carrying status and body; a
/// success body is extracted, a malformed one reported as such.
pub fn handle_response(status: u16, body: &str) -> (r: Result<ExtractedResponse, String>)
    ensures
        spec_status_success(status) ==> (match spec_extract_response(body@) {
            Some(resp) => r matches Ok(x) && x.deep_view() == resp,
            None => r matches Err(e) && e@ == spec_malformed_text(),
        }),
        !spec_status_success(status) ==> (r matches Err(e) && e@ == spec_api_error_text(
            status,
            body@,
        ) && contains_seq(e@, spec_digits_of(status as nat)) && contains_seq(e@, body@)),
{
    if !(200 <= status && status < 300) {
        return Err(api_error_text(status, body));
    }
    match extract_response(body) {
        Some(resp) => Ok(resp),
        None => Err("malformed API response".to_owned()),
    }
}

/// Processes one line of the event stream into at most one element of the
/// streaming sequence.
pub fn process_stream_line(line: &str) -> (r: Option<StreamingBuffer>)
    ensures
        r.deep_view() == spec_process_stream_line(line@),
{
    let len = line.unicode_len();
    if len == 0 {
        return None;
    }
    if str_starts_with(line, "event: ") {
        return None;
    }
    if str_starts_with(line, "data: ") {
        let prefix_len = "data: ".unicode_len();
        let data = line.substring_char(prefix_len, len);
        let ev = decode_stream_event(data);
        event_to_buffer(&ev)
    } else {
        None
    }
}

} // verus!
