//! Reading protocol events and responses out of parsed JSON documents.
//!
//! The spec functions here say, over `JsonView`, which documents are events (or
//! responses) and which event each one is; the executable decoders are proved to
//! follow them exactly. Unknown members are ignored; a member of the wrong type
//! makes the whole document unreadable.

use crate::error::{ErrorModel, StreamError};
use crate::event::{EventModel, Response, ResponseModel, ServerError, ServerStreamEvent};
use crate::json::{get_member, json_view, member, parse_value, parsed_json, JsonView};
use crate::message::{
    opt_view, BlockModel, Content, ImageSource, MessageModel, MessagesResponse, TokenCount, Usage,
};
use serde_json::Value;
use vstd::prelude::*;

verus! {

/// The string member `key` of `j`.
pub open spec fn str_member(j: JsonView, key: Seq<char>) -> Option<Seq<char>> {
    match member(j, key) {
        Some(JsonView::Str(s)) => Some(s),
        _ => None,
    }
}

/// A text member that reads as empty where it is absent.
pub open spec fn text_or_empty(j: JsonView, key: Seq<char>) -> Option<Seq<char>> {
    match member(j, key) {
        None => Some(seq![]),
        Some(JsonView::Str(s)) => Some(s),
        Some(_) => None,
    }
}

/// An optional text member: absent or null reads as `None`.
pub open spec fn optional_text(j: JsonView, key: Seq<char>) -> Option<Option<Seq<char>>> {
    match member(j, key) {
        None => Some(None),
        Some(JsonView::Null) => Some(None),
        Some(JsonView::Str(s)) => Some(Some(s)),
        Some(_) => None,
    }
}

/// A member holding an integer in `0..=u64::MAX`.
pub open spec fn count_member(j: JsonView, key: Seq<char>) -> Option<u64> {
    match member(j, key) {
        Some(JsonView::Number(Some(n))) => Some(n),
        _ => None,
    }
}

/// The block index of an event: an integer that fits `usize`.
pub open spec fn index_member(j: JsonView) -> Option<nat> {
    match count_member(j, "index"@) {
        Some(n) => if n <= usize::MAX {
            Some(n as nat)
        } else {
            None
        },
        None => None,
    }
}

/// A usage object: both counts are required.
pub open spec fn usage_of(j: JsonView) -> Option<TokenCount> {
    match (count_member(j, "input_tokens"@), count_member(j, "output_tokens"@)) {
        (Some(a), Some(b)) => Some(TokenCount { input: a as nat, output: b as nat }),
        _ => None,
    }
}

/// An optional usage member: absent or null reads as `None`.
pub open spec fn optional_usage(j: JsonView) -> Option<Option<TokenCount>> {
    match member(j, "usage"@) {
        None => Some(None),
        Some(JsonView::Null) => Some(None),
        Some(u) => match usage_of(u) {
            Some(c) => Some(Some(c)),
            None => None,
        },
    }
}

/// A content block, tagged by its `type` member.
pub open spec fn block_of(j: JsonView) -> Option<BlockModel> {
    match str_member(j, "type"@) {
        Some(t) => if t == "text"@ {
            match str_member(j, "text"@) {
                Some(s) => Some(BlockModel::Text(s)),
                None => None,
            }
        } else if t == "text_delta"@ {
            match str_member(j, "text"@) {
                Some(s) => Some(BlockModel::TextDelta(s)),
                None => None,
            }
        } else if t == "image"@ {
            match member(j, "source"@) {
                Some(src) => match (
                    str_member(src, "type"@),
                    str_member(src, "media_type"@),
                    str_member(src, "data"@),
                ) {
                    (Some(a), Some(b), Some(c)) => Some(
                        BlockModel::Image { typ: a, media_type: b, data: c },
                    ),
                    _ => None,
                },
                None => None,
            }
        } else {
            None
        },
        None => None,
    }
}

/// A sequence of content blocks: readable only if every item is.
pub open spec fn blocks_of(items: Seq<JsonView>) -> Option<Seq<BlockModel>> {
    if forall|i: int| 0 <= i < items.len() ==> (#[trigger] block_of(items[i])) is Some {
        Some(Seq::new(items.len(), |i: int| block_of(items[i])->0))
    } else {
        None
    }
}

/// The content member of a message: absent reads as no blocks.
pub open spec fn content_member(j: JsonView) -> Option<Seq<BlockModel>> {
    match member(j, "content"@) {
        None => Some(seq![]),
        Some(JsonView::Array(items)) => blocks_of(items),
        Some(_) => None,
    }
}

/// A (partial) message: an object whose known members, where present, have
/// their expected types.
pub open spec fn message_of(j: JsonView) -> Option<MessageModel> {
    if j is Object && content_member(j) is Some && text_or_empty(j, "id"@) is Some
        && text_or_empty(j, "model"@) is Some && text_or_empty(j, "role"@) is Some
        && optional_text(j, "stop_reason"@) is Some && optional_text(j, "stop_sequence"@) is Some
        && optional_usage(j) is Some {
        Some(
            MessageModel {
                content: content_member(j)->0,
                id: text_or_empty(j, "id"@)->0,
                model: text_or_empty(j, "model"@)->0,
                role: text_or_empty(j, "role"@)->0,
                stop_reason: optional_text(j, "stop_reason"@)->0,
                stop_sequence: optional_text(j, "stop_sequence"@)->0,
                usage: optional_usage(j)->0,
            },
        )
    } else {
        None
    }
}

/// The message held by the member `key`.
pub open spec fn message_member(j: JsonView, key: Seq<char>) -> Option<MessageModel> {
    match member(j, key) {
        Some(m) => message_of(m),
        None => None,
    }
}

/// The block held by the member `key`.
pub open spec fn block_member(j: JsonView, key: Seq<char>) -> Option<BlockModel> {
    match member(j, key) {
        Some(b) => block_of(b),
        None => None,
    }
}

/// The protocol event that a document holds, by its `type` member.
pub open spec fn event_of(j: JsonView) -> Option<EventModel> {
    match str_member(j, "type"@) {
        Some(t) => if t == "message_start"@ {
            match message_member(j, "message"@) {
                Some(m) => Some(EventModel::MessageStart(m)),
                None => None,
            }
        } else if t == "content_block_start"@ {
            match (index_member(j), block_member(j, "content_block"@)) {
                (Some(i), Some(b)) => Some(EventModel::BlockStart { index: i, content: b }),
                _ => None,
            }
        } else if t == "content_block_delta"@ {
            match (index_member(j), block_member(j, "delta"@)) {
                (Some(i), Some(b)) => Some(EventModel::BlockDelta { index: i, delta: b }),
                _ => None,
            }
        } else if t == "content_block_stop"@ {
            match index_member(j) {
                Some(i) => Some(EventModel::BlockStop { index: i }),
                None => None,
            }
        } else if t == "message_delta"@ {
            match message_member(j, "delta"@) {
                Some(m) => Some(EventModel::MessageDelta(m)),
                None => None,
            }
        } else if t == "message_stop"@ {
            Some(EventModel::MessageStop)
        } else if t == "ping"@ {
            Some(EventModel::Ping)
        } else {
            None
        },
        None => None,
    }
}

/// The single-shot response that a document holds, by its `type` member.
pub open spec fn response_of(j: JsonView) -> Option<ResponseModel> {
    match str_member(j, "type"@) {
        Some(t) => if t == "message"@ {
            match message_of(j) {
                Some(m) => Some(ResponseModel::Messages(m)),
                None => None,
            }
        } else if t == "error"@ {
            match member(j, "error"@) {
                Some(e) => match (str_member(e, "type"@), str_member(e, "message"@)) {
                    (Some(a), Some(b)) => Some(ResponseModel::Error { typ: a, message: b }),
                    _ => None,
                },
                None => None,
            }
        } else {
            None
        },
        None => None,
    }
}

fn same_text(a: &str, b: &str) -> (r: bool)
    ensures
        r == (a@ == b@),
{
    a.to_owned() == b.to_owned()
}

fn str_member_of<'a>(v: &'a Value, key: &str) -> (r: Option<&'a str>)
    ensures
        opt_view(r) == str_member(json_view(*v), key@),
{
    match get_member(v, key) {
        Some(x) => x.as_str(),
        None => None,
    }
}

fn text_or_empty_of(v: &Value, key: &str) -> (r: Option<String>)
    ensures
        opt_view(r) == text_or_empty(json_view(*v), key@),
{
    match get_member(v, key) {
        None => Some(String::new()),
        Some(x) => match x.as_str() {
            Some(s) => Some(s.to_owned()),
            None => None,
        },
    }
}

/// `Some(r)` where the member reads, with `r` the optional text.
fn optional_text_of(v: &Value, key: &str) -> (r: Option<Option<String>>)
    ensures
        match optional_text(json_view(*v), key@) {
            Some(t) => r is Some && opt_view(r->0) == t,
            None => r is None,
        },
{
    match get_member(v, key) {
        None => Some(None),
        Some(x) => {
            if x.is_null() {
                Some(None)
            } else {
                match x.as_str() {
                    Some(s) => Some(Some(s.to_owned())),
                    None => None,
                }
            }
        },
    }
}

fn count_member_of(v: &Value, key: &str) -> (r: Option<u64>)
    ensures
        r == count_member(json_view(*v), key@),
{
    match get_member(v, key) {
        Some(x) => x.as_u64(),
        None => None,
    }
}

fn index_member_of(v: &Value) -> (r: Option<usize>)
    ensures
        match index_member(json_view(*v)) {
            Some(i) => r is Some && r->0 as nat == i,
            None => r is None,
        },
{
    match count_member_of(v, "index") {
        Some(n) => if n <= usize::MAX as u64 {
            Some(n as usize)
        } else {
            None
        },
        None => None,
    }
}

fn optional_usage_of(v: &Value) -> (r: Option<Option<Usage>>)
    ensures
        match optional_usage(json_view(*v)) {
            Some(u) => r is Some && opt_view(r->0) == u,
            None => r is None,
        },
{
    match get_member(v, "usage") {
        None => Some(None),
        Some(u) => {
            if u.is_null() {
                Some(None)
            } else {
                match (count_member_of(u, "input_tokens"), count_member_of(u, "output_tokens")) {
                    (Some(a), Some(b)) => Some(Some(Usage { input_tokens: a, output_tokens: b })),
                    _ => None,
                }
            }
        },
    }
}

/// Reads a content block out of a parsed document.
pub fn decode_content(v: &Value) -> (r: Option<Content>)
    ensures
        opt_view(r) == block_of(json_view(*v)),
{
    let t = match str_member_of(v, "type") {
        Some(t) => t,
        None => {
            return None;
        },
    };
    if same_text(t, "text") {
        match str_member_of(v, "text") {
            Some(s) => Some(Content::Text { text: s.to_owned() }),
            None => None,
        }
    } else if same_text(t, "text_delta") {
        match str_member_of(v, "text") {
            Some(s) => Some(Content::TextDelta { text: s.to_owned() }),
            None => None,
        }
    } else if same_text(t, "image") {
        match get_member(v, "source") {
            Some(src) => match (
                str_member_of(src, "type"),
                str_member_of(src, "media_type"),
                str_member_of(src, "data"),
            ) {
                (Some(a), Some(b), Some(c)) => Some(
                    Content::Image {
                        source: ImageSource {
                            typ: a.to_owned(),
                            media_type: b.to_owned(),
                            data: c.to_owned(),
                        },
                    },
                ),
                _ => None,
            },
            None => None,
        }
    } else {
        None
    }
}

fn decode_blocks(items: &Vec<Value>) -> (r: Option<Vec<Content>>)
    ensures
        match r {
            Some(out) => blocks_of(items@.map_values(|x: Value| json_view(x))) == Some(
                out@.map_values(|c: Content| c@),
            ),
            None => blocks_of(items@.map_values(|x: Value| json_view(x))) is None,
        },
{
    let ghost js = items@.map_values(|x: Value| json_view(x));
    let mut out: Vec<Content> = Vec::new();
    let mut i: usize = 0;
    while i < items.len()
        invariant
            i <= items@.len(),
            js == items@.map_values(|x: Value| json_view(x)),
            out@.len() == i,
            forall|k: int| 0 <= k < i ==> block_of(#[trigger] js[k]) == Some(out@[k]@),
        decreases items@.len() - i,
    {
        match decode_content(&items[i]) {
            Some(c) => {
                out.push(c);
            },
            None => {
                assert(block_of(js[i as int]) is None);
                return None;
            },
        }
        i += 1;
    }
    assert(forall|k: int| 0 <= k < js.len() ==> (#[trigger] block_of(js[k])) is Some);
    assert(Seq::new(js.len(), |k: int| block_of(js[k])->0) =~= out@.map_values(|c: Content| c@));
    Some(out)
}

fn content_member_of(v: &Value) -> (r: Option<Vec<Content>>)
    ensures
        match content_member(json_view(*v)) {
            Some(bs) => r is Some && r->0@.map_values(|c: Content| c@) == bs,
            None => r is None,
        },
{
    match get_member(v, "content") {
        None => {
            let out: Vec<Content> = Vec::new();
            assert(out@.map_values(|c: Content| c@) =~= seq![]);
            Some(out)
        },
        Some(c) => match c.as_array() {
            Some(items) => {
                proof {
                    if let JsonView::Array(js) = json_view(*c) {
                        assert(items@.map_values(|x: Value| json_view(x)) =~= js);
                    }
                }
                decode_blocks(items)
            },
            None => None,
        },
    }
}

/// Reads a (partial) message out of a parsed document.
pub fn decode_message(v: &Value) -> (r: Option<MessagesResponse>)
    ensures
        opt_view(r) == message_of(json_view(*v)),
{
    if !v.is_object() {
        return None;
    }
    let content = match content_member_of(v) {
        Some(c) => c,
        None => {
            return None;
        },
    };
    let id = match text_or_empty_of(v, "id") {
        Some(s) => s,
        None => {
            return None;
        },
    };
    let model = match text_or_empty_of(v, "model") {
        Some(s) => s,
        None => {
            return None;
        },
    };
    let role = match text_or_empty_of(v, "role") {
        Some(s) => s,
        None => {
            return None;
        },
    };
    let stop_reason = match optional_text_of(v, "stop_reason") {
        Some(s) => s,
        None => {
            return None;
        },
    };
    let stop_sequence = match optional_text_of(v, "stop_sequence") {
        Some(s) => s,
        None => {
            return None;
        },
    };
    let usage = match optional_usage_of(v) {
        Some(u) => u,
        None => {
            return None;
        },
    };
    Some(MessagesResponse { content, id, model, role, stop_reason, stop_sequence, usage })
}

fn message_member_of(v: &Value, key: &str) -> (r: Option<MessagesResponse>)
    ensures
        opt_view(r) == message_member(json_view(*v), key@),
{
    match get_member(v, key) {
        Some(m) => decode_message(m),
        None => None,
    }
}

fn block_member_of(v: &Value, key: &str) -> (r: Option<Content>)
    ensures
        opt_view(r) == block_member(json_view(*v), key@),
{
    match get_member(v, key) {
        Some(b) => decode_content(b),
        None => None,
    }
}

/// Reads a protocol event out of a parsed document.
pub fn decode_event(v: &Value) -> (r: Option<ServerStreamEvent>)
    ensures
        opt_view(r) == event_of(json_view(*v)),
{
    let t = match str_member_of(v, "type") {
        Some(t) => t,
        None => {
            return None;
        },
    };
    if same_text(t, "message_start") {
        match message_member_of(v, "message") {
            Some(message) => Some(ServerStreamEvent::MessageStart { message }),
            None => None,
        }
    } else if same_text(t, "content_block_start") {
        match (index_member_of(v), block_member_of(v, "content_block")) {
            (Some(index), Some(content)) => Some(ServerStreamEvent::StartBlock { index, content }),
            _ => None,
        }
    } else if same_text(t, "content_block_delta") {
        match (index_member_of(v), block_member_of(v, "delta")) {
            (Some(index), Some(delta)) => Some(ServerStreamEvent::BlockDelta { index, delta }),
            _ => None,
        }
    } else if same_text(t, "content_block_stop") {
        match index_member_of(v) {
            Some(index) => Some(ServerStreamEvent::BlockStop { index }),
            None => None,
        }
    } else if same_text(t, "message_delta") {
        match message_member_of(v, "delta") {
            Some(message) => Some(ServerStreamEvent::MessageDelta { message }),
            None => None,
        }
    } else if same_text(t, "message_stop") {
        Some(ServerStreamEvent::MessageStop)
    } else if same_text(t, "ping") {
        Some(ServerStreamEvent::Ping)
    } else {
        None
    }
}

/// Reads a single-shot response out of a parsed document.
pub fn decode_response(v: &Value) -> (r: Option<Response>)
    ensures
        opt_view(r) == response_of(json_view(*v)),
{
    let t = match str_member_of(v, "type") {
        Some(t) => t,
        None => {
            return None;
        },
    };
    if same_text(t, "message") {
        match decode_message(v) {
            Some(m) => Some(Response::Messages(m)),
            None => None,
        }
    } else if same_text(t, "error") {
        match get_member(v, "error") {
            Some(e) => match (str_member_of(e, "type"), str_member_of(e, "message")) {
                (Some(a), Some(b)) => Some(
                    Response::Error {
                        error: ServerError { typ: a.to_owned(), message: b.to_owned() },
                    },
                ),
                _ => None,
            },
            None => None,
        }
    } else {
        None
    }
}

/// What a frame's payload maps to: the event that it holds, or a decode
/// failure that keeps the payload.
pub open spec fn mapped(data: Seq<char>) -> Result<EventModel, ErrorModel> {
    match parsed_json(data) {
        Some(j) => match event_of(j) {
            Some(e) => Ok(e),
            None => Err(ErrorModel::Decode(data)),
        },
        None => Err(ErrorModel::Decode(data)),
    }
}

/// Parses a frame's payload as JSON and reads the protocol event out of it; a
/// payload that is not JSON, or not a known event, fails with the payload kept.
pub fn map_frame(data: &str) -> (r: Result<ServerStreamEvent, StreamError>)
    ensures
        match mapped(data@) {
            Ok(e) => r is Ok && r->Ok_0@ == e,
            Err(e) => r is Err && r->Err_0@ == e,
        },
{
    match parse_value(data) {
        Ok(v) => match decode_event(&v) {
            Some(e) => Ok(e),
            None => Err(StreamError::Decode { payload: data.to_owned() }),
        },
        Err(_) => Err(StreamError::Decode { payload: data.to_owned() }),
    }
}

/// Why a single-shot response could not be read.
#[derive(Debug, Clone, Copy, PartialEq, Eq, Structural)]
pub enum ResponseError {
    /// The body is not one JSON document.
    InvalidJson,
    /// The document is neither a message nor an error.
    UnknownShape,
}

/// Parses a single-shot response body.
pub fn parse_response(text: &str) -> (r: Result<Response, ResponseError>)
    ensures
        match parsed_json(text@) {
            Some(j) => match response_of(j) {
                Some(m) => r is Ok && r->Ok_0@ == m,
                None => r == Err::<Response, ResponseError>(ResponseError::UnknownShape),
            },
            None => r == Err::<Response, ResponseError>(ResponseError::InvalidJson),
        },
{
    match parse_value(text) {
        Ok(v) => match decode_response(&v) {
            Some(resp) => Ok(resp),
            None => Err(ResponseError::UnknownShape),
        },
        Err(_) => Err(ResponseError::InvalidJson),
    }
}

} // verus!
