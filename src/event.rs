//! Protocol events of a streamed response, and the response of a single-shot
//! request.

use crate::message::{BlockModel, Content, MessageModel, MessagesResponse};
use vstd::prelude::*;

verus! {

/// One event of a streamed response, as the server sends it.
#[derive(Debug)]
pub enum ServerStreamEvent {
    MessageStart { message: MessagesResponse },
    StartBlock { index: usize, content: Content },
    BlockDelta { index: usize, delta: Content },
    BlockStop { index: usize },
    MessageDelta { message: MessagesResponse },
    MessageStop,
    Ping,
}

/// Another name for `ServerStreamEvent`.
pub type StreamEvent = ServerStreamEvent;

/// A protocol event, over the models of its parts.
pub enum EventModel {
    MessageStart(MessageModel),
    BlockStart { index: nat, content: BlockModel },
    BlockDelta { index: nat, delta: BlockModel },
    BlockStop { index: nat },
    MessageDelta(MessageModel),
    MessageStop,
    Ping,
}

impl View for ServerStreamEvent {
    type V = EventModel;

    open spec fn view(&self) -> EventModel {
        match self {
            ServerStreamEvent::MessageStart { message } => EventModel::MessageStart(message@),
            ServerStreamEvent::StartBlock { index, content } => EventModel::BlockStart {
                index: *index as nat,
                content: content@,
            },
            ServerStreamEvent::BlockDelta { index, delta } => EventModel::BlockDelta {
                index: *index as nat,
                delta: delta@,
            },
            ServerStreamEvent::BlockStop { index } => EventModel::BlockStop { index: *index as nat },
            ServerStreamEvent::MessageDelta { message } => EventModel::MessageDelta(message@),
            ServerStreamEvent::MessageStop => EventModel::MessageStop,
            ServerStreamEvent::Ping => EventModel::Ping,
        }
    }
}

/// An error reported by the service: its kind and a description.
#[derive(Debug, Clone)]
pub struct ServerError {
    pub typ: String,
    pub message: String,
}

/// The response to a single-shot request: a message, or an error.
#[derive(Debug)]
pub enum Response {
    Messages(MessagesResponse),
    Error { error: ServerError },
}

/// A single-shot response, over the models of its parts.
pub enum ResponseModel {
    Messages(MessageModel),
    Error { typ: Seq<char>, message: Seq<char> },
}

impl View for Response {
    type V = ResponseModel;

    open spec fn view(&self) -> ResponseModel {
        match self {
            Response::Messages(m) => ResponseModel::Messages(m@),
            Response::Error { error } => ResponseModel::Error {
                typ: error.typ@,
                message: error.message@,
            },
        }
    }
}

} // verus!
