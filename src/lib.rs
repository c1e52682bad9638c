//! Client-side pipeline for a streamed chat-completion response: byte chunks are
//! decoded into server-sent-event frames, frames into typed protocol events, and
//! the events are folded into one reconstructed message while text fragments are
//! handed on in arrival order.

pub mod accumulator;
pub mod decode;
pub mod error;
pub mod event;
pub mod frame;
pub mod json;
pub mod media;
pub mod message;
pub mod model;
pub mod session;
pub mod timed;

pub use accumulator::{Accumulator, ItemModel, ProtocolError, TextStreamEvent};
pub use decode::{
    decode_content, decode_event, decode_message, decode_response, map_frame, parse_response,
    ResponseError,
};
pub use error::{ErrorModel, StreamError, TransportError};
pub use event::{EventModel, Response, ResponseModel, ServerError, ServerStreamEvent, StreamEvent};
pub use frame::{Frame, FrameDecoder, FrameError};
pub use message::{
    BlockModel, Content, ImageSource, MessageModel, MessagesResponse, TokenCount, Usage,
};
pub use model::Model;
pub use session::{deliver_all, Action, Input, Phase, StreamSession};
pub use timed::TimedWrapper;
