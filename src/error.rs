//! The failures of a streaming session. Each is fatal: the session delivers it
//! as its one terminal item and stops.

use crate::accumulator::ProtocolError;
use crate::frame::FrameError;
use crate::message::{decimal, decimal_string};
use vstd::prelude::*;
use vstd::string::StringExecFns;

verus! {

/// A failure of the transport under the stream.
#[derive(Debug, Clone)]
pub enum TransportError {
    /// A read failed; the transport's description.
    Read(String),
    /// The transport closed before the message was complete.
    ClosedEarly,
}

/// Why a streaming session failed.
#[derive(Debug, Clone)]
pub enum StreamError {
    Transport(TransportError),
    Frame(FrameError),
    /// A frame's payload is not a known event; the payload is kept as received.
    Decode { payload: String },
    Protocol(ProtocolError),
}

/// A session failure, over character sequences.
pub enum ErrorModel {
    TransportRead(Seq<char>),
    ClosedEarly,
    Frame(FrameError),
    Decode(Seq<char>),
    Protocol(ProtocolError),
}

impl View for StreamError {
    type V = ErrorModel;

    open spec fn view(&self) -> ErrorModel {
        match self {
            StreamError::Transport(TransportError::Read(m)) => ErrorModel::TransportRead(m@),
            StreamError::Transport(TransportError::ClosedEarly) => ErrorModel::ClosedEarly,
            StreamError::Frame(f) => ErrorModel::Frame(*f),
            StreamError::Decode { payload } => ErrorModel::Decode(payload@),
            StreamError::Protocol(p) => ErrorModel::Protocol(*p),
        }
    }
}

/// A one-line description of a failure.
pub open spec fn error_text(e: ErrorModel) -> Seq<char> {
    match e {
        ErrorModel::TransportRead(m) => "transport read failed: "@ + m,
        ErrorModel::ClosedEarly => "transport closed before the message was complete"@,
        ErrorModel::Frame(_) => "event frame is not valid UTF-8"@,
        ErrorModel::Decode(p) => "unrecognised event payload: "@ + p,
        ErrorModel::Protocol(ProtocolError::StartNotEmpty) => "message start carried content"@,
        ErrorModel::Protocol(ProtocolError::StartAfterContent) =>
            "message start after content was received"@,
        ErrorModel::Protocol(ProtocolError::BlockIndex(i)) => "event for block "@ + decimal(
            i as nat,
        ) + ", only block 0 is supported"@,
        ErrorModel::Protocol(ProtocolError::UsageOverflow) =>
            "token usage exceeds the 64-bit counters"@,
    }
}

impl StreamError {
    /// A one-line description of this failure (see `error_text`).
    pub fn describe(&self) -> (r: String)
        ensures
            r@ == error_text(self@),
    {
        match self {
            StreamError::Transport(TransportError::Read(m)) => {
                let mut s = "transport read failed: ".to_owned();
                s.append(m.as_str());
                s
            },
            StreamError::Transport(TransportError::ClosedEarly) => {
                "transport closed before the message was complete".to_owned()
            },
            StreamError::Frame(_) => "event frame is not valid UTF-8".to_owned(),
            StreamError::Decode { payload } => {
                let mut s = "unrecognised event payload: ".to_owned();
                s.append(payload.as_str());
                s
            },
            StreamError::Protocol(ProtocolError::StartNotEmpty) => {
                "message start carried content".to_owned()
            },
            StreamError::Protocol(ProtocolError::StartAfterContent) => {
                "message start after content was received".to_owned()
            },
            StreamError::Protocol(ProtocolError::BlockIndex(i)) => {
                let mut s = "event for block ".to_owned();
                let n = decimal_string(*i);
                s.append(n.as_str());
                s.append(", only block 0 is supported");
                s
            },
            StreamError::Protocol(ProtocolError::UsageOverflow) => {
                "token usage exceeds the 64-bit counters".to_owned()
            },
        }
    }
}

} // verus!
