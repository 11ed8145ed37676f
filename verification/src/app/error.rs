//! Errors of the registry and the router. Each is local to the message
//! that provoked it: none closes the connection and none is fatal to the
//! process.

use vstd::prelude::*;

use crate::proto::error::{DecodeError, EncodeError};

verus! {

/// Why a delivery to a session's outbound queue failed.
#[derive(Debug, PartialEq, Eq)]
pub enum SendError {
    /// The frame could not be encoded.
    Encode(EncodeError),
    /// The receiving half of the session's queue is gone: its connection
    /// has closed. Carries the frame that was not delivered.
    Closed(Vec<u8>),
}

/// Why processing one inbound message failed.
#[derive(Debug, PartialEq, Eq)]
pub enum ProcessError {
    /// The frame did not decode; it is dropped.
    Decode(DecodeError),
    /// A delivery failed; the destination connection is gone.
    SendFailed(SendError),
    /// The session is already in a room and may not create or join one.
    InvalidOperation,
    /// The operation needs the session to be in a room, and it is not, or
    /// its room is gone.
    NotInRoom,
    /// No session with the named identifier was found where one was
    /// needed.
    PlayerNotFound,
    /// No live room carries the given code.
    RoomNotFound,
}

} // verus!
