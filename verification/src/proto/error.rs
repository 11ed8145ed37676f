//! Errors of the wire codec.

use vstd::prelude::*;

verus! {

/// Why an encode failed. Encoding appends to a growable byte buffer, so
/// the only failure mode is a destination that cannot take the needed
/// bytes; it indicates a caller bug and does not occur with ordinary
/// buffers.
#[derive(Debug, PartialEq, Eq, Structural)]
pub enum EncodeError {
    /// The destination cannot take `required` more bytes; it had room for
    /// `remaining`.
    InsufficientCapacity { required: usize, remaining: usize },
}

/// Why a decode failed. A decode failure drops the offending inbound
/// frame; it never closes the connection and never leaves a partial
/// result.
#[derive(Debug, PartialEq, Eq, Structural)]
pub enum DecodeError {
    /// The buffer ended before a fixed-size field: at least `min` bytes
    /// were needed where `remaining` were left.
    BufferTooSmall { min: usize, remaining: usize },
    /// The leading tag byte is not a known variant of the family decoded.
    BadMessageCode { code: u8 },
}

} // verus!
