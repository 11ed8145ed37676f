//! Session identifiers: 128-bit values assigned by the server, one per
//! connected session, never supplied by a client.

use vstd::prelude::*;
use vstd::slice::slice_to_vec;

verus! {

/// The number of bytes in a session identifier.
pub const SESSION_ID_SIZE: usize = 16;

/// A session identifier: 16 raw bytes, generated randomly when a connection
/// is accepted. On the wire it is written as-is, with no length prefix.
#[derive(Debug, PartialEq, Eq)]
pub struct SessionId {
    bytes: Vec<u8>,
}

impl View for SessionId {
    type V = Seq<u8>;

    closed spec fn view(&self) -> Seq<u8> {
        self.bytes@
    }
}

impl SessionId {
    /// A well-formed identifier holds exactly 16 bytes.
    pub open spec fn wf(self) -> bool {
        self@.len() == SESSION_ID_SIZE
    }

    /// A fresh randomly generated identifier.
    pub fn fresh() -> (r: SessionId)
        ensures
            r.wf(),
    {
        SessionId { bytes: fresh_uuid_bytes() }
    }

    /// The identifier whose bytes are the given 16-byte slice.
    pub fn from_slice(bytes: &[u8]) -> (r: SessionId)
        requires
            bytes@.len() == SESSION_ID_SIZE,
        ensures
            r@ == bytes@,
            r.wf(),
    {
        SessionId { bytes: slice_to_vec(bytes) }
    }

    /// The identifier's bytes.
    pub fn as_slice(&self) -> (r: &[u8])
        ensures
            r@ == self@,
    {
        self.bytes.as_slice()
    }

    /// Whether two identifiers hold the same bytes.
    pub fn same_as(&self, other: &SessionId) -> (r: bool)
        ensures
            r == (self@ == other@),
    {
        let r = self.bytes == other.bytes;
        proof {
            if r {
                assert(self.bytes@ =~= other.bytes@);
            } else {
                assert(!(self.bytes@ =~= other.bytes@));
            }
        }
        r
    }
}

impl Clone for SessionId {
    fn clone(&self) -> (r: Self)
        ensures
            r@ == self@,
    {
        SessionId { bytes: slice_to_vec(self.bytes.as_slice()) }
    }
}

/// Relies on `uuid::Uuid::new_v4` and `Uuid::as_bytes`: a fresh random
/// version-4 identifier, returned as its 16 bytes. Nothing is assumed of
/// the bytes themselves beyond their number.
#[verifier::external_body]
fn fresh_uuid_bytes() -> (r: Vec<u8>)
    ensures
        r@.len() == 16,
{
    uuid::Uuid::new_v4().as_bytes().to_vec()
}

} // verus!
