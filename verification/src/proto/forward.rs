//! The forwarded-payload sub-message shared by both families: a 16-byte
//! session identifier followed by the raw payload, which runs to the end of
//! the frame. On the client-to-server side the identifier names the target;
//! the relay rewrites it to the sender's identifier before forwarding, so
//! on the server-to-client side it names the sender.

use vstd::prelude::*;
use vstd::slice::slice_to_vec;

use crate::proto::error::{DecodeError, EncodeError};
use crate::session_id::{SessionId, SESSION_ID_SIZE};

verus! {

/// The fewest bytes a forwarded payload takes on the wire: the identifier
/// and at least one payload byte.
pub const FORWARD_MIN: usize = SESSION_ID_SIZE + 1;

/// A forwarded payload. The relay never interprets `raw`.
pub struct ForwardMessage {
    /// Target session on the way in; sender session on the way out.
    pub session_id: SessionId,
    /// The opaque application payload.
    pub raw: Vec<u8>,
}

/// The mathematical value of a forwarded payload: the identifier's bytes
/// and the payload's bytes.
pub struct ForwardModel {
    pub session_id: Seq<u8>,
    pub raw: Seq<u8>,
}

impl View for ForwardMessage {
    type V = ForwardModel;

    open spec fn view(&self) -> ForwardModel {
        ForwardModel { session_id: self.session_id@, raw: self.raw@ }
    }
}

/// What a well-formed forwarded payload looks like at the model level.
pub open spec fn forward_wf(f: ForwardModel) -> bool {
    f.session_id.len() == SESSION_ID_SIZE
}

/// The wire bytes of a forwarded payload: identifier, then payload.
pub open spec fn spec_encode_forward(f: ForwardModel) -> Seq<u8> {
    f.session_id + f.raw
}

/// What decoding a forwarded payload from `s` yields: the first 16 bytes
/// as the identifier and the rest as the payload, or `BufferTooSmall` when
/// fewer than 17 bytes remain.
pub open spec fn spec_decode_forward(s: Seq<u8>) -> Result<ForwardModel, DecodeError> {
    if s.len() < FORWARD_MIN {
        Err(DecodeError::BufferTooSmall { min: FORWARD_MIN, remaining: s.len() as usize })
    } else {
        Ok(ForwardModel {
            session_id: s.take(SESSION_ID_SIZE as int),
            raw: s.skip(SESSION_ID_SIZE as int),
        })
    }
}

impl ForwardMessage {
    /// A well-formed forwarded payload: its identifier holds 16 bytes.
    pub open spec fn wf(self) -> bool {
        forward_wf(self@)
    }

    /// Overwrites the embedded identifier, as the relay does with the
    /// sender's identifier before forwarding.
    pub fn set_session_id(&mut self, session_id: &SessionId)
        ensures
            final(self)@.session_id == session_id@,
            final(self)@.raw == old(self)@.raw,
    {
        self.session_id = session_id.clone();
    }

    /// Appends the wire bytes to `buf`. Fails, leaving `buf` unchanged,
    /// only when the destination cannot take the needed bytes.
    pub fn encode(&self, buf: &mut Vec<u8>) -> (r: Result<(), EncodeError>)
        requires
            self.wf(),
            self@.raw.len() + SESSION_ID_SIZE <= usize::MAX,
        ensures
            match r {
                Ok(()) => final(buf)@ == old(buf)@ + spec_encode_forward(self@),
                Err(e) => {
                    &&& final(buf)@ == old(buf)@
                    &&& self@.raw.len() + SESSION_ID_SIZE > usize::MAX - old(buf)@.len()
                    &&& e == (EncodeError::InsufficientCapacity {
                        required: (self@.raw.len() + SESSION_ID_SIZE) as usize,
                        remaining: (usize::MAX - old(buf)@.len()) as usize,
                    })
                },
            },
    {
        let required = self.raw.len() + SESSION_ID_SIZE;
        let remaining = usize::MAX - buf.len();
        if required > remaining {
            return Err(EncodeError::InsufficientCapacity { required, remaining });
        }
        let mut id_bytes = slice_to_vec(self.session_id.as_slice());
        buf.append(&mut id_bytes);
        let mut raw_bytes = slice_to_vec(self.raw.as_slice());
        buf.append(&mut raw_bytes);
        Ok(())
    }

    /// Decodes a forwarded payload from `buf`, taking the whole buffer.
    pub fn decode(buf: &[u8]) -> (r: Result<ForwardMessage, DecodeError>)
        ensures
            match r {
                Ok(f) => spec_decode_forward(buf@) == Ok::<ForwardModel, DecodeError>(f@) && f.wf(),
                Err(e) => spec_decode_forward(buf@) == Err::<ForwardModel, DecodeError>(e),
            },
    {
        let remaining = buf.len();
        if remaining < FORWARD_MIN {
            return Err(DecodeError::BufferTooSmall { min: FORWARD_MIN, remaining });
        }
        let session_id = SessionId::from_slice(&buf[0..SESSION_ID_SIZE]);
        let raw = slice_to_vec(&buf[SESSION_ID_SIZE..buf.len()]);
        Ok(ForwardMessage { session_id, raw })
    }
}

/// Round trip for the forwarded payload: decoding what was encoded gives
/// the message back, for every identifier of 16 bytes and every payload of
/// at least one byte. (A payload of zero bytes encodes to 16 bytes, which
/// decoding rejects as too small: the wire format cannot carry it.)
pub proof fn lemma_forward_round_trip(f: ForwardModel)
    requires
        forward_wf(f),
        f.raw.len() >= 1,
    ensures
        spec_decode_forward(spec_encode_forward(f)) == Ok::<ForwardModel, DecodeError>(f),
{
    let s = spec_encode_forward(f);
    assert(s.take(SESSION_ID_SIZE as int) =~= f.session_id);
    assert(s.skip(SESSION_ID_SIZE as int) =~= f.raw);
}

} // verus!
