//! The client-to-server message family. One leading tag byte selects the
//! variant: 1 forwards a payload to another member, 2 asks for a room,
//! 3 joins a room by code.

use vstd::prelude::*;
use vstd::slice::slice_to_vec;

use crate::code::{Code, CODE_SIZE};
use crate::proto::error::{DecodeError, EncodeError};
use crate::proto::forward::{
    spec_decode_forward, spec_encode_forward, ForwardMessage, ForwardModel, FORWARD_MIN,
};
use crate::session_id::SESSION_ID_SIZE;

verus! {

/// The fewest bytes a join request takes: the tag and the 4-byte code.
pub const JOIN_ROOM_MIN: usize = CODE_SIZE + 1;

/// A message from a client to the relay.
pub enum Message {
    /// Forward `raw` to the member named by the embedded identifier. The
    /// relay overwrites that identifier with the sender's before delivery.
    SendToPlayer(ForwardMessage),
    /// Create a room with the sender as host.
    CreateRoom,
    /// Join the room that `code` names.
    JoinRoom { code: Code },
}

/// The mathematical value of a client-to-server message.
pub enum MessageModel {
    SendToPlayer(ForwardModel),
    CreateRoom,
    JoinRoom { code: Seq<u8> },
}

impl View for Message {
    type V = MessageModel;

    open spec fn view(&self) -> MessageModel {
        match self {
            Message::SendToPlayer(f) => MessageModel::SendToPlayer(f@),
            Message::CreateRoom => MessageModel::CreateRoom,
            Message::JoinRoom { code } => MessageModel::JoinRoom { code: code@ },
        }
    }
}

/// The tag byte of each variant.
pub open spec fn spec_tag(m: MessageModel) -> u8 {
    match m {
        MessageModel::SendToPlayer(_) => 1,
        MessageModel::CreateRoom => 2,
        MessageModel::JoinRoom { .. } => 3,
    }
}

/// What a well-formed message looks like at the model level: fixed-width
/// fields hold their exact widths.
pub open spec fn message_wf(m: MessageModel) -> bool {
    match m {
        MessageModel::SendToPlayer(f) => f.session_id.len() == SESSION_ID_SIZE,
        MessageModel::CreateRoom => true,
        MessageModel::JoinRoom { code } => code.len() == CODE_SIZE,
    }
}

/// The wire bytes of a message: the tag, then the variant's fields.
pub open spec fn spec_encode(m: MessageModel) -> Seq<u8> {
    seq![spec_tag(m)].add(
        match m {
            MessageModel::SendToPlayer(f) => spec_encode_forward(f),
            MessageModel::CreateRoom => Seq::empty(),
            MessageModel::JoinRoom { code } => code,
        },
    )
}

/// What decoding a client-to-server message from `s` yields. An empty
/// buffer and a buffer too short for its variant fail with
/// `BufferTooSmall`; an unknown tag fails with `BadMessageCode`. A join
/// request reads exactly 4 code bytes and ignores anything after them.
pub open spec fn spec_decode(s: Seq<u8>) -> Result<MessageModel, DecodeError> {
    if s.len() < 1 {
        Err(DecodeError::BufferTooSmall { min: 1, remaining: s.len() as usize })
    } else if s[0] == 1 {
        match spec_decode_forward(s.skip(1)) {
            Ok(f) => Ok(MessageModel::SendToPlayer(f)),
            Err(e) => Err(e),
        }
    } else if s[0] == 2 {
        Ok(MessageModel::CreateRoom)
    } else if s[0] == 3 {
        if s.len() < JOIN_ROOM_MIN {
            Err(DecodeError::BufferTooSmall { min: JOIN_ROOM_MIN, remaining: s.len() as usize })
        } else {
            Ok(MessageModel::JoinRoom { code: s.subrange(1, JOIN_ROOM_MIN as int) })
        }
    } else {
        Err(DecodeError::BadMessageCode { code: s[0] })
    }
}

impl Message {
    /// A well-formed message: its fixed-width fields hold their widths.
    pub open spec fn wf(self) -> bool {
        message_wf(self@)
    }

    /// The machine limit on encoding: the forwarded payload and the
    /// identifier must together fit in a byte count.
    pub open spec fn encodable(self) -> bool {
        match self@ {
            MessageModel::SendToPlayer(f) => f.raw.len() + SESSION_ID_SIZE <= usize::MAX,
            _ => true,
        }
    }

    /// The variant's tag byte.
    fn type_code(&self) -> (r: u8)
        ensures
            r == spec_tag(self@),
    {
        match self {
            Message::SendToPlayer(_) => 1,
            Message::CreateRoom => 2,
            Message::JoinRoom { .. } => 3,
        }
    }

    /// Appends the wire bytes to `buf`. Only a forwarded payload can fail,
    /// when the destination cannot take it; the tag byte has been appended
    /// by then, as the failure is found while writing the payload.
    pub fn encode(&self, buf: &mut Vec<u8>) -> (r: Result<(), EncodeError>)
        requires
            self.wf(),
            self.encodable(),
        ensures
            match r {
                Ok(()) => final(buf)@ == old(buf)@ + spec_encode(self@),
                Err(e) => match self@ {
                    MessageModel::SendToPlayer(f) => {
                        &&& final(buf)@ == old(buf)@.push(1u8)
                        &&& f.raw.len() + SESSION_ID_SIZE > usize::MAX - (old(buf)@.len() + 1)
                        &&& e == (EncodeError::InsufficientCapacity {
                            required: (f.raw.len() + SESSION_ID_SIZE) as usize,
                            remaining: (usize::MAX - (old(buf)@.len() + 1)) as usize,
                        })
                    },
                    _ => false,
                },
            },
    {
        buf.push(self.type_code());
        match self {
            Message::SendToPlayer(f) => {
                let r = f.encode(buf);
                proof {
                    if r is Ok {
                        assert(buf@ =~= old(buf)@ + spec_encode(self@));
                    }
                }
                r
            },
            Message::CreateRoom => {
                proof {
                    assert(buf@ =~= old(buf)@ + spec_encode(self@));
                }
                Ok(())
            },
            Message::JoinRoom { code } => {
                let mut code_bytes = slice_to_vec(code.as_slice());
                buf.append(&mut code_bytes);
                proof {
                    assert(buf@ =~= old(buf)@ + spec_encode(self@));
                }
                Ok(())
            },
        }
    }

    /// Decodes a client-to-server message from a whole frame.
    pub fn decode(buf: &[u8]) -> (r: Result<Message, DecodeError>)
        ensures
            match r {
                Ok(m) => spec_decode(buf@) == Ok::<MessageModel, DecodeError>(m@) && m.wf(),
                Err(e) => spec_decode(buf@) == Err::<MessageModel, DecodeError>(e),
            },
    {
        let remaining = buf.len();
        if remaining < 1 {
            return Err(DecodeError::BufferTooSmall { min: 1, remaining });
        }
        if buf[0] == 1 {
            match ForwardMessage::decode(&buf[1..buf.len()]) {
                Ok(f) => Ok(Message::SendToPlayer(f)),
                Err(e) => Err(e),
            }
        } else if buf[0] == 2 {
            Ok(Message::CreateRoom)
        } else if buf[0] == 3 {
            if remaining < JOIN_ROOM_MIN {
                return Err(DecodeError::BufferTooSmall { min: JOIN_ROOM_MIN, remaining });
            }
            match Code::try_from(&buf[1..JOIN_ROOM_MIN]) {
                Ok(code) => Ok(Message::JoinRoom { code }),
                Err(_) => {
                    proof {
                        assert(false);
                    }
                    Err(DecodeError::BufferTooSmall { min: JOIN_ROOM_MIN, remaining })
                },
            }
        } else {
            Err(DecodeError::BadMessageCode { code: buf[0] })
        }
    }
}

/// Round trip for the client-to-server family: decoding what was encoded
/// gives the message back, for every well-formed message. For a forwarded
/// payload the payload must hold at least one byte, as the wire format
/// cannot carry an empty one.
pub proof fn lemma_round_trip(m: MessageModel)
    requires
        message_wf(m),
        m matches MessageModel::SendToPlayer(f) ==> f.raw.len() >= 1,
    ensures
        spec_decode(spec_encode(m)) == Ok::<MessageModel, DecodeError>(m),
{
    let s = spec_encode(m);
    match m {
        MessageModel::SendToPlayer(f) => {
            assert(s.skip(1) =~= spec_encode_forward(f));
            crate::proto::forward::lemma_forward_round_trip(f);
        },
        MessageModel::CreateRoom => {
        },
        MessageModel::JoinRoom { code } => {
            assert(s.subrange(1, JOIN_ROOM_MIN as int) =~= code);
        },
    }
}

/// An unknown leading tag always fails with `BadMessageCode` carrying that
/// tag, whatever follows it.
pub proof fn lemma_bad_tag(s: Seq<u8>)
    requires
        s.len() >= 1,
        s[0] != 1,
        s[0] != 2,
        s[0] != 3,
    ensures
        spec_decode(s) == Err::<MessageModel, DecodeError>(
            DecodeError::BadMessageCode { code: s[0] },
        ),
{
}

/// A buffer too short for its variant always fails with `BufferTooSmall`,
/// never a partial success. The minimum and the remaining count are those
/// the codec reports: an empty buffer needs 1 byte; a forwarded payload
/// needs 17 bytes after the tag and counts what remains after the tag; a
/// join request needs 5 bytes counting the tag.
pub proof fn lemma_truncated(s: Seq<u8>)
    ensures
        s.len() == 0 ==> spec_decode(s) == Err::<MessageModel, DecodeError>(
            DecodeError::BufferTooSmall { min: 1, remaining: 0 },
        ),
        s.len() >= 1 && s[0] == 1 && s.len() < 1 + FORWARD_MIN ==> spec_decode(s)
            == Err::<MessageModel, DecodeError>(
            DecodeError::BufferTooSmall {
                min: FORWARD_MIN,
                remaining: (s.len() - 1) as usize,
            },
        ),
        s.len() >= 1 && s[0] == 3 && s.len() < JOIN_ROOM_MIN ==> spec_decode(s)
            == Err::<MessageModel, DecodeError>(
            DecodeError::BufferTooSmall {
                min: JOIN_ROOM_MIN,
                remaining: s.len() as usize,
            },
        ),
{
}

} // verus!
