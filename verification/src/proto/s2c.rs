//! The server-to-client message family. One leading tag byte selects the
//! variant: 1 delivers a forwarded payload, 2 assigns the session its
//! identifier, 3 reports a created room's code, 4 confirms a join to the
//! joiner, 5 announces a new member to the host.

use vstd::prelude::*;
use vstd::slice::slice_to_vec;

use crate::code::{Code, CODE_SIZE};
use crate::proto::error::{DecodeError, EncodeError};
use crate::proto::forward::{
    spec_decode_forward, spec_encode_forward, ForwardMessage, ForwardModel, FORWARD_MIN,
};
use crate::session_id::{SessionId, SESSION_ID_SIZE};

verus! {

/// A message from the relay to a client.
pub enum Message {
    /// A payload forwarded from another member; the embedded identifier is
    /// the actual sender's, written by the relay.
    ReceiveFromPlayer(ForwardMessage),
    /// The identifier assigned to this session, sent once right after the
    /// connection is accepted.
    AssignSessionId { session_id: SessionId },
    /// The code of the room just created for this session.
    RoomCreated { code: Code },
    /// The join succeeded; the room's host is named.
    RoomJoined { host_session_id: SessionId },
    /// A new member joined the room this session hosts.
    PlayerJoined { player_session_id: SessionId },
}

/// The mathematical value of a server-to-client message.
pub enum MessageModel {
    ReceiveFromPlayer(ForwardModel),
    AssignSessionId { session_id: Seq<u8> },
    RoomCreated { code: Seq<u8> },
    RoomJoined { host_session_id: Seq<u8> },
    PlayerJoined { player_session_id: Seq<u8> },
}

impl View for Message {
    type V = MessageModel;

    open spec fn view(&self) -> MessageModel {
        match self {
            Message::ReceiveFromPlayer(f) => MessageModel::ReceiveFromPlayer(f@),
            Message::AssignSessionId { session_id } => MessageModel::AssignSessionId {
                session_id: session_id@,
            },
            Message::RoomCreated { code } => MessageModel::RoomCreated { code: code@ },
            Message::RoomJoined { host_session_id } => MessageModel::RoomJoined {
                host_session_id: host_session_id@,
            },
            Message::PlayerJoined { player_session_id } => MessageModel::PlayerJoined {
                player_session_id: player_session_id@,
            },
        }
    }
}

/// The tag byte of each variant.
pub open spec fn spec_tag(m: MessageModel) -> u8 {
    match m {
        MessageModel::ReceiveFromPlayer(_) => 1,
        MessageModel::AssignSessionId { .. } => 2,
        MessageModel::RoomCreated { .. } => 3,
        MessageModel::RoomJoined { .. } => 4,
        MessageModel::PlayerJoined { .. } => 5,
    }
}

/// What a well-formed message looks like at the model level: fixed-width
/// fields hold their exact widths.
pub open spec fn message_wf(m: MessageModel) -> bool {
    match m {
        MessageModel::ReceiveFromPlayer(f) => f.session_id.len() == SESSION_ID_SIZE,
        MessageModel::AssignSessionId { session_id } => session_id.len() == SESSION_ID_SIZE,
        MessageModel::RoomCreated { code } => code.len() == CODE_SIZE,
        MessageModel::RoomJoined { host_session_id } => host_session_id.len() == SESSION_ID_SIZE,
        MessageModel::PlayerJoined { player_session_id } => player_session_id.len()
            == SESSION_ID_SIZE,
    }
}

/// The wire bytes of a message: the tag, then the variant's fields.
pub open spec fn spec_encode(m: MessageModel) -> Seq<u8> {
    seq![spec_tag(m)].add(
        match m {
            MessageModel::ReceiveFromPlayer(f) => spec_encode_forward(f),
            MessageModel::AssignSessionId { session_id } => session_id,
            MessageModel::RoomCreated { code } => code,
            MessageModel::RoomJoined { host_session_id } => host_session_id,
            MessageModel::PlayerJoined { player_session_id } => player_session_id,
        },
    )
}

/// What decoding a server-to-client message from `s` yields. An empty
/// buffer and a buffer too short for its variant fail with
/// `BufferTooSmall`; an unknown tag fails with `BadMessageCode`. The
/// identifier and code variants read their fixed-width field and ignore
/// anything after it; their minima count the field alone, and the
/// remainder reported is what follows the tag.
pub open spec fn spec_decode(s: Seq<u8>) -> Result<MessageModel, DecodeError> {
    if s.len() < 1 {
        Err(DecodeError::BufferTooSmall { min: 1, remaining: s.len() as usize })
    } else if s[0] == 1 {
        match spec_decode_forward(s.skip(1)) {
            Ok(f) => Ok(MessageModel::ReceiveFromPlayer(f)),
            Err(e) => Err(e),
        }
    } else if s[0] == 2 {
        match spec_decode_session_id(s.skip(1)) {
            Ok(id) => Ok(MessageModel::AssignSessionId { session_id: id }),
            Err(e) => Err(e),
        }
    } else if s[0] == 3 {
        if s.len() < 1 + CODE_SIZE {
            Err(DecodeError::BufferTooSmall {
                min: CODE_SIZE,
                remaining: (s.len() - 1) as usize,
            })
        } else {
            Ok(MessageModel::RoomCreated { code: s.subrange(1, 1 + CODE_SIZE as int) })
        }
    } else if s[0] == 4 {
        match spec_decode_session_id(s.skip(1)) {
            Ok(id) => Ok(MessageModel::RoomJoined { host_session_id: id }),
            Err(e) => Err(e),
        }
    } else if s[0] == 5 {
        match spec_decode_session_id(s.skip(1)) {
            Ok(id) => Ok(MessageModel::PlayerJoined { player_session_id: id }),
            Err(e) => Err(e),
        }
    } else {
        Err(DecodeError::BadMessageCode { code: s[0] })
    }
}

/// What decoding a 16-byte identifier field from the remainder `s` of a
/// frame yields: its first 16 bytes, or `BufferTooSmall` when fewer
/// remain.
pub open spec fn spec_decode_session_id(s: Seq<u8>) -> Result<Seq<u8>, DecodeError> {
    if s.len() < SESSION_ID_SIZE {
        Err(DecodeError::BufferTooSmall {
            min: SESSION_ID_SIZE,
            remaining: s.len() as usize,
        })
    } else {
        Ok(s.take(SESSION_ID_SIZE as int))
    }
}

impl Message {
    /// A well-formed message: its fixed-width fields hold their widths.
    pub open spec fn wf(self) -> bool {
        message_wf(self@)
    }

    /// The machine limit on encoding: the forwarded payload and the
    /// identifier must together fit in a byte count.
    pub open spec fn encodable(self) -> bool {
        match self@ {
            MessageModel::ReceiveFromPlayer(f) => f.raw.len() + SESSION_ID_SIZE <= usize::MAX,
            _ => true,
        }
    }

    /// The machine limit on a whole frame: the tag, the identifier and the
    /// forwarded payload must together fit in a byte count, so that the
    /// frame can be encoded into an empty buffer.
    pub open spec fn frame_fits(self) -> bool {
        match self@ {
            MessageModel::ReceiveFromPlayer(f) => f.raw.len() + SESSION_ID_SIZE + 1 <= usize::MAX,
            _ => true,
        }
    }

    /// The variant's tag byte.
    fn type_code(&self) -> (r: u8)
        ensures
            r == spec_tag(self@),
    {
        match self {
            Message::ReceiveFromPlayer(_) => 1,
            Message::AssignSessionId { .. } => 2,
            Message::RoomCreated { .. } => 3,
            Message::RoomJoined { .. } => 4,
            Message::PlayerJoined { .. } => 5,
        }
    }

    /// Appends the wire bytes to `buf`. Only a destination that cannot
    /// take the variant's bytes fails; the tag byte has been appended by
    /// then, as the failure is found while writing the fields.
    pub fn encode(&self, buf: &mut Vec<u8>) -> (r: Result<(), EncodeError>)
        requires
            self.wf(),
            self.encodable(),
        ensures
            r is Ok ==> final(buf)@ == old(buf)@ + spec_encode(self@),
            r is Err ==> final(buf)@ == old(buf)@.push(spec_tag(self@)),
            r matches Err(e) ==> match self@ {
                MessageModel::ReceiveFromPlayer(f) => {
                    &&& f.raw.len() + SESSION_ID_SIZE > usize::MAX - (old(buf)@.len() + 1)
                    &&& e == (EncodeError::InsufficientCapacity {
                        required: (f.raw.len() + SESSION_ID_SIZE) as usize,
                        remaining: (usize::MAX - (old(buf)@.len() + 1)) as usize,
                    })
                },
                MessageModel::RoomCreated { .. } => false,
                _ => {
                    &&& usize::MAX - (old(buf)@.len() + 1) < SESSION_ID_SIZE
                    &&& e == (EncodeError::InsufficientCapacity {
                        required: SESSION_ID_SIZE,
                        remaining: (usize::MAX - (old(buf)@.len() + 1)) as usize,
                    })
                },
            },
    {
        buf.push(self.type_code());
        match self {
            Message::ReceiveFromPlayer(f) => {
                let r = f.encode(buf);
                proof {
                    if r is Ok {
                        assert(buf@ =~= old(buf)@ + spec_encode(self@));
                    }
                }
                r
            },
            Message::AssignSessionId { session_id } => {
                let r = encode_session_id(buf, session_id);
                proof {
                    if r is Ok {
                        assert(buf@ =~= old(buf)@ + spec_encode(self@));
                    }
                }
                r
            },
            Message::RoomCreated { code } => {
                let mut code_bytes = slice_to_vec(code.as_slice());
                buf.append(&mut code_bytes);
                proof {
                    assert(buf@ =~= old(buf)@ + spec_encode(self@));
                }
                Ok(())
            },
            Message::RoomJoined { host_session_id } => {
                let r = encode_session_id(buf, host_session_id);
                proof {
                    if r is Ok {
                        assert(buf@ =~= old(buf)@ + spec_encode(self@));
                    }
                }
                r
            },
            Message::PlayerJoined { player_session_id } => {
                let r = encode_session_id(buf, player_session_id);
                proof {
                    if r is Ok {
                        assert(buf@ =~= old(buf)@ + spec_encode(self@));
                    }
                }
                r
            },
        }
    }

    /// Decodes a server-to-client message from a whole frame.
    pub fn decode(buf: &[u8]) -> (r: Result<Message, DecodeError>)
        ensures
            match r {
                Ok(m) => spec_decode(buf@) == Ok::<MessageModel, DecodeError>(m@) && m.wf(),
                Err(e) => spec_decode(buf@) == Err::<MessageModel, DecodeError>(e),
            },
    {
        let remaining = buf.len();
        if remaining < 1 {
            return Err(DecodeError::BufferTooSmall { min: 1, remaining });
        }
        if buf[0] == 1 {
            match ForwardMessage::decode(&buf[1..buf.len()]) {
                Ok(f) => Ok(Message::ReceiveFromPlayer(f)),
                Err(e) => Err(e),
            }
        } else if buf[0] == 2 {
            match decode_session_id(buf) {
                Ok(session_id) => Ok(Message::AssignSessionId { session_id }),
                Err(e) => Err(e),
            }
        } else if buf[0] == 3 {
            if remaining < 1 + CODE_SIZE {
                return Err(DecodeError::BufferTooSmall { min: CODE_SIZE, remaining: remaining - 1 });
            }
            match Code::try_from(&buf[1..1 + CODE_SIZE]) {
                Ok(code) => Ok(Message::RoomCreated { code }),
                Err(_) => {
                    proof {
                        assert(false);
                    }
                    Err(DecodeError::BufferTooSmall { min: CODE_SIZE, remaining: remaining - 1 })
                },
            }
        } else if buf[0] == 4 {
            match decode_session_id(buf) {
                Ok(host_session_id) => Ok(Message::RoomJoined { host_session_id }),
                Err(e) => Err(e),
            }
        } else if buf[0] == 5 {
            match decode_session_id(buf) {
                Ok(player_session_id) => Ok(Message::PlayerJoined { player_session_id }),
                Err(e) => Err(e),
            }
        } else {
            Err(DecodeError::BadMessageCode { code: buf[0] })
        }
    }
}

/// Appends a 16-byte identifier field to `buf`, or fails when the
/// destination cannot take it.
fn encode_session_id(buf: &mut Vec<u8>, session_id: &SessionId) -> (r: Result<(), EncodeError>)
    requires
        session_id.wf(),
    ensures
        match r {
            Ok(()) => final(buf)@ == old(buf)@ + session_id@,
            Err(e) => {
                &&& final(buf)@ == old(buf)@
                &&& usize::MAX - old(buf)@.len() < SESSION_ID_SIZE
                &&& e == (EncodeError::InsufficientCapacity {
                    required: SESSION_ID_SIZE,
                    remaining: (usize::MAX - old(buf)@.len()) as usize,
                })
            },
        },
{
    let remaining = usize::MAX - buf.len();
    if remaining < SESSION_ID_SIZE {
        return Err(EncodeError::InsufficientCapacity { required: SESSION_ID_SIZE, remaining });
    }
    let mut id_bytes = slice_to_vec(session_id.as_slice());
    buf.append(&mut id_bytes);
    Ok(())
}

/// Decodes the 16-byte identifier field that follows the tag byte of
/// `buf`, ignoring anything after it.
fn decode_session_id(buf: &[u8]) -> (r: Result<SessionId, DecodeError>)
    requires
        buf@.len() >= 1,
    ensures
        match r {
            Ok(id) => spec_decode_session_id(buf@.skip(1)) == Ok::<Seq<u8>, DecodeError>(id@)
                && id.wf(),
            Err(e) => spec_decode_session_id(buf@.skip(1)) == Err::<Seq<u8>, DecodeError>(e),
        },
{
    let remaining = buf.len() - 1;
    if remaining < SESSION_ID_SIZE {
        return Err(DecodeError::BufferTooSmall { min: SESSION_ID_SIZE, remaining });
    }
    let id = SessionId::from_slice(&buf[1..1 + SESSION_ID_SIZE]);
    proof {
        assert(buf@.subrange(1, 1 + SESSION_ID_SIZE as int) =~= buf@.skip(1).take(
            SESSION_ID_SIZE as int,
        ));
    }
    Ok(id)
}

/// Round trip for the server-to-client family: decoding what was encoded
/// gives the message back, for every well-formed message. For a forwarded
/// payload the payload must hold at least one byte, as the wire format
/// cannot carry an empty one.
pub proof fn lemma_round_trip(m: MessageModel)
    requires
        message_wf(m),
        m matches MessageModel::ReceiveFromPlayer(f) ==> f.raw.len() >= 1,
    ensures
        spec_decode(spec_encode(m)) == Ok::<MessageModel, DecodeError>(m),
{
    let s = spec_encode(m);
    match m {
        MessageModel::ReceiveFromPlayer(f) => {
            assert(s.skip(1) =~= spec_encode_forward(f));
            crate::proto::forward::lemma_forward_round_trip(f);
        },
        MessageModel::AssignSessionId { session_id } => {
            assert(s.skip(1) =~= session_id);
            assert(s.skip(1).take(SESSION_ID_SIZE as int) =~= session_id);
        },
        MessageModel::RoomCreated { code } => {
            assert(s.subrange(1, 1 + CODE_SIZE as int) =~= code);
        },
        MessageModel::RoomJoined { host_session_id } => {
            assert(s.skip(1) =~= host_session_id);
            assert(s.skip(1).take(SESSION_ID_SIZE as int) =~= host_session_id);
        },
        MessageModel::PlayerJoined { player_session_id } => {
            assert(s.skip(1) =~= player_session_id);
            assert(s.skip(1).take(SESSION_ID_SIZE as int) =~= player_session_id);
        },
    }
}

/// An unknown leading tag always fails with `BadMessageCode` carrying that
/// tag, whatever follows it.
pub proof fn lemma_bad_tag(s: Seq<u8>)
    requires
        s.len() >= 1,
        s[0] != 1,
        s[0] != 2,
        s[0] != 3,
        s[0] != 4,
        s[0] != 5,
    ensures
        spec_decode(s) == Err::<MessageModel, DecodeError>(
            DecodeError::BadMessageCode { code: s[0] },
        ),
{
}

/// A buffer too short for its variant always fails with `BufferTooSmall`,
/// never a partial success. The minimum and the remaining count are those
/// the codec reports: an empty buffer needs 1 byte; after the tag, a
/// forwarded payload needs 17 more bytes, an identifier variant 16 and the
/// room-code variant 4, each counting what remains after the tag.
pub proof fn lemma_truncated(s: Seq<u8>)
    ensures
        s.len() == 0 ==> spec_decode(s) == Err::<MessageModel, DecodeError>(
            DecodeError::BufferTooSmall { min: 1, remaining: 0 },
        ),
        s.len() >= 1 && s[0] == 1 && s.len() < 1 + FORWARD_MIN ==> spec_decode(s)
            == Err::<MessageModel, DecodeError>(
            DecodeError::BufferTooSmall { min: FORWARD_MIN, remaining: (s.len() - 1) as usize },
        ),
        s.len() >= 1 && (s[0] == 2 || s[0] == 4 || s[0] == 5) && s.len() < 1 + SESSION_ID_SIZE
            ==> spec_decode(s) == Err::<MessageModel, DecodeError>(
            DecodeError::BufferTooSmall {
                min: SESSION_ID_SIZE,
                remaining: (s.len() - 1) as usize,
            },
        ),
        s.len() >= 1 && s[0] == 3 && s.len() < 1 + CODE_SIZE ==> spec_decode(s)
            == Err::<MessageModel, DecodeError>(
            DecodeError::BufferTooSmall { min: CODE_SIZE, remaining: (s.len() - 1) as usize },
        ),
{
}

} // verus!
