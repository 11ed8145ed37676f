//! The session entity: one per connected client. A player owns the sending
//! half of its connection's outbound queue and an optional non-owning
//! reference, by code, to the room it is in. The reference may point to a
//! room that no longer exists; resolving it then fails, which callers
//! treat as "the relation no longer holds".

use vstd::prelude::*;

use crate::app::error::{ProcessError, SendError};
use crate::code::Code;
use crate::proto::s2c;
use crate::session_id::SessionId;

verus! {

/// One connected session.
pub struct Player {
    session_id: SessionId,
    tx: tokio::sync::mpsc::UnboundedSender<Vec<u8>>,
    room: Option<Code>,
    sent: Ghost<Seq<Seq<u8>>>,
}

/// The mathematical value of a session: its identifier, its room
/// reference, and the frames handed to its outbound queue so far, oldest
/// first.
#[verifier::ext_equal]
pub struct PlayerModel {
    pub session_id: Seq<u8>,
    pub room: Option<Seq<u8>>,
    pub sent: Seq<Seq<u8>>,
}

impl View for Player {
    type V = PlayerModel;

    closed spec fn view(&self) -> PlayerModel {
        PlayerModel {
            session_id: self.session_id@,
            room: match self.room {
                Some(c) => Some(c@),
                None => None,
            },
            sent: self.sent@,
        }
    }
}

impl PlayerModel {
    /// A well-formed session: its identifier holds 16 bytes and its room
    /// reference, if present, holds a 4-byte code.
    pub open spec fn wf(self) -> bool {
        &&& self.session_id.len() == crate::session_id::SESSION_ID_SIZE
        &&& match self.room {
            Some(c) => c.len() == crate::code::CODE_SIZE,
            None => true,
        }
    }
}

impl Player {
    /// A well-formed session, at the model level.
    pub open spec fn wf(self) -> bool {
        self@.wf()
    }

    /// A new session around the sending half of its outbound queue, with a
    /// freshly generated identifier and no room.
    pub fn new(tx: tokio::sync::mpsc::UnboundedSender<Vec<u8>>) -> (r: Player)
        ensures
            r.wf(),
            r@.room is None,
            r@.sent == Seq::<Seq<u8>>::empty(),
    {
        Player { session_id: SessionId::fresh(), tx, room: None, sent: Ghost(Seq::empty()) }
    }

    /// The session's identifier.
    pub fn get_session_id(&self) -> (r: &SessionId)
        ensures
            r@ == self@.session_id,
    {
        &self.session_id
    }

    /// The session's room reference, if any. Whether it resolves is the
    /// registry's to answer.
    pub fn get_room(&self) -> (r: Option<&Code>)
        ensures
            match r {
                Some(c) => self@.room == Some(c@),
                None => self@.room is None,
            },
    {
        match &self.room {
            Some(c) => Some(c),
            None => None,
        }
    }

    /// Whether the session holds a room reference, resolvable or not.
    pub fn is_in_room(&self) -> (r: bool)
        ensures
            r == (self@.room is Some),
    {
        self.room.is_some()
    }

    /// Encodes `msg` and hands the frame to the session's outbound queue.
    /// Fails exactly when the queue's receiving half is gone; the frame
    /// travels back in the error.
    pub fn send(&mut self, msg: &s2c::Message) -> (r: Result<(), SendError>)
        requires
            old(self).wf(),
            msg.wf(),
            msg.frame_fits(),
        ensures
            final(self).wf(),
            final(self)@.session_id == old(self)@.session_id,
            final(self)@.room == old(self)@.room,
            match r {
                Ok(()) => final(self)@.sent == old(self)@.sent.push(s2c::spec_encode(msg@)),
                Err(e) => {
                    &&& final(self)@.sent == old(self)@.sent
                    &&& e matches SendError::Closed(frame) && frame@ == s2c::spec_encode(msg@)
                },
            },
    {
        let mut buf: Vec<u8> = Vec::new();
        match msg.encode(&mut buf) {
            Ok(()) => {},
            Err(e) => {
                proof {
                    assert(false);
                }
                return Err(SendError::Encode(e));
            },
        }
        let ghost frame = buf@;
        match channel_send(&self.tx, buf) {
            Ok(()) => {
                proof {
                    self.sent@ = self.sent@.push(frame);
                }
                Ok(())
            },
            Err(frame_back) => Err(SendError::Closed(frame_back)),
        }
    }

    /// Binds the session's room reference without any check, as room
    /// creation does after registering the room.
    pub(crate) fn set_room_unchecked(&mut self, code: &Code)
        requires
            code.wf(),
        ensures
            final(self)@.room == Some(code@),
            final(self)@.session_id == old(self)@.session_id,
            final(self)@.sent == old(self)@.sent,
            old(self).wf() ==> final(self).wf(),
    {
        self.room = Some(code.clone());
    }

    /// Joins the session to the room carrying `code`, hosted by
    /// `host_session_id`: fails with `InvalidOperation` when the session
    /// already holds a room reference; otherwise binds the reference and
    /// tells the session it joined and who hosts it. A failed delivery
    /// leaves the reference bound: the session joined, though it will
    /// never learn so.
    pub fn enter_room(&mut self, code: &Code, host_session_id: &SessionId) -> (r: Result<
        (),
        ProcessError,
    >)
        requires
            old(self).wf(),
            code.wf(),
            host_session_id@.len() == crate::session_id::SESSION_ID_SIZE,
        ensures
            final(self).wf(),
            final(self)@.session_id == old(self)@.session_id,
            old(self)@.room is Some ==> r == Err::<(), ProcessError>(ProcessError::InvalidOperation)
                && final(self)@ == old(self)@,
            old(self)@.room is None ==> {
                &&& final(self)@.room == Some(code@)
                &&& match r {
                    Ok(()) => final(self)@.sent == old(self)@.sent.push(
                        s2c::spec_encode(
                            s2c::MessageModel::RoomJoined { host_session_id: host_session_id@ },
                        ),
                    ),
                    Err(e) => {
                        &&& final(self)@.sent == old(self)@.sent
                        &&& e matches ProcessError::SendFailed(SendError::Closed(frame))
                            && frame@ == s2c::spec_encode(
                            s2c::MessageModel::RoomJoined { host_session_id: host_session_id@ },
                        )
                    },
                }
            },
    {
        if self.is_in_room() {
            return Err(ProcessError::InvalidOperation);
        }
        self.set_room_unchecked(code);
        let msg = s2c::Message::RoomJoined { host_session_id: host_session_id.clone() };
        match self.send(&msg) {
            Ok(()) => Ok(()),
            Err(e) => Err(ProcessError::SendFailed(e)),
        }
    }
}

/// The sending half of a session's outbound queue. The queue is unbounded:
/// handing it a frame never blocks and fails only once the receiving half
/// is dropped.
#[verifier::external_type_specification]
#[verifier::external_body]
#[verifier::reject_recursive_types(T)]
pub struct ExUnboundedSender<T>(tokio::sync::mpsc::UnboundedSender<T>);

/// Relies on tokio's `UnboundedSender::send`: queues the frame for the
/// connection's write pump; fails, returning the frame, exactly when the
/// receiving half has been dropped. Nothing is assumed of the outcome:
/// whether the queue is still open depends on the connection.
#[verifier::external_body]
fn channel_send(
    tx: &tokio::sync::mpsc::UnboundedSender<Vec<u8>>,
    frame: Vec<u8>,
) -> (r: Result<(), Vec<u8>>)
    ensures
        r matches Err(frame_back) ==> frame_back@ == frame@,
{
    match tx.send(frame) {
        Ok(()) => Ok(()),
        Err(e) => Err(e.0),
    }
}

} // verus!
