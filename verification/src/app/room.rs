//! The room entity: one active grouping of sessions. A room holds its
//! code, a non-owning reference (by identifier) to the session that
//! created it, and the identifiers of its members. Member identifiers are
//! non-owning too: one may name a session that has since disconnected, and
//! resolving it through the registry then fails.

use vstd::prelude::*;

use crate::code::Code;
use crate::session_id::{SessionId, SESSION_ID_SIZE};

verus! {

/// One active room.
pub struct Room {
    code: Code,
    host: SessionId,
    players: Vec<SessionId>,
}

/// The mathematical value of a room: its code, its host's identifier, and
/// its members' identifiers in joining order.
#[verifier::ext_equal]
pub struct RoomModel {
    pub code: Seq<u8>,
    pub host: Seq<u8>,
    pub players: Seq<Seq<u8>>,
}

impl View for Room {
    type V = RoomModel;

    closed spec fn view(&self) -> RoomModel {
        RoomModel {
            code: self.code@,
            host: self.host@,
            players: self.players@.map_values(|p: SessionId| p@),
        }
    }
}

impl RoomModel {
    /// A well-formed room: its code and identifiers hold their widths, its
    /// host is among its members, and no member is listed twice.
    pub open spec fn wf(self) -> bool {
        &&& self.code.len() == crate::code::CODE_SIZE
        &&& self.host.len() == SESSION_ID_SIZE
        &&& self.players.contains(self.host)
        &&& self.players.no_duplicates()
        &&& forall|i: int|
            0 <= i < self.players.len() ==> (#[trigger] self.players[i]).len() == SESSION_ID_SIZE
    }
}

impl Room {
    /// A well-formed room, at the model level.
    pub open spec fn wf(self) -> bool {
        self@.wf()
    }

    /// A new room carrying `code`, with the session `host` as host and
    /// sole member. The registry is responsible for handing it a code that
    /// no live room carries.
    pub fn new(code: Code, host: &SessionId) -> (r: Room)
        requires
            code.wf(),
            host@.len() == SESSION_ID_SIZE,
        ensures
            r.wf(),
            r@.code == code@,
            r@.host == host@,
            r@.players == seq![host@],
    {
        let mut players: Vec<SessionId> = Vec::new();
        players.push(host.clone());
        proof {
            assert(players@.map_values(|p: SessionId| p@) =~= seq![host@]);
            assert(seq![host@][0] == host@);
            assert(seq![host@].contains(host@));
        }
        Room { code, host: host.clone(), players }
    }

    /// Lists the session as a member; listing a member again changes
    /// nothing.
    pub fn add_player(&mut self, session_id: &SessionId)
        requires
            old(self).wf(),
            session_id@.len() == SESSION_ID_SIZE,
        ensures
            final(self).wf(),
            final(self)@.code == old(self)@.code,
            final(self)@.host == old(self)@.host,
            final(self)@.players == if old(self)@.players.contains(session_id@) {
                old(self)@.players
            } else {
                old(self)@.players.push(session_id@)
            },
            final(self)@.players.contains(session_id@),
    {
        if self.get_player(session_id).is_none() {
            self.players.push(session_id.clone());
            proof {
                let before = old(self)@.players;
                let after = self@.players;
                assert(after =~= before.push(session_id@));
                assert(after[after.len() - 1] == session_id@);
                assert(after.contains(session_id@));
                let h = choose|i: int| 0 <= i < before.len() && before[i] == old(self)@.host;
                assert(after[h] == old(self)@.host);
                assert(after.contains(old(self)@.host));
                assert forall|i: int, j: int|
                    (0 <= i < after.len() && 0 <= j < after.len() && i != j) implies after[i]
                    != after[j] by {
                    if i < before.len() && j < before.len() {
                        assert(before[i] != before[j]);
                    } else if j == before.len() as int {
                        assert(!before.contains(session_id@));
                        assert(before[i] != session_id@);
                    } else if i == before.len() as int {
                        assert(!before.contains(session_id@));
                        assert(before[j] != session_id@);
                    }
                }
            }
        }
    }

    /// The room's code.
    pub fn get_code(&self) -> (r: &Code)
        ensures
            r@ == self@.code,
    {
        &self.code
    }

    /// The host's identifier: a non-owning reference, resolved through the
    /// registry.
    pub fn get_host(&self) -> (r: &SessionId)
        ensures
            r@ == self@.host,
    {
        &self.host
    }

    /// The member entry for `session_id`, if the room lists it. The entry
    /// is a non-owning reference: the registry answers whether the session
    /// still exists.
    pub fn get_player(&self, session_id: &SessionId) -> (r: Option<&SessionId>)
        ensures
            match r {
                Some(m) => self@.players.contains(session_id@) && m@ == session_id@,
                None => !self@.players.contains(session_id@),
            },
    {
        let mut i: usize = 0;
        while i < self.players.len()
            invariant
                i <= self.players.len(),
                forall|k: int| 0 <= k < i ==> self@.players[k] != session_id@,
            decreases self.players.len() - i,
        {
            if self.players[i].same_as(session_id) {
                proof {
                    assert(self@.players[i as int] == session_id@);
                    assert(self@.players.contains(session_id@));
                }
                return Some(&self.players[i]);
            }
            i = i + 1;
        }
        None
    }
}

} // verus!
