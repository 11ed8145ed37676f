//! The registry: the sole owner of every session and every room. All
//! relations between sessions and rooms are non-owning references resolved
//! through it, so resolving one may fail once the target is gone; callers
//! treat that as "the relation no longer holds", never as a fault.

use vstd::prelude::*;
use vstd::assert_by_contradiction;
use vstd::seq_lib::group_seq_properties;

use crate::app::error::{ProcessError, SendError};
use crate::app::player::{Player, PlayerModel};
use crate::app::room::{Room, RoomModel};
use crate::code::Code;
use crate::proto::c2s;
use crate::proto::forward::ForwardModel;
use crate::proto::s2c;
use crate::session_id::SessionId;

verus! {

/// The registry of all live sessions and rooms.
pub struct App {
    players: Vec<Player>,
    rooms: Vec<Room>,
}

/// The mathematical value of the registry: the live sessions and rooms, in
/// registration order.
#[verifier::ext_equal]
pub struct AppModel {
    pub players: Seq<PlayerModel>,
    pub rooms: Seq<RoomModel>,
}

impl View for App {
    type V = AppModel;

    closed spec fn view(&self) -> AppModel {
        AppModel {
            players: self.players@.map_values(|p: Player| p@),
            rooms: self.rooms@.map_values(|r: Room| r@),
        }
    }
}

impl AppModel {
    /// Whether a session with this identifier is live.
    pub open spec fn has_player(self, id: Seq<u8>) -> bool {
        exists|i: int| 0 <= i < self.players.len() && (#[trigger] self.players[i]).session_id == id
    }

    /// The position of the live session with this identifier.
    pub open spec fn player_index(self, id: Seq<u8>) -> int {
        choose|i: int| 0 <= i < self.players.len() && (#[trigger] self.players[i]).session_id == id
    }

    /// The live session with this identifier.
    pub open spec fn player(self, id: Seq<u8>) -> PlayerModel {
        self.players[self.player_index(id)]
    }

    /// Whether a live room carries this code.
    pub open spec fn has_room(self, code: Seq<u8>) -> bool {
        exists|j: int| 0 <= j < self.rooms.len() && (#[trigger] self.rooms[j]).code == code
    }

    /// The position of the live room carrying this code.
    pub open spec fn room_index(self, code: Seq<u8>) -> int {
        choose|j: int| 0 <= j < self.rooms.len() && (#[trigger] self.rooms[j]).code == code
    }

    /// The live room carrying this code.
    pub open spec fn room(self, code: Seq<u8>) -> RoomModel {
        self.rooms[self.room_index(code)]
    }

    /// Whether this code is spoken for: a live room carries it, or some
    /// session's room reference still names it. A new room must avoid
    /// both, so that a reference to a dead room can never come to name a
    /// younger room.
    pub open spec fn code_in_use(self, code: Seq<u8>) -> bool {
        self.has_room(code) || exists|i: int|
            0 <= i < self.players.len() && (#[trigger] self.players[i]).room == Some(code)
    }

    /// Whether this session hosts a live room; that room is then the one
    /// its room reference names.
    pub open spec fn hosts_live_room(self, id: Seq<u8>) -> bool {
        self.has_player(id) && match self.player(id).room {
            Some(c) => self.has_room(c) && self.room(c).host == id,
            None => false,
        }
    }

    /// The code of the room this session's reference names, when present.
    pub open spec fn referenced_code(self, id: Seq<u8>) -> Seq<u8> {
        match self.player(id).room {
            Some(c) => c,
            None => Seq::empty(),
        }
    }

    /// No two live sessions share an identifier.
    pub open spec fn player_ids_unique(self) -> bool {
        forall|i: int, j: int|
            0 <= i < self.players.len() && 0 <= j < self.players.len() && i != j ==> (
            #[trigger] self.players[i]).session_id != (#[trigger] self.players[j]).session_id
    }

    /// No two live rooms share a code.
    pub open spec fn room_codes_unique(self) -> bool {
        forall|i: int, j: int|
            0 <= i < self.rooms.len() && 0 <= j < self.rooms.len() && i != j ==> (
            #[trigger] self.rooms[i]).code != (#[trigger] self.rooms[j]).code
    }

    /// Every live session and room is well-formed on its own.
    pub open spec fn entities_wf(self) -> bool {
        &&& forall|i: int| 0 <= i < self.players.len() ==> (#[trigger] self.players[i]).wf()
        &&& forall|j: int| 0 <= j < self.rooms.len() ==> (#[trigger] self.rooms[j]).wf()
    }

    /// A session's room reference that resolves to a live room always
    /// finds itself listed there as a member.
    pub open spec fn room_refs_are_memberships(self) -> bool {
        forall|i: int, j: int|
            0 <= i < self.players.len() && 0 <= j < self.rooms.len() && (
            #[trigger] self.players[i]).room == Some((#[trigger] self.rooms[j]).code)
                ==> self.rooms[j].players.contains(self.players[i].session_id)
    }

    /// Every live room's host is a live session whose room reference names
    /// that room. A room therefore has a resolvable host for as long as it
    /// exists.
    pub open spec fn hosts_resolvable(self) -> bool {
        forall|j: int|
            0 <= j < self.rooms.len() ==> self.has_player((#[trigger] self.rooms[j]).host)
                && self.player(self.rooms[j].host).room == Some(self.rooms[j].code)
    }

    /// The registry's invariant, kept by every operation.
    pub open spec fn wf(self) -> bool {
        &&& self.player_ids_unique()
        &&& self.room_codes_unique()
        &&& self.entities_wf()
        &&& self.room_refs_are_memberships()
        &&& self.hosts_resolvable()
    }

    /// The registry cannot take a new room once the 4-byte code space
    /// could not tell every session and room apart.
    pub open spec fn at_capacity(self) -> bool {
        self.players.len() + self.rooms.len() >= u32::MAX
    }

    /// With identifiers unique, any position holding the identifier is the
    /// position `player_index` names.
    pub proof fn lemma_player_index_agrees(self, i: int)
        requires
            self.player_ids_unique(),
            0 <= i < self.players.len(),
        ensures
            self.has_player(self.players[i].session_id),
            self.player_index(self.players[i].session_id) == i,
            self.player(self.players[i].session_id) == self.players[i],
    {
        let id = self.players[i].session_id;
        assert(self.has_player(id));
        let k = self.player_index(id);
        assert(0 <= k < self.players.len() && self.players[k].session_id == id);
        if k != i {
            assert(self.players[k].session_id != self.players[i].session_id);
        }
    }

    /// With codes unique, any position holding the code is the position
    /// `room_index` names.
    pub proof fn lemma_room_index_agrees(self, j: int)
        requires
            self.room_codes_unique(),
            0 <= j < self.rooms.len(),
        ensures
            self.has_room(self.rooms[j].code),
            self.room_index(self.rooms[j].code) == j,
            self.room(self.rooms[j].code) == self.rooms[j],
    {
        let code = self.rooms[j].code;
        assert(self.has_room(code));
        let k = self.room_index(code);
        assert(0 <= k < self.rooms.len() && self.rooms[k].code == code);
        if k != j {
            assert(self.rooms[k].code != self.rooms[j].code);
        }
    }
}

impl App {
    /// A well-formed registry, at the model level.
    pub open spec fn wf(self) -> bool {
        self@.wf()
    }

    /// An empty registry.
    pub fn new() -> (r: App)
        ensures
            r.wf(),
            r@.players.len() == 0,
            r@.rooms.len() == 0,
    {
        let r = App { players: Vec::new(), rooms: Vec::new() };
        proof {
            assert(r@.players =~= Seq::<PlayerModel>::empty());
            assert(r@.rooms =~= Seq::<RoomModel>::empty());
        }
        r
    }

    /// The position of the live session with this identifier, if any.
    fn find_player_index(&self, session_id: &SessionId) -> (r: Option<usize>)
        ensures
            match r {
                Some(i) => i < self@.players.len() && self@.players[i as int].session_id
                    == session_id@ && self@.has_player(session_id@),
                None => !self@.has_player(session_id@),
            },
    {
        let mut i: usize = 0;
        while i < self.players.len()
            invariant
                i <= self.players.len(),
                self@.players.len() == self.players.len(),
                forall|k: int| 0 <= k < i ==> (#[trigger] self@.players[k]).session_id
                    != session_id@,
            decreases self.players.len() - i,
        {
            if self.players[i].get_session_id().same_as(session_id) {
                proof {
                    assert(self@.players[i as int] == self.players@[i as int]@);
                }
                return Some(i);
            }
            i = i + 1;
        }
        None
    }

    /// The position of the live room carrying this code, if any.
    fn find_room_index(&self, code: &Code) -> (r: Option<usize>)
        ensures
            match r {
                Some(j) => j < self@.rooms.len() && self@.rooms[j as int].code == code@
                    && self@.has_room(code@),
                None => !self@.has_room(code@),
            },
    {
        let mut j: usize = 0;
        while j < self.rooms.len()
            invariant
                j <= self.rooms.len(),
                self@.rooms.len() == self.rooms.len(),
                forall|k: int| 0 <= k < j ==> (#[trigger] self@.rooms[k]).code != code@,
            decreases self.rooms.len() - j,
        {
            if self.rooms[j].get_code().same_as(code) {
                proof {
                    assert(self@.rooms[j as int] == self.rooms@[j as int]@);
                }
                return Some(j);
            }
            j = j + 1;
        }
        None
    }

    /// The live session with this identifier, if any.
    pub fn get_player(&self, session_id: &SessionId) -> (r: Option<&Player>)
        requires
            self.wf(),
        ensures
            match r {
                Some(p) => self@.has_player(session_id@) && p@ == self@.player(session_id@),
                None => !self@.has_player(session_id@),
            },
    {
        match self.find_player_index(session_id) {
            Some(i) => {
                proof {
                    self@.lemma_player_index_agrees(i as int);
                }
                Some(&self.players[i])
            },
            None => None,
        }
    }

    /// The live room carrying this code, if any. A reference to a room
    /// that has been removed resolves to nothing here.
    pub fn get_room(&self, code: &Code) -> (r: Option<&Room>)
        requires
            self.wf(),
        ensures
            match r {
                Some(room) => self@.has_room(code@) && room@ == self@.room(code@),
                None => !self@.has_room(code@),
            },
    {
        match self.find_room_index(code) {
            Some(j) => {
                proof {
                    self@.lemma_room_index_agrees(j as int);
                }
                Some(&self.rooms[j])
            },
            None => None,
        }
    }

    /// The identifiers of all live sessions, in registration order.
    pub fn get_players(&self) -> (r: Vec<SessionId>)
        ensures
            r@.map_values(|s: SessionId| s@) == self@.players.map_values(
                |p: PlayerModel| p.session_id,
            ),
    {
        let mut out: Vec<SessionId> = Vec::new();
        let mut i: usize = 0;
        while i < self.players.len()
            invariant
                i <= self.players.len(),
                self@.players.len() == self.players.len(),
                out@.len() == i,
                forall|k: int| 0 <= k < i ==> (#[trigger] out@[k])@ == self@.players[k].session_id,
            decreases self.players.len() - i,
        {
            out.push(self.players[i].get_session_id().clone());
            proof {
                assert(self@.players[i as int] == self.players@[i as int]@);
            }
            i = i + 1;
        }
        proof {
            assert(out@.map_values(|s: SessionId| s@) =~= self@.players.map_values(
                |p: PlayerModel| p.session_id,
            ));
        }
        out
    }

    /// The codes of all live rooms, in creation order.
    pub fn get_rooms(&self) -> (r: Vec<Code>)
        ensures
            r@.map_values(|c: Code| c@) == self@.rooms.map_values(|room: RoomModel| room.code),
    {
        let mut out: Vec<Code> = Vec::new();
        let mut j: usize = 0;
        while j < self.rooms.len()
            invariant
                j <= self.rooms.len(),
                self@.rooms.len() == self.rooms.len(),
                out@.len() == j,
                forall|k: int| 0 <= k < j ==> (#[trigger] out@[k])@ == self@.rooms[k].code,
            decreases self.rooms.len() - j,
        {
            out.push(self.rooms[j].get_code().clone());
            proof {
                assert(self@.rooms[j as int] == self.rooms@[j as int]@);
            }
            j = j + 1;
        }
        proof {
            assert(out@.map_values(|c: Code| c@) =~= self@.rooms.map_values(
                |room: RoomModel| room.code,
            ));
        }
        out
    }

    /// Removes the session with this identifier. If it hosts a live room,
    /// that room goes first, in the same step: no caller ever observes
    /// the room without its host. Other members keep their reference to
    /// the dead room, which no longer resolves. Removing an unknown
    /// identifier fails with `PlayerNotFound`; concurrent disconnect
    /// paths treat that as a benign race, not a fault.
    pub fn remove_player(&mut self, session_id: &SessionId) -> (r: Result<(), ProcessError>)
        requires
            old(self).wf(),
        ensures
            final(self).wf(),
            ({
                let pre = old(self)@;
                let post = final(self)@;
                if !pre.has_player(session_id@) {
                    r == Err::<(), ProcessError>(ProcessError::PlayerNotFound) && post == pre
                } else {
                    &&& r == Ok::<(), ProcessError>(())
                    &&& post.players == pre.players.remove(pre.player_index(session_id@))
                    &&& !post.has_player(session_id@)
                    &&& (pre.hosts_live_room(session_id@) ==> post.rooms == pre.rooms.remove(
                        pre.room_index(pre.referenced_code(session_id@)),
                    ) && !post.has_room(pre.referenced_code(session_id@)))
                    &&& (!pre.hosts_live_room(session_id@) ==> post.rooms == pre.rooms)
                }
            }),
    {
        let pi = match self.find_player_index(session_id) {
            None => {
                return Err(ProcessError::PlayerNotFound);
            },
            Some(i) => i,
        };
        proof {
            self@.lemma_player_index_agrees(pi as int);
        }
        let mut code_to_remove: Option<Code> = None;
        match self.players[pi].get_room() {
            Some(code) => {
                match self.find_room_index(code) {
                    Some(ri) => {
                        proof {
                            self@.lemma_room_index_agrees(ri as int);
                        }
                        if self.rooms[ri].get_host().same_as(session_id) {
                            code_to_remove = Some(code.clone());
                        }
                    },
                    None => {},
                }
            },
            None => {},
        }
        proof {
            match &code_to_remove {
                Some(c) => {
                    assert(self@.hosts_live_room(session_id@));
                    assert(c@ == self@.referenced_code(session_id@));
                },
                None => {
                    assert(!self@.hosts_live_room(session_id@));
                },
            }
        }
        match &code_to_remove {
            Some(code) => {
                self.remove_room(code);
            },
            None => {},
        }
        let ghost mid = self@;
        proof {
            assert forall|j: int|
                0 <= j < mid.rooms.len() implies (#[trigger] mid.rooms[j]).host
                != mid.players[pi as int].session_id by {
                let pre = old(self)@;
                let id = pre.players[pi as int].session_id;
                if mid.rooms[j].host == id {
                    mid.lemma_room_index_agrees(j);
                    assert(mid.has_player(id));
                    mid.lemma_player_index_agrees(pi as int);
                    assert(mid.player(id).room == Some(mid.rooms[j].code));
                    match &code_to_remove {
                        Some(c) => {
                            assert(!mid.has_room(c@));
                            assert(mid.players[pi as int].room == Some(c@));
                            assert(mid.rooms[j].code == c@);
                            assert(mid.has_room(c@));
                        },
                        None => {
                            assert(!pre.hosts_live_room(id));
                            assert(mid.rooms == pre.rooms);
                            assert(pre.has_room(mid.rooms[j].code));
                            assert(pre.player(id).room == Some(mid.rooms[j].code));
                            pre.lemma_room_index_agrees(j);
                            assert(pre.room(mid.rooms[j].code).host == id);
                            assert(pre.hosts_live_room(id));
                        },
                    }
                }
            }
        }
        let _ = self.players.remove(pi);
        proof {
            assert(self@.players =~= mid.players.remove(pi as int));
            lemma_wf_after_player_removal(mid, self@, pi as int);
        }
        Ok(())
    }

    /// Registers a new session: tells it its assigned identifier first,
    /// and keeps it only when that delivery succeeds. Identifiers are
    /// assigned by the server and taken to be unique for the process
    /// lifetime, so the session handed in must not carry a live one.
    pub fn add_player(&mut self, player: Player) -> (r: Result<SessionId, SendError>)
        requires
            old(self).wf(),
            player.wf(),
            player@.room is None,
            !old(self)@.has_player(player@.session_id),
        ensures
            final(self).wf(),
            final(self)@.rooms == old(self)@.rooms,
            match r {
                Ok(id) => {
                    &&& id@ == player@.session_id
                    &&& final(self)@.players == old(self)@.players.push(
                        PlayerModel {
                            session_id: player@.session_id,
                            room: None,
                            sent: player@.sent.push(
                                s2c::spec_encode(
                                    s2c::MessageModel::AssignSessionId {
                                        session_id: player@.session_id,
                                    },
                                ),
                            ),
                        },
                    )
                },
                Err(e) => {
                    &&& final(self)@ == old(self)@
                    &&& e matches SendError::Closed(frame) && frame@ == s2c::spec_encode(
                        s2c::MessageModel::AssignSessionId { session_id: player@.session_id },
                    )
                },
            },
    {
        let mut player = player;
        let session_id = player.get_session_id().clone();
        let msg = s2c::Message::AssignSessionId { session_id: session_id.clone() };
        match player.send(&msg) {
            Ok(()) => {
                let ghost pm = player@;
                self.players.push(player);
                proof {
                    let pre = old(self)@;
                    let post = self@;
                    assert(post.players =~= pre.players.push(pm));
                    assert(post.rooms =~= pre.rooms);
                    lemma_wf_after_player_push(pre, post, pm);
                }
                Ok(session_id)
            },
            Err(e) => Err(e),
        }
    }

    /// Whether this code is spoken for by a live room or by any session's
    /// room reference.
    fn code_in_use_exec(&self, code: &Code) -> (r: bool)
        ensures
            r == self@.code_in_use(code@),
    {
        if self.find_room_index(code).is_some() {
            return true;
        }
        let mut i: usize = 0;
        while i < self.players.len()
            invariant
                i <= self.players.len(),
                self@.players.len() == self.players.len(),
                forall|k: int| 0 <= k < i ==> (#[trigger] self@.players[k]).room != Some(code@),
            decreases self.players.len() - i,
        {
            match self.players[i].get_room() {
                Some(c) => {
                    if c.same_as(code) {
                        proof {
                            assert(self@.players[i as int] == self.players@[i as int]@);
                            assert(self@.players[i as int].room == Some(code@));
                        }
                        return true;
                    }
                },
                None => {},
            }
            proof {
                assert(self@.players[i as int] == self.players@[i as int]@);
            }
            i = i + 1;
        }
        false
    }

    /// A code no live room carries and no session's room reference names.
    /// The first draw is random; in the astronomically rare event that it
    /// collides, the smallest unused 4-byte value stands in. One exists
    /// because the registry is below the code space's capacity.
    fn fresh_code(&self) -> (r: Code)
        requires
            self.wf(),
            !self@.at_capacity(),
        ensures
            r.wf(),
            !self@.code_in_use(r@),
    {
        let random = Code::new();
        if !self.code_in_use_exec(&random) {
            return random;
        }
        let bound: u32 = (self.players.len() as u32) + (self.rooms.len() as u32) + 1;
        let mut k: u32 = 0;
        while k < bound
            invariant
                self.wf(),
                bound == self@.players.len() + self@.rooms.len() + 1,
                k <= bound,
                forall|k2: u32|
                    k2 < k ==> self@.code_in_use(
                        #[trigger] vstd::bytes::spec_u32_to_le_bytes(k2),
                    ),
            decreases bound - k,
        {
            let bytes = vstd::bytes::u32_to_le_bytes(k);
            match Code::try_from(bytes.as_slice()) {
                Ok(code) => {
                    if !self.code_in_use_exec(&code) {
                        return code;
                    }
                },
                Err(_) => {
                    proof {
                        assert(false);
                    }
                },
            }
            k = k + 1;
        }
        proof {
            lemma_unused_code_exists(self@, bound);
            let kw = choose|k2: u32|
                k2 < bound && !self@.code_in_use(
                    #[trigger] vstd::bytes::spec_u32_to_le_bytes(k2),
                );
            assert(self@.code_in_use(vstd::bytes::spec_u32_to_le_bytes(kw)));
            assert(false);
        }
        Code::new()
    }

    /// Creates a room for this session: it becomes host and sole member,
    /// the room gets a code no live room or lingering reference uses, and
    /// the host learns the code. Fails with `InvalidOperation` when the
    /// session is already in a room (or the code space is exhausted); on a
    /// failed delivery the room is not kept.
    pub fn create_room(&mut self, host_session_id: &SessionId) -> (r: Result<Code, ProcessError>)
        requires
            old(self).wf(),
        ensures
            final(self).wf(),
            ({
                let pre = old(self)@;
                let post = final(self)@;
                if !pre.has_player(host_session_id@) {
                    r == Err::<Code, ProcessError>(ProcessError::PlayerNotFound) && post == pre
                } else if pre.player(host_session_id@).room is Some || pre.at_capacity() {
                    r == Err::<Code, ProcessError>(ProcessError::InvalidOperation) && post == pre
                } else {
                    match r {
                        Ok(code) => {
                            &&& code.wf()
                            &&& !pre.code_in_use(code@)
                            &&& post.rooms == pre.rooms.push(
                                RoomModel {
                                    code: code@,
                                    host: host_session_id@,
                                    players: seq![host_session_id@],
                                },
                            )
                            &&& post.players == pre.players.update(
                                pre.player_index(host_session_id@),
                                PlayerModel {
                                    session_id: host_session_id@,
                                    room: Some(code@),
                                    sent: pre.player(host_session_id@).sent.push(
                                        s2c::spec_encode(
                                            s2c::MessageModel::RoomCreated { code: code@ },
                                        ),
                                    ),
                                },
                            )
                        },
                        Err(e) => {
                            &&& post == pre
                            &&& e matches ProcessError::SendFailed(SendError::Closed(frame))
                                && (exists|c: Seq<u8>|
                                c.len() == 4 && !pre.code_in_use(c) && frame@ == s2c::spec_encode(
                                    s2c::MessageModel::RoomCreated { code: c },
                                ))
                        },
                    }
                }
            }),
    {
        let pi = match self.find_player_index(host_session_id) {
            None => {
                return Err(ProcessError::PlayerNotFound);
            },
            Some(i) => i,
        };
        proof {
            self@.lemma_player_index_agrees(pi as int);
        }
        if self.players[pi].is_in_room() {
            return Err(ProcessError::InvalidOperation);
        }
        let cap = u32::MAX as usize;
        if self.players.len() >= cap || self.rooms.len() >= cap - self.players.len() {
            return Err(ProcessError::InvalidOperation);
        }
        let code = self.fresh_code();
        let msg = s2c::Message::RoomCreated { code: code.clone() };
        let p = &mut self.players[pi];
        match p.send(&msg) {
            Err(e) => {
                proof {
                    assert(self@.players =~= old(self)@.players);
                    assert(self@ =~= old(self)@);
                    assert(code@.len() == 4 && !old(self)@.code_in_use(code@));
                }
                return Err(ProcessError::SendFailed(e));
            },
            Ok(()) => {},
        }
        p.set_room_unchecked(&code);
        let room = Room::new(code.clone(), host_session_id);
        let ghost rm = room@;
        let ghost host_after = self@.players[pi as int];
        self.rooms.push(room);
        proof {
            let pre = old(self)@;
            let post = self@;
            assert(post.rooms =~= pre.rooms.push(rm));
            assert(post.players =~= pre.players.update(pi as int, host_after));
            lemma_wf_after_room_creation(pre, post, pi as int, rm, host_after);
        }
        Ok(code)
    }

    /// Removes the room carrying this code, if one is live; sessions keep
    /// any reference to it, which no longer resolves. Removing an unknown
    /// code changes nothing.
    pub fn remove_room(&mut self, code: &Code)
        requires
            old(self).wf(),
        ensures
            final(self).wf(),
            final(self)@.players == old(self)@.players,
            old(self)@.has_room(code@) ==> final(self)@.rooms == old(self)@.rooms.remove(
                old(self)@.room_index(code@),
            ),
            !old(self)@.has_room(code@) ==> final(self)@.rooms == old(self)@.rooms,
            !final(self)@.has_room(code@),
    {
        broadcast use group_seq_properties;

        match self.find_room_index(code) {
            Some(j) => {
                proof {
                    self@.lemma_room_index_agrees(j as int);
                }
                let _ = self.rooms.remove(j);
                proof {
                    assert(self@.rooms =~= old(self)@.rooms.remove(j as int));
                    lemma_wf_after_room_removal(old(self)@, self@, j as int);
                }
            },
            None => {},
        }
    }
}

/// What processing a forward request leaves behind. The sender must be in
/// a room that still resolves, the target must be listed there and still
/// live; the embedded identifier is then overwritten with the sender's,
/// and the frame goes to the target's queue — the target always sees who
/// actually sent the payload, whatever the sender wrote.
pub open spec fn send_to_player_outcome(
    pre: AppModel,
    post: AppModel,
    sid: Seq<u8>,
    f: ForwardModel,
    r: Result<(), ProcessError>,
) -> bool {
    if !pre.has_player(sid) {
        r == Err::<(), ProcessError>(ProcessError::PlayerNotFound) && post == pre
    } else if pre.player(sid).room is None {
        r == Err::<(), ProcessError>(ProcessError::NotInRoom) && post == pre
    } else {
        let c = pre.referenced_code(sid);
        if !pre.has_room(c) {
            r == Err::<(), ProcessError>(ProcessError::NotInRoom) && post == pre
        } else if !pre.room(c).players.contains(f.session_id) || !pre.has_player(f.session_id) {
            r == Err::<(), ProcessError>(ProcessError::PlayerNotFound) && post == pre
        } else {
            let frame = s2c::spec_encode(
                s2c::MessageModel::ReceiveFromPlayer(
                    ForwardModel { session_id: sid, raw: f.raw },
                ),
            );
            let ti = pre.player_index(f.session_id);
            let target = pre.players[ti];
            &&& post.rooms == pre.rooms
            &&& match r {
                Ok(()) => post.players == pre.players.update(
                    ti,
                    PlayerModel {
                        session_id: target.session_id,
                        room: target.room,
                        sent: target.sent.push(frame),
                    },
                ),
                Err(e) => {
                    &&& post == pre
                    &&& e matches ProcessError::SendFailed(SendError::Closed(fr)) && fr@ == frame
                },
            }
        }
    }
}

/// What processing a room-creation request leaves behind: as
/// `App::create_room`, with the fresh code known only through the
/// `RoomCreated` frame on the host's queue.
pub open spec fn create_room_outcome(
    pre: AppModel,
    post: AppModel,
    sid: Seq<u8>,
    r: Result<(), ProcessError>,
) -> bool {
    if !pre.has_player(sid) {
        r == Err::<(), ProcessError>(ProcessError::PlayerNotFound) && post == pre
    } else if pre.player(sid).room is Some || pre.at_capacity() {
        r == Err::<(), ProcessError>(ProcessError::InvalidOperation) && post == pre
    } else {
        match r {
            Ok(()) => exists|c: Seq<u8>|
                #![auto]
                {
                    &&& c.len() == 4
                    &&& !pre.code_in_use(c)
                    &&& post.rooms == pre.rooms.push(
                        RoomModel { code: c, host: sid, players: seq![sid] },
                    )
                    &&& post.players == pre.players.update(
                        pre.player_index(sid),
                        PlayerModel {
                            session_id: sid,
                            room: Some(c),
                            sent: pre.player(sid).sent.push(
                                s2c::spec_encode(s2c::MessageModel::RoomCreated { code: c }),
                            ),
                        },
                    )
                },
            Err(e) => {
                &&& post == pre
                &&& e matches ProcessError::SendFailed(SendError::Closed(frame)) && (exists|
                    c: Seq<u8>,
                |
                    #![auto]
                    c.len() == 4 && !pre.code_in_use(c) && frame@ == s2c::spec_encode(
                        s2c::MessageModel::RoomCreated { code: c },
                    ))
            },
        }
    }
}

/// What processing a join request leaves behind. The room must resolve and
/// the sender must not already be in one; the host then learns of the new
/// member, the member is listed, and the joiner learns who hosts. When the
/// host's queue is gone nothing is kept; when only the joiner's is gone,
/// the join stands but the joiner never learns so.
pub open spec fn join_room_outcome(
    pre: AppModel,
    post: AppModel,
    sid: Seq<u8>,
    code: Seq<u8>,
    r: Result<(), ProcessError>,
) -> bool {
    if !pre.has_player(sid) {
        r == Err::<(), ProcessError>(ProcessError::PlayerNotFound) && post == pre
    } else if !pre.has_room(code) {
        r == Err::<(), ProcessError>(ProcessError::RoomNotFound) && post == pre
    } else if pre.player(sid).room is Some {
        r == Err::<(), ProcessError>(ProcessError::InvalidOperation) && post == pre
    } else {
        let ri = pre.room_index(code);
        let room = pre.rooms[ri];
        let hi = pre.player_index(room.host);
        let host = pre.players[hi];
        let si = pre.player_index(sid);
        let sender = pre.players[si];
        let notify_frame = s2c::spec_encode(
            s2c::MessageModel::PlayerJoined { player_session_id: sid },
        );
        let joined_frame = s2c::spec_encode(
            s2c::MessageModel::RoomJoined { host_session_id: room.host },
        );
        let host_after = PlayerModel {
            session_id: host.session_id,
            room: host.room,
            sent: host.sent.push(notify_frame),
        };
        let room_after = RoomModel {
            code: room.code,
            host: room.host,
            players: if room.players.contains(sid) {
                room.players
            } else {
                room.players.push(sid)
            },
        };
        match r {
            Ok(()) => {
                &&& post.rooms == pre.rooms.update(ri, room_after)
                &&& post.players == pre.players.update(hi, host_after).update(
                    si,
                    PlayerModel {
                        session_id: sid,
                        room: Some(code),
                        sent: sender.sent.push(joined_frame),
                    },
                )
            },
            Err(e) => e matches ProcessError::SendFailed(SendError::Closed(fr)) && ((fr@
                == notify_frame && post == pre) || (fr@ == joined_frame && post.rooms
                == pre.rooms.update(ri, room_after) && post.players == pre.players.update(
                hi,
                host_after,
            ).update(
                si,
                PlayerModel { session_id: sid, room: Some(code), sent: sender.sent },
            ))),
        }
    }
}

/// Decodes one inbound frame from a session and applies it to the
/// registry: a forward request reaches its target with the sender's
/// identity written in, a creation request makes a room, a join request
/// adds a member. A frame that does not decode is dropped with its error;
/// no side effect has happened by then. Every failure is local to this
/// message.
pub fn process_message(app: &mut App, sender_session_id: &SessionId, msg: &[u8]) -> (r: Result<
    (),
    ProcessError,
>)
    requires
        old(app).wf(),
        sender_session_id@.len() == crate::session_id::SESSION_ID_SIZE,
    ensures
        final(app).wf(),
        ({
            let pre = old(app)@;
            let post = final(app)@;
            match c2s::spec_decode(msg@) {
                Err(e) => r == Err::<(), ProcessError>(ProcessError::Decode(e)) && post == pre,
                Ok(m) => match m {
                    c2s::MessageModel::SendToPlayer(f) => send_to_player_outcome(
                        pre,
                        post,
                        sender_session_id@,
                        f,
                        r,
                    ),
                    c2s::MessageModel::CreateRoom => create_room_outcome(
                        pre,
                        post,
                        sender_session_id@,
                        r,
                    ),
                    c2s::MessageModel::JoinRoom { code } => join_room_outcome(
                        pre,
                        post,
                        sender_session_id@,
                        code,
                        r,
                    ),
                },
            }
        }),
{
    // A frame's length is a usize, so any payload it carries fits one too;
    // the forwarded payload's delivery below needs that bound.
    let msg_len = msg.len();
    proof {
        assert(msg@.len() == msg_len);
    }
    let decoded = match c2s::Message::decode(msg) {
        Err(e) => {
            return Err(ProcessError::Decode(e));
        },
        Ok(m) => m,
    };
    match decoded {
        c2s::Message::CreateRoom => {
            match app.create_room(sender_session_id) {
                Ok(code) => {
                    proof {
                        assert(code@.len() == 4);
                    }
                    Ok(())
                },
                Err(e) => Err(e),
            }
        },
        c2s::Message::SendToPlayer(mut fwd) => {
            let ghost pre = old(app)@;
            let ghost fmodel = fwd@;
            let ghost target_id = fwd@.session_id;
            let si = match app.find_player_index(sender_session_id) {
                None => {
                    return Err(ProcessError::PlayerNotFound);
                },
                Some(i) => i,
            };
            proof {
                pre.lemma_player_index_agrees(si as int);
            }
            let sender_room = match app.players[si].get_room() {
                None => {
                    return Err(ProcessError::NotInRoom);
                },
                Some(c) => c.clone(),
            };
            let ri = match app.find_room_index(&sender_room) {
                None => {
                    return Err(ProcessError::NotInRoom);
                },
                Some(j) => j,
            };
            proof {
                pre.lemma_room_index_agrees(ri as int);
            }
            if app.rooms[ri].get_player(&fwd.session_id).is_none() {
                return Err(ProcessError::PlayerNotFound);
            }
            let ti = match app.find_player_index(&fwd.session_id) {
                None => {
                    return Err(ProcessError::PlayerNotFound);
                },
                Some(i) => i,
            };
            proof {
                pre.lemma_player_index_agrees(ti as int);
            }
            fwd.set_session_id(sender_session_id);
            let out = s2c::Message::ReceiveFromPlayer(fwd);
            let target = &mut app.players[ti];
            match target.send(&out) {
                Ok(()) => {
                    proof {
                        assert(app@.players =~= pre.players.update(
                            ti as int,
                            app@.players[ti as int],
                        ));
                        lemma_wf_after_player_update(pre, app@, ti as int, app@.players[ti as int]);
                        let frame = s2c::spec_encode(
                            s2c::MessageModel::ReceiveFromPlayer(
                                ForwardModel { session_id: sender_session_id@, raw: fmodel.raw },
                            ),
                        );
                        assert(app@.players[ti as int] =~= PlayerModel {
                            session_id: pre.players[ti as int].session_id,
                            room: pre.players[ti as int].room,
                            sent: pre.players[ti as int].sent.push(frame),
                        });
                    }
                    Ok(())
                },
                Err(e) => {
                    proof {
                        assert(app@.players =~= pre.players);
                        assert(app@ =~= pre);
                    }
                    Err(ProcessError::SendFailed(e))
                },
            }
        },
        c2s::Message::JoinRoom { code } => {
            let ghost pre = old(app)@;
            let si = match app.find_player_index(sender_session_id) {
                None => {
                    return Err(ProcessError::PlayerNotFound);
                },
                Some(i) => i,
            };
            proof {
                pre.lemma_player_index_agrees(si as int);
            }
            let ri = match app.find_room_index(&code) {
                None => {
                    return Err(ProcessError::RoomNotFound);
                },
                Some(j) => j,
            };
            proof {
                pre.lemma_room_index_agrees(ri as int);
            }
            if app.players[si].is_in_room() {
                return Err(ProcessError::InvalidOperation);
            }
            let host_id = app.rooms[ri].get_host().clone();
            let hi = match app.find_player_index(&host_id) {
                None => {
                    proof {
                        assert(false);
                    }
                    return Err(ProcessError::PlayerNotFound);
                },
                Some(i) => i,
            };
            proof {
                pre.lemma_player_index_agrees(hi as int);
                assert(pre.players[hi as int].room == Some(pre.rooms[ri as int].code));
                assert(hi != si);
            }
            let notify = s2c::Message::PlayerJoined {
                player_session_id: sender_session_id.clone(),
            };
            let host = &mut app.players[hi];
            match host.send(&notify) {
                Err(e) => {
                    proof {
                        assert(app@.players =~= pre.players);
                        assert(app@ =~= pre);
                    }
                    return Err(ProcessError::SendFailed(e));
                },
                Ok(()) => {},
            }
            let ghost host_after = app@.players[hi as int];
            let room = &mut app.rooms[ri];
            room.add_player(sender_session_id);
            let ghost room_after = app@.rooms[ri as int];
            let sender = &mut app.players[si];
            let res = sender.enter_room(&code, &host_id);
            proof {
                let post = app@;
                assert(post.rooms =~= pre.rooms.update(ri as int, room_after));
                assert(post.players =~= pre.players.update(hi as int, host_after).update(
                    si as int,
                    post.players[si as int],
                ));
                assert forall|x: Seq<u8>|
                    pre.rooms[ri as int].players.contains(x) implies room_after.players.contains(
                    x,
                ) by {
                    let ix = choose|ix: int|
                        0 <= ix < pre.rooms[ri as int].players.len() && pre.rooms[
                            ri as int
                        ].players[ix] == x;
                    assert(room_after.players[ix] == x);
                }
                lemma_wf_after_join(
                    pre,
                    post,
                    si as int,
                    hi as int,
                    ri as int,
                    host_after,
                    post.players[si as int],
                    room_after,
                );
            }
            match res {
                Ok(()) => Ok(()),
                Err(e) => Err(e),
            }
        },
    }
}

/// Law: at all times, a session whose room reference resolves to a live
/// room is listed in that room as a member.
pub proof fn lemma_room_ref_resolves_to_membership(m: AppModel, id: Seq<u8>, code: Seq<u8>)
    requires
        m.wf(),
        m.has_player(id),
        m.player(id).room == Some(code),
        m.has_room(code),
    ensures
        m.room(code).players.contains(id),
{
    let pi = m.player_index(id);
    let ri = m.room_index(code);
    assert(m.players[pi].room == Some(m.rooms[ri].code));
    assert(m.rooms[ri].players.contains(m.players[pi].session_id));
}

/// Law: a live room always has a resolvable host, whose own room
/// reference names that room; a room is never observed without its host,
/// since removing the host removes the room in the same step.
pub proof fn lemma_room_host_resolvable(m: AppModel, code: Seq<u8>)
    requires
        m.wf(),
        m.has_room(code),
    ensures
        m.has_player(m.room(code).host),
        m.player(m.room(code).host).room == Some(code),
        m.room(code).players.contains(m.room(code).host),
{
    let ri = m.room_index(code);
    assert(m.has_player(m.rooms[ri].host));
    assert(m.rooms[ri].wf());
}

/// Updating one session in place, its identifier and room reference kept,
/// everything else unchanged, keeps the registry invariant.
proof fn lemma_wf_after_player_update(pre: AppModel, post: AppModel, pi: int, after: PlayerModel)
    requires
        pre.wf(),
        0 <= pi < pre.players.len(),
        after.session_id == pre.players[pi].session_id,
        after.room == pre.players[pi].room,
        after.wf(),
        post.players == pre.players.update(pi, after),
        post.rooms == pre.rooms,
    ensures
        post.wf(),
{
    assert forall|j: int|
        0 <= j < post.rooms.len() implies post.has_player((#[trigger] post.rooms[j]).host)
        && post.player(post.rooms[j].host).room == Some(post.rooms[j].code) by {
        let host = pre.rooms[j].host;
        let hi = pre.player_index(host);
        assert(pre.has_player(host));
        assert(post.players[hi].session_id == host);
        assert(post.has_player(host));
        post.lemma_player_index_agrees(hi);
    }
}

/// Joining one session to a live room — the host's queue extended, the
/// member listed, the joiner's reference bound, all in one step — keeps
/// the registry invariant.
proof fn lemma_wf_after_join(
    pre: AppModel,
    post: AppModel,
    si: int,
    hi: int,
    ri: int,
    host_after: PlayerModel,
    sender_after: PlayerModel,
    room_after: RoomModel,
)
    requires
        pre.wf(),
        0 <= si < pre.players.len(),
        0 <= hi < pre.players.len(),
        0 <= ri < pre.rooms.len(),
        si != hi,
        pre.players[si].room is None,
        host_after.session_id == pre.players[hi].session_id,
        host_after.room == pre.players[hi].room,
        host_after.wf(),
        sender_after.session_id == pre.players[si].session_id,
        sender_after.room == Some(pre.rooms[ri].code),
        sender_after.wf(),
        room_after.code == pre.rooms[ri].code,
        room_after.host == pre.rooms[ri].host,
        room_after.wf(),
        forall|x: Seq<u8>|
            pre.rooms[ri].players.contains(x) ==> #[trigger] room_after.players.contains(x),
        room_after.players.contains(sender_after.session_id),
        post.players == pre.players.update(hi, host_after).update(si, sender_after),
        post.rooms == pre.rooms.update(ri, room_after),
    ensures
        post.wf(),
{
    let np = pre.players.len() as int;
    assert forall|k: int| 0 <= k < np implies (#[trigger] post.players[k]).session_id
        == pre.players[k].session_id by {}
    assert forall|k: int| 0 <= k < pre.rooms.len() implies (#[trigger] post.rooms[k]).code
        == pre.rooms[k].code by {}
    assert(post.player_ids_unique());
    assert(post.room_codes_unique());
    assert forall|i: int, j: int|
        0 <= i < post.players.len() && 0 <= j < post.rooms.len() && (
    #[trigger] post.players[i]).room == Some((#[trigger] post.rooms[j]).code)
        implies post.rooms[j].players.contains(post.players[i].session_id) by {
        if i == si {
            if j != ri {
                assert(pre.rooms[j].code != pre.rooms[ri].code);
                assert(false);
            }
        } else {
            assert(post.players[i].room == pre.players[i].room);
            assert(pre.rooms[j].players.contains(pre.players[i].session_id));
        }
    }
    assert forall|j: int|
        0 <= j < post.rooms.len() implies post.has_player((#[trigger] post.rooms[j]).host)
        && post.player(post.rooms[j].host).room == Some(post.rooms[j].code) by {
        let host = pre.rooms[j].host;
        let hi2 = pre.player_index(host);
        assert(pre.has_player(host));
        assert(pre.players[hi2].room == Some(pre.rooms[j].code));
        assert(hi2 != si);
        assert(post.players[hi2].session_id == host);
        assert(post.has_player(host));
        post.lemma_player_index_agrees(hi2);
        assert(post.players[hi2].room == Some(pre.rooms[j].code));
    }
}

/// Removing one session that hosts no live room, everything else
/// unchanged, keeps the registry invariant.
proof fn lemma_wf_after_player_removal(pre: AppModel, post: AppModel, pi: int)
    requires
        pre.wf(),
        0 <= pi < pre.players.len(),
        forall|j: int|
            0 <= j < pre.rooms.len() ==> (#[trigger] pre.rooms[j]).host
                != pre.players[pi].session_id,
        post.players == pre.players.remove(pi),
        post.rooms == pre.rooms,
    ensures
        post.wf(),
        !post.has_player(pre.players[pi].session_id),
{
    let id = pre.players[pi].session_id;
    assert forall|k: int| 0 <= k < post.players.len() implies (#[trigger] post.players[k])
        == pre.players[if k < pi {
        k
    } else {
        k + 1
    }] by {}
    assert forall|j: int|
        0 <= j < post.rooms.len() implies post.has_player((#[trigger] post.rooms[j]).host)
        && post.player(post.rooms[j].host).room == Some(post.rooms[j].code) by {
        let host = pre.rooms[j].host;
        let hi = pre.player_index(host);
        assert(pre.has_player(host));
        assert(pre.players[hi].session_id == host);
        assert(hi != pi);
        let hi2 = if hi < pi {
            hi
        } else {
            hi - 1
        };
        assert(post.players[hi2] == pre.players[hi]);
        assert(post.has_player(host));
        post.lemma_player_index_agrees(hi2);
    }
    if post.has_player(id) {
        let k = post.player_index(id);
        let k0 = if k < pi {
            k
        } else {
            k + 1
        };
        assert(pre.players[k0].session_id == id);
        assert(k0 != pi);
        assert(false);
    }
}

/// Registering one session with a fresh identifier and no room reference,
/// everything else unchanged, keeps the registry invariant.
proof fn lemma_wf_after_player_push(pre: AppModel, post: AppModel, p: PlayerModel)
    requires
        pre.wf(),
        p.wf(),
        p.room is None,
        !pre.has_player(p.session_id),
        post.players == pre.players.push(p),
        post.rooms == pre.rooms,
    ensures
        post.wf(),
{
    let n = pre.players.len() as int;
    assert forall|i: int, j: int|
        0 <= i < post.players.len() && 0 <= j < post.players.len() && i != j implies (
    #[trigger] post.players[i]).session_id != (#[trigger] post.players[j]).session_id by {
        if i < n && j < n {
            assert(pre.players[i].session_id != pre.players[j].session_id);
        } else if j == n {
            assert(post.players[i] == pre.players[i]);
            if pre.players[i].session_id == p.session_id {
                assert(pre.has_player(p.session_id));
            }
        } else {
            assert(post.players[j] == pre.players[j]);
            if pre.players[j].session_id == p.session_id {
                assert(pre.has_player(p.session_id));
            }
        }
    }
    assert forall|j: int|
        0 <= j < post.rooms.len() implies post.has_player((#[trigger] post.rooms[j]).host)
        && post.player(post.rooms[j].host).room == Some(post.rooms[j].code) by {
        let host = pre.rooms[j].host;
        let hi = pre.player_index(host);
        assert(pre.has_player(host));
        assert(post.players[hi] == pre.players[hi]);
        assert(post.has_player(host));
        post.lemma_player_index_agrees(hi);
    }
}

/// Pushing a new room whose code nothing uses, with the host's room
/// reference bound to it in the same step, keeps the registry invariant.
proof fn lemma_wf_after_room_creation(
    pre: AppModel,
    post: AppModel,
    pi: int,
    rm: RoomModel,
    host_after: PlayerModel,
)
    requires
        pre.wf(),
        0 <= pi < pre.players.len(),
        pre.players[pi].room is None,
        !pre.code_in_use(rm.code),
        rm.wf(),
        rm.host == pre.players[pi].session_id,
        rm.players == seq![rm.host],
        host_after.session_id == pre.players[pi].session_id,
        host_after.room == Some(rm.code),
        host_after.wf(),
        post.players == pre.players.update(pi, host_after),
        post.rooms == pre.rooms.push(rm),
    ensures
        post.wf(),
{
    let np = pre.players.len() as int;
    let nr = pre.rooms.len() as int;
    assert(post.players.len() == np);
    assert forall|i: int| 0 <= i < np implies (#[trigger] post.players[i]).session_id
        == pre.players[i].session_id by {}
    assert(post.player_ids_unique());
    assert forall|i: int, j: int|
        0 <= i < post.rooms.len() && 0 <= j < post.rooms.len() && i != j implies (
    #[trigger] post.rooms[i]).code != (#[trigger] post.rooms[j]).code by {
        if i < nr && j < nr {
            assert(pre.rooms[i].code != pre.rooms[j].code);
        } else if j == nr {
            if pre.rooms[i].code == rm.code {
                assert(pre.has_room(rm.code));
            }
        } else {
            if pre.rooms[j].code == rm.code {
                assert(pre.has_room(rm.code));
            }
        }
    }
    assert forall|i: int, j: int|
        0 <= i < post.players.len() && 0 <= j < post.rooms.len() && (
    #[trigger] post.players[i]).room == Some((#[trigger] post.rooms[j]).code)
        implies post.rooms[j].players.contains(post.players[i].session_id) by {
        if j < nr {
            if i == pi {
                assert(pre.has_room(pre.rooms[j].code));
                assert(post.players[i].room == Some(rm.code));
                assert(false);
            } else {
                assert(post.players[i] == pre.players[i]);
                assert(post.rooms[j] == pre.rooms[j]);
            }
        } else {
            assert(post.rooms[j] == rm);
            if i != pi {
                assert(pre.players[i].room == Some(rm.code));
                assert(pre.code_in_use(rm.code));
                assert(false);
            } else {
                assert(rm.players[0] == rm.host);
                assert(rm.players.contains(rm.host));
            }
        }
    }
    assert forall|j: int|
        0 <= j < post.rooms.len() implies post.has_player((#[trigger] post.rooms[j]).host)
        && post.player(post.rooms[j].host).room == Some(post.rooms[j].code) by {
        if j < nr {
            let host = pre.rooms[j].host;
            let hi = pre.player_index(host);
            assert(pre.has_player(host));
            assert(pre.players[hi].room == Some(pre.rooms[j].code));
            if hi == pi {
                assert(false);
            }
            assert(post.players[hi] == pre.players[hi]);
            assert(post.has_player(host));
            post.lemma_player_index_agrees(hi);
        } else {
            assert(post.players[pi] == host_after);
            assert(post.has_player(rm.host));
            post.lemma_player_index_agrees(pi);
        }
    }
}

/// Below the code space's capacity, some 4-byte value among the first
/// `players + rooms + 1` is not in use: each value in use is a live room's
/// code or some session's reference, and there are fewer of those than
/// candidates, which are pairwise distinct.
proof fn lemma_unused_code_exists(m: AppModel, bound: u32)
    requires
        bound == m.players.len() + m.rooms.len() + 1,
    ensures
        exists|k: u32|
            k < bound && !m.code_in_use(#[trigger] vstd::bytes::spec_u32_to_le_bytes(k)),
{
    broadcast use vstd::seq_lib::seq_to_set_is_finite;
    broadcast use vstd::set::group_set_axioms;

    vstd::bytes::lemma_auto_spec_u32_to_from_le_bytes();
    assert_by_contradiction!(exists|k: u32|
            k < bound && !m.code_in_use(#[trigger] vstd::bytes::spec_u32_to_le_bytes(k)), {
    let probes = Seq::new(bound as nat, |i: int| vstd::bytes::spec_u32_to_le_bytes(i as u32));
    assert forall|i: int, j: int|
        0 <= i < probes.len() && 0 <= j < probes.len() && i != j implies probes[i] != probes[j] by {
        if probes[i] == probes[j] {
            assert(vstd::bytes::spec_u32_to_le_bytes(i as u32).len() == 4);
            assert(vstd::bytes::spec_u32_to_le_bytes(j as u32).len() == 4);
            assert(vstd::bytes::spec_u32_from_le_bytes(
                vstd::bytes::spec_u32_to_le_bytes(i as u32),
            ) == i as u32);
            assert(vstd::bytes::spec_u32_from_le_bytes(
                vstd::bytes::spec_u32_to_le_bytes(j as u32),
            ) == j as u32);
        }
    }
    assert(probes.no_duplicates());
    let used = m.rooms.map_values(|r: RoomModel| r.code) + m.players.map_values(
        |p: PlayerModel| match p.room {
            Some(c) => c,
            None => Seq::<u8>::empty(),
        },
    );
    assert(used.len() == bound - 1);
    assert forall|x: Seq<u8>| probes.to_set().contains(x) implies used.to_set().contains(x) by {
        let i = choose|i: int| 0 <= i < probes.len() && probes[i] == x;
        assert(m.code_in_use(vstd::bytes::spec_u32_to_le_bytes(i as u32)));
        if m.has_room(x) {
            let j = m.room_index(x);
            assert(used[j] == x);
            assert(used.contains(x));
        } else {
            let k = choose|k: int| 0 <= k < m.players.len() && (#[trigger] m.players[k]).room
                == Some(x);
            assert(used[m.rooms.len() + k] == x);
            assert(used.contains(x));
        }
    }
    assert(probes.to_set() <= used.to_set());
    probes.unique_seq_to_set();
    used.lemma_cardinality_of_set();
    vstd::set_lib::lemma_len_subset(probes.to_set(), used.to_set());
    });
}

/// Removing one room, everything else unchanged, keeps the registry
/// invariant; in particular no other room loses its host, and no session's
/// resolvable reference loses its membership.
proof fn lemma_wf_after_room_removal(pre: AppModel, post: AppModel, j: int)
    requires
        pre.wf(),
        0 <= j < pre.rooms.len(),
        post.players == pre.players,
        post.rooms == pre.rooms.remove(j),
    ensures
        post.wf(),
        !post.has_room(pre.rooms[j].code),
{
    let removed = pre.rooms[j];
    assert forall|k: int| 0 <= k < post.rooms.len() implies (#[trigger] post.rooms[k])
        == pre.rooms[if k < j {
        k
    } else {
        k + 1
    }] by {}
    assert forall|k: int|
        0 <= k < post.rooms.len() implies post.has_player((#[trigger] post.rooms[k]).host)
        && post.player(post.rooms[k].host).room == Some(post.rooms[k].code) by {
        let k0 = if k < j {
            k
        } else {
            k + 1
        };
        assert(pre.has_player(pre.rooms[k0].host));
    }
    if post.has_room(removed.code) {
        let k = post.room_index(removed.code);
        let k0 = if k < j {
            k
        } else {
            k + 1
        };
        assert(pre.rooms[k0].code == removed.code);
        assert(k0 != j);
        assert(false);
    }
}

} // verus!
