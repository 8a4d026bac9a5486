//! The registry of rooms.
//!
//! Rooms are known by their id.  The registry creates, finds, lists and
//! deletes them, and every command for a room reaches it through
//! [`RoomManager::with_room`].

use crate::game::player::Player;
use crate::rooms::room::{Clocks, Room};
use crate::types::{GameError, PlayerId, RoomConfig, RoomId};
use std::sync::mpsc::Sender;
use vstd::prelude::*;

verus! {

/// All rooms, in the order in which they were created.
pub struct RoomManager {
    rooms: Vec<Room>,
}

/// Whether a room with the id `id` is among `rooms`.
pub open spec fn has_room(rooms: Seq<Room>, id: Seq<char>) -> bool {
    exists|i: int| 0 <= i < rooms.len() && (#[trigger] rooms[i]).name() == id
}

/// Whether `room` is as a room is right after it was created with the
/// id `id` and the configuration `config`: in the lobby, without
/// players, votes or clients.
pub open spec fn fresh_room(room: Room, id: Seq<char>, config: RoomConfig) -> bool {
    &&& room.wf()
    &&& room.name() == id
    &&& room.settings() == config
    &&& room.phase() is Lobby
    &&& room.phase().marked() == Set::<Seq<char>>::empty()
    &&& room.roster().len() == 0
    &&& room.ballots().len() == 0
    &&& room.sinks().len() == 0
    &&& room.clock() == (Clocks { discussion: None, voting: None })
    &&& room.sent().len() == 0
}

/// Whether the timer check has left a room alone or, its discussion
/// time being up, has opened its vote or, its voting time being up, has
/// counted the votes.
pub open spec fn timer_checked(before: Room, after: Room) -> bool {
    ||| after == before
    ||| Room::vote_opened(&before, &after, Ok(()))
    ||| Room::vote_closed(&before, &after)
}

/// Whether `after` is `before` with the room at position `i`, which was
/// `from`, replaced by `to`.
pub open spec fn room_replaced(before: Seq<Room>, after: Seq<Room>, i: int, from: Room, to: Room) -> bool {
    0 <= i < before.len() && before[i] == from && after == before.update(i, to)
}

/// What creating a room with the id `room_id` and the configuration
/// `config` makes of the rooms `before`, and what the registry answers:
/// a taken id and an invalid configuration are refused and change
/// nothing; otherwise a fresh room comes last.
pub open spec fn room_created(
    before: Seq<Room>,
    after: Seq<Room>,
    room_id: Seq<char>,
    config: RoomConfig,
    r: Result<(), GameError>,
) -> bool {
    &&& r == (if has_room(before, room_id) {
        Err::<(), GameError>(GameError::AlreadyExists)
    } else if !config.valid() {
        Err(GameError::InvalidConfig)
    } else {
        Ok(())
    })
    &&& r is Err ==> after == before
    &&& r is Ok ==> after.len() == before.len() + 1 && after.drop_last() == before && fresh_room(
        after.last(),
        room_id,
        config,
    )
}

/// Whether `after` is `before` with one room changed: the room with the
/// id `room_id`, which has gone through `step`.
pub open spec fn room_stepped(
    before: Seq<Room>,
    after: Seq<Room>,
    room_id: Seq<char>,
    step: spec_fn(Room, Room) -> bool,
) -> bool {
    exists|i: int|
        0 <= i < before.len() && (#[trigger] before[i]).name() == room_id && after.len()
            == before.len() && after == before.update(i, after[i]) && step(before[i], after[i])
}

/// Whether `room` is the room with the id `room_id` in `rooms`.
pub open spec fn room_named(rooms: Seq<Room>, room_id: Seq<char>, room: Room) -> bool {
    exists|i: int| 0 <= i < rooms.len() && (#[trigger] rooms[i]).name() == room_id && rooms[i] == room
}

impl RoomManager {
    /// The rooms, in the order in which they were created.
    pub closed spec fn list(&self) -> Seq<Room> {
        self.rooms@
    }

    /// What holds of the registry between two commands: every room is
    /// sound, and no two rooms share an id.
    pub closed spec fn wf(&self) -> bool {
        &&& forall|i: int| 0 <= i < self.rooms@.len() ==> (#[trigger] self.rooms@[i]).wf()
        &&& forall|i: int, j: int|
            0 <= i < j < self.rooms@.len() ==> (#[trigger] self.rooms@[i]).name() != (
            #[trigger] self.rooms@[j]).name()
    }

    /// Every room of a sound registry is sound, and ids tell rooms apart.
    pub proof fn rooms_are_sound(&self)
        requires
            self.wf(),
        ensures
            forall|i: int| 0 <= i < self.list().len() ==> (#[trigger] self.list()[i]).wf(),
            forall|i: int, j: int|
                0 <= i < j < self.list().len() ==> (#[trigger] self.list()[i]).name() != (
                #[trigger] self.list()[j]).name(),
    {
    }

    /// A registry without rooms.
    pub fn new() -> (m: Self)
        ensures
            m.wf(),
            m.list().len() == 0,
    {
        RoomManager { rooms: Vec::new() }
    }

    fn find(&self, room_id: &RoomId) -> (r: Option<usize>)
        ensures
            match r {
                Some(i) => i < self.rooms@.len() && self.rooms@[i as int].name() == room_id@,
                None => !has_room(self.rooms@, room_id@),
            },
    {
        let mut i: usize = 0;
        while i < self.rooms.len()
            invariant
                i <= self.rooms.len(),
                forall|j: int| 0 <= j < i ==> (#[trigger] self.rooms@[j]).name() != room_id@,
            decreases self.rooms.len() - i,
        {
            if *self.rooms[i].id() == *room_id {
                return Some(i);
            }
            i = i + 1;
        }
        None
    }

    /// Creates a room.  An id can be used once, and the configuration
    /// has to be valid.
    pub fn create_room(&mut self, room_id: RoomId, config: RoomConfig) -> (r: Result<(), GameError>)
        requires
            old(self).wf(),
        ensures
            final(self).wf(),
            room_created(old(self).list(), final(self).list(), room_id@, config, r),
    {
        if self.find(&room_id).is_some() {
            return Err(GameError::AlreadyExists);
        }
        let room = match Room::new(room_id, config) {
            Ok(room) => room,
            Err(e) => {
                return Err(e);
            },
        };
        self.rooms.push(room);
        assert(self.rooms@.drop_last() == old(self).rooms@);
        Ok(())
    }

    /// Whether a room with the id `room_id` exists.
    pub fn room_exists(&self, room_id: &RoomId) -> (b: bool)
        ensures
            b == has_room(self.list(), room_id@),
    {
        self.find(room_id).is_some()
    }

    /// The number of players in the room, if it exists.
    pub fn get_player_count(&self, room_id: &RoomId) -> (n: Option<usize>)
        ensures
            n is Some == has_room(self.list(), room_id@),
            n is Some ==> exists|i: int|
                0 <= i < self.list().len() && (#[trigger] self.list()[i]).name() == room_id@
                    && n->Some_0 == self.list()[i].roster().len(),
    {
        match self.find(room_id) {
            Some(i) => {
                let count = self.rooms[i].player_count();
                assert(self.list()[i as int].name() == room_id@);
                Some(count)
            },
            None => None,
        }
    }

    /// Whether every seat of the room is taken, if it exists.
    pub fn is_room_full(&self, room_id: &RoomId) -> (full: Option<bool>)
        ensures
            full is Some == has_room(self.list(), room_id@),
            full is Some ==> exists|i: int|
                0 <= i < self.list().len() && (#[trigger] self.list()[i]).name() == room_id@
                    && full->Some_0 == (self.list()[i].roster().len()
                    >= self.list()[i].settings().max_players),
    {
        match self.find(room_id) {
            Some(i) => {
                let full = self.rooms[i].is_full();
                assert(self.list()[i as int].name() == room_id@);
                Some(full)
            },
            None => None,
        }
    }

    /// A snapshot of the room, if it exists.
    pub fn get_room_state(&self, room_id: &RoomId) -> (state: Option<String>)
        ensures
            state is Some == has_room(self.list(), room_id@),
            state is Some ==> exists|i: int|
                0 <= i < self.list().len() && (#[trigger] self.list()[i]).name() == room_id@
                    && state->Some_0@ == self.list()[i].snapshot(),
    {
        match self.find(room_id) {
            Some(i) => {
                let snapshot = self.rooms[i].get_state_snapshot();
                assert(self.list()[i as int].name() == room_id@);
                Some(snapshot)
            },
            None => None,
        }
    }

    /// The number of rooms.
    pub fn room_count(&self) -> (n: usize)
        ensures
            n == self.list().len(),
    {
        self.rooms.len()
    }

    /// The ids of all rooms, in the order in which they were created.
    pub fn list_rooms(&self) -> (ids: Vec<RoomId>)
        ensures
            ids@.len() == self.list().len(),
            forall|i: int| 0 <= i < ids@.len() ==> (#[trigger] ids@[i])@ == self.list()[i].name(),
    {
        let mut ids: Vec<RoomId> = Vec::new();
        let mut i: usize = 0;
        while i < self.rooms.len()
            invariant
                i <= self.rooms.len(),
                ids@.len() == i,
                forall|j: int| 0 <= j < i ==> (#[trigger] ids@[j])@ == self.rooms@[j].name(),
            decreases self.rooms.len() - i,
        {
            ids.push(self.rooms[i].id().clone());
            i = i + 1;
        }
        ids
    }

    /// Deletes a room.
    pub fn delete_room(&mut self, room_id: &RoomId) -> (r: Result<(), GameError>)
        requires
            old(self).wf(),
        ensures
            final(self).wf(),
            r is Ok == has_room(old(self).list(), room_id@),
            r is Err ==> r->Err_0 == GameError::NotFound && *final(self) == *old(self),
            r is Ok ==> !has_room(final(self).list(), room_id@) && exists|i: int|
                0 <= i < old(self).list().len() && (#[trigger] old(self).list()[i]).name()
                    == room_id@ && final(self).list() == old(self).list().remove(i),
    {
        match self.find(room_id) {
            Some(i) => {
                let ghost before = self.rooms@;
                self.rooms.remove(i);
                proof {
                    let after = self.rooms@;
                    assert forall|a: int| 0 <= a < after.len() implies (#[trigger] after[a]).wf()
                        && after[a].name() != room_id@ by {
                        let x = if a < i { a } else { a + 1 };
                        assert(after[a] == before[x]);
                    }
                    assert forall|a: int, b: int| 0 <= a < b < after.len() implies (
                    #[trigger] after[a]).name() != (#[trigger] after[b]).name() by {
                        let x = if a < i { a } else { a + 1 };
                        let y = if b < i { b } else { b + 1 };
                        assert(after[a] == before[x] && after[b] == before[y]);
                    }
                    assert(before[i as int].name() == room_id@);
                    assert(after == before.remove(i as int));
                    assert(!has_room(after, room_id@));
                    assert(old(self).list()[i as int].name() == room_id@ && self.list() == old(
                        self,
                    ).list().remove(i as int));
                }
                Ok(())
            },
            None => Err(GameError::NotFound),
        }
    }

    /// Runs `f` on the room with the id `room_id` and hands back what it
    /// returns.  Every change of a room goes through here.
    pub fn with_room<F, R>(&mut self, room_id: &RoomId, f: F) -> (r: Result<R, GameError>) where
        F: FnOnce(&mut Room) -> Result<R, GameError>,

        requires
            old(self).wf(),
            forall|room: &mut Room| room.wf() ==> call_requires(f, (room,)),
            forall|room: &mut Room, out: Result<R, GameError>|
                call_ensures(f, (room,), out) ==> final(room).wf() && final(room).name()
                    == room.name(),
        ensures
            final(self).wf(),
            final(self).list().len() == old(self).list().len(),
            !has_room(old(self).list(), room_id@) ==> r is Err && r->Err_0 == GameError::NotFound
                && *final(self) == *old(self),
            has_room(old(self).list(), room_id@) ==> exists|room: &mut Room| #[trigger]
                call_ensures(f, (room,), r) && room.name() == room_id@ && exists|i: int| #[trigger]
                    room_replaced(old(self).list(), final(self).list(), i, *room, *final(room)),
    {
        let i = match self.find(room_id) {
            Some(i) => i,
            None => {
                return Err(GameError::NotFound);
            },
        };
        let ghost before = self.rooms@;
        let mut room = self.rooms.remove(i);
        let ghost taken = room;
        let r = f(&mut room);
        self.rooms.insert(i, room);
        proof {
            let after = self.rooms@;
            assert(after == before.update(i as int, room));
            assert(room_replaced(old(self).list(), self.list(), i as int, taken, room));
        }
        r
    }

    /// The room with the id `room_id`.
    pub fn room(&self, room_id: &RoomId) -> (room: Option<&Room>)
        requires
            self.wf(),
        ensures
            room is Some == has_room(self.list(), room_id@),
            room is Some ==> room_named(self.list(), room_id@, *room->Some_0) && room->Some_0.wf(),
    {
        match self.find(room_id) {
            Some(i) => {
                assert(self.list()[i as int].name() == room_id@);
                Some(&self.rooms[i])
            },
            None => None,
        }
    }

    /// Takes a player into the room with the id `room_id`.
    pub fn add_player(&mut self, room_id: &RoomId, player: Player) -> (r: Result<(), GameError>)
        requires
            old(self).wf(),
        ensures
            final(self).wf(),
            !has_room(old(self).list(), room_id@) ==> r == Err::<(), GameError>(GameError::NotFound)
                && *final(self) == *old(self),
            has_room(old(self).list(), room_id@) ==> room_stepped(
                old(self).list(),
                final(self).list(),
                room_id@,
                |before: Room, after: Room| Room::player_added(&before, &after, player, r),
            ),
    {
        let i = match self.find(room_id) {
            Some(i) => i,
            None => {
                return Err(GameError::NotFound);
            },
        };
        let ghost before = self.rooms@;
        let mut room = self.rooms.remove(i);
        let r = room.add_player(player);
        self.rooms.insert(i, room);
        proof {
            assert(self.rooms@ == before.update(i as int, room));
            assert(self.rooms@[i as int] == room);
            assert(before[i as int].name() == room_id@);
        }
        r
    }

    /// Records in the room with the id `room_id` that a player is ready.
    pub fn mark_ready(&mut self, room_id: &RoomId, player_id: &PlayerId) -> (r: Result<
        (),
        GameError,
    >)
        requires
            old(self).wf(),
        ensures
            final(self).wf(),
            !has_room(old(self).list(), room_id@) ==> r == Err::<(), GameError>(GameError::NotFound)
                && *final(self) == *old(self),
            has_room(old(self).list(), room_id@) ==> room_stepped(
                old(self).list(),
                final(self).list(),
                room_id@,
                |before: Room, after: Room| Room::readied(&before, &after, player_id@, r),
            ),
    {
        let i = match self.find(room_id) {
            Some(i) => i,
            None => {
                return Err(GameError::NotFound);
            },
        };
        let ghost before = self.rooms@;
        let mut room = self.rooms.remove(i);
        let r = room.mark_ready(player_id);
        self.rooms.insert(i, room);
        proof {
            assert(self.rooms@ == before.update(i as int, room));
            assert(self.rooms@[i as int] == room);
            assert(before[i as int].name() == room_id@);
        }
        r
    }

    /// Records in the room with the id `room_id` that a player has seen
    /// their word.
    pub fn confirm_theme(&mut self, room_id: &RoomId, player_id: &PlayerId) -> (r: Result<
        (),
        GameError,
    >)
        requires
            old(self).wf(),
        ensures
            final(self).wf(),
            !has_room(old(self).list(), room_id@) ==> r == Err::<(), GameError>(GameError::NotFound)
                && *final(self) == *old(self),
            has_room(old(self).list(), room_id@) ==> room_stepped(
                old(self).list(),
                final(self).list(),
                room_id@,
                |before: Room, after: Room| Room::confirmed(&before, &after, player_id@, r),
            ),
    {
        let i = match self.find(room_id) {
            Some(i) => i,
            None => {
                return Err(GameError::NotFound);
            },
        };
        let ghost before = self.rooms@;
        let mut room = self.rooms.remove(i);
        let r = room.confirm_theme(player_id);
        self.rooms.insert(i, room);
        proof {
            assert(self.rooms@ == before.update(i as int, room));
            assert(self.rooms@[i as int] == room);
            assert(before[i as int].name() == room_id@);
        }
        r
    }

    /// Opens the vote in the room with the id `room_id`.
    pub fn start_voting(&mut self, room_id: &RoomId) -> (r: Result<(), GameError>)
        requires
            old(self).wf(),
        ensures
            final(self).wf(),
            !has_room(old(self).list(), room_id@) ==> r == Err::<(), GameError>(GameError::NotFound)
                && *final(self) == *old(self),
            has_room(old(self).list(), room_id@) ==> room_stepped(
                old(self).list(),
                final(self).list(),
                room_id@,
                |before: Room, after: Room| Room::vote_opened(&before, &after, r),
            ),
    {
        let i = match self.find(room_id) {
            Some(i) => i,
            None => {
                return Err(GameError::NotFound);
            },
        };
        let ghost before = self.rooms@;
        let mut room = self.rooms.remove(i);
        let r = room.start_voting();
        self.rooms.insert(i, room);
        proof {
            assert(self.rooms@ == before.update(i as int, room));
            assert(self.rooms@[i as int] == room);
            assert(before[i as int].name() == room_id@);
        }
        r
    }

    /// Records a vote in the room with the id `room_id`.
    pub fn submit_vote(&mut self, room_id: &RoomId, voter_id: &PlayerId, target_id: &PlayerId) -> (r:
        Result<(), GameError>)
        requires
            old(self).wf(),
        ensures
            final(self).wf(),
            !has_room(old(self).list(), room_id@) ==> r == Err::<(), GameError>(GameError::NotFound)
                && *final(self) == *old(self),
            has_room(old(self).list(), room_id@) ==> room_stepped(
                old(self).list(),
                final(self).list(),
                room_id@,
                |before: Room, after: Room|
                    Room::vote_taken(&before, &after, voter_id@, target_id@, r),
            ),
    {
        let i = match self.find(room_id) {
            Some(i) => i,
            None => {
                return Err(GameError::NotFound);
            },
        };
        let ghost before = self.rooms@;
        let mut room = self.rooms.remove(i);
        let r = room.submit_vote(voter_id, target_id);
        self.rooms.insert(i, room);
        proof {
            assert(self.rooms@ == before.update(i as int, room));
            assert(self.rooms@[i as int] == room);
            assert(before[i as int].name() == room_id@);
        }
        r
    }

    /// Sends a line of chat to the clients of the room with the id
    /// `room_id`.
    pub fn send_chat_message(&mut self, room_id: &RoomId, player_name: &str, message: &str) -> (r:
        Result<(), GameError>)
        requires
            old(self).wf(),
        ensures
            final(self).wf(),
            !has_room(old(self).list(), room_id@) ==> r == Err::<(), GameError>(GameError::NotFound)
                && *final(self) == *old(self),
            has_room(old(self).list(), room_id@) ==> room_stepped(
                old(self).list(),
                final(self).list(),
                room_id@,
                |before: Room, after: Room|
                    Room::chatted(&before, &after, player_name@, message@, r),
            ),
    {
        let i = match self.find(room_id) {
            Some(i) => i,
            None => {
                return Err(GameError::NotFound);
            },
        };
        let ghost before = self.rooms@;
        let mut room = self.rooms.remove(i);
        let r = room.send_chat_message(player_name, message);
        self.rooms.insert(i, room);
        proof {
            assert(self.rooms@ == before.update(i as int, room));
            assert(self.rooms@[i as int] == room);
            assert(before[i as int].name() == room_id@);
            assert(room.name() == before[i as int].name());
        }
        r
    }

    /// Connects a client to the room with the id `room_id`; says whether
    /// there is such a room.
    pub fn add_sender(&mut self, room_id: &RoomId, sender: Sender<String>) -> (found: bool)
        requires
            old(self).wf(),
        ensures
            final(self).wf(),
            found == has_room(old(self).list(), room_id@),
            !found ==> *final(self) == *old(self),
            found ==> room_stepped(
                old(self).list(),
                final(self).list(),
                room_id@,
                |before: Room, after: Room|
                    after.same_game(&before) && after.sent() == before.sent() && after.sinks()
                        == before.sinks().push(sender),
            ),
    {
        let i = match self.find(room_id) {
            Some(i) => i,
            None => {
                return false;
            },
        };
        let ghost before = self.rooms@;
        let mut room = self.rooms.remove(i);
        room.add_sender(sender);
        self.rooms.insert(i, room);
        proof {
            assert(self.rooms@ == before.update(i as int, room));
            assert(self.rooms@[i as int] == room);
            assert(before[i as int].name() == room_id@);
        }
        true
    }

    /// Looks at the clocks of every room, opens the vote where the time
    /// to talk is up, and counts the votes where the time to vote is up.
    pub fn check_all_timers(&mut self)
        requires
            old(self).wf(),
        ensures
            final(self).wf(),
            final(self).list().len() == old(self).list().len(),
            forall|i: int|
                0 <= i < old(self).list().len() ==> timer_checked(
                    old(self).list()[i],
                    #[trigger] final(self).list()[i],
                ),
    {
        let n = self.rooms.len();
        let mut i: usize = 0;
        while i < n
            invariant
                i <= n,
                n == self.rooms@.len(),
                n == old(self).rooms@.len(),
                self.wf(),
                forall|j: int|
                    0 <= j < i ==> timer_checked(old(self).rooms@[j], #[trigger] self.rooms@[j]),
                forall|j: int| i <= j < n ==> old(self).rooms@[j] == #[trigger] self.rooms@[j],
            decreases n - i,
        {
            let ghost before = self.rooms@;
            let mut room = self.rooms.remove(i);
            if !room.check_and_auto_vote() {
                room.check_and_auto_finish();
            }
            self.rooms.insert(i, room);
            proof {
                assert(self.rooms@ == before.update(i as int, room));
            }
            i = i + 1;
        }
    }
}

impl Default for RoomManager {
    fn default() -> (m: Self)
        ensures
            m.wf(),
            m.list().len() == 0,
    {
        RoomManager::new()
    }
}

} // verus!
