//! One room: the coordinator of a game.
//!
//! The room owns the players, the phase, the votes and the sinks of the
//! connected clients.  Every command goes through one of its methods,
//! which checks that the phase admits it, changes the state, and tells
//! the clients: first what has happened, then a snapshot of the room.
//! A command that is refused, or that repeats what a player has said
//! already, changes nothing and tells the clients nothing.
//! The room remembers what the last command that changed it offered to
//! the clients.

use crate::clock::{now, seconds_since};
use crate::game::player::{Player, PlayerView};
use crate::game::rules::{
    assign_roles_at, assign_themes, citizens_are_the_rest, ids_with_role, position_set,
    tally_votes, voted_out, votes_for, with_role, with_role_same_roles, wolves_counted, wolves_of, Vote,
};
use crate::game::state::{next_stage, GameState};
use crate::draw::texts;
use crate::game::theme::{builtin_themes, pair_texts, ThemeDatabase, ThemePair};
use crate::random::sample_indices;
use crate::rooms::hub::{pruned, pruned_transitive, retained_all, Senders};
use crate::rooms::messages::{
    self, chat_text, discussion_text, eliminated_text, everyone_ready_text, game_over_text,
    game_started_text, joined_text, left_text, more_needed_text, nobody_voted_text, voting_text,
};
use crate::text::decimal_digits;
use crate::types::{GameError, PlayerId, Role, RoomConfig, RoomId};
use std::sync::mpsc::Sender;
use std::time::SystemTime;
use vstd::prelude::*;
use vstd::string::StringExecFns;

verus! {

/// Whether a player with the id `id` is in `roster`.
pub open spec fn has_player(roster: Seq<Player>, id: Seq<char>) -> bool {
    exists|i: int| 0 <= i < roster.len() && (#[trigger] roster[i])@.id == id
}

/// Whether no two players in `roster` share an id.
pub open spec fn distinct_ids(roster: Seq<Player>) -> bool {
    forall|i: int, j: int|
        0 <= i < j < roster.len() ==> (#[trigger] roster[i])@.id != (#[trigger] roster[j])@.id
}

/// Whether `voter` has a vote in `votes`.
pub open spec fn has_voted(votes: Seq<Vote>, voter: Seq<char>) -> bool {
    exists|k: int| 0 <= k < votes.len() && (#[trigger] votes[k]).voter@ == voter
}

/// Whether no two votes in `votes` come from the same voter.
pub open spec fn distinct_voters(votes: Seq<Vote>) -> bool {
    forall|k: int, l: int|
        0 <= k < l < votes.len() ==> (#[trigger] votes[k]).voter@ != (#[trigger] votes[l]).voter@
}

/// Whether `after` is `before` with `player` taken in: in the place of
/// the player with the same id if there is one, at the end otherwise.
pub open spec fn player_joined(before: Seq<Player>, after: Seq<Player>, player: Player) -> bool {
    if has_player(before, player@.id) {
        exists|i: int|
            0 <= i < before.len() && (#[trigger] before[i])@.id == player@.id && after
                == before.update(i, player)
    } else {
        after == before.push(player)
    }
}

/// A player who has just entered: in the game, without role or word.
pub open spec fn newcomer(id: Seq<char>, name: Seq<char>) -> PlayerView {
    PlayerView { id, name, role: None, theme: None, active: true }
}

/// Whether `after` is `before` without the player with the id `id`.
pub open spec fn player_left(before: Seq<Player>, after: Seq<Player>, id: Seq<char>) -> bool {
    exists|i: int|
        0 <= i < before.len() && (#[trigger] before[i])@.id == id && after == before.remove(i)
}

/// Whether `after` is `before` with the vote of `voter` for `target`
/// recorded: in the place of the voter's earlier vote if there is one,
/// at the end otherwise.
pub open spec fn vote_recorded(
    before: Seq<Vote>,
    after: Seq<Vote>,
    voter: Seq<char>,
    target: Seq<char>,
) -> bool {
    if has_voted(before, voter) {
        exists|k: int|
            0 <= k < before.len() && (#[trigger] before[k]).voter@ == voter && after.len()
                == before.len() && after[k].voter@ == voter && after[k].target@ == target
                && forall|l: int| 0 <= l < before.len() && l != k ==> after[l] == before[l]
    } else {
        after.len() == before.len() + 1 && after.last().voter@ == voter && after.last().target@
            == target && after.drop_last() == before
    }
}

/// Whether `after` is `before` with the player with the id `id` voted
/// out and nothing else changed.
pub open spec fn player_eliminated(before: Seq<Player>, after: Seq<Player>, id: Seq<char>) -> bool {
    &&& after.len() == before.len()
    &&& forall|i: int|
        0 <= i < before.len() ==> (#[trigger] after[i])@ == (if before[i]@.id == id {
            PlayerView { active: false, ..before[i]@ }
        } else {
            before[i]@
        })
}

/// Whether the player with the id `id` in `roster` is a wolf.
pub open spec fn is_wolf_id(roster: Seq<Player>, id: Seq<char>) -> bool {
    exists|i: int|
        0 <= i < roster.len() && (#[trigger] roster[i])@.id == id && roster[i]@.role == Some(
            Role::Wolf,
        )
}

/// What to tell about time when `total` seconds were given and `elapsed`
/// have passed: what is left, and nothing less than zero.
pub open spec fn time_left(total: u64, elapsed: u64) -> u64 {
    if elapsed >= total {
        0
    } else {
        (total - elapsed) as u64
    }
}

/// A game room: its players, the state of its game and its clients.
pub struct Room {
    id: RoomId,
    config: RoomConfig,
    state: GameState,
    /// The players, in the order in which they joined.
    players: Vec<Player>,
    /// The sinks of the connected clients.
    senders: Senders,
    /// The votes of the current vote, one for each voter.
    votes: Vec<Vote>,
    /// When the discussion began.
    discussion_started_at: Option<SystemTime>,
    /// When the vote began.
    voting_started_at: Option<SystemTime>,
    /// What the last command that changed the room offered to the
    /// clients, in the order in which it was offered.
    sent: Vec<String>,
}

/// The clocks of a room: when its discussion began and when its vote
/// began, as far as they have.
pub struct Clocks {
    pub discussion: Option<SystemTime>,
    pub voting: Option<SystemTime>,
}

impl Room {
    /// The id of the room.
    pub closed spec fn name(&self) -> Seq<char> {
        self.id@
    }

    /// The configuration of the room.
    pub closed spec fn settings(&self) -> RoomConfig {
        self.config
    }

    /// The state of the game.
    pub closed spec fn phase(&self) -> GameState {
        self.state
    }

    /// The players, in the order in which they joined.
    pub closed spec fn roster(&self) -> Seq<Player> {
        self.players@
    }

    /// The votes cast, one for each voter.
    pub closed spec fn ballots(&self) -> Seq<Vote> {
        self.votes@
    }

    /// The sinks of the connected clients, in the order in which they
    /// connected.
    pub closed spec fn sinks(&self) -> Seq<Sender<String>> {
        self.senders@
    }

    /// When the discussion and the vote began, as far as they have.
    pub closed spec fn clock(&self) -> Clocks {
        Clocks { discussion: self.discussion_started_at, voting: self.voting_started_at }
    }

    /// What the last command that changed the room offered to the
    /// clients, in the order in which it was offered.
    pub closed spec fn sent(&self) -> Seq<Seq<char>> {
        texts(self.sent@)
    }

    /// Whether the phase of this room is the phase of `before` or the
    /// one that follows it in the order of play.
    pub open spec fn advanced_from(&self, before: &Room) -> bool {
        self.phase().stage() == before.phase().stage() || next_stage(
            before.phase().stage(),
            self.phase().stage(),
        )
    }

    /// Whether two rooms agree in everything but their connected clients.
    pub open spec fn same_game(&self, other: &Room) -> bool {
        &&& self.name() == other.name()
        &&& self.settings() == other.settings()
        &&& self.phase() == other.phase()
        &&& self.roster() == other.roster()
        &&& self.ballots() == other.ballots()
        &&& self.clock() == other.clock()
    }

    /// What holds of every room between two commands.
    ///
    /// The configuration is valid.  No two players share an id and there
    /// are no more players than seats.  Whoever is marked by the phase
    /// (ready, confirmed, voted) is a player.  In the lobby nobody holds
    /// a role or a word.  Votes exist only from the
    /// vote on; each voter has one, voter and target are players, and
    /// during the vote the voters are exactly the players marked as
    /// having voted.  Once the game has started every player holds a
    /// role and a word and the wolves are as many as configured.  While
    /// the discussion runs its start is known, and so is the start of
    /// the vote while the vote runs.
    pub closed spec fn wf(&self) -> bool {
        &&& self.config.valid()
        &&& self.state.wf()
        &&& distinct_ids(self.players@)
        &&& self.players@.len() <= self.config.max_players
        &&& forall|id: Seq<char>| #[trigger]
            self.state.marked().contains(id) ==> has_player(self.players@, id)
        &&& self.state.stage() < 3 ==> self.votes@.len() == 0
        &&& distinct_voters(self.votes@)
        &&& forall|k: int|
            0 <= k < self.votes@.len() ==> has_player(self.players@, (#[trigger] self.votes@[k]).voter@)
                && has_player(self.players@, self.votes@[k].target@)
        &&& self.state is Voting ==> forall|id: Seq<char>| #[trigger]
            self.state.marked().contains(id) <==> has_voted(self.votes@, id)
        &&& self.state.stage() >= 1 ==> {
            &&& with_role(self.players@, Role::Wolf) == self.config.wolf_count
            &&& self.players@.len() > self.config.wolf_count
            &&& forall|i: int|
                0 <= i < self.players@.len() ==> (#[trigger] self.players@[i])@.role is Some
                    && self.players@[i]@.theme is Some
        }
        &&& self.state is Lobby ==> forall|i: int|
            0 <= i < self.players@.len() ==> (#[trigger] self.players@[i])@.role is None
                && self.players@[i]@.theme is None && self.players@[i]@.active
        &&& self.state is Discussion ==> self.discussion_started_at is Some
        &&& self.state is Voting ==> self.voting_started_at is Some
    }

    /// A player holds a role exactly if they hold a word: both are dealt
    /// together when the game starts.
    pub proof fn role_and_word_go_together(&self, i: int)
        requires
            self.wf(),
            0 <= i < self.roster().len(),
        ensures
            self.roster()[i]@.role is Some <==> self.roster()[i]@.theme is Some,
            self.phase() is Lobby ==> self.roster()[i]@.role is None,
            !(self.phase() is Lobby) ==> self.roster()[i]@.role is Some,
    {
    }

    /// Once the game has started there are exactly as many wolves as the
    /// room is configured for, everybody else is a citizen, and every
    /// player holds a word.
    pub proof fn wolves_as_configured(&self)
        requires
            self.wf(),
            self.phase().stage() >= 1,
        ensures
            with_role(self.roster(), Role::Wolf) == self.settings().wolf_count,
            with_role(self.roster(), Role::Citizen) == self.roster().len()
                - self.settings().wolf_count,
            forall|i: int|
                0 <= i < self.roster().len() ==> (#[trigger] self.roster()[i])@.role is Some
                    && self.roster()[i]@.theme is Some,
    {
        citizens_are_the_rest(self.players@);
    }

    /// A vote always comes from a player of the room and names one.
    pub proof fn votes_name_players(&self, k: int)
        requires
            self.wf(),
            0 <= k < self.ballots().len(),
        ensures
            has_player(self.roster(), self.ballots()[k].voter@),
            has_player(self.roster(), self.ballots()[k].target@),
    {
    }

    /// The room is never over-full, its configuration is valid, and its
    /// players have different ids.
    pub proof fn room_is_sound(&self)
        requires
            self.wf(),
        ensures
            self.settings().valid(),
            self.roster().len() <= self.settings().max_players,
            distinct_ids(self.roster()),
            self.phase().wf(),
    {
    }

    /// Creates an empty room in the lobby, if the configuration is valid.
    pub fn new(id: RoomId, config: RoomConfig) -> (r: Result<Self, GameError>)
        ensures
            r is Ok <==> config.valid(),
            r is Err ==> r->Err_0 == GameError::InvalidConfig,
            r is Ok ==> {
                let room = r->Ok_0;
                &&& room.wf()
                &&& room.name() == id@
                &&& room.settings() == config
                &&& room.phase() is Lobby
                &&& room.phase().marked() == Set::<Seq<char>>::empty()
                &&& room.roster().len() == 0
                &&& room.ballots().len() == 0
                &&& room.sinks().len() == 0
                &&& room.clock() == (Clocks { discussion: None, voting: None })
                &&& room.sent().len() == 0
            },
    {
        match config.validate() {
            Ok(()) => {},
            Err(_) => {
                return Err(GameError::InvalidConfig);
            },
        }
        let room = Room {
            id,
            config,
            state: GameState::new(),
            players: Vec::new(),
            senders: Vec::new(),
            votes: Vec::new(),
            discussion_started_at: None,
            voting_started_at: None,
            sent: Vec::new(),
        };
        Ok(room)
    }

    pub fn id(&self) -> (id: &RoomId)
        ensures
            id@ == self.name(),
    {
        &self.id
    }

    pub fn config(&self) -> (config: &RoomConfig)
        ensures
            *config == self.settings(),
    {
        &self.config
    }

    pub fn state(&self) -> (state: &GameState)
        ensures
            *state == self.phase(),
    {
        &self.state
    }

    pub fn players(&self) -> (players: &Vec<Player>)
        ensures
            players@ == self.roster(),
    {
        &self.players
    }

    pub fn player_count(&self) -> (n: usize)
        ensures
            n == self.roster().len(),
    {
        self.players.len()
    }

    /// Whether every seat is taken.
    pub fn is_full(&self) -> (b: bool)
        ensures
            b == (self.roster().len() >= self.settings().max_players),
    {
        self.players.len() >= self.config.max_players
    }

    /// What the last command that changed the room offered to the
    /// clients, in the order in which it was offered.
    pub fn last_sent(&self) -> (sent: &Vec<String>)
        ensures
            texts(sent@) == self.sent(),
    {
        &self.sent
    }

    /// The number of connected clients.
    pub fn sender_count(&self) -> (n: usize)
        ensures
            n == self.sinks().len(),
    {
        self.senders.len()
    }

    /// The position of the player with the id `id`.
    fn find_player(&self, id: &PlayerId) -> (r: Option<usize>)
        ensures
            match r {
                Some(i) => i < self.players@.len() && self.players@[i as int]@.id == id@,
                None => !has_player(self.players@, id@),
            },
    {
        let mut i: usize = 0;
        while i < self.players.len()
            invariant
                i <= self.players.len(),
                forall|j: int| 0 <= j < i ==> (#[trigger] self.players@[j])@.id != id@,
            decreases self.players.len() - i,
        {
            if *self.players[i].id() == *id {
                return Some(i);
            }
            i = i + 1;
        }
        None
    }

    /// Whether a player with the id `id` is in the room.
    pub fn has_player(&self, id: &PlayerId) -> (b: bool)
        ensures
            b == has_player(self.roster(), id@),
    {
        self.find_player(id).is_some()
    }

    /// What taking in a player makes of a room, and what the room answers.
    ///
    /// The room takes the id and the name of the player.  Whoever enters
    /// is in the game and holds neither role nor word, whatever the
    /// player handed in held.
    pub open spec fn player_added(
        before: &Room,
        after: &Room,
        player: Player,
        r: Result<(), GameError>,
    ) -> bool {
        &&& r == (if before.roster().len() >= before.settings().max_players {
            Err::<(), GameError>(GameError::RoomFull)
        } else if !(before.phase() is Lobby) {
            Err(GameError::InvalidPhase)
        } else {
            Ok(())
        })
        &&& r is Err ==> *after == *before
        &&& r is Ok ==> {
            &&& exists|entered: Player| #[trigger]
                player_joined(before.roster(), after.roster(), entered) && entered@ == newcomer(
                    player@.id,
                    player@.name,
                )
            &&& after.name() == before.name()
            &&& after.settings() == before.settings()
            &&& after.phase() == before.phase()
            &&& after.ballots() == before.ballots()
            &&& after.clock() == before.clock()
            &&& pruned(before.sinks(), after.sinks())
            &&& after.sent() == seq![joined_text(player@.id), after.snapshot()]
        }
    }

    /// Takes a player into the room.  A player with the id of one who is
    /// there already takes that one's place.  A full room takes nobody,
    /// and nobody joins after the lobby.
    pub fn add_player(&mut self, player: Player) -> (r: Result<(), GameError>)
        requires
            old(self).wf(),
        ensures
            final(self).wf(),
            final(self).advanced_from(old(self)),
            Room::player_added(old(self), final(self), player, r),
    {
        if self.is_full() {
            return Err(GameError::RoomFull);
        }
        if !self.state.is_lobby() {
            return Err(GameError::InvalidPhase);
        }
        let player_id = player.id().clone();
        let fresh = Player::new(player_id.clone(), player.name().to_string());
        let ghost entered = fresh;
        assert(entered@ == newcomer(player@.id, player@.name));
        let ghost before = self.players@;
        match self.find_player(&player_id) {
            Some(i) => {
                self.players.set(i, fresh);
                proof {
                    assert forall|id: Seq<char>| has_player(before, id) implies has_player(
                        self.players@,
                        id,
                    ) by {
                        let j = choose|j: int| 0 <= j < before.len() && (#[trigger] before[j])@.id == id;
                        assert(self.players@[j]@.id == id);
                    }
                }
            },
            None => {
                self.players.push(fresh);
                proof {
                    assert forall|id: Seq<char>| has_player(before, id) implies has_player(
                        self.players@,
                        id,
                    ) by {
                        let j = choose|j: int| 0 <= j < before.len() && (#[trigger] before[j])@.id == id;
                        assert(self.players@[j]@.id == id);
                    }
                    assert(self.players@.drop_last() == before);
                }
            },
        }
        self.begin_announcing();
        let message = messages::player_joined(player_id.as_str());
        self.broadcast(message.as_str(), Ghost(old(self).senders@));
        self.broadcast_snapshot(Ghost(old(self).senders@));
        assert(player_joined(old(self).roster(), self.roster(), entered));
        assert(self.sent() =~= seq![joined_text(player@.id), self.snapshot()]);
        Ok(())
    }

    /// What letting a player go makes of a room, and what the room answers.
    pub open spec fn player_removed(before: &Room, after: &Room, player_id: Seq<char>, r: Result<(), GameError>) -> bool {
        &&& r == (if !has_player(before.roster(), player_id) {
            Err::<(), GameError>(GameError::NotFound)
        } else if !(before.phase() is Lobby) {
            Err(GameError::InvalidPhase)
        } else {
            Ok(())
        })
        &&& r is Err ==> *after == *before
        &&& r is Ok ==> {
            &&& player_left(before.roster(), after.roster(), player_id)
            &&& after.name() == before.name()
            &&& after.settings() == before.settings()
            &&& after.phase() is Lobby
            &&& after.phase().marked() == before.phase().marked().remove(player_id)
            &&& after.ballots() == before.ballots()
            &&& after.clock() == before.clock()
            &&& pruned(before.sinks(), after.sinks())
            &&& after.sent() == seq![left_text(player_id), after.snapshot()]
        }
    }

    /// Takes a player out of the room and forgets that they were ready.
    /// Only the lobby lets players go.
    pub fn remove_player(&mut self, player_id: &PlayerId) -> (r: Result<(), GameError>)
        requires
            old(self).wf(),
        ensures
            final(self).wf(),
            final(self).advanced_from(old(self)),
            Room::player_removed(old(self), final(self), player_id@, r),
    {
        let i = match self.find_player(player_id) {
            Some(i) => i,
            None => {
                return Err(GameError::NotFound);
            },
        };
        if !self.state.is_lobby() {
            return Err(GameError::InvalidPhase);
        }
        let ghost before = self.players@;
        self.players.remove(i);
        self.state.unmark_player(player_id);
        proof {
            let after = self.players@;
            assert(after == before.remove(i as int));
            assert forall|a: int, b: int| 0 <= a < b < after.len() implies (#[trigger] after[a])@.id
                != (#[trigger] after[b])@.id by {
                let x = if a < i { a } else { a + 1 };
                let y = if b < i { b } else { b + 1 };
                assert(after[a] == before[x] && after[b] == before[y]);
            }
            assert forall|id: Seq<char>| #[trigger]
                self.state.marked().contains(id) implies has_player(after, id) by {
                assert(old(self).state.marked().contains(id));
                let x = choose|x: int| 0 <= x < before.len() && (#[trigger] before[x])@.id == id;
                let a = if x < i { x } else { x - 1 };
                assert(after[a] == before[x]);
            }
        }
        self.begin_announcing();
        let message = messages::player_left(player_id.as_str());
        self.broadcast(message.as_str(), Ghost(old(self).senders@));
        self.broadcast_snapshot(Ghost(old(self).senders@));
        assert(self.sent() =~= seq![left_text(player_id@), self.snapshot()]);
        Ok(())
    }

    /// Forgets what the last command offered to the clients: another
    /// command is about to speak.
    fn begin_announcing(&mut self)
        ensures
            final(self).id == old(self).id,
            final(self).config == old(self).config,
            final(self).state == old(self).state,
            final(self).players == old(self).players,
            final(self).votes == old(self).votes,
            final(self).senders == old(self).senders,
            final(self).discussion_started_at == old(self).discussion_started_at,
            final(self).voting_started_at == old(self).voting_started_at,
            final(self).sent().len() == 0,
            pruned(old(self).senders@, final(self).senders@),
    {
        self.sent.clear();
        proof {
            retained_all(self.senders@);
        }
    }

    /// Offers `message` to the connected clients, drops those that do
    /// not take it, and notes the message as sent.  The clients are
    /// what is left of `base`, and stay so.
    fn broadcast(&mut self, message: &str, Ghost(base): Ghost<Seq<Sender<String>>>)
        requires
            pruned(base, old(self).senders@),
        ensures
            final(self).id == old(self).id,
            final(self).config == old(self).config,
            final(self).state == old(self).state,
            final(self).players == old(self).players,
            final(self).votes == old(self).votes,
            final(self).discussion_started_at == old(self).discussion_started_at,
            final(self).voting_started_at == old(self).voting_started_at,
            final(self).sent() == old(self).sent().push(message@),
            pruned(base, final(self).senders@),
    {
        let ghost before = self.senders@;
        let ghost log = self.sent@;
        crate::rooms::hub::broadcast(&mut self.senders, message);
        self.sent.push(message.to_string());
        proof {
            pruned_transitive(base, before, self.senders@);
            assert(texts(self.sent@) =~= texts(log).push(message@));
        }
    }

    /// Offers the snapshot of the room to the connected clients.
    fn broadcast_snapshot(&mut self, Ghost(base): Ghost<Seq<Sender<String>>>)
        requires
            pruned(base, old(self).senders@),
        ensures
            final(self).id == old(self).id,
            final(self).config == old(self).config,
            final(self).state == old(self).state,
            final(self).players == old(self).players,
            final(self).votes == old(self).votes,
            final(self).discussion_started_at == old(self).discussion_started_at,
            final(self).voting_started_at == old(self).voting_started_at,
            final(self).sent() == old(self).sent().push(old(self).snapshot()),
            final(self).snapshot() == old(self).snapshot(),
            pruned(base, final(self).senders@),
    {
        let snapshot = self.get_state_snapshot();
        self.broadcast(snapshot.as_str(), Ghost(base));
    }

    /// Connects a client.
    pub fn add_sender(&mut self, sender: Sender<String>)
        ensures
            final(self).same_game(old(self)),
            final(self).sent() == old(self).sent(),
            final(self).sinks() == old(self).sinks().push(sender),
            old(self).wf() ==> final(self).wf(),
    {
        self.senders.push(sender);
    }

    /// What a declaration of readiness makes of a room, and what the room
    /// answers.
    ///
    /// A player who was ready already, while others are not, changes
    /// nothing and nothing is sent.  Otherwise the player is marked and
    /// the clients are told: when everybody is ready the game starts, or,
    /// with too few players for the wolves, more players are asked for.
    pub open spec fn readied(before: &Room, after: &Room, player_id: Seq<char>, r: Result<(), GameError>) -> bool {
        &&& r == (if !has_player(before.roster(), player_id) {
            Err::<(), GameError>(GameError::NotFound)
        } else if !(before.phase() is Lobby) {
            Err(GameError::InvalidPhase)
        } else {
            Ok(())
        })
        &&& r is Err ==> *after == *before
        &&& r is Ok ==> {
            let ready = before.phase().marked().insert(player_id);
            &&& pruned(before.sinks(), after.sinks())
            &&& if before.phase().marked().contains(player_id) && ready.len()
                != before.roster().len() {
                // Ready before, and still waiting for others: nothing happens.
                *after == *before
            } else if before.starts_with(ready) {
                &&& exists|wolves: Set<int>, words: (Seq<char>, Seq<char>)| #[trigger]
                    after.started_from(before, wolves, words) && wolves.finite()
                        && wolves.len() == before.settings().wolf_count
                        && builtin_themes(before.settings().theme_genre@).contains(words)
                &&& after.sent() == seq![
                    everyone_ready_text(),
                    game_started_text(),
                    after.snapshot(),
                ]
            } else {
                &&& after.phase() is Lobby
                &&& after.phase().marked() == ready
                &&& after.name() == before.name()
                &&& after.settings() == before.settings()
                &&& after.roster() == before.roster()
                &&& after.ballots() == before.ballots()
                &&& after.clock() == before.clock()
                &&& after.sent() == (if ready.len() == before.roster().len() {
                    seq![
                        more_needed_text(
                            (before.settings().wolf_count + 1 - before.roster().len()) as nat,
                            before.roster().len(),
                            before.settings().wolf_count as nat,
                            before.name(),
                        ),
                        after.snapshot(),
                    ]
                } else {
                    seq![after.snapshot()]
                })
            }
        }
    }

    /// A player who is ready and says so again, while others are not
    /// ready, changes nothing of the room, and nothing is sent.
    pub proof fn ready_again_changes_nothing(
        before: &Room,
        after: &Room,
        player_id: Seq<char>,
        r: Result<(), GameError>,
    )
        requires
            Room::readied(before, after, player_id, r),
            before.phase() is Lobby,
            has_player(before.roster(), player_id),
            before.phase().marked().contains(player_id),
            before.phase().marked().len() != before.roster().len(),
        ensures
            r is Ok,
            *after == *before,
    {
        assert(before.phase().marked().insert(player_id) =~= before.phase().marked());
    }

    /// Records that a player is ready.  When that makes everybody ready
    /// and the room holds more players than wolves, the game starts:
    /// roles and words are dealt at random and the players are asked to
    /// confirm their word.  From a player who is ready already, while
    /// others are not, the room takes the word and does nothing.
    pub fn mark_ready(&mut self, player_id: &PlayerId) -> (r: Result<(), GameError>)
        requires
            old(self).wf(),
        ensures
            final(self).wf(),
            final(self).advanced_from(old(self)),
            Room::readied(old(self), final(self), player_id@, r),
    {
        if self.find_player(player_id).is_none() {
            return Err(GameError::NotFound);
        }
        if !self.state.is_lobby() {
            return Err(GameError::InvalidPhase);
        }
        proof {
            if self.state.marked().contains(player_id@) {
                assert(self.state.marked().insert(player_id@) =~= self.state.marked());
            }
        }
        if self.state.is_marked(player_id) && !self.state.all_players_ready(self.players.len()) {
            proof {
                retained_all(self.senders@);
            }
            return Ok(());
        }
        let _ = self.state.mark_player_ready(player_id.clone());
        self.begin_announcing();
        if self.state.all_players_ready(self.players.len()) {
            if self.players.len() <= self.config.wolf_count {
                let needed = self.config.wolf_count + 1;
                let message = messages::more_players_needed(
                    needed - self.players.len(),
                    self.players.len(),
                    self.config.wolf_count,
                    self.id.as_str(),
                );
                self.broadcast(message.as_str(), Ghost(old(self).senders@));
                self.broadcast_snapshot(Ghost(old(self).senders@));
                assert(self.sent() =~= seq![message@, self.snapshot()]);
                return Ok(());
            }
            let message = messages::everyone_ready();
            self.broadcast(message.as_str(), Ghost(old(self).senders@));
            let ghost notified = *self;
            self.start_game(Ghost(old(self).senders@));
            proof {
                let (wolves, words) = choose|wolves: Set<int>, words: (Seq<char>, Seq<char>)| #[trigger]
                    self.started_from(&notified, wolves, words) && wolves.finite() && wolves.len()
                        == notified.settings().wolf_count && builtin_themes(
                        notified.settings().theme_genre@,
                    ).contains(words);
                assert(self.started_from(old(self), wolves, words));
                assert(self.sent() =~= seq![
                    everyone_ready_text(),
                    game_started_text(),
                    self.snapshot(),
                ]);
            }
            return Ok(());
        }
        self.broadcast_snapshot(Ghost(old(self).senders@));
        assert(self.sent() =~= seq![self.snapshot()]);
        Ok(())
    }

    /// Whether a room whose ready players are `ready` starts its game:
    /// everybody is ready and there are more players than wolves.
    pub open spec fn starts_with(&self, ready: Set<Seq<char>>) -> bool {
        ready.len() == self.roster().len() && self.roster().len() > self.settings().wolf_count
    }

    /// Whether this room is the room `before` with the game started: the
    /// players at the positions in `wolves` are wolves and hold the
    /// second of `words`, all others are citizens and hold the first;
    /// nobody has confirmed yet; everything else is as it was.
    pub open spec fn started_from(
        &self,
        before: &Room,
        wolves: Set<int>,
        words: (Seq<char>, Seq<char>),
    ) -> bool {
        &&& self.name() == before.name()
        &&& self.settings() == before.settings()
        &&& self.ballots() == before.ballots()
        &&& self.clock() == before.clock()
        &&& self.phase() is ThemeSubmission
        &&& self.phase().marked() == Set::<Seq<char>>::empty()
        &&& self.roster().len() == before.roster().len()
        &&& forall|i: int|
            0 <= i < self.roster().len() ==> (#[trigger] self.roster()[i])@ == (if wolves.contains(
                i,
            ) {
                PlayerView { role: Some(Role::Wolf), theme: Some(words.1), ..before.roster()[i]@ }
            } else {
                PlayerView { role: Some(Role::Citizen), theme: Some(words.0), ..before.roster()[i]@ }
            })
    }

    /// Deals the game and tells the clients that it has started.  The
    /// clients are what is left of `base`, and stay so.
    fn deal_game(
        &mut self,
        wolf_positions: &Vec<usize>,
        pair: &ThemePair,
        Ghost(base): Ghost<Seq<Sender<String>>>,
    ) -> (r: Result<(), GameError>)
        requires
            old(self).wf(),
            pruned(base, old(self).senders@),
            wolf_positions@.len() == old(self).settings().wolf_count,
            wolf_positions@.no_duplicates(),
            forall|k: int|
                0 <= k < wolf_positions@.len() ==> wolf_positions@[k] < old(self).roster().len(),
            old(self).roster().len() > old(self).settings().wolf_count,
        ensures
            final(self).wf(),
            final(self).advanced_from(old(self)),
            r == (if old(self).phase() is Lobby {
                Ok::<(), GameError>(())
            } else {
                Err(GameError::InvalidPhase)
            }),
            r is Err ==> *final(self) == *old(self),
            r is Ok ==> final(self).started_from(
                old(self),
                position_set(wolf_positions@),
                pair_texts(*pair),
            ) && pruned(base, final(self).sinks()) && final(self).sent() == old(self).sent().push(
                game_started_text(),
            ).push(final(self).snapshot()),
    {
        match self.state.transition_to_theme_submission() {
            Ok(()) => {},
            Err(e) => {
                return Err(e);
            },
        }
        let ghost before = self.players@;
        assign_roles_at(&mut self.players, wolf_positions);
        let ghost dealt = self.players@;
        assign_themes(&mut self.players, pair.citizen_theme.as_str(), pair.wolf_theme.as_str());
        proof {
            let after = self.players@;
            let wolves = position_set(wolf_positions@);
            let ints = wolf_positions@.map_values(|x: usize| x as int);
            assert(ints.no_duplicates()) by {
                assert forall|k: int, l: int| 0 <= k < ints.len() && 0 <= l < ints.len() && k != l
                    implies ints[k] != ints[l] by {
                    assert(wolf_positions@[k] != wolf_positions@[l]);
                }
            }
            ints.unique_seq_to_set();
            assert forall|x: int| wolves.contains(x) implies 0 <= x < dealt.len() by {
                let k = choose|k: int| 0 <= k < ints.len() && ints[k] == x;
                assert(wolf_positions@[k] < before.len());
            }
            wolves_counted(dealt, wolves);
            assert forall|i: int| 0 <= i < after.len() implies (#[trigger] after[i])@.role
                == dealt[i]@.role by {}
            with_role_same_roles(after, dealt, Role::Wolf);
            assert forall|i: int, j: int| 0 <= i < j < after.len() implies (#[trigger] after[i])@.id
                != (#[trigger] after[j])@.id by {
                assert(after[i]@.id == dealt[i]@.id && dealt[i]@.id == before[i]@.id);
                assert(after[j]@.id == dealt[j]@.id && dealt[j]@.id == before[j]@.id);
            }
            assert forall|i: int| 0 <= i < after.len() implies (#[trigger] after[i])@ == (
            if wolves.contains(i) {
                PlayerView { role: Some(Role::Wolf), theme: Some(pair.wolf_theme@), ..before[i]@ }
            } else {
                PlayerView {
                    role: Some(Role::Citizen),
                    theme: Some(pair.citizen_theme@),
                    ..before[i]@
                }
            }) by {
                assert(dealt[i]@.role == Some(
                    if wolves.contains(i) {
                        Role::Wolf
                    } else {
                        Role::Citizen
                    },
                ));
            }
        }
        let message = messages::game_started();
        self.broadcast(message.as_str(), Ghost(base));
        self.broadcast_snapshot(Ghost(base));
        Ok(())
    }

    /// Starts the game with the given deal: the players at
    /// `wolf_positions` become wolves and get the wolves' word of `pair`,
    /// all others become citizens and get the citizens' word.
    pub fn start_game_with(&mut self, wolf_positions: &Vec<usize>, pair: &ThemePair) -> (r: Result<
        (),
        GameError,
    >)
        requires
            old(self).wf(),
            wolf_positions@.len() == old(self).settings().wolf_count,
            wolf_positions@.no_duplicates(),
            forall|k: int|
                0 <= k < wolf_positions@.len() ==> wolf_positions@[k] < old(self).roster().len(),
            old(self).roster().len() > old(self).settings().wolf_count,
        ensures
            final(self).wf(),
            final(self).advanced_from(old(self)),
            r == (if old(self).phase() is Lobby {
                Ok::<(), GameError>(())
            } else {
                Err(GameError::InvalidPhase)
            }),
            r is Err ==> *final(self) == *old(self),
            r is Ok ==> final(self).started_from(
                old(self),
                position_set(wolf_positions@),
                pair_texts(*pair),
            ) && pruned(old(self).sinks(), final(self).sinks()) && final(self).sent() == seq![
                game_started_text(),
                final(self).snapshot(),
            ],
    {
        if !self.state.is_lobby() {
            return Err(GameError::InvalidPhase);
        }
        self.begin_announcing();
        let r = self.deal_game(wolf_positions, pair, Ghost(old(self).senders@));
        proof {
            assert(self.started_from(old(self), position_set(wolf_positions@), pair_texts(*pair)));
            assert(self.sent() =~= seq![game_started_text(), self.snapshot()]);
        }
        r
    }

    /// Starts the game: draws who the wolves are and which pair of words
    /// is played, deals them and tells the clients.  The clients are
    /// what is left of `base`, and stay so.
    fn start_game(&mut self, Ghost(base): Ghost<Seq<Sender<String>>>)
        requires
            old(self).wf(),
            old(self).phase() is Lobby,
            old(self).roster().len() > old(self).settings().wolf_count,
            pruned(base, old(self).senders@),
        ensures
            final(self).wf(),
            final(self).advanced_from(old(self)),
            pruned(base, final(self).sinks()),
            final(self).sent() == old(self).sent().push(game_started_text()).push(
                final(self).snapshot(),
            ),
            exists|wolves: Set<int>, words: (Seq<char>, Seq<char>)| #[trigger]
                final(self).started_from(old(self), wolves, words) && wolves.finite()
                    && wolves.len() == old(self).settings().wolf_count && builtin_themes(
                    old(self).settings().theme_genre@,
                ).contains(words),
    {
        let theme_db = ThemeDatabase::new();
        // The built-in themes cover every genre.
        assert(theme_db.texts_of(self.config.theme_genre@).len() == theme_db.pairs_of(
            self.config.theme_genre@,
        ).len());
        let pair = theme_db.get_random_theme(&self.config.theme_genre).unwrap();
        let wolf_positions = sample_indices(self.players.len(), self.config.wolf_count);
        let r = self.deal_game(&wolf_positions, &pair, Ghost(base));
        proof {
            if r is Ok {
                let genre = old(self).config.theme_genre@;
                let wolves = position_set(wolf_positions@);
                let words = pair_texts(pair);
                let ints = wolf_positions@.map_values(|x: usize| x as int);
                assert(ints.no_duplicates()) by {
                    assert forall|k: int, l: int|
                        0 <= k < ints.len() && 0 <= l < ints.len() && k != l implies ints[k]
                        != ints[l] by {
                        assert(wolf_positions@[k] != wolf_positions@[l]);
                    }
                }
                ints.unique_seq_to_set();
                let draw = choose|draw: usize| #[trigger]
                    theme_db.selected(genre, draw) == Some(words);
                if genre is Custom {
                    assert(builtin_themes(genre)[0] == words);
                } else {
                    let n = theme_db.pairs_of(genre).len() as int;
                    assert(theme_db.texts_of(genre) == builtin_themes(genre));
                    assert(builtin_themes(genre)[(draw as int) % n] == words);
                }
                assert(final(self).started_from(old(self), wolves, words));
            }
        }
    }

    /// What a confirmation makes of a room, and what the room answers.
    ///
    /// A player who had confirmed already, while others have not, changes
    /// nothing and nothing is sent.  Otherwise the player is marked and
    /// the clients are sent a snapshot; with the last confirmation the
    /// discussion begins.
    pub open spec fn confirmed(before: &Room, after: &Room, player_id: Seq<char>, r: Result<(), GameError>) -> bool {
        &&& r == (if !has_player(before.roster(), player_id) {
            Err::<(), GameError>(GameError::NotFound)
        } else if !(before.phase() is ThemeSubmission) {
            Err(GameError::InvalidPhase)
        } else {
            Ok(())
        })
        &&& r is Err ==> *after == *before
        &&& r is Ok ==> {
            let confirmed = before.phase().marked().insert(player_id);
            &&& pruned(before.sinks(), after.sinks())
            &&& after.name() == before.name()
            &&& after.settings() == before.settings()
            &&& after.roster() == before.roster()
            &&& after.ballots() == before.ballots()
            &&& if before.phase().marked().contains(player_id) && confirmed.len()
                != before.roster().len() {
                *after == *before
            } else if confirmed.len() == before.roster().len() {
                &&& after.phase() == (GameState::Discussion {
                    time_remaining: Some(before.settings().discussion_time),
                })
                &&& after.clock().discussion is Some
                &&& after.clock().voting == before.clock().voting
                &&& after.sent() == seq![
                    discussion_text(before.settings().discussion_time),
                    after.snapshot(),
                ]
            } else {
                &&& after.phase() is ThemeSubmission
                &&& after.phase().marked() == confirmed
                &&& after.clock() == before.clock()
                &&& after.sent() == seq![after.snapshot()]
            }
        }
    }

    /// A player who has confirmed and does so again, while others have
    /// not, changes nothing of the room, and nothing is sent.
    pub proof fn confirming_again_changes_nothing(
        before: &Room,
        after: &Room,
        player_id: Seq<char>,
        r: Result<(), GameError>,
    )
        requires
            Room::confirmed(before, after, player_id, r),
            before.phase() is ThemeSubmission,
            has_player(before.roster(), player_id),
            before.phase().marked().contains(player_id),
            before.phase().marked().len() != before.roster().len(),
        ensures
            r is Ok,
            *after == *before,
    {
        assert(before.phase().marked().insert(player_id) =~= before.phase().marked());
    }

    /// Records that a player has seen their word.  When everybody has,
    /// the discussion begins and its clock starts.  From a player who has
    /// confirmed already, while others have not, the room takes the word
    /// and does nothing.
    pub fn confirm_theme(&mut self, player_id: &PlayerId) -> (r: Result<(), GameError>)
        requires
            old(self).wf(),
        ensures
            final(self).wf(),
            final(self).advanced_from(old(self)),
            Room::confirmed(old(self), final(self), player_id@, r),
    {
        if self.find_player(player_id).is_none() {
            return Err(GameError::NotFound);
        }
        if !self.state.is_theme_submission() {
            return Err(GameError::InvalidPhase);
        }
        proof {
            if self.state.marked().contains(player_id@) {
                assert(self.state.marked().insert(player_id@) =~= self.state.marked());
            }
        }
        if self.state.is_marked(player_id) && !self.state.all_themes_confirmed(
            self.players.len(),
        ) {
            proof {
                retained_all(self.senders@);
            }
            return Ok(());
        }
        let _ = self.state.confirm_theme(player_id.clone());
        self.begin_announcing();
        if self.state.all_themes_confirmed(self.players.len()) {
            let _ = self.state.transition_to_discussion(self.config.discussion_time);
            self.discussion_started_at = Some(now());
            let message = messages::discussion_started(self.config.discussion_time);
            self.broadcast(message.as_str(), Ghost(old(self).senders@));
            self.broadcast_snapshot(Ghost(old(self).senders@));
            assert(self.sent() =~= seq![message@, self.snapshot()]);
        } else {
            self.broadcast_snapshot(Ghost(old(self).senders@));
            assert(self.sent() =~= seq![self.snapshot()]);
        }
        Ok(())
    }

    /// What opening the vote makes of a room, and what the room answers.
    pub open spec fn vote_opened(before: &Room, after: &Room, r: Result<(), GameError>) -> bool {
        &&& r == (if before.phase() is Discussion {
            Ok::<(), GameError>(())
        } else {
            Err(GameError::InvalidPhase)
        })
        &&& r is Err ==> *after == *before
        &&& r is Ok ==> {
            &&& after.phase() is Voting
            &&& after.phase().marked() == Set::<Seq<char>>::empty()
            &&& after.ballots().len() == 0
            &&& after.name() == before.name()
            &&& after.settings() == before.settings()
            &&& after.roster() == before.roster()
            &&& after.clock().discussion == before.clock().discussion
            &&& after.clock().voting is Some
            &&& pruned(before.sinks(), after.sinks())
            &&& after.sent() == seq![voting_text(), after.snapshot()]
        }
    }

    /// When the vote opens, by command or because the time to talk is
    /// up, the clients are told so and are sent a snapshot that shows
    /// the room voting, with the seconds it gives to vote.
    pub proof fn opened_vote_is_shown(before: &Room, after: &Room)
        requires
            Room::vote_opened(before, after, Ok(())),
        ensures
            after.sent() == seq![voting_text(), after.snapshot()],
            after.phase_word() == "voting"@,
            after.settings().voting_time == before.settings().voting_time,
            after.ballots().len() == 0,
    {
    }

    /// Opens the vote and starts its clock.  Only a discussion can be
    /// followed by a vote.
    pub fn start_voting(&mut self) -> (r: Result<(), GameError>)
        requires
            old(self).wf(),
        ensures
            final(self).wf(),
            final(self).advanced_from(old(self)),
            Room::vote_opened(old(self), final(self), r),
    {
        match self.state.transition_to_voting() {
            Ok(()) => {},
            Err(e) => {
                return Err(e);
            },
        }
        self.votes.clear();
        self.voting_started_at = Some(now());
        self.begin_announcing();
        let message = messages::voting_started();
        self.broadcast(message.as_str(), Ghost(old(self).senders@));
        self.broadcast_snapshot(Ghost(old(self).senders@));
        assert(self.sent() =~= seq![voting_text(), self.snapshot()]);
        Ok(())
    }

    /// Whether this room is what a vote with the outcome `out` makes of
    /// a room with the players `before`: the player voted out has left
    /// the game, the game is finished, the citizens have won exactly if
    /// that player was a wolf, and the wolves are named.
    pub open spec fn concluded_from(&self, before: Seq<Player>, out: Seq<char>) -> bool {
        &&& voted_out(self.ballots(), out)
        &&& player_eliminated(before, self.roster(), out)
        &&& self.phase() matches GameState::Finished { citizens_won, wolves }
        &&& citizens_won == is_wolf_id(before, out)
        &&& wolves@.map_values(|id: PlayerId| id@) == ids_with_role(self.roster(), Role::Wolf)
        &&& self.sent() == seq![
            eliminated_text(out, votes_for(self.ballots(), out)),
            game_over_text(citizens_won),
            self.snapshot(),
        ]
    }

    /// Whether this room is what a vote without votes makes of a room
    /// with the players `before`: nobody leaves the game, the game is
    /// finished, the citizens have not won, and the wolves are named.
    pub open spec fn unvoted_from(&self, before: Seq<Player>) -> bool {
        &&& self.roster() == before
        &&& self.phase() matches GameState::Finished { citizens_won, wolves }
        &&& !citizens_won
        &&& wolves@.map_values(|id: PlayerId| id@) == ids_with_role(self.roster(), Role::Wolf)
        &&& self.sent() == seq![nobody_voted_text(), game_over_text(false), self.snapshot()]
    }

    /// What the count of the votes makes of a room: the votes stay as
    /// they are; with votes, the player voted out leaves the game;
    /// without, nobody does; either way the game is finished.
    pub open spec fn vote_closed(before: &Room, after: &Room) -> bool {
        &&& before.phase() is Voting
        &&& after.name() == before.name()
        &&& after.settings() == before.settings()
        &&& after.ballots() == before.ballots()
        &&& after.clock() == before.clock()
        &&& pruned(before.sinks(), after.sinks())
        &&& if before.ballots().len() == 0 {
            after.unvoted_from(before.roster())
        } else {
            exists|out: Seq<char>| #[trigger] after.concluded_from(before.roster(), out)
        }
    }

    /// Whether the room takes a vote of `voter` for `target`: both must
    /// be players of the room, and the room must be voting.
    pub open spec fn vote_verdict(&self, voter: Seq<char>, target: Seq<char>) -> Result<
        (),
        GameError,
    > {
        if !has_player(self.roster(), voter) || !has_player(self.roster(), target) {
            Err(GameError::NotFound)
        } else if !(self.phase() is Voting) {
            Err(GameError::InvalidPhase)
        } else {
            Ok(())
        }
    }

    /// Once the votes are counted the game is finished, and a finished
    /// game takes no vote: the outcome stands.
    pub proof fn no_vote_after_the_count(&self, voter: Seq<char>, target: Seq<char>)
        requires
            self.phase() is Finished,
        ensures
            self.vote_verdict(voter, target) is Err,
    {
    }

    /// The position of the vote of `voter`.
    fn find_vote(&self, voter: &PlayerId) -> (r: Option<usize>)
        ensures
            match r {
                Some(k) => k < self.votes@.len() && self.votes@[k as int].voter@ == voter@,
                None => !has_voted(self.votes@, voter@),
            },
    {
        let mut k: usize = 0;
        while k < self.votes.len()
            invariant
                k <= self.votes.len(),
                forall|j: int| 0 <= j < k ==> (#[trigger] self.votes@[j]).voter@ != voter@,
            decreases self.votes.len() - k,
        {
            if self.votes[k].voter == *voter {
                return Some(k);
            }
            k = k + 1;
        }
        None
    }

    /// What a vote makes of a room, and what the room answers.
    pub open spec fn vote_taken(before: &Room, after: &Room, voter_id: Seq<char>, target_id: Seq<char>, r: Result<(), GameError>) -> bool {
        &&& r == before.vote_verdict(voter_id, target_id)
        &&& r is Err ==> *after == *before
        &&& r is Ok ==> {
            let voted = before.phase().marked().insert(voter_id);
            &&& pruned(before.sinks(), after.sinks())
            &&& after.name() == before.name()
            &&& after.settings() == before.settings()
            &&& after.clock() == before.clock()
            &&& vote_recorded(before.ballots(), after.ballots(), voter_id, target_id)
            &&& if voted.len() == before.roster().len() {
                exists|out: Seq<char>| #[trigger]
                    after.concluded_from(before.roster(), out)
            } else {
                &&& after.phase() is Voting
                &&& after.phase().marked() == voted
                &&& after.roster() == before.roster()
                &&& after.sent() == seq![after.snapshot()]
            }
        }
    }

    /// Records the vote of `voter_id` for `target_id`; a later vote of
    /// the same voter replaces the earlier one.  When everybody has
    /// voted, the votes are counted and the game ends.
    pub fn submit_vote(&mut self, voter_id: &PlayerId, target_id: &PlayerId) -> (r: Result<
        (),
        GameError,
    >)
        requires
            old(self).wf(),
        ensures
            final(self).wf(),
            final(self).advanced_from(old(self)),
            Room::vote_taken(old(self), final(self), voter_id@, target_id@, r),
    {
        if self.find_player(voter_id).is_none() {
            return Err(GameError::NotFound);
        }
        if self.find_player(target_id).is_none() {
            return Err(GameError::NotFound);
        }
        match self.state.record_vote(voter_id.clone()) {
            Ok(()) => {},
            Err(e) => {
                return Err(e);
            },
        }
        let ghost before = self.votes@;
        let vote = Vote { voter: voter_id.clone(), target: target_id.clone() };
        match self.find_vote(voter_id) {
            Some(k) => {
                self.votes.set(k, vote);
                proof {
                    let after = self.votes@;
                    assert forall|id: Seq<char>| has_voted(after, id) <==> has_voted(before, id) by {
                        if has_voted(after, id) {
                            let l = choose|l: int|
                                0 <= l < after.len() && (#[trigger] after[l]).voter@ == id;
                            assert(before[l].voter@ == id);
                        }
                        if has_voted(before, id) {
                            let l = choose|l: int|
                                0 <= l < before.len() && (#[trigger] before[l]).voter@ == id;
                            assert(after[l].voter@ == id);
                        }
                    }
                    assert(before[k as int].voter@ == voter_id@);
                    assert(old(self).state.marked().contains(voter_id@));
                    assert(self.state.marked() =~= old(self).state.marked());
                }
            },
            None => {
                self.votes.push(vote);
                proof {
                    let after = self.votes@;
                    assert(after.drop_last() == before);
                    assert forall|id: Seq<char>| has_voted(after, id) <==> (has_voted(before, id)
                        || id == voter_id@) by {
                        if has_voted(after, id) && id != voter_id@ {
                            let l = choose|l: int|
                                0 <= l < after.len() && (#[trigger] after[l]).voter@ == id;
                            assert(before[l].voter@ == id);
                        }
                        if has_voted(before, id) {
                            let l = choose|l: int|
                                0 <= l < before.len() && (#[trigger] before[l]).voter@ == id;
                            assert(after[l].voter@ == id);
                        }
                        if id == voter_id@ {
                            assert(after[before.len() as int].voter@ == id);
                        }
                    }
                    assert forall|k: int, l: int| 0 <= k < l < after.len() implies (
                    #[trigger] after[k]).voter@ != (#[trigger] after[l]).voter@ by {
                        if l == before.len() {
                            assert(before[k].voter@ != voter_id@);
                        }
                    }
                }
            },
        }
        self.begin_announcing();
        if self.state.all_players_voted(self.players.len()) {
            let ghost recorded = *self;
            self.tally_votes(Ghost(old(self).senders@));
            proof {
                let out = choose|out: Seq<char>| #[trigger]
                    self.concluded_from(recorded.roster(), out);
                assert(self.concluded_from(old(self).roster(), out));
            }
        } else {
            self.broadcast_snapshot(Ghost(old(self).senders@));
            assert(self.sent() =~= seq![self.snapshot()]);
        }
        Ok(())
    }

    /// Counts the votes and ends the game.  With votes, the player voted
    /// out leaves the game, and the citizens have won if that player was
    /// a wolf; without votes nobody leaves and the citizens have not
    /// won.  The clients are what is left of `base`, and stay so.
    fn tally_votes(&mut self, Ghost(base): Ghost<Seq<Sender<String>>>)
        requires
            old(self).wf(),
            old(self).phase() is Voting,
            old(self).sent().len() == 0,
            pruned(base, old(self).senders@),
        ensures
            final(self).wf(),
            final(self).advanced_from(old(self)),
            final(self).name() == old(self).name(),
            final(self).settings() == old(self).settings(),
            final(self).ballots() == old(self).ballots(),
            final(self).clock() == old(self).clock(),
            pruned(base, final(self).sinks()),
            if old(self).ballots().len() == 0 {
                final(self).unvoted_from(old(self).roster())
            } else {
                exists|out: Seq<char>| #[trigger] final(self).concluded_from(old(self).roster(), out)
            },
    {
        let ghost before = self.players@;
        if self.votes.len() == 0 {
            let message = messages::nobody_voted();
            self.broadcast(message.as_str(), Ghost(base));
            let wolf_ids = wolves_of(self.players.as_slice());
            let _ = self.state.transition_to_finished(false, wolf_ids);
            let message = messages::game_over(false);
            self.broadcast(message.as_str(), Ghost(base));
            self.broadcast_snapshot(Ghost(base));
            proof {
                assert(self.state.marked() =~= Set::<Seq<char>>::empty());
                assert(self.sent() =~= seq![
                    nobody_voted_text(),
                    game_over_text(false),
                    self.snapshot(),
                ]);
            }
            return ;
        }
        let result = tally_votes(self.votes.as_slice()).unwrap();
        let ghost out = result.eliminated_player@;
        proof {
            let i = choose|i: int|
                0 <= i < self.votes@.len() && (#[trigger] self.votes@[i]).target@ == out;
            assert(has_player(self.players@, self.votes@[i].target@));
        }
        // Votes name players of the room, so the player voted out is here.
        let at = self.find_player(&result.eliminated_player).unwrap();
        let eliminated_was_wolf = self.players[at].is_wolf();
        let mut player = self.players[at].clone();
        player.eliminate();
        self.players.set(at, player);
        let message = messages::player_eliminated(
            result.eliminated_player.as_str(),
            result.vote_count,
        );
        self.broadcast(message.as_str(), Ghost(base));
        let citizens_won = eliminated_was_wolf;
        let wolf_ids = wolves_of(self.players.as_slice());
        let _ = self.state.transition_to_finished(citizens_won, wolf_ids);
        let message = messages::game_over(citizens_won);
        self.broadcast(message.as_str(), Ghost(base));
        self.broadcast_snapshot(Ghost(base));
        proof {
            let after = self.players@;
            assert forall|i: int| 0 <= i < after.len() implies (#[trigger] after[i])@.role
                == before[i]@.role by {}
            with_role_same_roles(after, before, Role::Wolf);
            assert forall|id: Seq<char>| has_player(before, id) implies has_player(after, id) by {
                let j = choose|j: int| 0 <= j < before.len() && (#[trigger] before[j])@.id == id;
                assert(after[j]@.id == id);
            }
            assert forall|i: int| 0 <= i < before.len() implies (#[trigger] after[i])@ == (
            if before[i]@.id == out {
                PlayerView { active: false, ..before[i]@ }
            } else {
                before[i]@
            }) by {
                if i != at {
                    assert(before[i]@.id != before[at as int]@.id);
                }
            }
            assert(is_wolf_id(before, out) == eliminated_was_wolf) by {
                if is_wolf_id(before, out) {
                    let j = choose|j: int|
                        0 <= j < before.len() && (#[trigger] before[j])@.id == out
                            && before[j]@.role == Some(Role::Wolf);
                    assert(j == at);
                }
                if eliminated_was_wolf {
                    assert(before[at as int]@.id == out);
                }
            }
            assert(self.state.marked() =~= Set::<Seq<char>>::empty());
            assert(self.sent() =~= seq![
                eliminated_text(out, votes_for(self.votes@, out)),
                game_over_text(citizens_won),
                self.snapshot(),
            ]);
            assert(self.concluded_from(old(self).roster(), out));
        }
    }

    /// What a line of chat makes of a room, and what the room answers:
    /// the game stays as it is, the line is offered to the clients, and
    /// clients that do not take it leave.
    pub open spec fn chatted(
        before: &Room,
        after: &Room,
        player_name: Seq<char>,
        message: Seq<char>,
        r: Result<(), GameError>,
    ) -> bool {
        &&& r == (if before.phase() is Discussion {
            Ok::<(), GameError>(())
        } else {
            Err(GameError::InvalidPhase)
        })
        &&& r is Err ==> *after == *before
        &&& r is Ok ==> after.sent() == seq![chat_text(player_name, message)]
        &&& after.same_game(before)
        &&& pruned(before.sinks(), after.sinks())
    }

    /// Sends a line of chat to the connected clients.  Players chat
    /// during the discussion only.
    pub fn send_chat_message(&mut self, player_name: &str, message: &str) -> (r: Result<
        (),
        GameError,
    >)
        ensures
            Room::chatted(old(self), final(self), player_name@, message@, r),
            old(self).wf() ==> final(self).wf(),
    {
        if !self.state.is_discussion() {
            proof {
                retained_all(self.senders@);
            }
            return Err(GameError::InvalidPhase);
        }
        self.begin_announcing();
        let formatted = messages::chat_line(player_name, message);
        self.broadcast(formatted.as_str(), Ghost(old(self).senders@));
        assert(self.sent() =~= seq![chat_text(player_name@, message@)]);
        Ok(())
    }

    /// What is left of the discussion time when `elapsed` seconds have
    /// passed since it began; `None` outside the discussion and when the
    /// time passed is not known.
    pub open spec fn remaining(&self, elapsed: Option<u64>) -> Option<u64> {
        if self.phase() is Discussion && self.clock().discussion is Some && elapsed is Some {
            Some(time_left(self.settings().discussion_time, elapsed->Some_0))
        } else {
            None
        }
    }

    /// The seconds left of the discussion when `elapsed` seconds have
    /// passed since it began.
    pub fn remaining_after(&self, elapsed: Option<u64>) -> (left: Option<u64>)
        ensures
            left == self.remaining(elapsed),
    {
        if !self.state.is_discussion() {
            return None;
        }
        if self.discussion_started_at.is_none() {
            return None;
        }
        match elapsed {
            Some(elapsed_secs) => {
                let total_time = self.config.discussion_time;
                if elapsed_secs >= total_time {
                    Some(0)
                } else {
                    Some(total_time - elapsed_secs)
                }
            },
            None => None,
        }
    }

    /// The seconds left of the discussion by the system clock; `None`
    /// outside the discussion.
    pub fn get_remaining_time(&self) -> (left: Option<u64>)
        ensures
            exists|elapsed: Option<u64>| left == #[trigger] self.remaining(elapsed),
            !(self.phase() is Discussion) ==> left is None,
            left is Some ==> left->Some_0 <= self.settings().discussion_time,
    {
        let elapsed = match &self.discussion_started_at {
            Some(started_at) => seconds_since(started_at),
            None => None,
        };
        let left = self.remaining_after(elapsed);
        assert(left == self.remaining(elapsed));
        left
    }

    /// Opens the vote if `remaining` says that the time of the
    /// discussion is used up; says whether it did.
    pub fn auto_vote_when(&mut self, remaining: Option<u64>) -> (started: bool)
        requires
            old(self).wf(),
        ensures
            final(self).wf(),
            final(self).advanced_from(old(self)),
            started == (remaining == Some(0u64) && old(self).phase() is Discussion),
            !started ==> *final(self) == *old(self),
            started ==> Room::vote_opened(old(self), final(self), Ok(())),
    {
        match remaining {
            Some(left) => {
                if left == 0 {
                    return self.start_voting().is_ok();
                }
                false
            },
            None => false,
        }
    }

    /// Opens the vote if the time of the discussion is used up by the
    /// system clock; says whether it did.
    pub fn check_and_auto_vote(&mut self) -> (started: bool)
        requires
            old(self).wf(),
        ensures
            final(self).wf(),
            final(self).advanced_from(old(self)),
            !started ==> *final(self) == *old(self),
            started ==> Room::vote_opened(old(self), final(self), Ok(())),
    {
        let remaining = self.get_remaining_time();
        self.auto_vote_when(remaining)
    }

    /// What is left of the voting time when `elapsed` seconds have
    /// passed since the vote began; `None` outside the vote and when the
    /// time passed is not known.
    pub open spec fn voting_remaining(&self, elapsed: Option<u64>) -> Option<u64> {
        if self.phase() is Voting && self.clock().voting is Some && elapsed is Some {
            Some(time_left(self.settings().voting_time, elapsed->Some_0))
        } else {
            None
        }
    }

    /// The seconds left of the vote when `elapsed` seconds have passed
    /// since it began.
    pub fn voting_remaining_after(&self, elapsed: Option<u64>) -> (left: Option<u64>)
        ensures
            left == self.voting_remaining(elapsed),
    {
        if !self.state.is_voting() {
            return None;
        }
        if self.voting_started_at.is_none() {
            return None;
        }
        match elapsed {
            Some(elapsed_secs) => {
                let total_time = self.config.voting_time;
                if elapsed_secs >= total_time {
                    Some(0)
                } else {
                    Some(total_time - elapsed_secs)
                }
            },
            None => None,
        }
    }

    /// The seconds left of the vote by the system clock; `None` outside
    /// the vote.
    pub fn get_remaining_voting_time(&self) -> (left: Option<u64>)
        ensures
            exists|elapsed: Option<u64>| left == #[trigger] self.voting_remaining(elapsed),
            !(self.phase() is Voting) ==> left is None,
            left is Some ==> left->Some_0 <= self.settings().voting_time,
    {
        let elapsed = match &self.voting_started_at {
            Some(started_at) => seconds_since(started_at),
            None => None,
        };
        let left = self.voting_remaining_after(elapsed);
        assert(left == self.voting_remaining(elapsed));
        left
    }

    /// Counts the votes received so far and ends the game if
    /// `remaining` says that the time of the vote is used up; says
    /// whether it did.
    pub fn auto_finish_when(&mut self, remaining: Option<u64>) -> (finished: bool)
        requires
            old(self).wf(),
        ensures
            final(self).wf(),
            final(self).advanced_from(old(self)),
            finished == (remaining == Some(0u64) && old(self).phase() is Voting),
            !finished ==> *final(self) == *old(self),
            finished ==> Room::vote_closed(old(self), final(self)),
    {
        match remaining {
            Some(left) => {
                if left == 0 && self.state.is_voting() {
                    self.begin_announcing();
                    let ghost silent = *self;
                    self.tally_votes(Ghost(old(self).senders@));
                    proof {
                        if old(self).ballots().len() > 0 {
                            let out = choose|out: Seq<char>| #[trigger]
                                self.concluded_from(silent.roster(), out);
                            assert(self.concluded_from(old(self).roster(), out));
                        }
                    }
                    return true;
                }
                false
            },
            None => false,
        }
    }

    /// Counts the votes received so far and ends the game if the time
    /// of the vote is used up by the system clock; says whether it did.
    pub fn check_and_auto_finish(&mut self) -> (finished: bool)
        requires
            old(self).wf(),
        ensures
            final(self).wf(),
            final(self).advanced_from(old(self)),
            !finished ==> *final(self) == *old(self),
            finished ==> Room::vote_closed(old(self), final(self)),
    {
        let remaining = self.get_remaining_voting_time();
        self.auto_finish_when(remaining)
    }

    /// The word for the phase in a snapshot.
    pub open spec fn phase_word(&self) -> Seq<char> {
        match self.phase() {
            GameState::Lobby { .. } => "lobby"@,
            GameState::Discussion { .. } => "discussion"@,
            GameState::Voting { .. } => "voting"@,
            GameState::Finished { .. } => "finished"@,
            GameState::ThemeSubmission { .. } => "theme_submission"@,
        }
    }

    /// The text of a snapshot of the room: a JSON object with its id,
    /// the number of players, the number of seats, the phase, and the
    /// seconds the room gives to talk and to vote.
    pub open spec fn snapshot(&self) -> Seq<char> {
        "{\"room_id\":\""@ + self.name() + "\",\"player_count\":"@ + decimal_digits(
            self.roster().len(),
        ) + ",\"max_players\":"@ + decimal_digits(self.settings().max_players as nat)
            + ",\"state\":\""@ + self.phase_word() + "\",\"discussion_time\":"@ + decimal_digits(
            self.settings().discussion_time as nat,
        ) + ",\"voting_time\":"@ + decimal_digits(self.settings().voting_time as nat) + "}"@
    }

    /// A snapshot of the room as a JSON object: what the clients may
    /// see of it.
    pub fn get_state_snapshot(&self) -> (s: String)
        ensures
            s@ == self.snapshot(),
    {
        let mut s = String::from_str("{\"room_id\":\"");
        s.append(self.id.as_str());
        s.append("\",\"player_count\":");
        s.append(crate::text::decimal(self.players.len() as u64).as_str());
        s.append(",\"max_players\":");
        s.append(crate::text::decimal(self.config.max_players as u64).as_str());
        s.append(",\"state\":\"");
        if self.state.is_lobby() {
            s.append("lobby");
        } else if self.state.is_discussion() {
            s.append("discussion");
        } else if self.state.is_voting() {
            s.append("voting");
        } else if self.state.is_finished() {
            s.append("finished");
        } else {
            s.append("theme_submission");
        }
        s.append("\",\"discussion_time\":");
        s.append(crate::text::decimal(self.config.discussion_time).as_str());
        s.append(",\"voting_time\":");
        s.append(crate::text::decimal(self.config.voting_time).as_str());
        s.append("}");
        s
    }
}

} // verus!
