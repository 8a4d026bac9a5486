//! The state of a game played with submitted keywords, and what of it
//! the clients may see.
//!
//! The server keeps the whole truth in a [`GameState`], the identity of
//! the wolf included.  What goes out to the clients is a [`PublicState`],
//! which names the wolf and the player voted out only once the result
//! is in.

use crate::types::GameError;
use std::collections::HashMap;
use vstd::prelude::*;

verus! {

/// A player of the game.
#[derive(Debug, PartialEq)]
pub struct Player {
    pub id: u32,
    /// How often the player may still speak.
    pub remaining_speak: u32,
    /// Whom the player has voted for.
    pub vote: Option<u32>,
    /// The word the player was dealt.
    pub topic: Option<String>,
}

impl Clone for Player {
    fn clone(&self) -> (p: Player)
        ensures
            p == *self,
    {
        Player {
            id: self.id,
            remaining_speak: self.remaining_speak,
            vote: self.vote,
            topic: match &self.topic {
                Some(t) => Some(t.clone()),
                None => None,
            },
        }
    }
}

/// The phases of a game, in the order of play.
#[derive(Debug, Clone, Copy, PartialEq, Eq, Structural)]
pub enum Phase {
    /// Players gather.
    Waiting,
    /// Players submit keywords.
    ThemeSelection,
    /// Players talk.
    Playing,
    /// Players vote.
    Voting,
    /// The result is shown.
    Result,
}

impl Phase {
    /// The position of the phase in the order of play, from 0 for
    /// waiting to 4 for the result.
    pub open spec fn stage(&self) -> nat {
        match *self {
            Phase::Waiting => 0,
            Phase::ThemeSelection => 1,
            Phase::Playing => 2,
            Phase::Voting => 3,
            Phase::Result => 4,
        }
    }
}

/// Whether a game may go from `from` directly to `to`: every phase leads
/// to the next one, and a reset leads back to waiting.
pub open spec fn may_follow(from: Phase, to: Phase) -> bool {
    to.stage() == from.stage() + 1 || to == Phase::Waiting
}

/// The whole state of a game, as the server knows it.
#[derive(Debug)]
pub struct GameState {
    pub phase: Phase,
    /// The players, in the order in which they joined.
    pub players: Vec<Player>,
    pub max_players: u32,
    /// How often each player may speak during a game.
    pub max_speak: u32,
    /// The seconds a discussion lasts.
    pub discussion_secs: i32,
    /// The seconds a vote lasts.
    pub voting_secs: i32,
    /// The genre the keywords are to be taken from.
    pub genre: String,
    pub wolf_id: Option<u32>,
    /// The player voted out.
    pub executed_id: Option<u32>,
    /// Seconds left to talk.
    pub remaining_time: i32,
    /// Seconds left to vote.
    pub voting_time: i32,
    /// Whether the villagers have found the wolf; unset until the result.
    pub is_villager_win: Option<bool>,
    /// Tells one game from the next: it changes with every start and
    /// every reset.
    pub game_id: u64,
}

/// What the clients see of a game.
#[derive(Debug)]
pub struct PublicState {
    pub phase: Phase,
    pub players: Vec<Player>,
    pub max_players: u32,
    pub max_speak: u32,
    /// Set only once the result is in.
    pub wolf_id: Option<u32>,
    pub genre: String,
    /// Set only once the result is in.
    pub executed_id: Option<u32>,
    pub remaining_time: i32,
    pub voting_time: i32,
    pub is_villager_win: Option<bool>,
    pub game_id: u64,
}

/// Whether a player with the id `id` is among `players`.
pub open spec fn joined(players: Seq<Player>, id: u32) -> bool {
    exists|i: int| 0 <= i < players.len() && (#[trigger] players[i]).id == id
}

/// Whether no two of `players` share an id.
pub open spec fn distinct_players(players: Seq<Player>) -> bool {
    forall|i: int, j: int|
        0 <= i < j < players.len() ==> (#[trigger] players[i]).id != (#[trigger] players[j]).id
}

/// The seconds a discussion lasts unless the game is set up otherwise.
pub const PLAYING_SECS: i32 = 30;

/// The seconds a vote lasts unless the game is set up otherwise.
pub const VOTING_SECS: i32 = 10;

impl GameState {
    /// A game that waits for players, with the usual time to talk and
    /// to vote: nobody has joined, nothing is known of wolf or result,
    /// and the clocks stand at zero.
    pub fn new(max_players: u32, max_speak: u32, game_id: u64) -> (g: Self)
        ensures
            g == (GameState {
                phase: Phase::Waiting,
                players: g.players,
                max_players,
                max_speak,
                discussion_secs: PLAYING_SECS,
                voting_secs: VOTING_SECS,
                genre: g.genre,
                wolf_id: None,
                executed_id: None,
                remaining_time: 0,
                voting_time: 0,
                is_villager_win: None,
                game_id,
            }),
            g.players@.len() == 0,
            g.genre@.len() == 0,
            g.wf(),
    {
        GameState {
            phase: Phase::Waiting,
            players: Vec::new(),
            max_players,
            max_speak,
            discussion_secs: PLAYING_SECS,
            voting_secs: VOTING_SECS,
            genre: String::new(),
            wolf_id: None,
            executed_id: None,
            remaining_time: 0,
            voting_time: 0,
            is_villager_win: None,
            game_id,
        }
    }

    /// A game that waits for players, with `discussion_secs` seconds to
    /// talk and `voting_secs` seconds to vote.  Both must be more than
    /// nothing.
    pub fn with_clocks(
        max_players: u32,
        max_speak: u32,
        discussion_secs: i32,
        voting_secs: i32,
        game_id: u64,
    ) -> (r: Result<Self, GameError>)
        ensures
            r is Ok <==> discussion_secs > 0 && voting_secs > 0,
            r is Err ==> r->Err_0 == GameError::InvalidConfig,
            r is Ok ==> {
                let g = r->Ok_0;
                &&& g == (GameState {
                    phase: Phase::Waiting,
                    players: g.players,
                    max_players,
                    max_speak,
                    discussion_secs,
                    voting_secs,
                    genre: g.genre,
                    wolf_id: None,
                    executed_id: None,
                    remaining_time: 0,
                    voting_time: 0,
                    is_villager_win: None,
                    game_id,
                })
                &&& g.players@.len() == 0
                &&& g.genre@.len() == 0
                &&& g.wf()
            },
    {
        if discussion_secs <= 0 || voting_secs <= 0 {
            return Err(GameError::InvalidConfig);
        }
        let mut game = GameState::new(max_players, max_speak, game_id);
        game.discussion_secs = discussion_secs;
        game.voting_secs = voting_secs;
        Ok(game)
    }

    /// What holds of a game between two commands: no two players share
    /// an id.
    pub open spec fn wf(&self) -> bool {
        distinct_players(self.players@)
    }

    /// The position of the player with the id `id`.
    pub fn find(&self, id: u32) -> (r: Option<usize>)
        ensures
            match r {
                Some(i) => i < self.players@.len() && self.players@[i as int].id == id,
                None => !joined(self.players@, id),
            },
    {
        let mut i: usize = 0;
        while i < self.players.len()
            invariant
                i <= self.players.len(),
                forall|j: int| 0 <= j < i ==> (#[trigger] self.players@[j]).id != id,
            decreases self.players.len() - i,
        {
            if self.players[i].id == id {
                return Some(i);
            }
            i = i + 1;
        }
        None
    }
}

/// What the clients may see of a player: never the word, and the vote
/// only once the result is in.
pub open spec fn shown_player(player: Player, phase: Phase) -> Player {
    Player {
        topic: None,
        vote: if phase == Phase::Result {
            player.vote
        } else {
            None
        },
        ..player
    }
}

/// What the clients may see of the players of a game.
pub fn shown_players(players: &Vec<Player>, phase: Phase) -> (shown: Vec<Player>)
    ensures
        shown@ == players@.map_values(|p: Player| shown_player(p, phase)),
{
    let mut shown: Vec<Player> = Vec::new();
    let mut i: usize = 0;
    while i < players.len()
        invariant
            i <= players.len(),
            shown@.len() == i,
            forall|j: int| 0 <= j < i ==> #[trigger] shown@[j] == shown_player(players@[j], phase),
        decreases players.len() - i,
    {
        let p = &players[i];
        shown.push(
            Player {
                id: p.id,
                remaining_speak: p.remaining_speak,
                vote: if phase == Phase::Result {
                    p.vote
                } else {
                    None
                },
                topic: None,
            },
        );
        i = i + 1;
    }
    assert(shown@ =~= players@.map_values(|p: Player| shown_player(p, phase)));
    shown
}

impl PublicState {
    /// Whether this is what the clients may see of `game`: the phase,
    /// the clocks and the settings; of the players neither their words
    /// nor, before the result, their votes; the wolf and the player
    /// voted out only once the result is in.
    pub open spec fn shows(&self, game: &GameState) -> bool {
        &&& self.phase == game.phase
        &&& self.players@ == game.players@.map_values(|p: Player| shown_player(p, game.phase))
        &&& self.max_players == game.max_players
        &&& self.max_speak == game.max_speak
        &&& self.genre == game.genre
        &&& self.remaining_time == game.remaining_time
        &&& self.voting_time == game.voting_time
        &&& self.is_villager_win == game.is_villager_win
        &&& self.game_id == game.game_id
        &&& self.wolf_id == (if game.phase == Phase::Result {
            game.wolf_id
        } else {
            None
        })
        &&& self.executed_id == (if game.phase == Phase::Result {
            game.executed_id
        } else {
            None
        })
    }
}

impl vstd::std_specs::convert::FromSpecImpl<&GameState> for PublicState {
    /// The projection is stated by `shows`, which tells what every
    /// field holds; it is not given as a value here.
    open spec fn obeys_from_spec() -> bool {
        false
    }

    open spec fn from_spec(g: &GameState) -> PublicState {
        choose|p: PublicState| p.shows(g)
    }
}

impl From<&GameState> for PublicState {
    /// The public projection of a game.
    fn from(g: &GameState) -> (p: PublicState)
        ensures
            p.shows(g),
    {
        let reveal_wolf = g.phase == Phase::Result;
        PublicState {
            phase: g.phase,
            players: shown_players(&g.players, g.phase),
            max_players: g.max_players,
            max_speak: g.max_speak,
            genre: g.genre.clone(),
            remaining_time: g.remaining_time,
            voting_time: g.voting_time,
            is_villager_win: g.is_villager_win,
            game_id: g.game_id,
            wolf_id: if reveal_wolf {
                g.wolf_id
            } else {
                None
            },
            executed_id: if reveal_wolf {
                g.executed_id
            } else {
                None
            },
        }
    }
}

/// A projection that is not of the result names neither the wolf nor
/// the player voted out, and no projection tells a player's word.
pub proof fn secrets_stay_hidden(p: PublicState, g: GameState)
    requires
        p.shows(&g),
    ensures
        p.phase != Phase::Result ==> p.wolf_id is None && p.executed_id is None,
        p.phase != Phase::Result ==> forall|i: int|
            0 <= i < p.players@.len() ==> (#[trigger] p.players@[i]).vote is None,
        forall|i: int| 0 <= i < p.players@.len() ==> (#[trigger] p.players@[i]).topic is None,
{
}

/// The numbering of connections: every client that connects gets the
/// next number.
#[derive(Debug)]
pub struct SharedStateInner {
    /// The connections and the players they stand for.
    pub connections: HashMap<usize, u32>,
    /// The number given out last, zero at the beginning.
    pub next_player_id: u32,
}

impl SharedStateInner {
    /// No connection yet, and no number given out.
    pub fn new() -> (s: Self)
        ensures
            s.connections@ == Map::<usize, u32>::empty(),
            s.next_player_id == 0,
    {
        SharedStateInner { connections: HashMap::new(), next_player_id: 0 }
    }

    /// Gives out the next number and notes the connection under it;
    /// `None` once all numbers are used up.
    pub fn connect(&mut self) -> (id: Option<u32>)
        ensures
            id == (if old(self).next_player_id < u32::MAX {
                Some((old(self).next_player_id + 1) as u32)
            } else {
                None
            }),
            id is None ==> *final(self) == *old(self),
            id is Some ==> final(self).next_player_id == id->Some_0 && final(self).connections@
                == old(self).connections@.insert(id->Some_0 as usize, id->Some_0),
    {
        if self.next_player_id == u32::MAX {
            return None;
        }
        self.next_player_id = self.next_player_id + 1;
        let id = self.next_player_id;
        self.connections.insert(id as usize, id);
        Some(id)
    }
}

} // verus!
