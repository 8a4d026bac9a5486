//! The phase state machine of one game.
//!
//! A game moves through five phases in a fixed order:
//! lobby, theme submission, discussion, voting, finished.  Each phase
//! carries the data that only makes sense while it lasts.

use crate::types::{GameError, PlayerId};
use vstd::prelude::*;

verus! {

/// A set of player ids.
#[derive(Debug)]
pub struct IdSet {
    ids: Vec<PlayerId>,
}

impl View for IdSet {
    type V = Set<Seq<char>>;

    closed spec fn view(&self) -> Set<Seq<char>> {
        self.texts().to_set()
    }
}

impl IdSet {
    spec fn texts(&self) -> Seq<Seq<char>> {
        self.ids@.map_values(|id: PlayerId| id@)
    }

    /// The representation invariant: every member is stored once.
    pub closed spec fn wf(&self) -> bool {
        self.texts().no_duplicates()
    }

    pub fn new() -> (s: Self)
        ensures
            s.wf(),
            s@ == Set::<Seq<char>>::empty(),
    {
        let s = IdSet { ids: Vec::new() };
        assert(s.texts() == Seq::<Seq<char>>::empty());
        assert(s@ =~= Set::<Seq<char>>::empty());
        s
    }

    /// Whether `id` is a member.
    pub fn contains(&self, id: &PlayerId) -> (b: bool)
        ensures
            b == self@.contains(id@),
    {
        let mut i: usize = 0;
        while i < self.ids.len()
            invariant
                i <= self.ids.len(),
                forall|j: int| 0 <= j < i ==> self.texts()[j] != id@,
            decreases self.ids.len() - i,
        {
            if self.ids[i] == *id {
                assert(self.texts()[i as int] == id@);
                return true;
            }
            i = i + 1;
        }
        false
    }

    /// Adds `id`; adding a member again changes nothing.
    pub fn insert(&mut self, id: PlayerId)
        requires
            old(self).wf(),
        ensures
            final(self).wf(),
            final(self)@ == old(self)@.insert(id@),
    {
        if !self.contains(&id) {
            let ghost before = self.texts();
            self.ids.push(id);
            assert(self.texts() == before.push(id@));
            assert(self@ =~= old(self)@.insert(id@)) by {
                assert forall|t: Seq<char>| self.texts().contains(t) <==> (before.contains(t) || t == id@) by {
                    if before.contains(t) {
                        let j = choose|j: int| 0 <= j < before.len() && before[j] == t;
                        assert(self.texts()[j] == t);
                    }
                    if t == id@ {
                        assert(self.texts()[before.len() as int] == t);
                    }
                }
            }
        } else {
            assert(self@ =~= old(self)@.insert(id@));
        }
    }

    /// Takes `id` out; taking out what is not a member changes nothing.
    pub fn remove(&mut self, id: &PlayerId)
        requires
            old(self).wf(),
        ensures
            final(self).wf(),
            final(self)@ == old(self)@.remove(id@),
    {
        let ghost before = self.texts();
        let mut i: usize = 0;
        while i < self.ids.len()
            invariant
                i <= self.ids.len(),
                self.ids == old(self).ids,
                before == old(self).texts(),
                old(self).wf(),
                forall|j: int| 0 <= j < i ==> before[j] != id@,
            decreases self.ids.len() - i,
        {
            if self.ids[i] == *id {
                assert(before[i as int] == id@);
                self.ids.remove(i);
                proof {
                    let after = self.texts();
                    assert(after == before.remove(i as int));
                    assert forall|a: int, b: int|
                        0 <= a < after.len() && 0 <= b < after.len() && a != b implies after[a]
                        != after[b] by {
                        let x = if a < i { a } else { a + 1 };
                        let y = if b < i { b } else { b + 1 };
                        assert(after[a] == before[x] && after[b] == before[y]);
                    }
                    assert(self@ =~= old(self)@.remove(id@)) by {
                        assert forall|t: Seq<char>| after.contains(t) <==> (before.contains(t) && t
                            != id@) by {
                            if after.contains(t) {
                                let a = choose|a: int| 0 <= a < after.len() && after[a] == t;
                                let x = if a < i { a } else { a + 1 };
                                assert(before[x] == t);
                            }
                            if before.contains(t) && t != id@ {
                                let x = choose|x: int| 0 <= x < before.len() && before[x] == t;
                                let a = if x < i { x } else { x - 1 };
                                assert(after[a] == t);
                            }
                        }
                    }
                }
                return ;
            }
            i = i + 1;
        }
        assert(self@ =~= old(self)@.remove(id@));
    }

    /// The number of members.
    pub fn len(&self) -> (n: usize)
        requires
            self.wf(),
        ensures
            n == self@.len(),
            self@.finite(),
    {
        proof {
            self.texts().unique_seq_to_set();
        }
        self.ids.len()
    }
}

/// The state of a game: its phase and the data of that phase.
#[derive(Debug)]
pub enum GameState {
    /// Players gather and declare themselves ready.
    Lobby { ready_players: IdSet },
    /// Words have been dealt; players confirm that they have seen theirs.
    ThemeSubmission { confirmed_players: IdSet },
    /// Players talk.
    Discussion {
        /// The seconds the discussion was given when it began.
        time_remaining: Option<u64>,
    },
    /// Players vote on who the wolf is.
    Voting { voted_players: IdSet },
    /// The game is over.
    Finished {
        /// Whether the citizens found a wolf.
        citizens_won: bool,
        /// The players who were wolves.
        wolves: Vec<PlayerId>,
    },
}

/// Whether a game may go from the phase numbered `from` directly to the
/// phase numbered `to`: each phase leads to the next one only.
pub open spec fn next_stage(from: nat, to: nat) -> bool {
    to == from + 1 && to <= 4
}

impl GameState {
    /// The position of the phase in the order of play, from 0 for the
    /// lobby to 4 for a finished game.
    pub open spec fn stage(&self) -> nat {
        match *self {
            GameState::Lobby { .. } => 0,
            GameState::ThemeSubmission { .. } => 1,
            GameState::Discussion { .. } => 2,
            GameState::Voting { .. } => 3,
            GameState::Finished { .. } => 4,
        }
    }

    /// Whether this state is in the phase of `before` or in the one
    /// that follows it in the order of play.
    pub open spec fn follows(&self, before: &GameState) -> bool {
        self.stage() == before.stage() || next_stage(before.stage(), self.stage())
    }

    /// The players recorded by the current phase: those ready in the
    /// lobby, those who confirmed their word, those who voted.
    pub open spec fn marked(&self) -> Set<Seq<char>> {
        match *self {
            GameState::Lobby { ready_players } => ready_players@,
            GameState::ThemeSubmission { confirmed_players } => confirmed_players@,
            GameState::Voting { voted_players } => voted_players@,
            _ => Set::empty(),
        }
    }

    /// The representation invariant of the phase data.
    pub open spec fn wf(&self) -> bool {
        match *self {
            GameState::Lobby { ready_players } => ready_players.wf(),
            GameState::ThemeSubmission { confirmed_players } => confirmed_players.wf(),
            GameState::Voting { voted_players } => voted_players.wf(),
            _ => true,
        }
    }

    /// A game in the lobby with nobody ready.
    pub fn new() -> (s: Self)
        ensures
            s is Lobby,
            s.wf(),
            s.marked() == Set::<Seq<char>>::empty(),
    {
        GameState::Lobby { ready_players: IdSet::new() }
    }

    pub fn is_lobby(&self) -> (b: bool)
        ensures
            b == (self is Lobby),
    {
        matches!(self, GameState::Lobby { .. })
    }

    pub fn is_theme_submission(&self) -> (b: bool)
        ensures
            b == (self is ThemeSubmission),
    {
        matches!(self, GameState::ThemeSubmission { .. })
    }

    pub fn is_discussion(&self) -> (b: bool)
        ensures
            b == (self is Discussion),
    {
        matches!(self, GameState::Discussion { .. })
    }

    pub fn is_voting(&self) -> (b: bool)
        ensures
            b == (self is Voting),
    {
        matches!(self, GameState::Voting { .. })
    }

    pub fn is_finished(&self) -> (b: bool)
        ensures
            b == (self is Finished),
    {
        matches!(self, GameState::Finished { .. })
    }

    /// Leaves the lobby: nobody has confirmed a word yet.
    pub fn transition_to_theme_submission(&mut self) -> (r: Result<(), GameError>)
        ensures
            final(self).follows(old(self)),
            *old(self) is Lobby ==> r is Ok && *final(self) is ThemeSubmission
                && final(self).marked() == Set::<Seq<char>>::empty() && final(self).wf(),
            !(*old(self) is Lobby) ==> r == Err::<(), GameError>(GameError::InvalidPhase)
                && *final(self) == *old(self),
    {
        match self {
            GameState::Lobby { .. } => {
                *self = GameState::ThemeSubmission { confirmed_players: IdSet::new() };
                Ok(())
            },
            _ => Err(GameError::InvalidPhase),
        }
    }

    /// Opens the discussion with `seconds` seconds on the clock.
    pub fn transition_to_discussion(&mut self, seconds: u64) -> (r: Result<(), GameError>)
        ensures
            final(self).follows(old(self)),
            *old(self) is ThemeSubmission ==> r is Ok && *final(self) == (GameState::Discussion {
                time_remaining: Some(seconds),
            }),
            !(*old(self) is ThemeSubmission) ==> r == Err::<(), GameError>(GameError::InvalidPhase)
                && *final(self) == *old(self),
    {
        match self {
            GameState::ThemeSubmission { .. } => {
                *self = GameState::Discussion { time_remaining: Some(seconds) };
                Ok(())
            },
            _ => Err(GameError::InvalidPhase),
        }
    }

    /// Opens the vote: nobody has voted yet.
    pub fn transition_to_voting(&mut self) -> (r: Result<(), GameError>)
        ensures
            final(self).follows(old(self)),
            *old(self) is Discussion ==> r is Ok && *final(self) is Voting
                && final(self).marked() == Set::<Seq<char>>::empty() && final(self).wf(),
            !(*old(self) is Discussion) ==> r == Err::<(), GameError>(GameError::InvalidPhase)
                && *final(self) == *old(self),
    {
        match self {
            GameState::Discussion { .. } => {
                *self = GameState::Voting { voted_players: IdSet::new() };
                Ok(())
            },
            _ => Err(GameError::InvalidPhase),
        }
    }

    /// Ends the game with its outcome.
    pub fn transition_to_finished(&mut self, citizens_won: bool, wolves: Vec<PlayerId>) -> (r:
        Result<(), GameError>)
        ensures
            final(self).follows(old(self)),
            *old(self) is Voting ==> r is Ok && *final(self) == (GameState::Finished {
                citizens_won,
                wolves,
            }),
            !(*old(self) is Voting) ==> r == Err::<(), GameError>(GameError::InvalidPhase)
                && *final(self) == *old(self),
    {
        match self {
            GameState::Voting { .. } => {
                *self = GameState::Finished { citizens_won, wolves };
                Ok(())
            },
            _ => Err(GameError::InvalidPhase),
        }
    }

    /// Records that a player is ready.  Only the lobby takes this.
    pub fn mark_player_ready(&mut self, player_id: PlayerId) -> (r: Result<(), GameError>)
        requires
            old(self).wf(),
        ensures
            final(self).follows(old(self)),
            final(self).wf(),
            *old(self) is Lobby ==> r is Ok && *final(self) is Lobby
                && final(self).marked() == old(self).marked().insert(player_id@),
            !(*old(self) is Lobby) ==> r == Err::<(), GameError>(GameError::InvalidPhase)
                && *final(self) == *old(self),
    {
        match self {
            GameState::Lobby { ready_players } => {
                ready_players.insert(player_id);
                Ok(())
            },
            _ => Err(GameError::InvalidPhase),
        }
    }

    /// Whether the current phase has recorded the player: as ready, as
    /// having confirmed, or as having voted.
    pub fn is_marked(&self, player_id: &PlayerId) -> (b: bool)
        ensures
            b == self.marked().contains(player_id@),
    {
        match self {
            GameState::Lobby { ready_players } => ready_players.contains(player_id),
            GameState::ThemeSubmission { confirmed_players } => confirmed_players.contains(
                player_id,
            ),
            GameState::Voting { voted_players } => voted_players.contains(player_id),
            _ => false,
        }
    }

    /// Forgets what the current phase has recorded of a player: that
    /// they are ready, have confirmed, or have voted.
    pub fn unmark_player(&mut self, player_id: &PlayerId)
        requires
            old(self).wf(),
        ensures
            final(self).follows(old(self)),
            final(self).wf(),
            final(self).stage() == old(self).stage(),
            final(self).marked() == old(self).marked().remove(player_id@),
            old(self) matches GameState::Discussion { .. } ==> *final(self) == *old(self),
            old(self) matches GameState::Finished { .. } ==> *final(self) == *old(self),
    {
        match self {
            GameState::Lobby { ready_players } => {
                ready_players.remove(player_id);
            },
            GameState::ThemeSubmission { confirmed_players } => {
                confirmed_players.remove(player_id);
            },
            GameState::Voting { voted_players } => {
                voted_players.remove(player_id);
            },
            _ => {
                assert(self.marked() =~= old(self).marked().remove(player_id@));
            },
        }
    }

    /// Whether the game is in the lobby with exactly `total_players`
    /// players ready.
    pub fn all_players_ready(&self, total_players: usize) -> (b: bool)
        requires
            self.wf(),
        ensures
            b == (self is Lobby && self.marked().len() == total_players),
    {
        match self {
            GameState::Lobby { ready_players } => ready_players.len() == total_players,
            _ => false,
        }
    }

    /// Records that a player has seen their word.  Only theme submission
    /// takes this.
    pub fn confirm_theme(&mut self, player_id: PlayerId) -> (r: Result<(), GameError>)
        requires
            old(self).wf(),
        ensures
            final(self).follows(old(self)),
            final(self).wf(),
            *old(self) is ThemeSubmission ==> r is Ok && *final(self) is ThemeSubmission
                && final(self).marked() == old(self).marked().insert(player_id@),
            !(*old(self) is ThemeSubmission) ==> r == Err::<(), GameError>(GameError::InvalidPhase)
                && *final(self) == *old(self),
    {
        match self {
            GameState::ThemeSubmission { confirmed_players } => {
                confirmed_players.insert(player_id);
                Ok(())
            },
            _ => Err(GameError::InvalidPhase),
        }
    }

    /// Whether the game is in theme submission with exactly
    /// `total_players` confirmations.
    pub fn all_themes_confirmed(&self, total_players: usize) -> (b: bool)
        requires
            self.wf(),
        ensures
            b == (self is ThemeSubmission && self.marked().len() == total_players),
    {
        match self {
            GameState::ThemeSubmission { confirmed_players } => confirmed_players.len()
                == total_players,
            _ => false,
        }
    }

    /// Records that a player has voted.  Only voting takes this.
    pub fn record_vote(&mut self, player_id: PlayerId) -> (r: Result<(), GameError>)
        requires
            old(self).wf(),
        ensures
            final(self).follows(old(self)),
            final(self).wf(),
            *old(self) is Voting ==> r is Ok && *final(self) is Voting
                && final(self).marked() == old(self).marked().insert(player_id@),
            !(*old(self) is Voting) ==> r == Err::<(), GameError>(GameError::InvalidPhase)
                && *final(self) == *old(self),
    {
        match self {
            GameState::Voting { voted_players } => {
                voted_players.insert(player_id);
                Ok(())
            },
            _ => Err(GameError::InvalidPhase),
        }
    }

    /// Whether the game is in voting with exactly `total_players` votes.
    pub fn all_players_voted(&self, total_players: usize) -> (b: bool)
        requires
            self.wf(),
        ensures
            b == (self is Voting && self.marked().len() == total_players),
    {
        match self {
            GameState::Voting { voted_players } => voted_players.len() == total_players,
            _ => false,
        }
    }
}

impl Default for GameState {
    fn default() -> (s: Self)
        ensures
            s is Lobby,
            s.wf(),
            s.marked() == Set::<Seq<char>>::empty(),
    {
        GameState::new()
    }
}

/// Marking a player twice leaves the same set as marking them once.
pub proof fn marking_twice_is_marking_once(marked: Set<Seq<char>>, id: Seq<char>)
    ensures
        marked.insert(id).insert(id) == marked.insert(id),
        marked.contains(id) ==> marked.insert(id) == marked,
{
    assert(marked.insert(id).insert(id) =~= marked.insert(id));
    if marked.contains(id) {
        assert(marked.insert(id) =~= marked);
    }
}

} // verus!
