//! Types shared by the whole game: identifiers, roles, genres, room
//! configuration and the errors a command can end with.

use vstd::prelude::*;

verus! {

/// Identifies a player within a room.
pub type PlayerId = String;

/// Identifies a room within the registry.
pub type RoomId = String;

/// What a player secretly is.
#[derive(Debug, Clone, Copy, PartialEq, Eq, Structural)]
pub enum Role {
    /// Holds the majority word.
    Citizen,
    /// Holds the differing word.
    Wolf,
}

impl Role {
    /// The name of the role as shown to players.
    pub fn label(&self) -> (s: String)
        ensures
            s@ == (match *self {
                Role::Citizen => "市民"@,
                Role::Wolf => "ワードウルフ"@,
            }),
    {
        match self {
            Role::Citizen => "市民".to_string(),
            Role::Wolf => "ワードウルフ".to_string(),
        }
    }
}

/// Why a command was turned down.
#[derive(Debug, Clone, Copy, PartialEq, Eq, Structural)]
pub enum GameError {
    /// The command is not admissible in the current phase.
    InvalidPhase,
    /// The room or the player does not exist.
    NotFound,
    /// The room already holds as many players as it may.
    RoomFull,
    /// The player has already submitted a keyword.
    DuplicateSubmission,
    /// Fewer than two different keywords were submitted.
    InsufficientKeywords,
    /// The room configuration breaks a rule.
    InvalidConfig,
    /// A room of that name exists already.
    AlreadyExists,
}

impl GameError {
    /// A short text for the error, fit for a response body.
    pub open spec fn text(&self) -> Seq<char> {
        match *self {
            GameError::InvalidPhase => "Not allowed in the current phase"@,
            GameError::NotFound => "Not found"@,
            GameError::RoomFull => "Room is full"@,
            GameError::DuplicateSubmission => "Keyword already submitted"@,
            GameError::InsufficientKeywords => "Not enough different keywords"@,
            GameError::InvalidConfig => "Invalid room configuration"@,
            GameError::AlreadyExists => "Room already exists"@,
        }
    }

    /// A short text for the error, fit for a response body.
    pub fn message(&self) -> (s: String)
        ensures
            s@ == self.text(),
    {
        match self {
            GameError::InvalidPhase => "Not allowed in the current phase".to_string(),
            GameError::NotFound => "Not found".to_string(),
            GameError::RoomFull => "Room is full".to_string(),
            GameError::DuplicateSubmission => "Keyword already submitted".to_string(),
            GameError::InsufficientKeywords => "Not enough different keywords".to_string(),
            GameError::InvalidConfig => "Invalid room configuration".to_string(),
            GameError::AlreadyExists => "Room already exists".to_string(),
        }
    }
}

/// The rule of room configuration that a configuration breaks.
#[derive(Debug, Clone, Copy, PartialEq, Eq, Structural)]
pub enum ConfigError {
    /// Fewer than three seats.
    TooFewPlayers,
    /// No wolf at all.
    NoWolves,
    /// The wolves would not be a strict minority.
    TooManyWolves,
    /// No time to talk.
    NoDiscussionTime,
    /// No time to vote.
    NoVotingTime,
}

/// The family of words a room draws its theme from.
#[derive(Debug, PartialEq, Eq, Hash)]
pub enum ThemeGenre {
    Food,
    Animal,
    Place,
    Object,
    /// A genre named by the users.
    Custom(String),
}

/// A genre with the text of a custom name in place of the string.
pub enum GenreView {
    Food,
    Animal,
    Place,
    Object,
    Custom(Seq<char>),
}

impl View for ThemeGenre {
    type V = GenreView;

    open spec fn view(&self) -> GenreView {
        match *self {
            ThemeGenre::Food => GenreView::Food,
            ThemeGenre::Animal => GenreView::Animal,
            ThemeGenre::Place => GenreView::Place,
            ThemeGenre::Object => GenreView::Object,
            ThemeGenre::Custom(name) => GenreView::Custom(name@),
        }
    }
}

impl ThemeGenre {
    /// Whether both are the same genre; custom genres are the same when
    /// their names are.
    pub fn same_as(&self, other: &ThemeGenre) -> (r: bool)
        ensures
            r == (self@ == other@),
    {
        match (self, other) {
            (ThemeGenre::Food, ThemeGenre::Food) => true,
            (ThemeGenre::Animal, ThemeGenre::Animal) => true,
            (ThemeGenre::Place, ThemeGenre::Place) => true,
            (ThemeGenre::Object, ThemeGenre::Object) => true,
            (ThemeGenre::Custom(a), ThemeGenre::Custom(b)) => *a == *b,
            _ => false,
        }
    }

}

impl Clone for ThemeGenre {
    fn clone(&self) -> (r: ThemeGenre)
        ensures
            r == *self,
    {
        match self {
            ThemeGenre::Food => ThemeGenre::Food,
            ThemeGenre::Animal => ThemeGenre::Animal,
            ThemeGenre::Place => ThemeGenre::Place,
            ThemeGenre::Object => ThemeGenre::Object,
            ThemeGenre::Custom(name) => ThemeGenre::Custom(name.clone()),
        }
    }
}

/// The settings of a room, fixed when the room is made.
#[derive(Debug)]
pub struct RoomConfig {
    pub room_name: String,
    pub max_players: usize,
    pub wolf_count: usize,
    pub theme_genre: ThemeGenre,
    /// Time to talk, in seconds.
    pub discussion_time: u64,
    /// Time to vote, in seconds.
    pub voting_time: u64,
}

/// The seconds a vote lasts unless the room is set up otherwise.
pub const DEFAULT_VOTING_TIME: u64 = 10;

/// The most wolves a room of `max_players` seats may have: they must stay
/// a strict minority.
pub open spec fn max_wolves(max_players: nat) -> nat {
    if max_players == 0 {
        0
    } else {
        ((max_players - 1) / 2) as nat
    }
}

impl RoomConfig {
    /// A configuration with the usual time to vote.
    pub fn new(
        room_name: String,
        max_players: usize,
        wolf_count: usize,
        theme_genre: ThemeGenre,
        discussion_time: u64,
    ) -> (config: Self)
        ensures
            config.room_name == room_name,
            config.max_players == max_players,
            config.wolf_count == wolf_count,
            config.theme_genre == theme_genre,
            config.discussion_time == discussion_time,
            config.voting_time == DEFAULT_VOTING_TIME,
    {
        RoomConfig {
            room_name,
            max_players,
            wolf_count,
            theme_genre,
            discussion_time,
            voting_time: DEFAULT_VOTING_TIME,
        }
    }

    /// The configuration with `voting_time` seconds to vote.
    pub fn with_voting_time(self, voting_time: u64) -> (config: Self)
        ensures
            config == (RoomConfig { voting_time, ..self }),
    {
        RoomConfig { voting_time, ..self }
    }

    /// The first rule the configuration breaks, if any.
    pub open spec fn defect(&self) -> Option<ConfigError> {
        if self.max_players < 3 {
            Some(ConfigError::TooFewPlayers)
        } else if self.wolf_count == 0 {
            Some(ConfigError::NoWolves)
        } else if self.wolf_count > max_wolves(self.max_players as nat) {
            Some(ConfigError::TooManyWolves)
        } else if self.discussion_time == 0 {
            Some(ConfigError::NoDiscussionTime)
        } else if self.voting_time == 0 {
            Some(ConfigError::NoVotingTime)
        } else {
            None
        }
    }

    /// A configuration is valid when it has at least three seats, at least
    /// one wolf, wolves in strict minority, time to talk and time to vote.
    pub open spec fn valid(&self) -> bool {
        &&& self.max_players >= 3
        &&& 1 <= self.wolf_count <= max_wolves(self.max_players as nat)
        &&& self.discussion_time > 0
        &&& self.voting_time > 0
    }

    /// Checks the configuration and names the first rule it breaks.
    pub fn validate(&self) -> (r: Result<(), ConfigError>)
        ensures
            r is Ok <==> self.valid(),
            r is Err ==> self.defect() == Some(r->Err_0),
            r is Ok ==> self.defect() is None,
    {
        if self.max_players < 3 {
            return Err(ConfigError::TooFewPlayers);
        }
        if self.wolf_count == 0 {
            return Err(ConfigError::NoWolves);
        }
        let max_allowed_wolves = (self.max_players - 1) / 2;
        if self.wolf_count > max_allowed_wolves {
            return Err(ConfigError::TooManyWolves);
        }
        if self.discussion_time == 0 {
            return Err(ConfigError::NoDiscussionTime);
        }
        if self.voting_time == 0 {
            return Err(ConfigError::NoVotingTime);
        }
        Ok(())
    }
}

impl Clone for RoomConfig {
    fn clone(&self) -> (r: RoomConfig)
        ensures
            r == *self,
    {
        RoomConfig {
            room_name: self.room_name.clone(),
            max_players: self.max_players,
            wolf_count: self.wolf_count,
            theme_genre: self.theme_genre.clone(),
            discussion_time: self.discussion_time,
            voting_time: self.voting_time,
        }
    }
}

/// A valid configuration keeps the wolves in strict minority even when
/// every seat is taken.
pub proof fn valid_config_wolves_minority(config: RoomConfig)
    requires
        config.valid(),
    ensures
        2 * config.wolf_count < config.max_players,
{
}

} // verus!
