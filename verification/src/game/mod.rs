//! The rules of the game: players, the phase state machine, themes and
//! the tallying of votes.

pub mod player;
pub mod rules;
pub mod state;
pub mod theme;

pub use player::Player;
pub use rules::{Vote, VoteResult};
pub use state::GameState;
pub use theme::{ThemeDatabase, ThemePair};
