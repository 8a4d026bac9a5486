//! Game coordinator for the hidden-role party game "Word Wolf".
//!
//! A room gathers players, hands every player a word (one minority, the
//! wolves, gets a different one), lets them talk for a limited time and
//! then vote on who the wolf is.  This crate holds the rules: the phase
//! state machine, role and word assignment, vote tallying, the broadcast
//! hub of a room, the room registry and the text formats spoken on the
//! wire.
//!
//! Every function carries a contract, and Verus proves that the function
//! keeps it.  The exceptions are a handful of small wrappers around the
//! standard library and the random number generator, whose contracts
//! are taken on trust; each says so in its documentation.

pub mod chat;
pub mod chat_game;
pub mod clock;
pub mod draw;
pub mod game;
pub mod network;
pub mod projection;
pub mod random;
pub mod rooms;
pub mod routes;
pub mod state;
pub mod text;
pub mod topic;
pub mod types;
pub mod ws;
