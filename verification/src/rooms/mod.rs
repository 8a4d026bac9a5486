//! Rooms: the coordinator of one game, its broadcast hub, and the
//! registry of all rooms.

pub mod hub;
pub mod manager;
pub mod messages;
pub mod room;

pub use manager::RoomManager;
pub use room::Room;
