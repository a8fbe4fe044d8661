//! In-memory session core of a real-time multiplayer tile-strategy game
//! server: a registry of game rooms with atomic per-room operations
//! (create, join, team and host assignment, option validation) and the
//! tile/army combat-resolution rules that govern how ownership and unit
//! counts change when a force enters a grid cell.
//!
//! The registry itself is a plain value; a server wraps it in one
//! process-wide reader/writer lock and performs each operation while
//! holding the guard, which preserves the atomicity of every multi-field
//! mutation described by the operations' contracts.

pub mod block;
pub mod constants;
pub mod errors;
pub mod options;
pub mod player_in_room;
pub mod pool;
pub mod query;
pub mod room;
