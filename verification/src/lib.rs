//! Authoritative state and rules of a small-session multiplayer shooter server.
//!
//! The crate holds the per-lobby game state, the gameplay rules that mutate
//! it, the per-tick pipeline (coalescing of commands, dispatch, timers,
//! inactivity supervision, delta synchronisation and fan-out planning) and
//! the process-wide statistics store. Time is always handed in by the caller
//! as milliseconds since the Unix epoch; nothing in here reads a clock or
//! touches a socket.

pub mod collect;
pub mod commands;
pub mod delta_sync;
pub mod error;
pub mod fanout;
pub mod global_stats;
pub mod laws;
pub mod lobbies;
pub mod lobby;
pub mod logic;
pub mod models;
pub mod player;
pub mod rank;
pub mod rate_limit;
pub mod registry;
pub mod tick;
pub mod tick_laws;
pub mod weapons;
pub mod wire;
