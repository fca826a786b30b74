//! Authoritative tick simulation for a falling-hazard arcade game server.
//!
//! The world advances in fixed-rate ticks. Each tick, a deterministic
//! generator spawns one hazard from a shared seed, every hazard falls,
//! players seek their targets, and collisions resolve into score, life
//! and outbound events. Per-session reconciliation classifies inputs
//! that arrive tagged with a tick other than the current one.

pub mod clock;
pub mod collision;
pub mod config;
pub mod game_loop;
pub mod geom;
pub mod hazards;
pub mod messages;
pub mod movement;
pub mod player;
pub mod scores;

pub use geom::Vec2i;
