//! Fixed tuning constants of the simulation.
use vstd::prelude::*;

verus! {

/// Target tick period in milliseconds (ten ticks per second).
pub const TICK_RATE: u64 = 100;

/// Half-extent of the world on the x axis.
pub const X_BOUNDS: i64 = 1000;

/// Half-extent of the world on the y axis.
pub const Y_BOUNDS: i64 = 500;

/// Distance a player moves per tick while seeking a target.
pub const PLAYER_SPEED: i64 = 5;

/// Distance every hazard falls per tick.
pub const FALL_SPEED: i64 = 3;

/// A player closer to its target than this does not move.
pub const TOLERANCE: i64 = 6;

/// Absolute per-axis distance under which a hazard hits a player.
pub const HIT_RADIUS: i64 = 10;

/// Score at which a play session ends in a win.
pub const WIN_SCORE: usize = 21;

/// Inputs tagged further than this many ticks ahead of the server
/// draw a correction; nearer future inputs simply wait their turn.
pub const TICK_HORIZON: u64 = 2;

/// A full roster snapshot is broadcast every this many ticks.
pub const SNAPSHOT_INTERVAL: u64 = 10;

/// Keepalive period in milliseconds.
pub const PING_INTERVAL: u64 = 5000;

/// Payout in millisatoshis for collecting one scoring hazard.
pub const BOLT_REWARD: u64 = 1000;

/// Payout in millisatoshis for finishing a session with a win.
pub const WIN_REWARD: u64 = 21000;

} // verus!
