//! A small simulation kernel: a population of independently heap-boxed
//! particles, advanced one tick at a time under a randomized spawn/despawn
//! policy. Every particle is owned through its own `Box`, so each spawn and
//! each despawn is a distinct heap allocation or deallocation that a
//! process-wide reporting allocator (installed by the surrounding program)
//! can observe.
//!
//! All physical quantities are fixed-point integers in micro-units: one
//! simulated unit equals `UNIT` micro-units. This keeps the motion and
//! fading arithmetic exact and provable.
use vstd::prelude::*;

pub mod particle;
pub mod rng;
pub mod world;

verus! {

/// Micro-units per simulated unit.
pub const UNIT: i64 = 1_000_000;

/// Rendering extent of a particle: 4 units wide and 4 units tall.
pub const EXTENT: i64 = 4 * UNIT;

/// Full opacity, in micro-units of alpha.
pub const ALPHA_MAX: u64 = 1_000_000;

/// Opacity of a freshly spawned particle: 0.99.
pub const ALPHA_INIT: u64 = 990_000;

/// Below this opacity (0.02) a particle counts as invisible.
pub const ALPHA_INVISIBLE: u64 = 20_000;

/// Smallest initial vertical velocity: -2 units per tick (rising).
pub const RISE_VEL_MIN: i64 = -2 * UNIT;

/// Largest initial vertical velocity: just below 0.
pub const RISE_VEL_MAX: i64 = -1;

/// Smallest initial vertical acceleration: 0.
pub const RISE_ACC_MIN: i64 = 0;

/// Largest initial vertical acceleration: just below 0.15 units per tick
/// per tick.
pub const RISE_ACC_MAX: i64 = 149_999;

/// Per-axis speed budget: every particle keeps `3*|velocity| +
/// 10*|acceleration|` within this bound. The budget is preserved by the
/// per-tick update because acceleration decays by the factor 7/10, and it
/// caps `|velocity|` at `SPEED_CAP`.
pub const SPEED_BUDGET: i64 = 7_500_000;

/// Largest per-axis speed a particle can ever reach: `SPEED_BUDGET / 3`.
pub const SPEED_CAP: i64 = 2_500_000;

/// Largest magnitude a position coordinate may have before an update;
/// leaves room for one step of at most `SPEED_CAP` without overflow.
pub const POS_LIMIT: i64 = 9_000_000_000_000_000_000;

/// Largest world width or height accepted at construction (one million
/// simulated units, in micro-units).
pub const MAX_BOUND: i64 = 1_000_000_000_000;

/// Largest tick count a world can advance to; keeps every position within
/// `POS_LIMIT`.
pub const MAX_TURN: u64 = 1_000_000_000_000;

/// Largest magnitude of the per-tick random population draw.
pub const MAX_STEP: i64 = 3;

} // verus!
