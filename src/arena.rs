use vstd::prelude::*;

verus! {

/// Arena width in pixels.
pub const WIDTH: i64 = 160;

/// Arena height in pixels.
pub const HEIGHT: i64 = 144;

/// Micropixels in one pixel.
pub const PX: i64 = 1_000_000;

/// Arena width in micropixels.
pub const WIDTH_U: i64 = 160_000_000;

/// Arena height in micropixels.
pub const HEIGHT_U: i64 = 144_000_000;

/// Bound on the magnitude of every coordinate and velocity component the
/// simulation handles, in micropixels (four million pixels).
pub const COORD_LIMIT: i64 = 4_000_000_000_000;

/// A position or a velocity, in micropixels (per millisecond for a velocity).
#[derive(Copy, Clone, Debug, PartialEq, Eq, Structural)]
pub struct Point {
    pub x: i64,
    pub y: i64,
}

/// Both components lie within the simulation's coordinate bound.
pub open spec fn point_in_range(p: Point) -> bool {
    -COORD_LIMIT <= p.x <= COORD_LIMIT && -COORD_LIMIT <= p.y <= COORD_LIMIT
}

/// Number of standard wave parts played in the encounter of a level.
pub open spec fn patterns_for(level: nat) -> nat {
    if level <= 8 {
        2
    } else if level <= 17 {
        3
    } else {
        4
    }
}

/// Number of wave parts that the standard encounter of `level` draws.
pub fn patterns_nb(level: usize) -> (r: usize)
    ensures
        r == patterns_for(level as nat),
{
    if level <= 8 {
        2
    } else if level <= 17 {
        3
    } else {
        4
    }
}

/// Time scale of a level, in per-mille: the simulation runs faster as the
/// route advances, by three tenths over twenty-six levels.
pub open spec fn time_scale(level: nat) -> nat {
    1000 + level * 300 / 26
}

/// Time scale of a level, in per-mille.
pub fn time_ratio(level: usize) -> (r: u64)
    requires
        level <= 1_000_000,
    ensures
        r == time_scale(level as nat),
{
    1000 + level as u64 * 300 / 26
}

/// Time scale while the player's craft or an elite is going down, in
/// per-mille.
pub const TIME_RATIO_DEAD: u64 = 600;

/// The time scale in force, in per-mille: zero while paused, the slow-motion
/// scale after the player's craft or an elite went down, and the level's
/// scale otherwise.
pub open spec fn scale_in_force(level: nat, paused: bool, slowed: bool) -> nat {
    if paused {
        0
    } else if slowed {
        TIME_RATIO_DEAD as nat
    } else {
        time_scale(level)
    }
}

/// The time scale in force, in per-mille.
pub fn current_time_scale(level: usize, paused: bool, slowed: bool) -> (r: u64)
    requires
        level <= 1_000_000,
    ensures
        r == scale_in_force(level as nat, paused, slowed),
{
    if paused {
        0
    } else if slowed {
        TIME_RATIO_DEAD
    } else {
        time_ratio(level)
    }
}

/// Scaled length of a frame of `wall_ms` milliseconds under the time scale
/// `scale` (per-mille), rounded down. Every time-dependent computation takes
/// this scaled time.
pub fn scaled_tick(wall_ms: u64, scale: u64) -> (r: u64)
    requires
        wall_ms <= 1_000_000_000,
        scale <= 1_000_000,
    ensures
        r == wall_ms * scale / 1000,
{
    assert(wall_ms * scale <= 1_000_000_000 * 1_000_000) by (nonlinear_arith)
        requires wall_ms <= 1_000_000_000, scale <= 1_000_000;
    wall_ms * scale / 1000
}


} // verus!
