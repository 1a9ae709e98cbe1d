use vstd::prelude::*;

use crate::arena::{point_in_range, Point, PX};
use crate::combat::{craft_wf, crafts_wf, Craft, BLINK_DURATION_MS};

verus! {

/// Range within which a missile locks on an enemy, in micropixels.
pub const MISSILE_RANGE: i64 = 53_000_000;

/// Lateral speed of a homing missile, in micropixels per millisecond.
pub const MISSILE_SPEED: i64 = 8_333;

/// Lifetime of a deployed shield, in milliseconds.
pub const SHIELD_DURATION_MS: u64 = 6000;

/// Squared distance between two points, in square micropixels.
pub open spec fn dist2(a: Point, b: Point) -> int {
    (a.x - b.x) * (a.x - b.x) + (a.y - b.y) * (a.y - b.y)
}

/// An enemy close enough for a missile at `pos` to lock on.
pub open spec fn lockable(pos: Point, c: Craft) -> bool {
    !c.ship.friendly && dist2(pos, c.pos) < MISSILE_RANGE * MISSILE_RANGE
}

fn dist2_exec(a: Point, b: Point) -> (r: i128)
    requires
        point_in_range(a),
        point_in_range(b),
    ensures
        r == dist2(a, b),
{
    let dx = a.x as i128 - b.x as i128;
    let dy = a.y as i128 - b.y as i128;
    assert(0 <= dx * dx <= 8_000_000_000_000i128 * 8_000_000_000_000i128) by (nonlinear_arith)
        requires -8_000_000_000_000i128 <= dx <= 8_000_000_000_000i128;
    assert(0 <= dy * dy <= 8_000_000_000_000i128 * 8_000_000_000_000i128) by (nonlinear_arith)
        requires -8_000_000_000_000i128 <= dy <= 8_000_000_000_000i128;
    dx * dx + dy * dy
}

/// The enemy a missile at `pos` homes on: the nearest lockable one, the first
/// of them in field order on a tie; none when no enemy is in range.
pub fn missile_target(pos: Point, crafts: &Vec<Craft>) -> (r: Option<usize>)
    requires
        point_in_range(pos),
        crafts_wf(crafts@),
    ensures
        r is None <==> forall|j: int| 0 <= j < crafts@.len() ==> !lockable(pos, #[trigger] crafts@[j]),
        r matches Some(i) ==> i < crafts@.len() && lockable(pos, crafts@[i as int]) && forall|j: int|
            0 <= j < crafts@.len() && lockable(pos, #[trigger] crafts@[j]) ==> dist2(pos, crafts@[i as int].pos)
                <= dist2(pos, crafts@[j].pos),
{
    let mut best: Option<usize> = None;
    let mut best_d: i128 = 0;
    let mut k: usize = 0;
    while k < crafts.len()
        invariant
            k <= crafts@.len(),
            point_in_range(pos),
            crafts_wf(crafts@),
            best is None <==> forall|j: int| 0 <= j < k ==> !lockable(pos, #[trigger] crafts@[j]),
            best matches Some(i) ==> i < k && lockable(pos, crafts@[i as int]) && best_d == dist2(pos, crafts@[i as int].pos)
                && forall|j: int| 0 <= j < k && lockable(pos, #[trigger] crafts@[j]) ==> best_d <= dist2(pos, crafts@[j].pos),
        decreases crafts@.len() - k,
    {
        let c = crafts[k];
        assert(craft_wf(crafts@[k as int]));
        let d = dist2_exec(pos, c.pos);
        if !c.ship.friendly && d < MISSILE_RANGE as i128 * MISSILE_RANGE as i128 {
            let better = match best {
                None => true,
                Some(_) => d < best_d,
            };
            if better {
                best = Some(k);
                best_d = d;
            }
        }
        k = k + 1;
    }
    best
}

/// A homing missile's step: it slides sideways toward its target at
/// `MISSILE_SPEED`, rightward when the target is to its right and leftward
/// otherwise; without a target it keeps its course.
pub fn home_missile(pos: Point, crafts: &Vec<Craft>, dt: u64) -> (r: Point)
    requires
        point_in_range(pos),
        crafts_wf(crafts@),
        dt <= 1_000_000,
    ensures
        r.y == pos.y,
        (forall|j: int| 0 <= j < crafts@.len() ==> !lockable(pos, #[trigger] crafts@[j])) ==> r == pos,
        (exists|j: int| 0 <= j < crafts@.len() && lockable(pos, #[trigger] crafts@[j])) ==> exists|i: int|
            0 <= i < crafts@.len() && lockable(pos, crafts@[i]) && (forall|j: int|
                0 <= j < crafts@.len() && lockable(pos, #[trigger] crafts@[j]) ==> dist2(pos, crafts@[i].pos)
                    <= dist2(pos, crafts@[j].pos)) && r.x == pos.x + (if crafts@[i].pos.x > pos.x {
                dt * MISSILE_SPEED
            } else {
                -(dt * MISSILE_SPEED)
            }),
{
    match missile_target(pos, crafts) {
        None => pos,
        Some(i) => {
            let step = dt as i64 * MISSILE_SPEED;
            let x = if crafts[i].pos.x > pos.x {
                pos.x + step
            } else {
                pos.x - step
            };
            Point { x, y: pos.y }
        },
    }
}

/// Lifetime of a freshly deployed shield: doubled by the better shields
/// upgrade.
pub fn shield_duration(better_shields: bool) -> (r: u64)
    ensures
        r == if better_shields {
            2 * SHIELD_DURATION_MS
        } else {
            SHIELD_DURATION_MS as int
        },
{
    if better_shields {
        2 * SHIELD_DURATION_MS
    } else {
        SHIELD_DURATION_MS
    }
}

/// A shield's countdown over one tick.
#[derive(Copy, Clone, Debug, PartialEq, Eq, Structural)]
pub struct ShieldTick {
    pub remaining: u64,
    /// The shield enters its last blink window.
    pub start_blink: bool,
    /// The shield is used up and leaves the field.
    pub expired: bool,
}

/// Counts a shield down by `dt` milliseconds: it starts blinking when its
/// remaining time falls to the blink window, and expires at zero.
pub fn tick_shield(remaining: u64, dt: u64) -> (r: ShieldTick)
    ensures
        r.remaining == if remaining <= dt {
            0
        } else {
            remaining - dt
        } as int,
        r.start_blink == (remaining > BLINK_DURATION_MS && r.remaining <= BLINK_DURATION_MS),
        r.expired == (r.remaining == 0),
{
    let left = if remaining <= dt {
        0
    } else {
        remaining - dt
    };
    ShieldTick {
        remaining: left,
        start_blink: remaining > BLINK_DURATION_MS && left <= BLINK_DURATION_MS,
        expired: left == 0,
    }
}

} // verus!
