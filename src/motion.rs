use vstd::prelude::*;

use crate::arena::{point_in_range, Point, WIDTH_U, PX};
use crate::random::{random_below, random_coin};
use crate::fixed::{
    abs, cos_md, cosine, ratio, ratio_of, sin_md, sine, MDEG_PER_RAD, ONE, QUARTER_TURN,
};

verus! {

/// Longest time a curve is evaluated for, in milliseconds.
pub const MAX_ELAPSED_MS: u64 = 10_000_000;

/// Fastest speed a curve is driven at, in micropixels per millisecond (a
/// hundred pixels per second).
pub const MAX_SPEED: u64 = 100_000;

/// Bound on the distance travelled along a curve, in micropixels.
pub const TRAVEL_LIMIT: i64 = 1_000_000_000_000;

/// Bound on a curve's coordinates, amplitudes and half-axes, in micropixels.
pub const PARAM_LIMIT: i64 = 100_000_000_000;

/// Bound on a curve's positions, in micropixels.
pub const OUTPUT_LIMIT: i64 = 2_000_000_000_000;

/// Bound on a curve's frequency, in milliradians per second.
pub const MAX_FREQUENCY: u64 = 10_000_000;

/// Bound on a curve's heading, in millidegrees.
pub const MAX_ANGLE: u64 = 1_000_000_000;

/// How close the wrapped curve must pass to a trigger abscissa, in micropixels.
pub const TRIGGER_TOLERANCE: i64 = 500_000;

/// The square root of two minus one, per million.
pub const SQRT2_MINUS_ONE: i64 = 414_214;

/// A parametric motion: elapsed time and speed to a position. Frequencies are
/// in milliradians per second, headings in millidegrees, lengths in
/// micropixels, times in milliseconds.
#[derive(Debug)]
pub enum Moves {
    /// Start, heading.
    Linear(Point, u64),
    /// Start, heading, frequency, amplitude: a cosine swing across the heading.
    Wavy(Point, u64, u64, i64),
    /// Start, heading, frequency, amplitude: a triangle swing across the heading.
    Triangular(Point, u64, u64, i64),
    /// Trigger abscissa, pause length, latched trigger time, wrapped curve.
    WithPause(i64, u64, Option<u64>, Box<Moves>),
    /// Trigger abscissa, latched final position, wrapped curve.
    StationaryAt(i64, Option<Point>, Box<Moves>),
    /// Topmost point, frequency, half width, half height.
    Ellipsis(Point, u64, i64, i64),
    /// Centre, frequency, half distance between the foci.
    Lemniscate(Point, u64, i64),
    /// Topmost point, frequency, half width, half height.
    Astroid(Point, u64, i64, i64),
    /// Start, floor ordinate, latched landing time, wrapped curve.
    DownUntil(Point, i64, Option<u64>, Box<Moves>),
}

pub open spec fn param_ok(v: i64) -> bool {
    -PARAM_LIMIT <= v <= PARAM_LIMIT
}

pub open spec fn point_ok(p: Point) -> bool {
    param_ok(p.x) && param_ok(p.y)
}

pub open spec fn output_ok(p: (int, int)) -> bool {
    -OUTPUT_LIMIT <= p.0 <= OUTPUT_LIMIT && -OUTPUT_LIMIT <= p.1 <= OUTPUT_LIMIT
}

/// Parameters within the bounds the evaluation is proved for.
pub open spec fn moves_wf(m: Moves) -> bool
    decreases m,
{
    match m {
        Moves::Linear(o, a) => point_ok(o) && a <= MAX_ANGLE,
        Moves::Wavy(o, a, f, amp) => point_ok(o) && a <= MAX_ANGLE && f <= MAX_FREQUENCY
            && param_ok(amp),
        Moves::Triangular(o, a, f, amp) => point_ok(o) && a <= MAX_ANGLE && f <= MAX_FREQUENCY
            && param_ok(amp),
        Moves::WithPause(x, _, l, w) => param_ok(x) && (l matches Some(tx) ==> tx <= MAX_ELAPSED_MS)
            && moves_wf(*w),
        Moves::StationaryAt(x, l, w) => param_ok(x) && (l matches Some(p) ==> output_ok(
            (p.x as int, p.y as int),
        )) && moves_wf(*w),
        Moves::Ellipsis(o, f, hx, hy) => point_ok(o) && f <= MAX_FREQUENCY && param_ok(hx)
            && param_ok(hy),
        Moves::Lemniscate(o, f, h) => point_ok(o) && f <= MAX_FREQUENCY && param_ok(h),
        Moves::Astroid(o, f, hx, hy) => point_ok(o) && f <= MAX_FREQUENCY && param_ok(hx)
            && param_ok(hy),
        Moves::DownUntil(o, y, l, w) => point_ok(o) && param_ok(y) && (l matches Some(ty) ==> ty
            <= MAX_ELAPSED_MS) && moves_wf(*w),
    }
}

/// Phase reached after `t` milliseconds at `freq` milliradians per second, in
/// millidegrees.
pub open spec fn phase(t: int, freq: int) -> int {
    ((t * freq) / 1000) * MDEG_PER_RAD / 1000
}

/// `origin` moved by `(along, across)` turned by `angle` millidegrees.
pub open spec fn along_heading(o: Point, along: int, across: int, angle: int) -> (int, int) {
    (
        o.x + ratio_of(along, cosine(angle), ONE as int) - ratio_of(across, sine(angle), ONE as int),
        o.y + ratio_of(along, sine(angle), ONE as int) + ratio_of(across, cosine(angle), ONE as int),
    )
}

/// Triangle wave of period two and unit amplitude, in thousandths, at
/// `u` thousandths.
pub open spec fn triangle(u: int) -> int {
    abs(u % 2000 - 1000) * 2 - 1000
}

pub open spec fn cube(c: int) -> int {
    ratio_of(ratio_of(c, c, ONE as int), c, ONE as int)
}

pub open spec fn lemniscate_at(o: Point, h: i64, a: int) -> (int, int) {
    let param = h + ratio_of(h as int, SQRT2_MINUS_ONE as int, ONE as int);
    let c = cosine(a);
    let s = sine(a);
    let den = ratio_of(s, s, ONE as int) + ONE;
    (o.x + ratio_of(param, c, den), o.y + ratio_of(ratio_of(param, s, ONE as int), c, den))
}

/// Whether a position passes close enough to the trigger abscissa.
pub open spec fn near_trigger(p: (int, int), x: int) -> bool {
    abs(p.0 - x) < TRIGGER_TOLERANCE
}

/// Position of the curve after `t` milliseconds at `speed`, in the state it
/// is in.
pub open spec fn moves_pos(m: Moves, t: int, speed: int) -> (int, int)
    decreases m,
{
    match m {
        Moves::Linear(o, a) => along_heading(o, t * speed, 0, a as int),
        Moves::Wavy(o, a, f, amp) => along_heading(
            o,
            t * speed,
            ratio_of(amp as int, cosine(phase(t, f as int)), ONE as int),
            a as int,
        ),
        Moves::Triangular(o, a, f, amp) => along_heading(
            o,
            t * speed,
            ratio_of(amp as int, triangle((t * f) / 1000), 1000),
            a as int,
        ),
        Moves::WithPause(x, pause, latched, w) => match latched {
            Some(tx) => if t < tx + pause {
                moves_pos(*w, tx as int, speed)
            } else {
                moves_pos(*w, t - pause, speed)
            },
            None => moves_pos(*w, t, speed),
        },
        Moves::StationaryAt(x, latched, w) => match latched {
            Some(p) => (p.x as int, p.y as int),
            None => moves_pos(*w, t, speed),
        },
        Moves::Ellipsis(o, f, hx, hy) => {
            let a = QUARTER_TURN + phase(t, f as int);
            (
                o.x + ratio_of(hx as int, cosine(a), ONE as int),
                o.y - hy + ratio_of(hy as int, sine(a), ONE as int),
            )
        },
        Moves::Astroid(o, f, hx, hy) => {
            let a = QUARTER_TURN + phase(t, f as int);
            (
                o.x + ratio_of(hx as int, cube(cosine(a)), ONE as int),
                o.y - hy + ratio_of(hy as int, cube(sine(a)), ONE as int),
            )
        },
        Moves::Lemniscate(o, f, h) => lemniscate_at(o, h, QUARTER_TURN + phase(t, f as int)),
        Moves::DownUntil(o, y, latched, w) => match latched {
            Some(ty) => moves_pos(*w, if t >= ty {
                t - ty
            } else {
                0
            }, speed),
            None => (o.x as int, o.y - t * speed),
        },
    }
}

/// State of the curve after its evaluation at `t`: a latching curve records
/// its trigger the first time the condition holds.
pub open spec fn moves_next(m: Moves, t: int, speed: int) -> Moves
    decreases m,
{
    match m {
        Moves::WithPause(x, pause, latched, w) => match latched {
            Some(tx) => if t < tx + pause {
                Moves::WithPause(x, pause, latched, Box::new(moves_next(*w, tx as int, speed)))
            } else {
                Moves::WithPause(x, pause, latched, Box::new(moves_next(*w, t - pause, speed)))
            },
            None => Moves::WithPause(
                x,
                pause,
                if near_trigger(moves_pos(*w, t, speed), x as int) {
                    Some(t as u64)
                } else {
                    None
                },
                Box::new(moves_next(*w, t, speed)),
            ),
        },
        Moves::StationaryAt(x, latched, w) => match latched {
            Some(p) => m,
            None => {
                let p = moves_pos(*w, t, speed);
                Moves::StationaryAt(
                    x,
                    if near_trigger(p, x as int) {
                        Some(Point { x: p.0 as i64, y: p.1 as i64 })
                    } else {
                        None
                    },
                    Box::new(moves_next(*w, t, speed)),
                )
            },
        },
        Moves::DownUntil(o, y, latched, w) => match latched {
            Some(ty) => Moves::DownUntil(o, y, latched, Box::new(moves_next(*w, if t >= ty {
                t - ty
            } else {
                0
            }, speed))),
            None => Moves::DownUntil(o, y, if o.y - t * speed <= y {
                Some(t as u64)
            } else {
                None
            }, w),
        },
        _ => m,
    }
}

fn phase_exec(t: u64, f: u64) -> (r: u64)
    requires
        t <= MAX_ELAPSED_MS,
        f <= MAX_FREQUENCY,
    ensures
        r == phase(t as int, f as int),
        r <= 6_000_000_000_000,
{
    assert(t * f <= 100_000_000_000_000) by (nonlinear_arith)
        requires
            t <= MAX_ELAPSED_MS,
            f <= MAX_FREQUENCY,
    ;
    (t * f / 1000) * MDEG_PER_RAD / 1000
}

fn along_heading_exec(o: Point, along: i64, across: i64, angle: u64) -> (r: Point)
    requires
        point_ok(o),
        -TRAVEL_LIMIT <= along <= TRAVEL_LIMIT,
        param_ok(across),
        angle <= 6_100_000_000_000,
    ensures
        (r.x as int, r.y as int) == along_heading(o, along as int, across as int, angle as int),
        output_ok((r.x as int, r.y as int)),
{
    let c = cos_md(angle);
    let s = sin_md(angle);
    let x = o.x + ratio(along, c, ONE) - ratio(across, s, ONE);
    let y = o.y + ratio(along, s, ONE) + ratio(across, c, ONE);
    Point { x, y }
}

fn triangle_exec(u: u64) -> (r: i64)
    ensures
        r == triangle(u as int),
        -1000 <= r <= 1000,
{
    let m = (u % 2000) as i64;
    let d = if m >= 1000 {
        m - 1000
    } else {
        1000 - m
    };
    d * 2 - 1000
}

fn cube_exec(c: i64) -> (r: i64)
    requires
        -ONE <= c <= ONE,
    ensures
        r == cube(c as int),
        -ONE <= r <= ONE,
{
    let c2 = ratio(c, c, ONE);
    ratio(c2, c, ONE)
}

fn lemniscate_exec(o: Point, h: i64, a: u64) -> (r: Point)
    requires
        point_ok(o),
        param_ok(h),
        a <= 6_100_000_000_000,
    ensures
        (r.x as int, r.y as int) == lemniscate_at(o, h, a as int),
        output_ok((r.x as int, r.y as int)),
{
    let param = h + ratio(h, SQRT2_MINUS_ONE, ONE);
    let c = cos_md(a);
    let s = sin_md(a);
    let s2 = ratio(s, s, ONE);
    assert(s as int * s as int >= 0) by (nonlinear_arith);
    let den = s2 + ONE;
    let x = o.x + ratio(param, c, den);
    let y = o.y + ratio(ratio(param, s, ONE), c, den);
    Point { x, y }
}

impl Moves {
    /// Position after `time` milliseconds at `speed`. A latching curve records
    /// its trigger the first time its condition holds, and from then on keeps
    /// to it.
    pub fn pos(&mut self, time: u64, speed: u64) -> (r: Point)
        requires
            moves_wf(*old(self)),
            time <= MAX_ELAPSED_MS,
            speed <= MAX_SPEED,
        ensures
            (r.x as int, r.y as int) == moves_pos(*old(self), time as int, speed as int),
            *final(self) == moves_next(*old(self), time as int, speed as int),
            moves_wf(*final(self)),
            output_ok((r.x as int, r.y as int)),
        decreases *old(self),
    {
        assert(time * speed <= 1_000_000_000_000) by (nonlinear_arith)
            requires
                time <= MAX_ELAPSED_MS,
                speed <= MAX_SPEED,
        ;
        match self {
            Moves::Linear(o, a) => along_heading_exec(*o, (time * speed) as i64, 0, *a),
            Moves::Wavy(o, a, f, amp) => {
                let c = cos_md(phase_exec(time, *f));
                along_heading_exec(*o, (time * speed) as i64, ratio(*amp, c, ONE), *a)
            },
            Moves::Triangular(o, a, f, amp) => {
                assert(time * *f <= 100_000_000_000_000) by (nonlinear_arith)
                    requires
                        time <= MAX_ELAPSED_MS,
                        *f <= MAX_FREQUENCY,
                ;
                let tri = triangle_exec(time * *f / 1000);
                along_heading_exec(*o, (time * speed) as i64, ratio(*amp, tri, 1000), *a)
            },
            Moves::WithPause(x, pause, latched, w) => {
                match *latched {
                    Some(tx) => {
                        if (time as u128) < tx as u128 + *pause as u128 {
                            (&mut **w).pos(tx, speed)
                        } else {
                            (&mut **w).pos(time - *pause, speed)
                        }
                    },
                    None => {
                        let p = (&mut **w).pos(time, speed);
                        let d = if p.x >= *x {
                            p.x - *x
                        } else {
                            *x - p.x
                        };
                        if d < TRIGGER_TOLERANCE {
                            *latched = Some(time);
                        }
                        p
                    },
                }
            },
            Moves::StationaryAt(x, latched, w) => {
                match *latched {
                    Some(p) => p,
                    None => {
                        let p = (&mut **w).pos(time, speed);
                        let d = if p.x >= *x {
                            p.x - *x
                        } else {
                            *x - p.x
                        };
                        if d < TRIGGER_TOLERANCE {
                            *latched = Some(p);
                        }
                        p
                    },
                }
            },
            Moves::Ellipsis(o, f, hx, hy) => {
                let a = QUARTER_TURN + phase_exec(time, *f);
                let x = o.x + ratio(*hx, cos_md(a), ONE);
                let y = o.y - *hy + ratio(*hy, sin_md(a), ONE);
                Point { x, y }
            },
            Moves::Astroid(o, f, hx, hy) => {
                let a = QUARTER_TURN + phase_exec(time, *f);
                let x = o.x + ratio(*hx, cube_exec(cos_md(a)), ONE);
                let y = o.y - *hy + ratio(*hy, cube_exec(sin_md(a)), ONE);
                Point { x, y }
            },
            Moves::Lemniscate(o, f, h) => lemniscate_exec(*o, *h, QUARTER_TURN + phase_exec(time, *f)),
            Moves::DownUntil(o, y, latched, w) => {
                match *latched {
                    Some(ty) => {
                        let t = if time >= ty {
                            time - ty
                        } else {
                            0
                        };
                        (&mut **w).pos(t, speed)
                    },
                    None => {
                        let p = Point { x: o.x, y: o.y - (time * speed) as i64 };
                        if p.y <= *y {
                            *latched = Some(time);
                        }
                        p
                    },
                }
            },
        }
    }
}

/// Where an entity driven by the curve appears.
pub open spec fn moves_start(m: Moves) -> Point
    decreases m,
{
    match m {
        Moves::Linear(o, _) => o,
        Moves::Wavy(o, _, _, _) => o,
        Moves::Triangular(o, _, _, _) => o,
        Moves::Ellipsis(o, _, _, _) => o,
        Moves::Lemniscate(o, _, _) => o,
        Moves::Astroid(o, _, _, _) => o,
        Moves::DownUntil(o, _, _, _) => o,
        Moves::WithPause(_, _, _, w) => moves_start(*w),
        Moves::StationaryAt(_, _, w) => moves_start(*w),
    }
}

/// Heading of a crossing from the left edge to the right one, in millidegrees.
pub const RIGHTWARD: u64 = 0;

/// Heading of a crossing from the right edge to the left one, in millidegrees.
pub const LEFTWARD: u64 = 180_000;

/// Distance outside the arena at which a crossing starts, in micropixels.
pub const CROSSING_MARGIN: i64 = 16_000_000;

/// Start of a crossing at ordinate `y`.
pub open spec fn crossing_start(y: i64, right: bool) -> Point {
    if right {
        Point { x: (-CROSSING_MARGIN) as i64, y }
    } else {
        Point { x: (WIDTH_U + CROSSING_MARGIN) as i64, y }
    }
}

/// A curve that crosses the arena at ordinate `y`, with a swing of its
/// frequency and amplitude.
pub open spec fn is_crossing(m: Moves, y: i64, right: bool) -> bool {
    let o = crossing_start(y, right);
    let a = if right {
        RIGHTWARD
    } else {
        LEFTWARD
    };
    match m {
        Moves::Wavy(p, h, f, amp) => p == o && h == a && 500 <= f < 2000 && 4 * PX <= amp < 12 * PX,
        Moves::Triangular(p, h, f, amp) => p == o && h == a && 500 <= f < 2000 && 4 * PX <= amp < 12
            * PX,
        _ => false,
    }
}

impl Moves {
    /// Where an entity driven by the curve appears.
    pub fn starting_pos(&self) -> (r: Point)
        ensures
            r == moves_start(*self),
        decreases *self,
    {
        match self {
            Moves::Linear(o, _) => *o,
            Moves::Wavy(o, _, _, _) => *o,
            Moves::Triangular(o, _, _, _) => *o,
            Moves::Ellipsis(o, _, _, _) => *o,
            Moves::Lemniscate(o, _, _) => *o,
            Moves::Astroid(o, _, _, _) => *o,
            Moves::DownUntil(o, _, _, _) => *o,
            Moves::WithPause(_, _, _, w) => w.starting_pos(),
            Moves::StationaryAt(_, _, w) => w.starting_pos(),
        }
    }

    /// An identical, independent copy of the curve and its latch state.
    pub fn duplicate(&self) -> (r: Moves)
        ensures
            r == *self,
        decreases *self,
    {
        match self {
            Moves::Linear(o, a) => Moves::Linear(*o, *a),
            Moves::Wavy(o, a, f, amp) => Moves::Wavy(*o, *a, *f, *amp),
            Moves::Triangular(o, a, f, amp) => Moves::Triangular(*o, *a, *f, *amp),
            Moves::Ellipsis(o, f, hx, hy) => Moves::Ellipsis(*o, *f, *hx, *hy),
            Moves::Lemniscate(o, f, h) => Moves::Lemniscate(*o, *f, *h),
            Moves::Astroid(o, f, hx, hy) => Moves::Astroid(*o, *f, *hx, *hy),
            Moves::DownUntil(o, y, l, w) => Moves::DownUntil(*o, *y, *l, Box::new(w.duplicate())),
            Moves::WithPause(x, p, l, w) => Moves::WithPause(*x, *p, *l, Box::new(w.duplicate())),
            Moves::StationaryAt(x, l, w) => Moves::StationaryAt(*x, *l, Box::new(w.duplicate())),
        }
    }

    /// A crossing of the arena at ordinate `y`, from the left edge when
    /// `right` and from the right edge otherwise, swinging as a cosine or a
    /// triangle wave of random frequency and amplitude.
    pub fn random_crossing_dir(y: i64, right: bool) -> (r: Moves)
        requires
            param_ok(y),
        ensures
            is_crossing(r, y, right),
            moves_wf(r),
    {
        let pos = if right {
            Point { x: -CROSSING_MARGIN, y }
        } else {
            Point { x: WIDTH_U + CROSSING_MARGIN, y }
        };
        let angle = if right {
            RIGHTWARD
        } else {
            LEFTWARD
        };
        let frequency = random_below(500, 2000);
        let amplitude = random_below(4_000_000, 12_000_000) as i64;
        if random_coin() {
            Moves::Wavy(pos, angle, frequency, amplitude)
        } else {
            Moves::Triangular(pos, angle, frequency, amplitude)
        }
    }

    /// A crossing of the arena at ordinate `y`, from a random edge.
    pub fn random_crossing(y: i64) -> (r: Moves)
        requires
            param_ok(y),
        ensures
            is_crossing(r, y, true) || is_crossing(r, y, false),
            moves_wf(r),
    {
        Self::random_crossing_dir(y, random_coin())
    }
}

/// A craft that descends from `o` onto a linear path starts at `o`; it falls
/// until the first evaluation at which its ordinate is at or below `floor`;
/// from that evaluation's time `t_land` on, it follows the linear path
/// started at `t_land`, and evaluating it again changes nothing.
pub proof fn lemma_descend_then_follow(
    o: Point,
    floor: i64,
    path_start: Point,
    heading: u64,
    t_land: int,
    t: int,
    speed: int,
)
    requires
        0 <= t_land <= t,
        t_land <= u64::MAX,
        o.y - t_land * speed <= floor,
    ensures
        ({
            let m0 = Moves::DownUntil(o, floor, None, Box::new(Moves::Linear(path_start, heading)));
            let landed = moves_next(m0, t_land, speed);
            &&& moves_pos(m0, 0, speed) == (o.x as int, o.y as int)
            &&& landed == Moves::DownUntil(
                o,
                floor,
                Some(t_land as u64),
                Box::new(Moves::Linear(path_start, heading)),
            )
            &&& moves_pos(landed, t, speed) == moves_pos(
                Moves::Linear(path_start, heading),
                t - t_land,
                speed,
            )
            &&& moves_next(landed, t, speed) == landed
        }),
{
    reveal_with_fuel(moves_pos, 2);
    reveal_with_fuel(moves_next, 2);
    let w = Moves::Linear(path_start, heading);
    let m0 = Moves::DownUntil(o, floor, None, Box::new(w));
    assert(moves_pos(m0, 0, speed) == (o.x as int, o.y - 0 * speed));
    assert(0 * speed == 0);
    let landed = moves_next(m0, t_land, speed);
    assert(moves_next(w, t - t_land, speed) == w);
    assert(moves_next(landed, t, speed) == landed);
}

/// Before it lands, a descending craft falls straight down at `speed` and
/// records nothing.
pub proof fn lemma_descend_falls(o: Point, floor: i64, w: Moves, t: int, speed: int)
    requires
        o.y - t * speed > floor,
    ensures
        moves_pos(Moves::DownUntil(o, floor, None, Box::new(w)), t, speed) == (
            o.x as int,
            o.y - t * speed,
        ),
        moves_next(Moves::DownUntil(o, floor, None, Box::new(w)), t, speed) == Moves::DownUntil(
            o,
            floor,
            None,
            Box::new(w),
        ),
{
}

} // verus!
