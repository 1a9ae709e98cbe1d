use vstd::prelude::*;

use crate::arena::{patterns_for, patterns_nb, Point, HEIGHT_U, PX, WIDTH_U};
use crate::motion::{is_crossing, moves_wf, param_ok, Moves};
use crate::random::random_below;
use crate::ships::{enemy_of_level, Ships, ACT_LEN};
use crate::timeline::{
    event_ok, events_ok, has_spawn, lemma_merged_has_spawn, lemma_merged_ok, merge_waves, merged,
    wait_total, waves_view, WaveEvent, MAX_WAVE_MS,
};

verus! {

/// Half the arena width, in micropixels.
pub const HALF_WIDTH_U: i64 = 80_000_000;

/// Half the arena height, in micropixels.
pub const HALF_HEIGHT_U: i64 = 72_000_000;

/// Least vertical distance between the lanes of parallel parts, in micropixels.
pub const LANE_CLEARANCE: i64 = 18_000_000;

/// Most random lane draws for one parallel part before the search grid is
/// tried.
pub const MAX_LANE_DRAWS: u64 = 1000;

/// Extra wait after each spawn of a paused sequence, in milliseconds.
pub const PAUSED_SPACING_MS: u64 = 2000;

/// Bound on the pauses of a wave part, in milliseconds.
pub const MAX_PART_PAUSE: u64 = 1_000_000;

/// Bound on the number of parts run in parallel.
pub const MAX_PARALLEL: usize = 16;

/// A building block of a standard wave.
#[derive(Debug)]
pub enum WavePart {
    /// One enemy crossing the arena.
    SimpleEnemy,
    /// Count, trigger abscissa, pause: enemies on one crossing, each pausing
    /// at the trigger.
    ConsecutiveWithPause(u8, i64, u64),
    /// Count, pause, model, curve: the same enemy on the same curve, repeated.
    Same(u8, u64, Ships, Moves),
    /// Pause, parts: the parts played side by side on distinct lanes, each
    /// delayed by its index times the pause.
    Parallel(u64, Vec<WavePart>),
}

/// A part that is not itself parallel, with parameters in bounds.
pub open spec fn basic_part_wf(p: WavePart) -> bool {
    match p {
        WavePart::SimpleEnemy => true,
        WavePart::ConsecutiveWithPause(_, x, pause) => param_ok(x) && pause <= MAX_PART_PAUSE,
        WavePart::Same(_, pause, _, c) => pause <= MAX_PART_PAUSE && moves_wf(c),
        WavePart::Parallel(_, _) => false,
    }
}

/// Parameters in bounds; parallel parts are made of non-parallel parts.
pub open spec fn part_wf(p: WavePart) -> bool {
    match p {
        WavePart::Parallel(pause, parts) => pause <= MAX_PART_PAUSE && parts@.len() <= MAX_PARALLEL
            && forall|i: int| 0 <= i < parts@.len() ==> basic_part_wf(#[trigger] parts@[i]),
        _ => basic_part_wf(p),
    }
}

/// A crossing of the arena at ordinate `y`, from either edge.
pub open spec fn crossing_at(c: Moves, y: i64) -> bool {
    is_crossing(c, y, true) || is_crossing(c, y, false)
}

/// A spawn of a level's regular enemy on a crossing at `y`.
pub open spec fn crossing_spawn(e: WaveEvent, level: int, y: i64) -> bool {
    match e {
        WaveEvent::Spawn(m, c) => enemy_of_level(m, level) && crossing_at(c, y),
        _ => false,
    }
}

/// A spawn of a level's regular enemy driven by the curve `c`, pausing for
/// `pause` milliseconds at abscissa `x`.
pub open spec fn paused_spawn(e: WaveEvent, level: int, x: i64, pause: u64, c: Moves) -> bool {
    match e {
        WaveEvent::Spawn(m, Moves::WithPause(x2, p2, l, w)) => enemy_of_level(m, level) && x2 == x
            && p2 == pause && l is None && *w == c,
        _ => false,
    }
}

/// The events of a non-parallel part played at lane `y`: a simple enemy is
/// one spawn on a crossing; a paused sequence is `n` spawns that all pause on
/// one shared crossing, each followed by a wait; a repeated part is `n` copies
/// of its spawn, each followed by its pause.
pub open spec fn basic_events_ok(p: WavePart, level: int, y: i64, r: Seq<WaveEvent>) -> bool {
    &&& events_ok(r)
    &&& wait_total(r) <= 300_000_000
    &&& match p {
        WavePart::SimpleEnemy => r.len() == 1 && crossing_spawn(r[0], level, y),
        WavePart::ConsecutiveWithPause(n, x, pause) => r.len() == 2 * n && exists|c: Moves|
            #[trigger] crossing_at(c, y) && forall|i: int|
                0 <= i < n ==> paused_spawn(#[trigger] r[2 * i], level, x, pause, c) && r[2 * i + 1]
                    == WaveEvent::WaitMilliseconds((pause + PAUSED_SPACING_MS) as u64),
        WavePart::Same(n, pause, model, c) => r.len() == 2 * n && forall|i: int|
            0 <= i < n ==> #[trigger] r[2 * i] == WaveEvent::Spawn(model, c) && r[2 * i + 1]
                == WaveEvent::WaitMilliseconds(pause),
        WavePart::Parallel(_, _) => false,
    }
}

/// A non-parallel part that spawns something.
pub open spec fn basic_yields_spawn(p: WavePart) -> bool {
    match p {
        WavePart::SimpleEnemy => true,
        WavePart::ConsecutiveWithPause(n, _, _) => n > 0,
        WavePart::Same(n, _, _, _) => n > 0,
        WavePart::Parallel(_, _) => false,
    }
}

/// A part that spawns something.
pub open spec fn yields_spawn(p: WavePart) -> bool {
    match p {
        WavePart::Parallel(_, parts) => exists|i: int| 0 <= i < parts@.len() && basic_yields_spawn(#[trigger] parts@[i]),
        _ => basic_yields_spawn(p),
    }
}

/// Lowest lane a wave part is drawn on, in micropixels.
pub const LANE_LOW: i64 = 57_600_000;

/// Bound above the lanes a wave part is drawn on, in micropixels.
pub const LANE_HIGH: i64 = 129_600_000;

/// Spacing of the lanes searched when random draws keep failing.
pub const LANE_STEP: i64 = 500_000;

/// Number of lanes searched when random draws keep failing.
pub const LANE_STEPS: i64 = 144;

/// `y` keeps the lane clearance from every lane in `prev`.
pub open spec fn clear_of(prev: Seq<i64>, y: i64) -> bool {
    forall|j: int| 0 <= j < prev.len() ==> !(-LANE_CLEARANCE < y - #[trigger] prev[j] < LANE_CLEARANCE)
}

pub open spec fn grid_lane(k: int) -> i64 {
    (LANE_LOW + k * LANE_STEP) as i64
}

/// No lane of the search grid keeps the clearance from `prev`.
pub open spec fn no_free_lane(prev: Seq<i64>) -> bool {
    forall|k: int| 0 <= k < LANE_STEPS ==> !clear_of(prev, #[trigger] grid_lane(k))
}

/// A lane drawn after `prev`: in the lane range, and clear of the earlier
/// lanes unless no lane of the search grid is.
pub open spec fn lane_ok(prev: Seq<i64>, y: i64) -> bool {
    LANE_LOW <= y < LANE_HIGH && (clear_of(prev, y) || no_free_lane(prev))
}

pub open spec fn lanes_ok(ys: Seq<i64>) -> bool {
    forall|i: int| 0 <= i < ys.len() ==> lane_ok(ys.take(i), #[trigger] ys[i])
}

/// The waves a parallel part merges: wave `i` waits `i` times the pause, then
/// plays part `i` at lane `ys[i]`.
pub open spec fn parallel_waves(
    pause: u64,
    parts: Seq<WavePart>,
    level: int,
    ws: Seq<Seq<WaveEvent>>,
    ys: Seq<i64>,
) -> bool {
    &&& ws.len() == parts.len()
    &&& ys.len() == parts.len()
    &&& lanes_ok(ys)
    &&& forall|i: int|
        0 <= i < ws.len() ==> {
            &&& (#[trigger] ws[i]).len() > 0
            &&& ws[i][0] == WaveEvent::WaitMilliseconds((i * pause) as u64)
            &&& basic_events_ok(parts[i], level, ys[i], ws[i].drop_first())
        }
}

proof fn lemma_wait_total_push(s: Seq<WaveEvent>, e: WaveEvent)
    ensures
        wait_total(s.push(e)) == wait_total(s) + match e {
            WaveEvent::WaitMilliseconds(n) => n as nat,
            _ => 0nat,
        },
{
    assert(s.push(e).drop_last() == s);
}

proof fn lemma_wait_total_concat(a: Seq<WaveEvent>, b: Seq<WaveEvent>)
    ensures
        wait_total(a + b) == wait_total(a) + wait_total(b),
    decreases b.len(),
{
    if b.len() == 0 {
        assert(a + b == a);
    } else {
        lemma_wait_total_concat(a, b.drop_last());
        assert((a + b).drop_last() == a + b.drop_last());
        assert((a + b).last() == b.last());
    }
}

/// A random lane ordinate for a wave part, in micropixels.
fn random_y() -> (r: i64)
    ensures
        LANE_LOW <= r < LANE_HIGH,
{
    random_below(57_600_000, 129_600_000) as i64
}

/// Whether `y` comes closer than the lane clearance to a lane in use.
fn too_close(lanes: &Vec<i64>, y: i64) -> (r: bool)
    requires
        forall|i: int| 0 <= i < lanes@.len() ==> param_ok(#[trigger] lanes@[i]),
        param_ok(y),
    ensures
        r == exists|i: int|
            0 <= i < lanes@.len() && -LANE_CLEARANCE < y - #[trigger] lanes@[i] < LANE_CLEARANCE,
{
    let mut k: usize = 0;
    while k < lanes.len()
        invariant
            k <= lanes.len(),
            forall|i: int| 0 <= i < lanes@.len() ==> param_ok(#[trigger] lanes@[i]),
            param_ok(y),
            forall|i: int|
                0 <= i < k ==> !(-LANE_CLEARANCE < y - #[trigger] lanes@[i] < LANE_CLEARANCE),
        decreases lanes.len() - k,
    {
        let d = y - lanes[k];
        if -LANE_CLEARANCE < d && d < LANE_CLEARANCE {
            return true;
        }
        k = k + 1;
    }
    false
}

/// A lane for the next parallel part: random draws until one keeps the
/// clearance from the lanes in use; after `MAX_LANE_DRAWS` failed draws, the
/// first clear lane of a fixed grid; when none is, the last draw.
fn pick_lane(lanes: &Vec<i64>) -> (y: i64)
    requires
        forall|i: int| 0 <= i < lanes@.len() ==> param_ok(#[trigger] lanes@[i]),
    ensures
        lane_ok(lanes@, y),
{
    let mut y = random_y();
    let mut draws: u64 = 1;
    while draws < MAX_LANE_DRAWS && too_close(lanes, y)
        invariant
            LANE_LOW <= y < LANE_HIGH,
            forall|i: int| 0 <= i < lanes@.len() ==> param_ok(#[trigger] lanes@[i]),
        decreases MAX_LANE_DRAWS - draws,
    {
        y = random_y();
        draws = draws + 1;
    }
    if !too_close(lanes, y) {
        return y;
    }
    let mut k: i64 = 0;
    while k < LANE_STEPS
        invariant
            0 <= k <= LANE_STEPS,
            LANE_LOW <= y < LANE_HIGH,
            forall|i: int| 0 <= i < lanes@.len() ==> param_ok(#[trigger] lanes@[i]),
            forall|q: int| 0 <= q < k ==> !clear_of(lanes@, #[trigger] grid_lane(q)),
        decreases LANE_STEPS - k,
    {
        let g = LANE_LOW + k * LANE_STEP;
        assert(g == grid_lane(k as int));
        if !too_close(lanes, g) {
            return g;
        }
        k = k + 1;
    }
    y
}

impl WavePart {
    /// Events of a non-parallel part at lane `base_y`: spawns of the level's
    /// regular enemies on crossings, with waits between repeats.
    fn basic_events(&self, level: usize, base_y: i64) -> (r: Vec<WaveEvent>)
        requires
            basic_part_wf(*self),
            param_ok(base_y),
        ensures
            basic_events_ok(*self, level as int, base_y, r@),
    {
        let mut events: Vec<WaveEvent> = Vec::new();
        match self {
            WavePart::SimpleEnemy => {
                events.push(WaveEvent::Spawn(Ships::random_enemy(level), Moves::random_crossing(base_y)));
                proof {
                    lemma_wait_total_push(Seq::empty(), events@[0]);
                    assert(Seq::<WaveEvent>::empty().push(events@[0]) == events@);
                }
            },
            WavePart::ConsecutiveWithPause(n, x, pause) => {
                let base = Moves::random_crossing(base_y);
                let mut k: u8 = 0;
                while k < *n
                    invariant
                        k <= *n,
                        param_ok(*x),
                        *pause <= MAX_PART_PAUSE,
                        moves_wf(base),
                        crossing_at(base, base_y),
                        events@.len() == 2 * k,
                        events_ok(events@),
                        wait_total(events@) == k * (*pause + PAUSED_SPACING_MS),
                        forall|i: int|
                            0 <= i < k ==> paused_spawn(#[trigger] events@[2 * i], level as int, *x, *pause, base)
                                && events@[2 * i + 1] == WaveEvent::WaitMilliseconds(
                                (*pause + PAUSED_SPACING_MS) as u64,
                            ),
                    decreases *n - k,
                {
                    let ghost e0 = events@;
                    let m = Ships::random_enemy(level);
                    let s = WaveEvent::Spawn(m, Moves::WithPause(*x, *pause, None, Box::new(base.duplicate())));
                    let w = WaveEvent::WaitMilliseconds(*pause + PAUSED_SPACING_MS);
                    events.push(s);
                    events.push(w);
                    proof {
                        lemma_wait_total_push(e0, s);
                        lemma_wait_total_push(e0.push(s), w);
                        assert(events@ == e0.push(s).push(w));
                        assert(k * (*pause + PAUSED_SPACING_MS) + (*pause + PAUSED_SPACING_MS) == (k + 1) * (*pause + PAUSED_SPACING_MS)) by (nonlinear_arith);
                        assert forall|i: int| 0 <= i < events@.len() implies event_ok(#[trigger] events@[i]) by {
                            if i < e0.len() {
                                assert(events@[i] == e0[i]);
                            }
                        }
                        assert forall|i: int| 0 <= i < k + 1 implies paused_spawn(#[trigger] events@[2 * i], level as int, *x, *pause, base)
                                && events@[2 * i + 1] == WaveEvent::WaitMilliseconds((*pause + PAUSED_SPACING_MS) as u64) by {
                            if i < k {
                                assert(events@[2 * i] == e0[2 * i]);
                                assert(events@[2 * i + 1] == e0[2 * i + 1]);
                            }
                        }
                    }
                    k = k + 1;
                }
                proof {
                    assert(*n * (*pause + PAUSED_SPACING_MS) <= 255 * (MAX_PART_PAUSE + PAUSED_SPACING_MS)) by (nonlinear_arith)
                        requires *n <= 255, *pause <= MAX_PART_PAUSE;
                    assert(crossing_at(base, base_y));
                }
            },
            WavePart::Same(n, pause, model, c) => {
                let mut k: u8 = 0;
                while k < *n
                    invariant
                        k <= *n,
                        *pause <= MAX_PART_PAUSE,
                        moves_wf(*c),
                        events@.len() == 2 * k,
                        events_ok(events@),
                        wait_total(events@) == k * *pause,
                        forall|i: int|
                            0 <= i < k ==> #[trigger] events@[2 * i] == WaveEvent::Spawn(*model, *c)
                                && events@[2 * i + 1] == WaveEvent::WaitMilliseconds(*pause),
                    decreases *n - k,
                {
                    let ghost e0 = events@;
                    let s = WaveEvent::Spawn(*model, c.duplicate());
                    let w = WaveEvent::WaitMilliseconds(*pause);
                    events.push(s);
                    events.push(w);
                    proof {
                        lemma_wait_total_push(e0, s);
                        lemma_wait_total_push(e0.push(s), w);
                        assert(events@ == e0.push(s).push(w));
                        assert(k * *pause + *pause == (k + 1) * *pause) by (nonlinear_arith);
                        assert forall|i: int| 0 <= i < events@.len() implies event_ok(#[trigger] events@[i]) by {
                            if i < e0.len() {
                                assert(events@[i] == e0[i]);
                            }
                        }
                        assert forall|i: int| 0 <= i < k + 1 implies #[trigger] events@[2 * i] == WaveEvent::Spawn(*model, *c)
                                && events@[2 * i + 1] == WaveEvent::WaitMilliseconds(*pause) by {
                            if i < k {
                                assert(events@[2 * i] == e0[2 * i]);
                                assert(events@[2 * i + 1] == e0[2 * i + 1]);
                            }
                        }
                    }
                    k = k + 1;
                }
                proof {
                    assert(*n * *pause <= 255 * MAX_PART_PAUSE) by (nonlinear_arith)
                        requires *n <= 255, *pause <= MAX_PART_PAUSE;
                }
            },
            WavePart::Parallel(_, _) => {},
        }
        events
    }

    /// Events of the part at lane `base_y`. A parallel part plays each of its
    /// parts on a lane of its own (see `pick_lane`), delays each by its index
    /// times the pause, and merges them into one timeline.
    pub fn events(&self, level: usize, base_y: i64) -> (r: Vec<WaveEvent>)
        requires
            part_wf(*self),
            param_ok(base_y),
        ensures
            events_ok(r@),
            yields_spawn(*self) ==> has_spawn(r@),
            match *self {
                WavePart::Parallel(pause, parts) => exists|ws: Seq<Seq<WaveEvent>>, ys: Seq<i64>|
                    #[trigger] parallel_waves(pause, parts@, level as int, ws, ys) && r@ == merged(ws),
                _ => basic_events_ok(*self, level as int, base_y, r@),
            },
    {
        match self {
            WavePart::Parallel(pause, parts) => {
                let mut lanes: Vec<i64> = Vec::new();
                let mut parallel: Vec<Vec<WaveEvent>> = Vec::new();
                let mut i: usize = 0;
                while i < parts.len()
                    invariant
                        i <= parts@.len(),
                        part_wf(*self),
                        *self == WavePart::Parallel(*pause, *parts),
                        forall|j: int| 0 <= j < lanes@.len() ==> param_ok(#[trigger] lanes@[j]),
                        lanes_ok(lanes@),
                        lanes@.len() == i,
                        parallel@.len() == i,
                        forall|j: int|
                            0 <= j < i ==> {
                                &&& events_ok((#[trigger] parallel@[j])@)
                                &&& wait_total(parallel@[j]@) <= MAX_WAVE_MS
                                &&& parallel@[j]@.len() > 0
                                &&& parallel@[j]@[0] == WaveEvent::WaitMilliseconds((j * *pause) as u64)
                                &&& basic_events_ok(parts@[j], level as int, lanes@[j], parallel@[j]@.drop_first())
                            },
                    decreases parts@.len() - i,
                {
                    let y = pick_lane(&lanes);
                    let ghost l0 = lanes@;
                    lanes.push(y);
                    proof {
                        assert(lanes@.take(i as int) =~= l0);
                        assert forall|j: int| 0 <= j < lanes@.len() implies lane_ok(lanes@.take(j), #[trigger] lanes@[j]) by {
                            if j < i {
                                assert(lanes@.take(j) =~= l0.take(j));
                                assert(lanes@[j] == l0[j]);
                            }
                        }
                    }
                    assert(basic_part_wf(parts@[i as int]));
                    assert(i * *pause <= MAX_PARALLEL * MAX_PART_PAUSE) by (nonlinear_arith)
                        requires i <= MAX_PARALLEL, *pause <= MAX_PART_PAUSE;
                    let mut w: Vec<WaveEvent> = vec![WaveEvent::WaitMilliseconds(i as u64 * *pause)];
                    let mut sub = parts[i].basic_events(level, y);
                    let ghost w0 = w@;
                    let ghost s0 = sub@;
                    w.append(&mut sub);
                    proof {
                        assert(w@ == w0 + s0);
                        assert(w@.drop_first() =~= s0);
                        lemma_wait_total_concat(w0, s0);
                        lemma_wait_total_push(Seq::empty(), w0[0]);
                        assert(Seq::<WaveEvent>::empty().push(w0[0]) == w0);
                        assert forall|j: int| 0 <= j < w@.len() implies event_ok(#[trigger] w@[j]) by {
                            if j >= 1 {
                                assert(w@[j] == s0[j - 1]);
                            }
                        }
                    }
                    let ghost p0 = parallel@;
                    parallel.push(w);
                    proof {
                        assert forall|j: int| 0 <= j < i + 1 implies {
                            &&& events_ok((#[trigger] parallel@[j])@)
                            &&& wait_total(parallel@[j]@) <= MAX_WAVE_MS
                            &&& parallel@[j]@.len() > 0
                            &&& parallel@[j]@[0] == WaveEvent::WaitMilliseconds((j * *pause) as u64)
                            &&& basic_events_ok(parts@[j], level as int, lanes@[j], parallel@[j]@.drop_first())
                        } by {
                            if j < i {
                                assert(parallel@[j] == p0[j]);
                                assert(lanes@[j] == l0[j]);
                            }
                        }
                    }
                    i = i + 1;
                }
                let r = merge_waves(&parallel);
                proof {
                    let v = waves_view(parallel@);
                    assert forall|j: int| 0 <= j < v.len() implies events_ok(#[trigger] v[j]) by {
                        assert(v[j] == parallel@[j]@);
                    }
                    lemma_merged_ok(v);
                    assert(parallel_waves(*pause, parts@, level as int, v, lanes@)) by {
                        assert forall|j: int| 0 <= j < v.len() implies {
                            &&& (#[trigger] v[j]).len() > 0
                            &&& v[j][0] == WaveEvent::WaitMilliseconds((j * *pause) as u64)
                            &&& basic_events_ok(parts@[j], level as int, lanes@[j], v[j].drop_first())
                        } by {
                            assert(v[j] == parallel@[j]@);
                        }
                    }
                    if yields_spawn(*self) {
                        let j = choose|j: int| 0 <= j < parts@.len() && basic_yields_spawn(#[trigger] parts@[j]);
                        assert(v[j] == parallel@[j]@);
                        lemma_basic_has_spawn(parts@[j], level as int, lanes@[j], v[j].drop_first());
                        let k = choose|k: int| 0 <= k < v[j].drop_first().len() && (#[trigger] v[j].drop_first()[k]) is Spawn;
                        assert(v[j][k + 1] == v[j].drop_first()[k]);
                        lemma_merged_has_spawn(v, j);
                    }
                }
                r
            },
            _ => {
                let r = self.basic_events(level, base_y);
                proof {
                    if yields_spawn(*self) {
                        lemma_basic_has_spawn(*self, level as int, base_y, r@);
                    }
                }
                r
            },
        }
    }
}

proof fn lemma_basic_has_spawn(p: WavePart, level: int, y: i64, r: Seq<WaveEvent>)
    requires
        basic_events_ok(p, level, y, r),
        basic_yields_spawn(p),
    ensures
        has_spawn(r),
{
    match p {
        WavePart::ConsecutiveWithPause(n, x, pause) => {
            let c = choose|c: Moves| #[trigger] crossing_at(c, y) && forall|i: int|
                0 <= i < n ==> paused_spawn(#[trigger] r[2 * i], level, x, pause, c) && r[2 * i + 1]
                    == WaveEvent::WaitMilliseconds((pause + PAUSED_SPACING_MS) as u64);
            assert(paused_spawn(r[2 * 0int], level, x, pause, c));
            assert(r[0] is Spawn);
        },
        WavePart::Same(n, pause, model, c) => {
            assert(r[2 * 0int] == WaveEvent::Spawn(model, c));
            assert(r[0] is Spawn);
        },
        _ => {
            assert(r[0] is Spawn);
        },
    }
}

/// A third of the arena's half width, in micropixels.
pub const THIRD_HALF_WIDTH_U: i64 = 26_666_667;

/// Two thirds of the arena's half width, in micropixels.
pub const TWO_THIRDS_HALF_WIDTH_U: i64 = 53_333_333;

/// A repeated part of `n` copies with pause `pause`, of a level's regular
/// enemy on a crossing at a lane in `[lo, hi)`.
pub open spec fn same_part(p: WavePart, n: u8, pause: u64, level: int, lo: i64, hi: i64) -> bool {
    match p {
        WavePart::Same(n2, p2, m, c) => n2 == n && p2 == pause && enemy_of_level(m, level) && moves_wf(c)
            && exists|y: i64| lo <= y < hi && #[trigger] crossing_at(c, y),
        _ => false,
    }
}

/// A parallel part with the given pause and parts.
pub open spec fn parallel_of(p: WavePart, pause: u64, parts: Seq<WavePart>) -> bool {
    match p {
        WavePart::Parallel(pz, ps) => pz == pause && ps@ == parts,
        _ => false,
    }
}

/// Two repeated parts side by side, on a low and a high lane band.
pub open spec fn parallel_same(p: WavePart, pause: u64, n: u8, sp: u64, level: int) -> bool {
    match p {
        WavePart::Parallel(pz, ps) => pz == pause && ps@.len() == 2 && same_part(ps@[0], n, sp, level, 64_000_000, 80_000_000)
            && same_part(ps@[1], n, sp, level, 88_000_000, 104_000_000),
        _ => false,
    }
}

pub open spec fn paused(n: u8, x: i64, pause: u64) -> WavePart {
    WavePart::ConsecutiveWithPause(n, x, pause)
}

/// The parts a level's standard wave draws from: one menu for levels up to
/// 8, one up to 17, one beyond.
pub open spec fn menu_part(p: WavePart, level: int) -> bool {
    let hw = HALF_WIDTH_U;
    let t1 = THIRD_HALF_WIDTH_U;
    let t2 = TWO_THIRDS_HALF_WIDTH_U;
    if level <= 8 {
        ||| p == WavePart::SimpleEnemy
        ||| p == paused(2, hw, 4000)
        ||| same_part(p, 2, 4000, level, 64_000_000, 96_000_000)
        ||| parallel_of(p, 8000, seq![WavePart::SimpleEnemy, paused(2, hw, 4000)])
        ||| parallel_of(p, 4000, seq![WavePart::SimpleEnemy, WavePart::SimpleEnemy])
        ||| parallel_of(p, 5000, seq![WavePart::SimpleEnemy, WavePart::SimpleEnemy, WavePart::SimpleEnemy])
    } else if level <= 17 {
        ||| p == paused(3, hw, 4000)
        ||| p == paused(4, hw, 3500)
        ||| p == paused(2, hw, 0)
        ||| p == paused(3, hw, 0)
        ||| same_part(p, 2, 3000, level, 64_000_000, 96_000_000)
        ||| same_part(p, 3, 4500, level, 64_000_000, 96_000_000)
        ||| parallel_same(p, 8000, 2, 3000, level)
        ||| parallel_of(p, 8000, seq![paused(2, hw, 4000), paused(2, hw, 4000)])
        ||| parallel_of(p, 8000, seq![paused(3, t1, 4000), paused(3, t2, 4000)])
    } else {
        ||| p == paused(3, hw, 0)
        ||| p == paused(4, hw, 0)
        ||| same_part(p, 4, 5000, level, 64_000_000, 96_000_000)
        ||| parallel_same(p, 8000, 3, 3500, level)
        ||| parallel_of(p, 8000, seq![paused(4, t1, 3500), paused(4, t2, 3500)])
        ||| p == paused(4, hw, 3500)
        ||| p == paused(5, hw, 3500)
    }
}

/// A curve crossing at a random ordinate in `[low, high)`.
fn crossing_between(low: i64, high: i64) -> (r: Moves)
    requires
        0 <= low < high <= 1_000_000_000,
    ensures
        moves_wf(r),
        exists|y: i64| low <= y < high && #[trigger] crossing_at(r, y),
{
    let y = random_below(low as u64, high as u64) as i64;
    let r = Moves::random_crossing(y);
    assert(crossing_at(r, y));
    r
}

impl WavePart {
    /// A part drawn at random from the menu of the level's difficulty tier
    /// (levels up to 8, up to 17, and beyond).
    pub fn random(level: usize) -> (r: WavePart)
        ensures
            part_wf(r),
            menu_part(r, level as int),
            yields_spawn(r),
    {
        let hw = HALF_WIDTH_U;
        let hh = HALF_HEIGHT_U;
        let mut menu: Vec<WavePart> = if level <= 8 {
            let same = WavePart::Same(2, 4000, Ships::random_enemy(level), crossing_between(hh - 8_000_000, hh + 24_000_000));
            vec![
                WavePart::SimpleEnemy,
                WavePart::ConsecutiveWithPause(2, hw, 4000),
                same,
                WavePart::Parallel(8000, vec![WavePart::SimpleEnemy, WavePart::ConsecutiveWithPause(2, hw, 4000)]),
                WavePart::Parallel(4000, vec![WavePart::SimpleEnemy, WavePart::SimpleEnemy]),
                WavePart::Parallel(5000, vec![WavePart::SimpleEnemy, WavePart::SimpleEnemy, WavePart::SimpleEnemy]),
            ]
        } else if level <= 17 {
            let same_a = WavePart::Same(2, 3000, Ships::random_enemy(level), crossing_between(hh - 8_000_000, hh + 24_000_000));
            let same_b = WavePart::Same(3, 4500, Ships::random_enemy(level), crossing_between(hh - 8_000_000, hh + 24_000_000));
            let low = WavePart::Same(2, 3000, Ships::random_enemy(level), crossing_between(hh - 8_000_000, hh + 8_000_000));
            let high = WavePart::Same(2, 3000, Ships::random_enemy(level), crossing_between(hh + 16_000_000, hh + 32_000_000));
            vec![
                WavePart::ConsecutiveWithPause(3, hw, 4000),
                WavePart::ConsecutiveWithPause(4, hw, 3500),
                WavePart::ConsecutiveWithPause(2, hw, 0),
                WavePart::ConsecutiveWithPause(3, hw, 0),
                same_a,
                same_b,
                WavePart::Parallel(8000, vec![low, high]),
                WavePart::Parallel(8000, vec![WavePart::ConsecutiveWithPause(2, hw, 4000), WavePart::ConsecutiveWithPause(2, hw, 4000)]),
                WavePart::Parallel(8000, vec![
                    WavePart::ConsecutiveWithPause(3, THIRD_HALF_WIDTH_U, 4000),
                    WavePart::ConsecutiveWithPause(3, TWO_THIRDS_HALF_WIDTH_U, 4000),
                ]),
            ]
        } else {
            let same = WavePart::Same(4, 5000, Ships::random_enemy(level), crossing_between(hh - 8_000_000, hh + 24_000_000));
            let low = WavePart::Same(3, 3500, Ships::random_enemy(level), crossing_between(hh - 8_000_000, hh + 8_000_000));
            let high = WavePart::Same(3, 3500, Ships::random_enemy(level), crossing_between(hh + 16_000_000, hh + 32_000_000));
            vec![
                WavePart::ConsecutiveWithPause(3, hw, 0),
                WavePart::ConsecutiveWithPause(4, hw, 0),
                same,
                WavePart::Parallel(8000, vec![low, high]),
                WavePart::Parallel(8000, vec![
                    WavePart::ConsecutiveWithPause(4, THIRD_HALF_WIDTH_U, 3500),
                    WavePart::ConsecutiveWithPause(4, TWO_THIRDS_HALF_WIDTH_U, 3500),
                ]),
                WavePart::ConsecutiveWithPause(4, hw, 3500),
                WavePart::ConsecutiveWithPause(5, hw, 3500),
            ]
        };
        assert(forall|j: int| 0 <= j < menu@.len() ==> menu_part(#[trigger] menu@[j], level as int) && part_wf(menu@[j])
            && yields_spawn(menu@[j]));
        let i = random_below(0, menu.len() as u64) as usize;
        let r = menu.remove(i);
        r
    }
}

/// Number of barriers in a timeline.
pub open spec fn barriers(s: Seq<WaveEvent>) -> nat
    decreases s.len(),
{
    if s.len() == 0 {
        0
    } else {
        barriers(s.drop_last()) + if s.last() is WaitForClear {
            1nat
        } else {
            0nat
        }
    }
}

proof fn lemma_barriers_concat(a: Seq<WaveEvent>, b: Seq<WaveEvent>)
    ensures
        barriers(a + b) == barriers(a) + barriers(b),
    decreases b.len(),
{
    if b.len() == 0 {
        assert(a + b == a);
    } else {
        lemma_barriers_concat(a, b.drop_last());
        assert((a + b).drop_last() == a + b.drop_last());
        assert((a + b).last() == b.last());
    }
}

proof fn lemma_no_barriers(s: Seq<WaveEvent>)
    requires
        events_ok(s),
    ensures
        barriers(s) == 0,
    decreases s.len(),
{
    if s.len() > 0 {
        assert(events_ok(s.drop_last())) by {
            assert forall|i: int| 0 <= i < s.drop_last().len() implies event_ok(#[trigger] s.drop_last()[i]) by {
                assert(s.drop_last()[i] == s[i]);
            }
        }
        lemma_no_barriers(s.drop_last());
        assert(event_ok(s[s.len() - 1]));
    }
}

/// Each barrier closes a stretch that holds a spawn: some spawn comes
/// before it, after the previous barrier.
pub open spec fn spawn_before_each_barrier(s: Seq<WaveEvent>) -> bool {
    forall|i: int|
        0 <= i < s.len() && (#[trigger] s[i]) is WaitForClear ==> exists|j: int|
            0 <= j < i && (#[trigger] s[j]) is Spawn && forall|k: int| j < k < i ==> !(#[trigger] s[k] is WaitForClear)
}

/// The standard wave of a level: as many random parts as the level's tier
/// plays, each expanded at a random lane and closed by a barrier.
pub fn gen_space_wave(level: usize) -> (r: Vec<WaveEvent>)
    ensures
        r@.len() > 0,
        r@.last() is WaitForClear,
        barriers(r@) == patterns_for(level as nat),
        forall|i: int| 0 <= i < r@.len() ==> event_ok(#[trigger] r@[i]) || r@[i] is WaitForClear,
        spawn_before_each_barrier(r@),
{
    let mut wave: Vec<WaveEvent> = Vec::new();
    let n = patterns_nb(level);
    let mut k: usize = 0;
    while k < n
        invariant
            k <= n,
            n == patterns_for(level as nat),
            barriers(wave@) == k,
            k > 0 ==> wave@.len() > 0 && wave@.last() is WaitForClear,
            forall|i: int| 0 <= i < wave@.len() ==> event_ok(#[trigger] wave@[i]) || wave@[i] is WaitForClear,
            spawn_before_each_barrier(wave@),
        decreases n - k,
    {
        let part = WavePart::random(level);
        let mut events = part.events(level, random_y());
        let ghost w0 = wave@;
        let ghost e0 = events@;
        wave.append(&mut events);
        wave.push(WaveEvent::WaitForClear);
        proof {
            lemma_no_barriers(e0);
            lemma_barriers_concat(w0, e0);
            assert((w0 + e0).push(WaveEvent::WaitForClear).drop_last() == w0 + e0);
            assert(wave@ == (w0 + e0).push(WaveEvent::WaitForClear));
            assert forall|i: int| 0 <= i < wave@.len() implies event_ok(#[trigger] wave@[i]) || wave@[i] is WaitForClear by {
                if i < w0.len() {
                    assert(wave@[i] == w0[i]);
                } else if i < w0.len() + e0.len() {
                    assert(wave@[i] == e0[i - w0.len()]);
                }
            }
            let sp = choose|q: int| 0 <= q < e0.len() && (#[trigger] e0[q]) is Spawn;
            assert(wave@[w0.len() + sp] == e0[sp]);
            assert forall|i: int| 0 <= i < wave@.len() && (#[trigger] wave@[i]) is WaitForClear implies exists|j: int|
                0 <= j < i && (#[trigger] wave@[j]) is Spawn && forall|q: int| j < q < i ==> !(#[trigger] wave@[q] is WaitForClear) by {
                if i < w0.len() {
                    assert(wave@[i] == w0[i]);
                    let j = choose|j: int| 0 <= j < i && (#[trigger] w0[j]) is Spawn && forall|q: int| j < q < i ==> !(#[trigger] w0[q] is WaitForClear);
                    assert(wave@[j] == w0[j]);
                    assert forall|q: int| j < q < i implies !(#[trigger] wave@[q] is WaitForClear) by {
                        assert(wave@[q] == w0[q]);
                    }
                } else if i < w0.len() + e0.len() {
                    assert(wave@[i] == e0[i - w0.len()]);
                    assert(event_ok(e0[i - w0.len()]));
                } else {
                    let j = w0.len() + sp;
                    assert forall|q: int| j < q < i implies !(#[trigger] wave@[q] is WaitForClear) by {
                        assert(wave@[q] == e0[q - w0.len()]);
                        assert(event_ok(e0[q - w0.len()]));
                    }
                }
            }
        }
        k = k + 1;
    }
    wave
}

/// One instruction of the secondary timeline of elite and boss encounters.
#[derive(Debug)]
pub enum SpecialEvent {
    /// Spawn a unit of the model, driven by the curve.
    Spawn(Ships, Moves),
    /// Spawn a regular enemy on a crossing every `delay` milliseconds, at
    /// ordinate `y`, from the left edge when `right`; the last field is the
    /// time accumulated so far.
    InfiniteWave(u64, i64, bool, u64),
}

/// Where elites and bosses enter: above the arena, centred.
pub open spec fn entry_point() -> Point {
    Point { x: HALF_WIDTH_U, y: (HEIGHT_U + 16 * PX) as i64 }
}

/// A unit that descends from the entry point to `floor`, then follows `then`.
pub open spec fn descend_to(model: Ships, floor: i64, then: Moves) -> SpecialEvent {
    SpecialEvent::Spawn(model, Moves::DownUntil(entry_point(), floor, None, Box::new(then)))
}

/// The elite encounters, by variant.
pub open spec fn elite_wave(k: int) -> Seq<SpecialEvent> {
    let cx = HALF_WIDTH_U;
    if k == 0 {
        seq![
            descend_to(Ships::Elite(0), 86_400_000, Moves::Lemniscate(Point { x: cx, y: 86_400_000 }, 1200, 32_000_000)),
            SpecialEvent::InfiniteWave(11000, 68_000_000, true, 0),
        ]
    } else if k == 1 {
        seq![
            descend_to(Ships::Elite(1), 96_000_000, Moves::Ellipsis(Point { x: cx, y: 96_000_000 }, 2000, 32_000_000, 20_000_000)),
            SpecialEvent::InfiniteWave(8000, 120_000_000, false, 0),
        ]
    } else if k == 2 {
        seq![
            descend_to(Ships::Elite(2), 96_000_000, Moves::Astroid(Point { x: cx, y: 96_000_000 }, 1200, 32_000_000, 12_000_000)),
            SpecialEvent::InfiniteWave(10000, 120_000_000, false, 0),
        ]
    } else {
        seq![
            descend_to(Ships::Elite(3), 92_000_000, Moves::Ellipsis(Point { x: cx, y: 92_000_000 }, 800, 48_000_000, 16_000_000)),
            SpecialEvent::InfiniteWave(10000, 112_000_000, false, 0),
        ]
    }
}

/// The boss encounter of an act.
pub open spec fn boss_wave(act: int) -> Seq<SpecialEvent> {
    let cx = HALF_WIDTH_U;
    if act == 0 {
        seq![
            descend_to(Ships::Boss(0), 88_000_000, Moves::Ellipsis(Point { x: cx, y: 88_000_000 }, 800, 0, 8_000_000)),
            SpecialEvent::InfiniteWave(4000, 112_000_000, false, 0),
        ]
    } else if act == 1 {
        seq![
            descend_to(Ships::Boss(1), 112_000_000, Moves::Astroid(Point { x: cx, y: 112_000_000 }, 1000, 24_000_000, 16_000_000)),
            SpecialEvent::InfiniteWave(8000, 64_000_000, true, 0),
        ]
    } else {
        seq![
            descend_to(Ships::Boss(2), 88_000_000, Moves::Lemniscate(Point { x: cx, y: 88_000_000 }, 1000, 32_000_000)),
            SpecialEvent::InfiniteWave(10000, 120_000_000, false, 0),
        ]
    }
}

fn descend_exec(model: Ships, floor: i64, then: Moves) -> (r: SpecialEvent)
    ensures
        r == descend_to(model, floor, then),
{
    SpecialEvent::Spawn(
        model,
        Moves::DownUntil(Point { x: HALF_WIDTH_U, y: HEIGHT_U + 16 * PX }, floor, None, Box::new(then)),
    )
}

/// The elite encounter: one of the catalogue's variants, drawn at random.
pub fn gen_elite_wave(_level: usize) -> (r: Vec<SpecialEvent>)
    ensures
        exists|k: int| 0 <= k < 4 && r@ == elite_wave(k),
{
    let cx = HALF_WIDTH_U;
    let k = random_below(0, 4);
    let r = if k == 0 {
        vec![
            descend_exec(Ships::Elite(0), 86_400_000, Moves::Lemniscate(Point { x: cx, y: 86_400_000 }, 1200, 32_000_000)),
            SpecialEvent::InfiniteWave(11000, 68_000_000, true, 0),
        ]
    } else if k == 1 {
        vec![
            descend_exec(Ships::Elite(1), 96_000_000, Moves::Ellipsis(Point { x: cx, y: 96_000_000 }, 2000, 32_000_000, 20_000_000)),
            SpecialEvent::InfiniteWave(8000, 120_000_000, false, 0),
        ]
    } else if k == 2 {
        vec![
            descend_exec(Ships::Elite(2), 96_000_000, Moves::Astroid(Point { x: cx, y: 96_000_000 }, 1200, 32_000_000, 12_000_000)),
            SpecialEvent::InfiniteWave(10000, 120_000_000, false, 0),
        ]
    } else {
        vec![
            descend_exec(Ships::Elite(3), 92_000_000, Moves::Ellipsis(Point { x: cx, y: 92_000_000 }, 800, 48_000_000, 16_000_000)),
            SpecialEvent::InfiniteWave(10000, 112_000_000, false, 0),
        ]
    };
    assert(r@ =~= elite_wave(k as int));
    r
}

/// The boss encounter of the level's act.
pub fn gen_boss_wave(level: usize) -> (r: Vec<SpecialEvent>)
    ensures
        r@ == boss_wave(level as int / ACT_LEN as int),
{
    let cx = HALF_WIDTH_U;
    let act = level / ACT_LEN;
    let r = if act == 0 {
        vec![
            descend_exec(Ships::Boss(0), 88_000_000, Moves::Ellipsis(Point { x: cx, y: 88_000_000 }, 800, 0, 8_000_000)),
            SpecialEvent::InfiniteWave(4000, 112_000_000, false, 0),
        ]
    } else if act == 1 {
        vec![
            descend_exec(Ships::Boss(1), 112_000_000, Moves::Astroid(Point { x: cx, y: 112_000_000 }, 1000, 24_000_000, 16_000_000)),
            SpecialEvent::InfiniteWave(8000, 64_000_000, true, 0),
        ]
    } else {
        vec![
            descend_exec(Ships::Boss(2), 88_000_000, Moves::Lemniscate(Point { x: cx, y: 88_000_000 }, 1000, 32_000_000)),
            SpecialEvent::InfiniteWave(10000, 120_000_000, false, 0),
        ]
    };
    assert(r@ =~= boss_wave(act as int));
    r
}

} // verus!
