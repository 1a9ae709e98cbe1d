use vstd::prelude::*;

use crate::arena::Point;
use crate::generator::{
    barriers, boss_wave, elite_wave, gen_boss_wave, spawn_before_each_barrier, gen_elite_wave, gen_space_wave, SpecialEvent,
};
use crate::motion::{crossing_start, is_crossing, moves_start, param_ok, Moves};
use crate::arena::patterns_for;
use crate::ships::{enemy_of_level, Ships, ACT_LEN};
use crate::timeline::WaveEvent;

verus! {

/// Kind of encounter the route asks for.
#[derive(Copy, Clone, Debug, PartialEq, Eq, Structural)]
pub enum EncounterKind {
    Space,
    Elite,
    Boss,
}

/// A unit to put on the field: its model, where it appears and what drives it.
#[derive(Debug)]
pub struct SpawnRequest {
    pub model: Ships,
    pub start: Point,
    pub moves: Moves,
}

/// What one tick of the encounter produced.
#[derive(Debug)]
pub struct WaveUpdate {
    pub spawns: Vec<SpawnRequest>,
    /// The final barrier of the timeline was passed.
    pub cleared: bool,
}

/// The running encounter: the primary timeline, the secondary one of elite
/// and boss encounters, and the level.
#[derive(Debug)]
pub struct CurrentWave {
    pub events: Vec<WaveEvent>,
    pub special: Vec<SpecialEvent>,
    pub level: usize,
}

/// Infinite spawners have a positive interval and a lane in bounds.
pub open spec fn specials_wf(s: Seq<SpecialEvent>) -> bool {
    forall|i: int|
        0 <= i < s.len() ==> match #[trigger] s[i] {
            SpecialEvent::InfiniteWave(d, y, _, _) => d > 0 && param_ok(y),
            _ => true,
        }
}

pub open spec fn wave_wf(w: CurrentWave) -> bool {
    specials_wf(w.special@)
}

/// Whether a spawner with interval `d` that has run for `t` milliseconds
/// crosses an interval boundary during the next `dt` milliseconds.
pub open spec fn boundary_crossed(d: int, t: int, dt: int) -> bool {
    t / d < (t + dt) / d
}

/// Primary timeline after one tick, given whether enemies are left.
pub open spec fn events_after(e: Seq<WaveEvent>, dt: u64, enemies_left: bool) -> Seq<WaveEvent> {
    if e.len() == 0 {
        e
    } else {
        match e[0] {
            WaveEvent::Spawn(_, _) => e.drop_first(),
            WaveEvent::WaitMilliseconds(s) => if s > 0 {
                e.update(0, WaveEvent::WaitMilliseconds(if s < dt {
                    0
                } else {
                    (s - dt) as u64
                }))
            } else {
                e.drop_first()
            },
            WaveEvent::WaitForClear => if enemies_left {
                e
            } else {
                e.drop_first()
            },
        }
    }
}

/// The spawner's accumulated time after `dt` more milliseconds, saturating.
pub open spec fn timer_after(t: u64, dt: u64) -> u64 {
    if t + dt <= u64::MAX {
        (t + dt) as u64
    } else {
        u64::MAX
    }
}

/// One tick of an encounter, from `o` to `n`, requesting `spawns` and
/// reporting `cleared`; see `CurrentWave::update`.
pub open spec fn wave_step(
    o: CurrentWave,
    n: CurrentWave,
    dt: u64,
    enemies_left: bool,
    elite_killed: bool,
    spawns: Seq<SpawnRequest>,
    cleared: bool,
) -> bool {
    &&& wave_wf(n)
    &&& n.level == o.level
    &&& n.events@ == events_after(o.events@, dt, enemies_left)
    &&& cleared == (o.events@.len() == 1 && o.events@[0] is WaitForClear
            && !enemies_left)
    &&& ({
            let from_events: int = if o.events@.len() > 0 && o.events@[0] is Spawn {
                1
            } else {
                0
            };
            &&& o.events@.len() > 0 ==> match o.events@[0] {
                WaveEvent::Spawn(m, c) => spawns[0].model == m && spawns[0].moves == c
                    && spawns[0].start == moves_start(c),
                _ => true,
            }
            &&& elite_killed ==> n.special@.len() == 0 && spawns.len() == from_events
            &&& !elite_killed ==> {
                let s = o.special@;
                if s.len() == 0 {
                    n.special@ == s && spawns.len() == from_events
                } else {
                    match s[0] {
                        SpecialEvent::Spawn(m, c) => n.special@ == s.drop_first()
                            && spawns.len() == from_events + 1 && spawns[from_events].model
                            == m && spawns[from_events].moves == c,
                        SpecialEvent::InfiniteWave(d, y, right, t) => {
                            let spawn = t + dt <= u64::MAX && boundary_crossed(d as int, t as int, dt as int);
                            &&& n.special@ == s.update(
                                0,
                                SpecialEvent::InfiniteWave(d, y, right, timer_after(t, dt)),
                            )
                            &&& spawns.len() == from_events + if spawn {
                                1int
                            } else {
                                0
                            }
                            &&& spawn ==> enemy_of_level(
                                spawns[from_events].model,
                                o.level as int,
                            ) && is_crossing(spawns[from_events].moves, y, right)
                                && spawns[from_events].start == crossing_start(y, right)
                        },
                    }
                }
            }
        })
}

impl CurrentWave {
    /// Timelines for an encounter: a standard wave for a fight, or an elite or
    /// boss from the catalogue with its infinite spawner.
    pub fn new(kind: EncounterKind, level: usize) -> (r: CurrentWave)
        ensures
            wave_wf(r),
            r.level == level,
            kind == EncounterKind::Space ==> r.special@.len() == 0 && r.events@.len() > 0
                && r.events@.last() is WaitForClear && spawn_before_each_barrier(r.events@)
                && barriers(r.events@) == patterns_for(level as nat),
            kind == EncounterKind::Elite ==> r.events@.len() == 0 && exists|k: int|
                0 <= k < 4 && r.special@ == elite_wave(k),
            kind == EncounterKind::Boss ==> r.events@.len() == 0 && r.special@ == boss_wave(
                level as int / ACT_LEN as int,
            ),
    {
        match kind {
            EncounterKind::Elite => {
                let special = gen_elite_wave(level);
                assert(specials_wf(special@)) by {
                    let k = choose|k: int| 0 <= k < 4 && special@ == elite_wave(k);
                    assert forall|i: int| 0 <= i < special@.len() implies match #[trigger] special@[i] {
                        SpecialEvent::InfiniteWave(d, y, _, _) => d > 0 && param_ok(y),
                        _ => true,
                    } by {
                        assert(special@ == elite_wave(k));
                    }
                }
                CurrentWave { events: Vec::new(), special, level }
            },
            EncounterKind::Boss => {
                let special = gen_boss_wave(level);
                CurrentWave { events: Vec::new(), special, level }
            },
            EncounterKind::Space => {
                let events = gen_space_wave(level);
                CurrentWave { events, special: Vec::new(), level }
            },
        }
    }

    /// One tick of the encounter. The head of the primary timeline is handled:
    /// a spawn is requested and popped; a wait counts down by `dt` and is
    /// popped once at zero; a barrier is popped once no enemy is left, and
    /// passing the last one clears the wave. An elite kill empties the
    /// secondary timeline; then its head is handled: a spawn is requested and
    /// popped; an infinite spawner requests one enemy each time its running
    /// time crosses a multiple of its interval.
    pub fn update(&mut self, dt: u64, enemies_left: bool, elite_killed: bool) -> (r: WaveUpdate)
        requires
            wave_wf(*old(self)),
        ensures
            wave_step(*old(self), *final(self), dt, enemies_left, elite_killed, r.spawns@, r.cleared),
    {
        let mut spawns: Vec<SpawnRequest> = Vec::new();
        let mut cleared = false;
        if self.events.len() > 0 {
            let head_wait: Option<u64> = match &self.events[0] {
                WaveEvent::WaitMilliseconds(s) => Some(*s),
                _ => None,
            };
            match head_wait {
                Some(s) => {
                    if s > 0 {
                        let left = if s < dt {
                            0
                        } else {
                            s - dt
                        };
                        self.events.set(0, WaveEvent::WaitMilliseconds(left));
                    } else {
                        self.events.remove(0);
                    }
                },
                None => {
                    let is_barrier = match &self.events[0] {
                        WaveEvent::WaitForClear => true,
                        _ => false,
                    };
                    if is_barrier {
                        if !enemies_left {
                            cleared = self.events.len() == 1;
                            self.events.remove(0);
                        }
                    } else {
                        let e = self.events.remove(0);
                        match e {
                            WaveEvent::Spawn(model, moves) => {
                                let start = moves.starting_pos();
                                spawns.push(SpawnRequest { model, start, moves });
                            },
                            _ => {},
                        }
                    }
                },
            }
        }
        assert(self.events@ =~= events_after(old(self).events@, dt, enemies_left));
        if elite_killed {
            self.special.clear();
        }
        if self.special.len() > 0 {
            let head: Option<(u64, i64, bool, u64)> = match &self.special[0] {
                SpecialEvent::InfiniteWave(d, y, right, t) => Some((*d, *y, *right, *t)),
                _ => None,
            };
            match head {
                Some((d, y, right, t)) => {
                    assert(specials_wf(self.special@));
                    assert(match self.special@[0] {
                        SpecialEvent::InfiniteWave(d, y, _, _) => d > 0 && param_ok(y),
                        _ => true,
                    });
                    if t <= u64::MAX - dt {
                        if t / d < (t + dt) / d {
                            let model = Ships::random_enemy(self.level);
                            let moves = Moves::random_crossing_dir(y, right);
                            let start = moves.starting_pos();
                            spawns.push(SpawnRequest { model, start, moves });
                        }
                        self.special.set(0, SpecialEvent::InfiniteWave(d, y, right, t + dt));
                    } else {
                        self.special.set(0, SpecialEvent::InfiniteWave(d, y, right, u64::MAX));
                    }
                },
                None => {
                    let e = self.special.remove(0);
                    match e {
                        SpecialEvent::Spawn(model, moves) => {
                            let start = moves.starting_pos();
                            spawns.push(SpawnRequest { model, start, moves });
                        },
                        _ => {},
                    }
                },
            }
        }
        proof {
            assert forall|i: int| 0 <= i < self.special@.len() implies match #[trigger] self.special@[i] {
                SpecialEvent::InfiniteWave(d, y, _, _) => d > 0 && param_ok(y),
                _ => true,
            } by {
                if !elite_killed && old(self).special@.len() > 0 {
                    let s = old(self).special@;
                    if s[0] is InfiniteWave {
                        if i != 0 {
                            assert(self.special@[i] == s[i]);
                        } else {
                            assert(match s[0] {
                                SpecialEvent::InfiniteWave(d, y, _, _) => d > 0 && param_ok(y),
                                _ => true,
                            });
                        }
                    } else {
                        assert(self.special@[i] == s[i + 1]);
                    }
                }
            }
        }
        WaveUpdate { spawns, cleared }
    }
}

/// Spawns of an infinite spawner with interval `d`, started at `t`, over ticks
/// of the given lengths.
pub open spec fn spawner_run(d: int, t: int, steps: Seq<u64>) -> int
    decreases steps.len(),
{
    if steps.len() == 0 {
        0
    } else {
        let t_last = t + total(steps.drop_last());
        spawner_run(d, t, steps.drop_last()) + if boundary_crossed(d, t_last, steps.last() as int) {
            1int
        } else {
            0
        }
    }
}

pub open spec fn total(steps: Seq<u64>) -> int
    decreases steps.len(),
{
    if steps.len() == 0 {
        0
    } else {
        total(steps.drop_last()) + steps.last()
    }
}

proof fn lemma_total_nonneg(steps: Seq<u64>)
    ensures
        total(steps) >= 0,
    decreases steps.len(),
{
    if steps.len() > 0 {
        lemma_total_nonneg(steps.drop_last());
    }
}

/// However the time is cut into ticks no longer than the interval `d`, an
/// infinite spawner spawns once for each multiple of `d` it passes: no spawn
/// is skipped and none is repeated.
pub proof fn lemma_spawner_count(d: int, t: int, steps: Seq<u64>)
    requires
        d > 0,
        t >= 0,
        forall|i: int| 0 <= i < steps.len() ==> #[trigger] steps[i] <= d,
    ensures
        spawner_run(d, t, steps) == (t + total(steps)) / d - t / d,
    decreases steps.len(),
{
    if steps.len() > 0 {
        assert forall|i: int| 0 <= i < steps.drop_last().len() implies #[trigger] steps.drop_last()[i] <= d by {
            assert(steps.drop_last()[i] == steps[i]);
        }
        lemma_spawner_count(d, t, steps.drop_last());
        assert(steps[steps.len() - 1] <= d);
        lemma_total_nonneg(steps.drop_last());
        let a = t + total(steps.drop_last());
        let b = a + steps.last();
        assert(a / d <= b / d) by {
            vstd::arithmetic::div_mod::lemma_div_is_ordered(a, b, d);
        }
        if !(a / d < b / d) {
            assert(a / d == b / d);
        } else {
            assert(b / d - a / d >= 1);
            assert(b / d - a / d <= 1) by {
                vstd::arithmetic::div_mod::lemma_div_is_ordered(b, a + d, d);
                vstd::arithmetic::div_mod::lemma_div_plus_one(a, d);
            }
        }
    }
}

/// Lifecycle of an encounter.
#[derive(Copy, Clone, Debug, PartialEq, Eq, Structural)]
pub enum DirectorPhase {
    /// Waiting for the route to ask for an encounter.
    Idle,
    Running,
    /// The final barrier was passed.
    Cleared,
}

/// Runs one encounter at a time.
#[derive(Debug)]
pub struct Director {
    pub phase: DirectorPhase,
    pub wave: CurrentWave,
}

impl Director {
    /// A director waiting for its first encounter.
    pub fn new() -> (r: Director)
        ensures
            r.phase == DirectorPhase::Idle,
            r.wave.events@.len() == 0,
            r.wave.special@.len() == 0,
            wave_wf(r.wave),
    {
        Director {
            phase: DirectorPhase::Idle,
            wave: CurrentWave { events: Vec::new(), special: Vec::new(), level: 0 },
        }
    }

    /// Builds the timelines of the requested encounter and starts running it.
    pub fn start(&mut self, kind: EncounterKind, level: usize)
        ensures
            final(self).phase == DirectorPhase::Running,
            wave_wf(final(self).wave),
            final(self).wave.level == level,
            kind == EncounterKind::Space ==> final(self).wave.special@.len() == 0
                && final(self).wave.events@.len() > 0 && final(self).wave.events@.last() is WaitForClear
                && spawn_before_each_barrier(final(self).wave.events@)
                && barriers(final(self).wave.events@) == patterns_for(level as nat),
            kind == EncounterKind::Elite ==> final(self).wave.events@.len() == 0 && exists|k: int|
                0 <= k < 4 && final(self).wave.special@ == elite_wave(k),
            kind == EncounterKind::Boss ==> final(self).wave.events@.len() == 0
                && final(self).wave.special@ == boss_wave(level as int / ACT_LEN as int),
    {
        self.wave = CurrentWave::new(kind, level);
        self.phase = DirectorPhase::Running;
    }

    /// One tick: a running encounter advances its timelines and is cleared
    /// once its final barrier is passed; otherwise nothing happens.
    pub fn tick(&mut self, dt: u64, enemies_left: bool, elite_killed: bool) -> (r: WaveUpdate)
        requires
            wave_wf(old(self).wave),
        ensures
            wave_wf(final(self).wave),
            old(self).phase != DirectorPhase::Running ==> final(self).phase == old(self).phase
                && final(self).wave.events@ == old(self).wave.events@ && r.spawns@.len() == 0
                && !r.cleared,
            old(self).phase == DirectorPhase::Running ==> {
                &&& wave_step(old(self).wave, final(self).wave, dt, enemies_left, elite_killed, r.spawns@, r.cleared)
                &&& final(self).phase == if r.cleared {
                    DirectorPhase::Cleared
                } else {
                    DirectorPhase::Running
                }
            },
    {
        if self.phase != DirectorPhase::Running {
            return WaveUpdate { spawns: Vec::new(), cleared: false };
        }
        let r = self.wave.update(dt, enemies_left, elite_killed);
        if r.cleared {
            self.phase = DirectorPhase::Cleared;
        }
        r
    }

    /// Ends the encounter at once, whatever its phase: the timelines are
    /// discarded and the director waits for the next request.
    pub fn cancel(&mut self)
        ensures
            final(self).phase == DirectorPhase::Idle,
            final(self).wave.events@.len() == 0,
            final(self).wave.special@.len() == 0,
            final(self).wave.level == old(self).wave.level,
            wave_wf(final(self).wave),
    {
        self.wave.events.clear();
        self.wave.special.clear();
        self.phase = DirectorPhase::Idle;
    }
}

} // verus!
