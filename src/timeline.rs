use vstd::prelude::*;

use crate::motion::{moves_wf, Moves};
use crate::ships::Ships;

verus! {

/// Bound on the total waiting time of one wave, in milliseconds.
pub const MAX_WAVE_MS: u64 = 1_000_000_000_000;

/// One instruction of an encounter timeline.
#[derive(Debug)]
pub enum WaveEvent {
    /// Spawn a unit of the model, driven by the curve.
    Spawn(Ships, Moves),
    /// Wait this many milliseconds of scaled time.
    WaitMilliseconds(u64),
    /// Wait until no enemy is left.
    WaitForClear,
}

impl WaveEvent {
    /// An identical, independent copy of the event.
    pub fn duplicate(&self) -> (r: WaveEvent)
        ensures
            r == *self,
    {
        match self {
            WaveEvent::Spawn(s, m) => WaveEvent::Spawn(*s, m.duplicate()),
            WaveEvent::WaitMilliseconds(n) => WaveEvent::WaitMilliseconds(*n),
            WaveEvent::WaitForClear => WaveEvent::WaitForClear,
        }
    }
}

/// Total waiting time of a wave.
pub open spec fn wait_total(w: Seq<WaveEvent>) -> nat
    decreases w.len(),
{
    if w.len() == 0 {
        0
    } else {
        wait_total(w.drop_last()) + match w.last() {
            WaveEvent::WaitMilliseconds(n) => n as nat,
            _ => 0nat,
        }
    }
}

/// The spawns of a wave, each with the time it is due at, relative to the
/// wave's start.
pub open spec fn timed(w: Seq<WaveEvent>) -> Seq<(u64, WaveEvent)>
    decreases w.len(),
{
    if w.len() == 0 {
        Seq::empty()
    } else {
        let r = timed(w.drop_last());
        match w.last() {
            WaveEvent::Spawn(_, _) => r.push((wait_total(w.drop_last()) as u64, w.last())),
            _ => r,
        }
    }
}

/// The timed spawns of every wave, wave by wave.
pub open spec fn all_timed(waves: Seq<Seq<WaveEvent>>) -> Seq<(u64, WaveEvent)>
    decreases waves.len(),
{
    if waves.len() == 0 {
        Seq::empty()
    } else {
        all_timed(waves.drop_last()) + timed(waves.last())
    }
}

/// The earliest due time after `lower`, if any.
pub open spec fn min_above(f: Seq<(u64, WaveEvent)>, lower: int) -> Option<int>
    decreases f.len(),
{
    if f.len() == 0 {
        None
    } else {
        let r = min_above(f.drop_last(), lower);
        let t = f.last().0 as int;
        if t > lower {
            match r {
                Some(m) => Some(if t < m {
                    t
                } else {
                    m
                }),
                None => Some(t),
            }
        } else {
            r
        }
    }
}

/// The spawns due at `t`, in order.
pub open spec fn due_at(f: Seq<(u64, WaveEvent)>, t: int) -> Seq<WaveEvent>
    decreases f.len(),
{
    if f.len() == 0 {
        Seq::empty()
    } else {
        let r = due_at(f.drop_last(), t);
        if f.last().0 as int == t {
            r.push(f.last().1)
        } else {
            r
        }
    }
}

/// Re-emission of timed spawns in ascending time order: for each due time
/// after `lower`, a wait for the time since `prev`, then every spawn due at it.
pub open spec fn emit(f: Seq<(u64, WaveEvent)>, lower: int, prev: int, fuel: nat) -> Seq<WaveEvent>
    decreases fuel,
{
    if fuel == 0 {
        Seq::empty()
    } else {
        match min_above(f, lower) {
            None => Seq::empty(),
            Some(t) => seq![WaveEvent::WaitMilliseconds((t - prev) as u64)] + due_at(f, t) + emit(
                f,
                t,
                t,
                (fuel - 1) as nat,
            ),
        }
    }
}

/// The merge of waves that run in parallel into one timeline.
pub open spec fn merged(waves: Seq<Seq<WaveEvent>>) -> Seq<WaveEvent> {
    let f = all_timed(waves);
    emit(f, -1, 0, f.len())
}

pub open spec fn waves_view(waves: Seq<Vec<WaveEvent>>) -> Seq<Seq<WaveEvent>> {
    waves.map_values(|w: Vec<WaveEvent>| w@)
}

/// The timed spawns of one wave, appended to `out`.
fn collect_timed(w: &Vec<WaveEvent>, out: &mut Vec<(u64, WaveEvent)>)
    requires
        wait_total(w@) <= MAX_WAVE_MS,
    ensures
        final(out)@ == old(out)@ + timed(w@),
{
    let ghost o0 = old(out)@;
    let mut pause: u64 = 0;
    let mut k: usize = 0;
    while k < w.len()
        invariant
            k <= w.len(),
            wait_total(w@) <= MAX_WAVE_MS,
            pause == wait_total(w@.take(k as int)),
            out@ == o0 + timed(w@.take(k as int)),
        decreases w.len() - k,
    {
        let ghost pre = w@.take(k as int);
        let ghost post = w@.take(k as int + 1);
        assert(post.drop_last() == pre);
        proof {
            lemma_wait_total_prefix(w@, k as int + 1);
        }
        match &w[k] {
            WaveEvent::WaitMilliseconds(n) => {
                pause = pause + *n;
            },
            WaveEvent::WaitForClear => {},
            WaveEvent::Spawn(_, _) => {
                let e = w[k].duplicate();
                out.push((pause, e));
                assert(out@ =~= o0 + timed(post));
            },
        }
        k = k + 1;
    }
    assert(w@.take(w.len() as int) == w@);
}

proof fn lemma_wait_total_prefix(w: Seq<WaveEvent>, k: int)
    requires
        0 <= k <= w.len(),
    ensures
        wait_total(w.take(k)) <= wait_total(w),
    decreases w.len() - k,
{
    if k < w.len() {
        lemma_wait_total_prefix(w, k + 1);
        assert(w.take(k + 1).drop_last() == w.take(k));
    } else {
        assert(w.take(k) == w);
    }
}

pub open spec fn lower_of(lower: Option<u64>) -> int {
    match lower {
        Some(t) => t as int,
        None => -1,
    }
}

fn min_above_exec(f: &Vec<(u64, WaveEvent)>, lower: Option<u64>) -> (r: Option<u64>)
    ensures
        match r {
            Some(t) => min_above(f@, lower_of(lower)) == Some(t as int),
            None => min_above(f@, lower_of(lower)) is None,
        },
{
    let mut best: Option<u64> = None;
    let mut k: usize = 0;
    while k < f.len()
        invariant
            k <= f.len(),
            match best {
                Some(t) => min_above(f@.take(k as int), lower_of(lower)) == Some(t as int),
                None => min_above(f@.take(k as int), lower_of(lower)) is None,
            },
        decreases f.len() - k,
    {
        assert(f@.take(k as int + 1).drop_last() == f@.take(k as int));
        let t = f[k].0;
        let above = match lower {
            Some(l) => t > l,
            None => true,
        };
        if above {
            best = match best {
                Some(m) => Some(if t < m {
                    t
                } else {
                    m
                }),
                None => Some(t),
            };
        }
        k = k + 1;
    }
    assert(f@.take(f.len() as int) == f@);
    best
}

fn push_due_at(f: &Vec<(u64, WaveEvent)>, t: u64, out: &mut Vec<WaveEvent>)
    ensures
        final(out)@ == old(out)@ + due_at(f@, t as int),
{
    let ghost o0 = old(out)@;
    let mut k: usize = 0;
    while k < f.len()
        invariant
            k <= f.len(),
            out@ == o0 + due_at(f@.take(k as int), t as int),
        decreases f.len() - k,
    {
        assert(f@.take(k as int + 1).drop_last() == f@.take(k as int));
        if f[k].0 == t {
            out.push(f[k].1.duplicate());
        }
        assert(out@ =~= o0 + due_at(f@.take(k as int + 1), t as int));
        k = k + 1;
    }
    assert(f@.take(f.len() as int) == f@);
}

proof fn lemma_min_above_bound(f: Seq<(u64, WaveEvent)>, lower: int)
    ensures
        min_above(f, lower) matches Some(m) ==> m > lower && 0 <= m <= u64::MAX,
    decreases f.len(),
{
    if f.len() > 0 {
        lemma_min_above_bound(f.drop_last(), lower);
    }
}

/// Merges waves that run in parallel into one timeline: every spawn is
/// placed at its absolute due time, and the spawns are re-emitted in
/// ascending time order, each group sharing a due time preceded by a wait
/// for the time since the previous group. Barriers are dropped.
pub fn merge_waves(waves: &Vec<Vec<WaveEvent>>) -> (r: Vec<WaveEvent>)
    requires
        forall|i: int| 0 <= i < waves@.len() ==> wait_total((#[trigger] waves@[i])@) <= MAX_WAVE_MS,
    ensures
        r@ == merged(waves_view(waves@)),
{
    let mut f: Vec<(u64, WaveEvent)> = Vec::new();
    let mut i: usize = 0;
    while i < waves.len()
        invariant
            i <= waves.len(),
            forall|j: int| 0 <= j < waves@.len() ==> wait_total((#[trigger] waves@[j])@) <= MAX_WAVE_MS,
            f@ == all_timed(waves_view(waves@.take(i as int))),
        decreases waves.len() - i,
    {
        let ghost pre = waves_view(waves@.take(i as int));
        let ghost post = waves_view(waves@.take(i as int + 1));
        assert(post.drop_last() =~= pre);
        assert(post.last() == waves@[i as int]@);
        collect_timed(&waves[i], &mut f);
        i = i + 1;
    }
    assert(waves@.take(waves.len() as int) == waves@);
    let ghost full = f@;
    assert(full == all_timed(waves_view(waves@)));
    assert(merged(waves_view(waves@)) == emit(full, -1, 0, full.len()));
    let n = f.len();
    let mut out: Vec<WaveEvent> = Vec::new();
    let mut lower: Option<u64> = None;
    let mut prev: u64 = 0;
    let mut fuel: usize = n;
    while fuel > 0
        invariant
            f@ == full,
            full.len() == n,
            merged(waves_view(waves@)) == emit(full, -1, 0, n as nat),
            fuel <= n,
            prev as int == (match lower {
                Some(t) => t as int,
                None => 0,
            }),
            out@ + emit(full, lower_of(lower), prev as int, fuel as nat) == emit(full, -1, 0, n as nat),
        decreases fuel,
    {
        proof {
            lemma_min_above_bound(full, lower_of(lower));
        }
        match min_above_exec(&f, lower) {
            None => {
                assert(out@ =~= emit(full, -1, 0, n as nat));
                return out;
            },
            Some(t) => {
                let ghost o0 = out@;
                out.push(WaveEvent::WaitMilliseconds(t - prev));
                push_due_at(&f, t, &mut out);
                assert(out@ + emit(full, t as int, t as int, (fuel - 1) as nat) =~= o0 + emit(
                    full,
                    lower_of(lower),
                    prev as int,
                    fuel as nat,
                ));
                lower = Some(t);
                prev = t;
                fuel = fuel - 1;
            },
        }
    }
    assert(out@ =~= emit(full, -1, 0, n as nat));
    out
}

/// Merging two waves that each hold a single spawn, the second delayed by
/// eight seconds, yields the first spawn at once and the second eight
/// seconds later, in that order.
pub proof fn lemma_merge_two_parts(a: Ships, ma: Moves, b: Ships, mb: Moves)
    ensures
        merged(
            seq![
                seq![WaveEvent::WaitMilliseconds(0), WaveEvent::Spawn(a, ma)],
                seq![WaveEvent::WaitMilliseconds(8000), WaveEvent::Spawn(b, mb)],
            ],
        ) == seq![
            WaveEvent::WaitMilliseconds(0),
            WaveEvent::Spawn(a, ma),
            WaveEvent::WaitMilliseconds(8000),
            WaveEvent::Spawn(b, mb),
        ],
{
    let sa = WaveEvent::Spawn(a, ma);
    let sb = WaveEvent::Spawn(b, mb);
    let w1 = seq![WaveEvent::WaitMilliseconds(0), sa];
    let w2 = seq![WaveEvent::WaitMilliseconds(8000), sb];
    let waves = seq![w1, w2];
    reveal_with_fuel(wait_total, 3);
    reveal_with_fuel(timed, 3);
    reveal_with_fuel(all_timed, 3);
    reveal_with_fuel(min_above, 3);
    reveal_with_fuel(due_at, 3);
    reveal_with_fuel(emit, 3);
    assert(w1.drop_last() =~= seq![WaveEvent::WaitMilliseconds(0)]);
    assert(w2.drop_last() =~= seq![WaveEvent::WaitMilliseconds(8000)]);
    assert(seq![WaveEvent::WaitMilliseconds(0)].drop_last() =~= Seq::<WaveEvent>::empty());
    assert(seq![WaveEvent::WaitMilliseconds(8000)].drop_last() =~= Seq::<WaveEvent>::empty());
    assert(timed(w1) =~= seq![(0u64, sa)]);
    assert(timed(w2) =~= seq![(8000u64, sb)]);
    assert(waves.drop_last() =~= seq![w1]);
    assert(seq![w1].drop_last() =~= Seq::<Seq<WaveEvent>>::empty());
    let f = seq![(0u64, sa), (8000u64, sb)];
    assert(all_timed(seq![w1]) =~= seq![(0u64, sa)]);
    assert(all_timed(waves) =~= f);
    assert(f.drop_last() =~= seq![(0u64, sa)]);
    assert(seq![(0u64, sa)].drop_last() =~= Seq::<(u64, WaveEvent)>::empty());
    assert(min_above(f, -1) == Some(0int));
    assert(due_at(f, 0) =~= seq![sa]);
    assert(min_above(f, 0) == Some(8000int));
    assert(due_at(f, 8000) =~= seq![sb]);
    assert(min_above(f, 8000) is None);
    assert(emit(f, 8000, 8000, 0) =~= Seq::<WaveEvent>::empty());
    assert(emit(f, 0, 0, 1) =~= seq![WaveEvent::WaitMilliseconds(8000), sb]);
    assert(emit(f, -1, 0, 2) =~= seq![WaveEvent::WaitMilliseconds(0), sa, WaveEvent::WaitMilliseconds(8000), sb]);
}

/// A spawn driven by a well-formed curve.
pub open spec fn good_spawn(e: WaveEvent) -> bool {
    e matches WaveEvent::Spawn(_, c) && moves_wf(c)
}

/// A spawn driven by a well-formed curve, or a wait.
pub open spec fn event_ok(e: WaveEvent) -> bool {
    good_spawn(e) || e is WaitMilliseconds
}

pub open spec fn events_ok(s: Seq<WaveEvent>) -> bool {
    forall|i: int| 0 <= i < s.len() ==> event_ok(#[trigger] s[i])
}

proof fn lemma_timed_ok(w: Seq<WaveEvent>)
    requires
        events_ok(w),
    ensures
        forall|k: int| 0 <= k < timed(w).len() ==> good_spawn((#[trigger] timed(w)[k]).1),
    decreases w.len(),
{
    if w.len() > 0 {
        assert(events_ok(w.drop_last())) by {
            assert forall|i: int| 0 <= i < w.drop_last().len() implies event_ok(#[trigger] w.drop_last()[i]) by {
                assert(w.drop_last()[i] == w[i]);
            }
        }
        lemma_timed_ok(w.drop_last());
        assert(event_ok(w[w.len() - 1]));
        let r = timed(w.drop_last());
        assert forall|k: int| 0 <= k < timed(w).len() implies good_spawn((#[trigger] timed(w)[k]).1) by {
            if k < r.len() {
                assert(timed(w)[k] == r[k]);
            }
        }
    }
}

proof fn lemma_all_timed_ok(waves: Seq<Seq<WaveEvent>>)
    requires
        forall|i: int| 0 <= i < waves.len() ==> events_ok(#[trigger] waves[i]),
    ensures
        forall|k: int| 0 <= k < all_timed(waves).len() ==> good_spawn((#[trigger] all_timed(waves)[k]).1),
    decreases waves.len(),
{
    if waves.len() > 0 {
        let init = waves.drop_last();
        assert forall|i: int| 0 <= i < init.len() implies events_ok(#[trigger] init[i]) by {
            assert(init[i] == waves[i]);
        }
        lemma_all_timed_ok(init);
        assert(events_ok(waves[waves.len() - 1]));
        lemma_timed_ok(waves.last());
        let a = all_timed(init);
        let b = timed(waves.last());
        assert forall|k: int| 0 <= k < all_timed(waves).len() implies good_spawn((#[trigger] all_timed(waves)[k]).1) by {
            if k < a.len() {
                assert(all_timed(waves)[k] == a[k]);
            } else {
                assert(all_timed(waves)[k] == b[k - a.len()]);
            }
        }
    }
}

proof fn lemma_due_at_ok(f: Seq<(u64, WaveEvent)>, t: int)
    requires
        forall|k: int| 0 <= k < f.len() ==> good_spawn((#[trigger] f[k]).1),
    ensures
        forall|k: int| 0 <= k < due_at(f, t).len() ==> good_spawn(#[trigger] due_at(f, t)[k]),
    decreases f.len(),
{
    if f.len() > 0 {
        let init = f.drop_last();
        assert forall|k: int| 0 <= k < init.len() implies good_spawn((#[trigger] init[k]).1) by {
            assert(init[k] == f[k]);
        }
        lemma_due_at_ok(init, t);
        assert(good_spawn(f[f.len() - 1].1));
        let r = due_at(init, t);
        assert forall|k: int| 0 <= k < due_at(f, t).len() implies good_spawn(#[trigger] due_at(f, t)[k]) by {
            if k < r.len() {
                assert(due_at(f, t)[k] == r[k]);
            }
        }
    }
}

proof fn lemma_emit_ok(f: Seq<(u64, WaveEvent)>, lower: int, prev: int, fuel: nat)
    requires
        forall|k: int| 0 <= k < f.len() ==> good_spawn((#[trigger] f[k]).1),
    ensures
        events_ok(emit(f, lower, prev, fuel)),
    decreases fuel,
{
    if fuel > 0 {
        match min_above(f, lower) {
            None => {},
            Some(t) => {
                lemma_emit_ok(f, t, t, (fuel - 1) as nat);
                lemma_due_at_ok(f, t);
                let head = seq![WaveEvent::WaitMilliseconds((t - prev) as u64)];
                let d = due_at(f, t);
                let rest = emit(f, t, t, (fuel - 1) as nat);
                let all = emit(f, lower, prev, fuel);
                assert(all == head + d + rest);
                assert forall|i: int| 0 <= i < all.len() implies event_ok(#[trigger] all[i]) by {
                    if i == 0 {
                    } else if i < 1 + d.len() {
                        assert(all[i] == d[i - 1]);
                    } else {
                        assert(all[i] == rest[i - 1 - d.len()]);
                    }
                }
            },
        }
    }
}

/// A merge of waves of spawns and waits holds only spawns and waits.
pub proof fn lemma_merged_ok(waves: Seq<Seq<WaveEvent>>)
    requires
        forall|i: int| 0 <= i < waves.len() ==> events_ok(#[trigger] waves[i]),
    ensures
        events_ok(merged(waves)),
{
    lemma_all_timed_ok(waves);
    let f = all_timed(waves);
    lemma_emit_ok(f, -1, 0, f.len());
}

/// The timeline holds a spawn.
pub open spec fn has_spawn(s: Seq<WaveEvent>) -> bool {
    exists|i: int| 0 <= i < s.len() && (#[trigger] s[i]) is Spawn
}

proof fn lemma_timed_nonempty(w: Seq<WaveEvent>)
    requires
        has_spawn(w),
    ensures
        timed(w).len() > 0,
    decreases w.len(),
{
    let i = choose|i: int| 0 <= i < w.len() && (#[trigger] w[i]) is Spawn;
    if !(w.last() is Spawn) {
        assert(w.drop_last()[i] == w[i]);
        lemma_timed_nonempty(w.drop_last());
    }
}

proof fn lemma_all_timed_nonempty(ws: Seq<Seq<WaveEvent>>, i: int)
    requires
        0 <= i < ws.len(),
        timed(ws[i]).len() > 0,
    ensures
        all_timed(ws).len() > 0,
    decreases ws.len(),
{
    if i < ws.len() - 1 {
        assert(ws.drop_last()[i] == ws[i]);
        lemma_all_timed_nonempty(ws.drop_last(), i);
    }
}

proof fn lemma_min_above_found(f: Seq<(u64, WaveEvent)>, lower: int)
    ensures
        min_above(f, lower) is Some <==> exists|k: int| 0 <= k < f.len() && (#[trigger] f[k]).0 > lower,
        min_above(f, lower) matches Some(m) ==> exists|k: int| 0 <= k < f.len() && (#[trigger] f[k]).0 == m,
    decreases f.len(),
{
    if f.len() > 0 {
        let init = f.drop_last();
        lemma_min_above_found(init, lower);
        assert forall|k: int| 0 <= k < init.len() implies #[trigger] init[k] == f[k] by {}
        if exists|k: int| 0 <= k < f.len() && (#[trigger] f[k]).0 > lower {
            let k = choose|k: int| 0 <= k < f.len() && (#[trigger] f[k]).0 > lower;
            if k < init.len() {
                assert(init[k].0 > lower);
            }
        }
        match min_above(init, lower) {
            Some(m) => {
                let k = choose|k: int| 0 <= k < init.len() && (#[trigger] init[k]).0 == m;
                assert(f[k].0 == m);
            },
            None => {},
        }
    }
}

proof fn lemma_due_at_nonempty(f: Seq<(u64, WaveEvent)>, t: int)
    requires
        exists|k: int| 0 <= k < f.len() && (#[trigger] f[k]).0 == t,
    ensures
        due_at(f, t).len() > 0,
    decreases f.len(),
{
    let k = choose|k: int| 0 <= k < f.len() && (#[trigger] f[k]).0 == t;
    if f.last().0 != t {
        assert(f.drop_last()[k] == f[k]);
        lemma_due_at_nonempty(f.drop_last(), t);
    }
}

/// Merging waves of spawns and waits, one of which holds a spawn, gives a
/// timeline with a spawn.
pub proof fn lemma_merged_has_spawn(ws: Seq<Seq<WaveEvent>>, i: int)
    requires
        forall|j: int| 0 <= j < ws.len() ==> events_ok(#[trigger] ws[j]),
        0 <= i < ws.len(),
        has_spawn(ws[i]),
    ensures
        has_spawn(merged(ws)),
{
    lemma_timed_nonempty(ws[i]);
    lemma_all_timed_nonempty(ws, i);
    lemma_all_timed_ok(ws);
    let f = all_timed(ws);
    assert(f[0].0 > -1);
    lemma_min_above_found(f, -1);
    let m = min_above(f, -1).unwrap();
    lemma_due_at_nonempty(f, m);
    lemma_due_at_ok(f, m);
    let d = due_at(f, m);
    let out = merged(ws);
    assert(out == seq![WaveEvent::WaitMilliseconds((m - 0) as u64)] + d + emit(f, m, m, (f.len() - 1) as nat));
    assert(out[1] == d[0]);
    assert(good_spawn(d[0]));
}

} // verus!
