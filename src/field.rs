use vstd::prelude::*;

use crate::arena::{point_in_range, Point, HEIGHT_U, WIDTH_U};
use crate::motion::{moves_next, moves_pos, moves_wf, Moves, MAX_ELAPSED_MS, MAX_SPEED};
use crate::combat::{
    all_hits, bounce_shot, craft_ids_unique, craft_wf, crafts_wf, credit_money, damage_ships,
    despawn_ships, detect_hits, die_gracefully, find_craft, find_shot, has_craft, has_flag, has_shot,
    lemma_all_hits_len, lemma_remaining_wf, lemma_resolve_hits, lemma_resolve_hits_len, projectile_wf, resolve_hits, same_ids, shot_ids_unique, shots_wf,
    contains_id, credits_for, count_deaths, after_death_phase, remaining_crafts, elite_wreck, player_wreck,
    targets_hit, may_bounce, crosses_x, crosses_y, resolve_hit, shot_index,
    tick_blink, Craft, DamageEvent, DeathReport, DespawnReport, HitEvent, Projectile, PIERCING,
    STUN,
};
use crate::random::{random_below, random_coin};

verus! {

/// Longest tick the simulation accepts, in milliseconds.
pub const MAX_TICK_MS: u64 = 1_000_000;

/// Chance that a stun projectile mutes its target, in per-mille.
pub const STUN_CHANCE_PERMILLE: u64 = 50;

/// How long a stun mutes a craft's weapons, in milliseconds.
pub const STUN_DURATION_MS: u64 = 5000;

/// A non-piercing projectile that hit something this tick is used up.
pub open spec fn shot_spent(s: Projectile, hits: Seq<HitEvent>) -> bool {
    !has_flag(s.upgrades, PIERCING) && exists|k: int| 0 <= k < hits.len() && (#[trigger] hits[k]).shot == s.id
}

/// The projectiles that survive the hit-clear phase, in order.
pub open spec fn unspent_shots(ss: Seq<Projectile>, hits: Seq<HitEvent>) -> Seq<Projectile>
    decreases ss.len(),
{
    if ss.len() == 0 {
        Seq::empty()
    } else {
        let r = unspent_shots(ss.drop_last(), hits);
        if shot_spent(ss.last(), hits) {
            r
        } else {
            r.push(ss.last())
        }
    }
}

fn hit_by_shot(hits: &Vec<HitEvent>, id: u64) -> (r: bool)
    ensures
        r == exists|k: int| 0 <= k < hits@.len() && (#[trigger] hits@[k]).shot == id,
{
    let mut k: usize = 0;
    while k < hits.len()
        invariant
            k <= hits.len(),
            forall|j: int| 0 <= j < k ==> (#[trigger] hits@[j]).shot != id,
        decreases hits.len() - k,
    {
        if hits[k].shot == id {
            return true;
        }
        k = k + 1;
    }
    false
}

/// Hit-clear phase: every projectile that hit something this tick is removed,
/// unless it pierces.
pub fn clear_shots(shots: &mut Vec<Projectile>, hits: &Vec<HitEvent>)
    ensures
        final(shots)@ == unspent_shots(old(shots)@, hits@),
{
    let ghost s0 = old(shots)@;
    let n = shots.len();
    let mut i: usize = 0;
    let mut k: usize = 0;
    while k < n
        invariant
            n == s0.len(),
            k <= n,
            i <= k,
            shots@ == unspent_shots(s0.take(k as int), hits@) + s0.skip(k as int),
            i == unspent_shots(s0.take(k as int), hits@).len(),
        decreases n - k,
    {
        let ghost pre = s0.take(k as int);
        let ghost post = s0.take(k as int + 1);
        assert(post.drop_last() == pre);
        assert(shots@[i as int] == s0[k as int]);
        assert(post.last() == s0[k as int]);
        assert(s0.skip(k as int) =~= seq![s0[k as int]].add(s0.skip(k as int + 1)));
        let spent = shots[i].upgrades & PIERCING == 0 && hit_by_shot(hits, shots[i].id);
        if spent {
            assert(unspent_shots(post, hits@) == unspent_shots(pre, hits@));
            shots.remove(i);
        } else {
            assert(unspent_shots(post, hits@) == unspent_shots(pre, hits@).push(s0[k as int]));
            i = i + 1;
        }
        assert(shots@ =~= unspent_shots(post, hits@) + s0.skip(k as int + 1));
        k = k + 1;
    }
    assert(s0.take(n as int) == s0);
    assert(shots@ =~= unspent_shots(s0, hits@));
}

/// Position of a projectile after `dt` milliseconds of flight.
pub open spec fn flown_pos(s: Projectile, dt: u64) -> (int, int) {
    (s.pos.x + s.velocity.x * dt, s.pos.y + s.velocity.y * dt)
}

/// Beyond one arena width or height past the arena's edges.
pub open spec fn far_out(x: int, y: int) -> bool {
    x > 2 * WIDTH_U || x < -WIDTH_U || y > 2 * HEIGHT_U || y < -HEIGHT_U
}

/// The projectiles after `dt` milliseconds of flight, without those that left
/// the surroundings of the arena.
pub open spec fn flown_shots(ss: Seq<Projectile>, dt: u64) -> Seq<Projectile>
    decreases ss.len(),
{
    if ss.len() == 0 {
        Seq::empty()
    } else {
        let r = flown_shots(ss.drop_last(), dt);
        let s = ss.last();
        let p = flown_pos(s, dt);
        if far_out(p.0, p.1) {
            r
        } else {
            r.push(Projectile { pos: Point { x: p.0 as i64, y: p.1 as i64 }, ..s })
        }
    }
}

proof fn lemma_flown_wf(ss: Seq<Projectile>, dt: u64)
    requires
        shots_wf(ss),
        shot_ids_unique(ss),
    ensures
        shots_wf(flown_shots(ss, dt)),
        shot_ids_unique(flown_shots(ss, dt)),
        forall|i: int| 0 <= i < flown_shots(ss, dt).len() ==> exists|j: int| 0 <= j < ss.len() && ss[j].id == (#[trigger] flown_shots(ss, dt)[i]).id,
    decreases ss.len(),
{
    if ss.len() > 0 {
        let init = ss.drop_last();
        assert(shots_wf(init));
        assert(shot_ids_unique(init));
        lemma_flown_wf(init, dt);
        let r = flown_shots(init, dt);
        let out = flown_shots(ss, dt);
        assert(projectile_wf(ss[ss.len() - 1]));
        assert forall|i: int| 0 <= i < out.len() implies exists|j: int| 0 <= j < ss.len() && ss[j].id == (#[trigger] out[i]).id by {
            if i < r.len() {
                let j = choose|j: int| 0 <= j < init.len() && init[j].id == r[i].id;
                assert(ss[j].id == out[i].id);
            } else {
                assert(ss[ss.len() - 1].id == out[i].id);
            }
        }
        assert forall|a: int, b: int| 0 <= a < b < out.len() implies out[a].id != out[b].id by {
            if b >= r.len() {
                let j = choose|j: int| 0 <= j < init.len() && init[j].id == r[a].id;
                assert(ss[j].id != ss[ss.len() - 1].id);
            } else {
                assert(out[a] == r[a] && out[b] == r[b]);
            }
        }
        assert forall|i: int| 0 <= i < out.len() implies projectile_wf(#[trigger] out[i]) by {
            if i < r.len() {
                assert(out[i] == r[i]);
            }
        }
    }
}

/// Moves every projectile along its velocity for `dt` milliseconds and removes
/// those that end more than one arena width or height outside the arena.
pub fn update_shots(shots: &mut Vec<Projectile>, dt: u64)
    requires
        shots_wf(old(shots)@),
        dt <= MAX_TICK_MS,
    ensures
        final(shots)@ == flown_shots(old(shots)@, dt),
{
    let ghost s0 = old(shots)@;
    let n = shots.len();
    let mut i: usize = 0;
    let mut k: usize = 0;
    while k < n
        invariant
            n == s0.len(),
            k <= n,
            i <= k,
            dt <= MAX_TICK_MS,
            shots_wf(s0),
            shots@ == flown_shots(s0.take(k as int), dt) + s0.skip(k as int),
            i == flown_shots(s0.take(k as int), dt).len(),
        decreases n - k,
    {
        let ghost pre = s0.take(k as int);
        let ghost post = s0.take(k as int + 1);
        assert(post.drop_last() == pre);
        assert(shots@[i as int] == s0[k as int]);
        assert(post.last() == s0[k as int]);
        assert(projectile_wf(s0[k as int]));
        assert(s0.skip(k as int) =~= seq![s0[k as int]].add(s0.skip(k as int + 1)));
        let dt_i = dt as i64;
        let vx = shots[i].velocity.x;
        let vy = shots[i].velocity.y;
        assert(-4_000_000_000_000 * 1_000_000 <= vx * dt_i <= 4_000_000_000_000 * 1_000_000) by (nonlinear_arith)
            requires -4_000_000_000_000 <= vx <= 4_000_000_000_000, 0 <= dt_i <= 1_000_000;
        assert(-4_000_000_000_000 * 1_000_000 <= vy * dt_i <= 4_000_000_000_000 * 1_000_000) by (nonlinear_arith)
            requires -4_000_000_000_000 <= vy <= 4_000_000_000_000, 0 <= dt_i <= 1_000_000;
        let x = shots[i].pos.x + vx * dt_i;
        let y = shots[i].pos.y + vy * dt_i;
        if x > 2 * WIDTH_U || x < -WIDTH_U || y > 2 * HEIGHT_U || y < -HEIGHT_U {
            assert(flown_shots(post, dt) == flown_shots(pre, dt));
            shots.remove(i);
        } else {
            assert(flown_shots(post, dt) == flown_shots(pre, dt).push(
                Projectile { pos: Point { x, y }, ..s0[k as int] },
            ));
            let ghost before = shots@;
            let s = &mut shots[i];
            s.pos = Point { x, y };
            assert(shots@ == before.update(i as int, shots@[i as int]));
            i = i + 1;
        }
        assert(shots@ =~= flown_shots(post, dt) + s0.skip(k as int + 1));
        k = k + 1;
    }
    assert(s0.take(n as int) == s0);
    assert(shots@ =~= flown_shots(s0, dt));
}

/// An enemy craft farther than one arena height from the arena's centre.
pub open spec fn stray(c: Craft) -> bool {
    let dx = c.pos.x - WIDTH_U / 2;
    let dy = c.pos.y - HEIGHT_U / 2;
    !c.is_main && dx * dx + dy * dy > HEIGHT_U * HEIGHT_U
}

/// The crafts that stay in the surroundings of the arena, in order.
pub open spec fn near_crafts(cs: Seq<Craft>) -> Seq<Craft>
    decreases cs.len(),
{
    if cs.len() == 0 {
        Seq::empty()
    } else {
        let r = near_crafts(cs.drop_last());
        if stray(cs.last()) {
            r
        } else {
            r.push(cs.last())
        }
    }
}

/// Removes the enemy crafts that strayed farther than one arena height from
/// the arena's centre.
pub fn despawn_far_ships(crafts: &mut Vec<Craft>)
    requires
        crafts_wf(old(crafts)@),
    ensures
        final(crafts)@ == near_crafts(old(crafts)@),
{
    let ghost c0 = old(crafts)@;
    let n = crafts.len();
    let mut i: usize = 0;
    let mut k: usize = 0;
    while k < n
        invariant
            n == c0.len(),
            k <= n,
            i <= k,
            crafts_wf(c0),
            crafts@ == near_crafts(c0.take(k as int)) + c0.skip(k as int),
            i == near_crafts(c0.take(k as int)).len(),
        decreases n - k,
    {
        let ghost pre = c0.take(k as int);
        let ghost post = c0.take(k as int + 1);
        assert(post.drop_last() == pre);
        assert(crafts@[i as int] == c0[k as int]);
        assert(post.last() == c0[k as int]);
        assert(craft_wf(c0[k as int]));
        assert(c0.skip(k as int) =~= seq![c0[k as int]].add(c0.skip(k as int + 1)));
        let c = crafts[i];
        let dx = c.pos.x as i128 - (WIDTH_U / 2) as i128;
        let dy = c.pos.y as i128 - (HEIGHT_U / 2) as i128;
        assert(0 <= dx * dx <= 5_000_000_000_000i128 * 5_000_000_000_000i128) by (nonlinear_arith)
            requires -5_000_000_000_000i128 <= dx <= 5_000_000_000_000i128;
        assert(0 <= dy * dy <= 5_000_000_000_000i128 * 5_000_000_000_000i128) by (nonlinear_arith)
            requires -5_000_000_000_000i128 <= dy <= 5_000_000_000_000i128;
        let h = HEIGHT_U as i128;
        if !c.is_main && dx * dx + dy * dy > h * h {
            assert(near_crafts(post) == near_crafts(pre));
            crafts.remove(i);
        } else {
            assert(near_crafts(post) == near_crafts(pre).push(c));
            i = i + 1;
        }
        assert(crafts@ =~= near_crafts(post) + c0.skip(k as int + 1));
        k = k + 1;
    }
    assert(c0.take(n as int) == c0);
    assert(crafts@ =~= near_crafts(c0));
}

/// Whether a stun projectile mutes its target, given a roll in per-mille and
/// a coin: a roll under the stun chance, and for an elite or boss a coin that
/// came up too.
pub fn stun_applies(roll: u64, coin: bool, elite: bool) -> (r: bool)
    ensures
        r == (roll < STUN_CHANCE_PERMILLE && (!elite || coin)),
{
    roll < STUN_CHANCE_PERMILLE && (!elite || coin)
}

/// Some hit event of a stun projectile on the craft.
pub open spec fn stun_hit_on(
    hits: Seq<HitEvent>,
    ss: Seq<Projectile>,
    id: u64,
) -> bool {
    exists|k: int|
        0 <= k < hits.len() && (#[trigger] hits[k]).ship == id && has_shot(ss, hits[k].shot)
            && has_flag(ss[crate::combat::shot_index(ss, hits[k].shot)].upgrades, STUN)
}

/// Identifiers of the crafts hit by a stun projectile, one per such hit.
pub fn stun_targets(shots: &Vec<Projectile>, hits: &Vec<HitEvent>) -> (r: Vec<u64>)
    requires
        shot_ids_unique(shots@),
    ensures
        forall|id: u64| r@.contains(id) <==> stun_hit_on(hits@, shots@, id),
{
    let mut out: Vec<u64> = Vec::new();
    let mut k: usize = 0;
    while k < hits.len()
        invariant
            k <= hits.len(),
            shot_ids_unique(shots@),
            forall|id: u64| out@.contains(id) <==> exists|q: int|
                0 <= q < k && (#[trigger] hits@[q]).ship == id && has_shot(shots@, hits@[q].shot)
                    && has_flag(shots@[crate::combat::shot_index(shots@, hits@[q].shot)].upgrades, STUN),
        decreases hits.len() - k,
    {
        let h = hits[k];
        let ghost o0 = out@;
        match find_shot(shots, h.shot) {
            Some(j) => {
                if shots[j].upgrades & STUN != 0 {
                    out.push(h.ship);
                }
            },
            None => {},
        }
        proof {
            assert forall|id: u64| out@.contains(id) <==> exists|q: int|
                0 <= q < k + 1 && (#[trigger] hits@[q]).ship == id && has_shot(shots@, hits@[q].shot)
                    && has_flag(shots@[crate::combat::shot_index(shots@, hits@[q].shot)].upgrades, STUN) by {
                if out@.contains(id) && !o0.contains(id) {
                    assert(out@[out@.len() - 1] == id);
                    assert(hits@[k as int].ship == id);
                }
                if o0.contains(id) {
                    let q = choose|q: int| 0 <= q < o0.len() && o0[q] == id;
                    assert(out@[q] == id);
                }
                if exists|q: int| 0 <= q < k + 1 && (#[trigger] hits@[q]).ship == id && has_shot(shots@, hits@[q].shot)
                    && has_flag(shots@[crate::combat::shot_index(shots@, hits@[q].shot)].upgrades, STUN) {
                    let q = choose|q: int| 0 <= q < k + 1 && (#[trigger] hits@[q]).ship == id && has_shot(shots@, hits@[q].shot)
                        && has_flag(shots@[crate::combat::shot_index(shots@, hits@[q].shot)].upgrades, STUN);
                    if q == k {
                        assert(out@[out@.len() - 1] == id);
                    }
                }
            }
        }
        k = k + 1;
    }
    out
}

/// The craft muted by a stun.
pub open spec fn stunned(c: Craft) -> Craft {
    Craft { stun_ms: STUN_DURATION_MS, ..c }
}

/// Stun phase: for each craft among the stun targets, a random roll decides
/// whether its weapons are muted for `STUN_DURATION_MS`. Only targets are
/// affected, and only their stun timer.
pub fn apply_stuns(crafts: &mut Vec<Craft>, targets: &Vec<u64>)
    ensures
        final(crafts)@.len() == old(crafts)@.len(),
        forall|i: int|
            0 <= i < old(crafts)@.len() ==> #[trigger] final(crafts)@[i] == old(crafts)@[i] || (
            targets@.contains(old(crafts)@[i].id) && final(crafts)@[i] == stunned(old(crafts)@[i])),
{
    let ghost c0 = old(crafts)@;
    let mut i: usize = 0;
    while i < crafts.len()
        invariant
            i <= crafts@.len(),
            crafts@.len() == c0.len(),
            forall|q: int| i <= q < c0.len() ==> #[trigger] crafts@[q] == c0[q],
            forall|q: int|
                0 <= q < i ==> #[trigger] crafts@[q] == c0[q] || (targets@.contains(c0[q].id) && crafts@[q] == stunned(c0[q])),
        decreases c0.len() - i,
    {
        let c = crafts[i];
        if contains_id(targets, c.id) {
            let roll = random_below(0, 1000);
            let coin = random_coin();
            if stun_applies(roll, coin, c.ship.model.is_elite()) {
                crafts.set(i, Craft { stun_ms: STUN_DURATION_MS, ..c });
            }
        }
        i = i + 1;
    }
}

/// Counts a craft's stun down by `dt` milliseconds; at zero it fires again.
pub fn tick_stun(c: &mut Craft, dt: u64)
    ensures
        *final(c) == (Craft {
            stun_ms: if old(c).stun_ms <= dt {
                0
            } else {
                (old(c).stun_ms - dt) as u64
            },
            ..*old(c)
        }),
{
    c.stun_ms = if c.stun_ms <= dt {
        0
    } else {
        c.stun_ms - dt
    };
}

/// A craft fires only when neither destroyed nor stunned.
pub fn can_fire(c: &Craft) -> (r: bool)
    ensures
        r == (!c.muted && c.stun_ms == 0),
{
    !c.muted && c.stun_ms == 0
}

/// Same identifiers, in the same order.
pub open spec fn same_shot_ids(a: Seq<Projectile>, b: Seq<Projectile>) -> bool {
    a.len() == b.len() && forall|i: int| 0 <= i < a.len() ==> #[trigger] a[i].id == b[i].id
}

proof fn lemma_unique_by_same_ids(a: Seq<Craft>, b: Seq<Craft>)
    requires
        same_ids(a, b),
        craft_ids_unique(a),
    ensures
        craft_ids_unique(b),
{
    assert forall|i: int, j: int| 0 <= i < j < b.len() implies b[i].id != b[j].id by {
        assert(a[i].id == b[i].id && a[j].id == b[j].id);
    }
}

proof fn lemma_unique_by_same_shot_ids(a: Seq<Projectile>, b: Seq<Projectile>)
    requires
        same_shot_ids(a, b),
        shot_ids_unique(a),
    ensures
        shot_ids_unique(b),
{
    assert forall|i: int, j: int| 0 <= i < j < b.len() implies b[i].id != b[j].id by {
        assert(a[i].id == b[i].id && a[j].id == b[j].id);
    }
}

/// Every craft and projectile of an encounter.
pub struct Field {
    pub crafts: Vec<Craft>,
    pub shots: Vec<Projectile>,
}

/// Crafts within `[0, max_health]` and in range, projectiles in range, and
/// identifiers unique on each side.
pub open spec fn field_wf(f: Field) -> bool {
    &&& crafts_wf(f.crafts@)
    &&& craft_ids_unique(f.crafts@)
    &&& shots_wf(f.shots@)
    &&& shot_ids_unique(f.shots@)
}

/// What one combat tick produced.
pub struct TickReport {
    pub hits: Vec<HitEvent>,
    pub damage: Vec<DamageEvent>,
    pub credits: u128,
    pub deaths: DeathReport,
    pub despawned: DespawnReport,
}

/// Velocity of a projectile after the bounce step.
pub open spec fn bounce_velocity(s: Projectile) -> (int, int) {
    if may_bounce(s) {
        (
            if crosses_x(s.pos) { -s.velocity.x } else { s.velocity.x as int },
            if crosses_y(s.pos) { -s.velocity.y } else { s.velocity.y as int },
        )
    } else {
        (s.velocity.x as int, s.velocity.y as int)
    }
}

/// The projectile bounces during the bounce step.
pub open spec fn bounces(s: Projectile) -> bool {
    may_bounce(s) && (crosses_x(s.pos) || crosses_y(s.pos))
}

/// `t` is `s` after the collision step against `crafts` and the bounce step.
pub open spec fn collided_and_bounced(s: Projectile, t: Projectile, crafts: Seq<Craft>) -> bool {
    &&& t.id == s.id
    &&& t.attack == s.attack
    &&& t.friendly == s.friendly
    &&& t.hitbox == s.hitbox
    &&& t.pos == s.pos
    &&& t.upgrades == s.upgrades
    &&& t.velocity.x == bounce_velocity(s).0
    &&& t.velocity.y == bounce_velocity(s).1
    &&& t.bounce_count == s.bounce_count + if bounces(s) { 1int } else { 0 }
    &&& t.collisions@ == if bounces(s) { Seq::empty() } else { s.collisions@ + targets_hit(s, crafts) }
}

/// Every craft after the death phase.
pub open spec fn death_marked(ev: Seq<DamageEvent>, cs: Seq<Craft>) -> Seq<Craft> {
    Seq::new(cs.len(), |i: int| after_death_phase(ev, cs[i]))
}

/// Same identifiers, attacks and modifiers, in the same order.
pub open spec fn same_shot_stats(a: Seq<Projectile>, b: Seq<Projectile>) -> bool {
    a.len() == b.len() && forall|i: int|
        0 <= i < a.len() ==> #[trigger] a[i].id == b[i].id && a[i].attack == b[i].attack && a[i].upgrades
            == b[i].upgrades
}

proof fn lemma_shot_lookup(a: Seq<Projectile>, b: Seq<Projectile>, id: u64)
    requires
        same_shot_stats(a, b),
        shot_ids_unique(a),
    ensures
        has_shot(a, id) == has_shot(b, id),
        has_shot(a, id) ==> shot_index(a, id) == shot_index(b, id),
{
    if has_shot(a, id) {
        let i = shot_index(a, id);
        assert(b[i].id == id);
        let j = shot_index(b, id);
        assert(a[j].id == id);
        if i < j {
            assert(a[i].id != a[j].id);
        } else if j < i {
            assert(a[j].id != a[i].id);
        }
    }
    if has_shot(b, id) {
        let j = shot_index(b, id);
        assert(a[j].id == id);
    }
}

/// The damage phase reads projectiles only through their identifiers and
/// attacks.
proof fn lemma_resolve_same_shots(
    cs: Seq<Craft>,
    a: Seq<Projectile>,
    b: Seq<Projectile>,
    hits: Seq<HitEvent>,
    berserk: bool,
)
    requires
        same_shot_stats(a, b),
        shot_ids_unique(a),
    ensures
        resolve_hits(cs, a, hits, berserk) == resolve_hits(cs, b, hits, berserk),
    decreases hits.len(),
{
    if hits.len() > 0 {
        lemma_resolve_same_shots(cs, a, b, hits.drop_last(), berserk);
        lemma_shot_lookup(a, b, hits.last().shot);
        let mid = resolve_hits(cs, a, hits.drop_last(), berserk).0;
        assert(resolve_hit(mid, a, hits.last(), berserk) == resolve_hit(mid, b, hits.last(), berserk));
    }
}

/// The stun phase reads projectiles only through their identifiers and
/// modifiers.
proof fn lemma_stun_same_shots(a: Seq<Projectile>, b: Seq<Projectile>, hits: Seq<HitEvent>, id: u64)
    requires
        same_shot_stats(a, b),
        shot_ids_unique(a),
    ensures
        stun_hit_on(hits, a, id) == stun_hit_on(hits, b, id),
{
    if stun_hit_on(hits, a, id) {
        let q = choose|q: int|
            0 <= q < hits.len() && (#[trigger] hits[q]).ship == id && has_shot(a, hits[q].shot)
                && has_flag(a[shot_index(a, hits[q].shot)].upgrades, STUN);
        lemma_shot_lookup(a, b, hits[q].shot);
    }
    if stun_hit_on(hits, b, id) {
        let q = choose|q: int|
            0 <= q < hits.len() && (#[trigger] hits[q]).ship == id && has_shot(b, hits[q].shot)
                && has_flag(b[shot_index(b, hits[q].shot)].upgrades, STUN);
        lemma_shot_lookup(a, b, hits[q].shot);
    }
}

impl Field {
    /// An empty field.
    pub fn new() -> (r: Field)
        ensures
            r.crafts@.len() == 0,
            r.shots@.len() == 0,
            field_wf(r),
    {
        Field { crafts: Vec::new(), shots: Vec::new() }
    }

    /// One combat tick, phase by phase: collision, damage, bounce, loot,
    /// death, hit-clear, removal of wrecks whose blink has elapsed, and the
    /// stun rolls. A stun only sets a stun timer, which no other phase reads,
    /// so it is rolled last. Every craft's health stays within
    /// `[0, max_health]`, and each craft takes at most one fatal damage event.
    pub fn combat_tick(&mut self, berserk: bool) -> (r: TickReport)
        requires
            field_wf(*old(self)),
        ensures
            field_wf(*final(self)),
            r.hits@ == all_hits(old(self).shots@, old(self).crafts@),
            ({
                let (c1, ev) = resolve_hits(old(self).crafts@, old(self).shots@, r.hits@, berserk);
                let marked = death_marked(ev, c1);
                let left = remaining_crafts(marked);
                &&& r.damage@ == ev
                &&& r.credits == credits_for(ev, c1)
                &&& r.deaths.kills == count_deaths(ev, c1).0
                &&& r.deaths.elite_killed == (count_deaths(ev, c1).1 > 0)
                &&& r.deaths.player_died == (count_deaths(ev, c1).2 > 0)
                &&& r.despawned.elite_removed == elite_wreck(marked)
                &&& r.despawned.player_removed == player_wreck(marked)
                &&& final(self).crafts@.len() == left.len()
                &&& forall|i: int|
                    0 <= i < left.len() ==> #[trigger] final(self).crafts@[i] == left[i] || (stun_hit_on(
                        r.hits@,
                        old(self).shots@,
                        left[i].id,
                    ) && final(self).crafts@[i] == stunned(left[i]))
            }),
            exists|sb: Seq<Projectile>|
                sb.len() == old(self).shots@.len() && (forall|i: int|
                    0 <= i < sb.len() ==> collided_and_bounced(old(self).shots@[i], #[trigger] sb[i], old(self).crafts@))
                    && final(self).shots@ == crate::field::unspent_shots(sb, r.hits@),
            forall|k: int, l: int|
                0 <= k < l < r.damage@.len() && (#[trigger] r.damage@[k]).fatal
                    && (#[trigger] r.damage@[l]).fatal ==> r.damage@[k].ship != r.damage@[l].ship,
    {
        let ghost s0 = self.shots@;
        let ghost c0 = self.crafts@;
        let hits = detect_hits(&mut self.shots, &self.crafts);
        let ghost s1 = self.shots@;
        assert(same_shot_stats(s0, s1));
        assert(same_shot_ids(s0, s1));
        proof {
            lemma_unique_by_same_shot_ids(s0, s1);
            assert forall|i: int| 0 <= i < s1.len() implies projectile_wf(#[trigger] s1[i]) by {
                assert(projectile_wf(s0[i]));
            }
            lemma_resolve_hits(c0, s1, hits@, berserk);
            lemma_resolve_same_shots(c0, s0, s1, hits@, berserk);
            lemma_resolve_hits(c0, s0, hits@, berserk);
        }
        let targets = stun_targets(&self.shots, &hits);
        let damage = damage_ships(&mut self.crafts, &self.shots, &hits, berserk);
        let ghost cd = self.crafts@;
        let mut i: usize = 0;
        while i < self.shots.len()
            invariant
                i <= self.shots@.len(),
                self.shots@.len() == s0.len(),
                self.crafts@ == cd,
                crafts_wf(cd),
                craft_ids_unique(cd),
                (cd, damage@) == resolve_hits(c0, s0, hits@, berserk),
                shots_wf(self.shots@),
                shot_ids_unique(self.shots@),
                forall|q: int| i <= q < s0.len() ==> #[trigger] self.shots@[q] == s1[q],
                forall|q: int| 0 <= q < i ==> collided_and_bounced(s0[q], #[trigger] self.shots@[q], c0),
                forall|q: int|
                    0 <= q < s0.len() ==> {
                        &&& (#[trigger] s1[q]).collisions@ == s0[q].collisions@ + targets_hit(s0[q], c0)
                        &&& (Projectile { collisions: s0[q].collisions, ..s1[q] }) == s0[q]
                    },
            decreases self.shots@.len() - i,
        {
            let ghost before = self.shots@;
            assert(projectile_wf(self.shots@[i as int]));
            let s = &mut self.shots[i];
            bounce_shot(s);
            assert(self.shots@ == before.update(i as int, self.shots@[i as int]));
            assert(same_shot_ids(before, self.shots@));
            proof {
                lemma_unique_by_same_shot_ids(before, self.shots@);
                assert forall|q: int| 0 <= q < self.shots@.len() implies projectile_wf(#[trigger] self.shots@[q]) by {
                    if q != i as int {
                        assert(self.shots@[q] == before[q]);
                    }
                }
                assert((Projectile { collisions: s0[i as int].collisions, ..s1[i as int] }) == s0[i as int]);
                assert forall|q: int| 0 <= q < i + 1 implies collided_and_bounced(s0[q], #[trigger] self.shots@[q], c0) by {
                    if q < i {
                        assert(self.shots@[q] == before[q]);
                    }
                }
            }
            i = i + 1;
        }
        let ghost sb = self.shots@;
        let credits = credit_money(&damage, &self.crafts);
        let deaths = die_gracefully(&mut self.crafts, &damage);
        let ghost c2 = self.crafts@;
        proof {
            assert(c2 =~= death_marked(damage@, cd));
            assert(same_ids(cd, c2));
            lemma_unique_by_same_ids(cd, c2);
            assert forall|q: int| 0 <= q < c2.len() implies craft_wf(#[trigger] c2[q]) by {
                assert(craft_wf(cd[q]));
            }
        }
        clear_shots(&mut self.shots, &hits);
        proof {
            lemma_unspent_wf(sb, hits@);
        }
        let despawned = despawn_ships(&mut self.crafts);
        let ghost c3 = self.crafts@;
        proof {
            lemma_remaining_wf(c2);
        }
        apply_stuns(&mut self.crafts, &targets);
        proof {
            assert(same_ids(c3, self.crafts@));
            lemma_unique_by_same_ids(c3, self.crafts@);
            assert forall|q: int| 0 <= q < self.crafts@.len() implies craft_wf(#[trigger] self.crafts@[q]) by {
                assert(craft_wf(c3[q]));
            }
            assert forall|q: int| 0 <= q < c3.len() implies #[trigger] self.crafts@[q] == c3[q] || (stun_hit_on(
                hits@, s0, c3[q].id) && self.crafts@[q] == stunned(c3[q])) by {
                lemma_stun_same_shots(s0, s1, hits@, c3[q].id);
            }
            assert(sb.len() == s0.len());
        }
        TickReport { hits, damage, credits, deaths, despawned }
    }
}

proof fn lemma_unspent_wf(ss: Seq<Projectile>, hits: Seq<HitEvent>)
    requires
        shots_wf(ss),
        shot_ids_unique(ss),
    ensures
        shots_wf(unspent_shots(ss, hits)),
        shot_ids_unique(unspent_shots(ss, hits)),
        forall|i: int| 0 <= i < unspent_shots(ss, hits).len() ==> exists|j: int| 0 <= j < ss.len() && ss[j].id == (#[trigger] unspent_shots(ss, hits)[i]).id,
    decreases ss.len(),
{
    if ss.len() > 0 {
        let init = ss.drop_last();
        assert(shots_wf(init));
        assert(shot_ids_unique(init));
        lemma_unspent_wf(init, hits);
        let r = unspent_shots(init, hits);
        let out = unspent_shots(ss, hits);
        assert(projectile_wf(ss[ss.len() - 1]));
        assert forall|i: int| 0 <= i < out.len() implies exists|j: int| 0 <= j < ss.len() && ss[j].id == (#[trigger] out[i]).id by {
            if i < r.len() {
                let j = choose|j: int| 0 <= j < init.len() && init[j].id == r[i].id;
                assert(ss[j].id == out[i].id);
            } else {
                assert(ss[ss.len() - 1].id == out[i].id);
            }
        }
        assert forall|a: int, b: int| 0 <= a < b < out.len() implies out[a].id != out[b].id by {
            if b >= r.len() {
                let j = choose|j: int| 0 <= j < init.len() && init[j].id == r[a].id;
                assert(ss[j].id != ss[ss.len() - 1].id);
            } else {
                assert(out[a] == r[a] && out[b] == r[b]);
            }
        }
        assert forall|i: int| 0 <= i < out.len() implies projectile_wf(#[trigger] out[i]) by {
            if i < r.len() {
                assert(out[i] == r[i]);
            }
        }
    }
}

/// The curve that drives a craft, and the time the craft appeared at.
#[derive(Debug)]
pub struct Movement {
    pub craft: u64,
    pub moves: Moves,
    pub t_0: u64,
}

pub open spec fn movements_wf(ms: Seq<Movement>) -> bool {
    forall|i: int| 0 <= i < ms.len() ==> moves_wf((#[trigger] ms[i]).moves)
}

/// Time a curve is evaluated at: the time since the craft appeared, capped.
pub open spec fn curve_time(now: u64, t_0: u64) -> int {
    let t = if now >= t_0 {
        now - t_0
    } else {
        0
    };
    if t > MAX_ELAPSED_MS {
        MAX_ELAPSED_MS as int
    } else {
        t
    }
}

/// Speed a craft is driven at, capped.
pub open spec fn curve_speed(s: u64) -> int {
    if s > MAX_SPEED {
        MAX_SPEED as int
    } else {
        s as int
    }
}

/// At most one curve per craft.
pub open spec fn movement_ids_unique(ms: Seq<Movement>) -> bool {
    forall|i: int, j: int| 0 <= i < j < ms.len() ==> ms[i].craft != ms[j].craft
}

/// The speed of the craft a curve drives.
pub open spec fn driven_speed(cs: Seq<Craft>, m: Movement) -> int {
    curve_speed(cs[crate::combat::craft_index(cs, m.craft)].ship.speed)
}

/// Movement phase of the crafts: each curve is evaluated at the time since
/// its craft appeared and at the craft's speed, and the craft, if still on
/// the field, is placed there. Curves keep their latch state for the next
/// tick; a curve whose craft is gone is left as it is.
pub fn apply_movement(crafts: &mut Vec<Craft>, movements: &mut Vec<Movement>, now: u64)
    requires
        crafts_wf(old(crafts)@),
        craft_ids_unique(old(crafts)@),
        movements_wf(old(movements)@),
        movement_ids_unique(old(movements)@),
    ensures
        crafts_wf(final(crafts)@),
        crate::combat::same_ids(old(crafts)@, final(crafts)@),
        craft_ids_unique(final(crafts)@),
        movements_wf(final(movements)@),
        final(movements)@.len() == old(movements)@.len(),
        forall|i: int|
            0 <= i < final(crafts)@.len() ==> (Craft { pos: old(crafts)@[i].pos, ..#[trigger] final(crafts)@[i] }) == old(crafts)@[i],
        forall|k: int|
            0 <= k < old(movements)@.len() ==> {
                let m = old(movements)@[k];
                let t = curve_time(now, m.t_0);
                &&& (#[trigger] final(movements)@[k]).craft == m.craft
                &&& final(movements)@[k].t_0 == m.t_0
                &&& has_craft(old(crafts)@, m.craft) ==> {
                    let ci = crate::combat::craft_index(old(crafts)@, m.craft);
                    let p = moves_pos(m.moves, t, driven_speed(old(crafts)@, m));
                    &&& final(movements)@[k].moves == moves_next(m.moves, t, driven_speed(old(crafts)@, m))
                    &&& final(crafts)@[ci].pos.x == p.0
                    &&& final(crafts)@[ci].pos.y == p.1
                }
                &&& !has_craft(old(crafts)@, m.craft) ==> final(movements)@[k].moves == m.moves
            },
{
    let ghost c0 = old(crafts)@;
    let ghost m0 = old(movements)@;
    let mut k: usize = 0;
    while k < movements.len()
        invariant
            k <= movements@.len(),
            movements@.len() == m0.len(),
            movements_wf(movements@),
            movement_ids_unique(m0),
            crafts_wf(crafts@),
            crafts@.len() == c0.len(),
            craft_ids_unique(c0),
            forall|i: int| 0 <= i < c0.len() ==> (Craft { pos: c0[i].pos, ..#[trigger] crafts@[i] }) == c0[i],
            forall|q: int| k <= q < m0.len() ==> #[trigger] movements@[q] == m0[q],
            forall|q: int|
                0 <= q < k ==> {
                    let m = m0[q];
                    let t = curve_time(now, m.t_0);
                    &&& (#[trigger] movements@[q]).craft == m.craft
                    &&& movements@[q].t_0 == m.t_0
                    &&& has_craft(c0, m.craft) ==> {
                        let ci = crate::combat::craft_index(c0, m.craft);
                        let p = moves_pos(m.moves, t, driven_speed(c0, m));
                        &&& movements@[q].moves == moves_next(m.moves, t, driven_speed(c0, m))
                        &&& crafts@[ci].pos.x == p.0
                        &&& crafts@[ci].pos.y == p.1
                    }
                    &&& !has_craft(c0, m.craft) ==> movements@[q].moves == m.moves
                },
        decreases m0.len() - k,
    {
        proof {
            assert(same_ids(c0, crafts@)) by {
                assert forall|i: int| 0 <= i < c0.len() implies #[trigger] c0[i].id == crafts@[i].id by {
                    assert((Craft { pos: c0[i].pos, ..crafts@[i] }) == c0[i]);
                }
            }
            lemma_unique_by_same_ids(c0, crafts@);
            crate::combat::lemma_same_ids_lookup(c0, crafts@, m0[k as int].craft);
        }
        let id = movements[k].craft;
        let t_0 = movements[k].t_0;
        match find_craft(crafts, id) {
            Some(i) => {
                let elapsed = if now >= t_0 {
                    now - t_0
                } else {
                    0
                };
                let t = if elapsed > MAX_ELAPSED_MS {
                    MAX_ELAPSED_MS
                } else {
                    elapsed
                };
                let s = crafts[i].ship.speed;
                assert(s == c0[i as int].ship.speed) by {
                    assert((Craft { pos: c0[i as int].pos, ..crafts@[i as int] }) == c0[i as int]);
                }
                let speed = if s > MAX_SPEED {
                    MAX_SPEED
                } else {
                    s
                };
                let ghost mb = movements@;
                assert(moves_wf(movements@[k as int].moves));
                let m = &mut movements[k];
                let p = m.moves.pos(t, speed);
                assert(movements@ == mb.update(k as int, movements@[k as int]));
                let ghost cb = crafts@;
                crafts.set(i, Craft { pos: p, ..crafts[i] });
                proof {
                    assert forall|q: int| 0 <= q < crafts@.len() implies craft_wf(#[trigger] crafts@[q]) by {
                        if q != i as int {
                            assert(crafts@[q] == cb[q]);
                        } else {
                            assert(craft_wf(cb[q]));
                        }
                    }
                    assert forall|q: int| 0 <= q < c0.len() implies (Craft { pos: c0[q].pos, ..#[trigger] crafts@[q] }) == c0[q] by {
                        if q != i as int {
                            assert(crafts@[q] == cb[q]);
                        } else {
                            assert((Craft { pos: c0[q].pos, ..cb[q] }) == c0[q]);
                        }
                    }
                    assert forall|q: int| 0 <= q < movements@.len() implies moves_wf((#[trigger] movements@[q]).moves) by {
                        if q != k as int {
                            assert(movements@[q] == mb[q]);
                        }
                    }
                    assert forall|q: int| 0 <= q < k + 1 implies {
                        let m = m0[q];
                        let t = curve_time(now, m.t_0);
                        &&& (#[trigger] movements@[q]).craft == m.craft
                        &&& movements@[q].t_0 == m.t_0
                        &&& has_craft(c0, m.craft) ==> {
                            let ci = crate::combat::craft_index(c0, m.craft);
                            let p = moves_pos(m.moves, t, driven_speed(c0, m));
                            &&& movements@[q].moves == moves_next(m.moves, t, driven_speed(c0, m))
                            &&& crafts@[ci].pos.x == p.0
                            &&& crafts@[ci].pos.y == p.1
                        }
                        &&& !has_craft(c0, m.craft) ==> movements@[q].moves == m.moves
                    } by {
                        if q < k {
                            assert(movements@[q] == mb[q]);
                            if has_craft(c0, m0[q].craft) {
                                let ci = crate::combat::craft_index(c0, m0[q].craft);
                                assert(m0[q].craft != m0[k as int].craft);
                                assert(ci != i as int);
                                assert(crafts@[ci] == cb[ci]);
                            }
                        }
                    }
                }
            },
            None => {},
        }
        k = k + 1;
    }
    proof {
        assert(same_ids(c0, crafts@)) by {
            assert forall|i: int| 0 <= i < c0.len() implies #[trigger] c0[i].id == crafts@[i].id by {
                assert((Craft { pos: c0[i].pos, ..crafts@[i] }) == c0[i]);
            }
        }
        lemma_unique_by_same_ids(c0, crafts@);
    }
}

/// A craft after `dt` milliseconds: its blink window and its stun count down.
pub open spec fn ticked(c: Craft, dt: u64) -> Craft {
    Craft {
        blink_ms: crate::combat::blink_left(c.blink_ms, dt),
        stun_ms: crate::combat::blink_left(c.stun_ms, dt),
        ..c
    }
}

/// Every craft after `dt` milliseconds, in order.
pub open spec fn all_ticked(cs: Seq<Craft>, dt: u64) -> Seq<Craft> {
    Seq::new(cs.len(), |i: int| ticked(cs[i], dt))
}

impl Field {
    /// Time passing on the field: projectiles fly and leave the surroundings,
    /// blink windows and stuns count down, and enemies that strayed too far
    /// are removed.
    pub fn advance(&mut self, dt: u64)
        requires
            field_wf(*old(self)),
            dt <= MAX_TICK_MS,
        ensures
            field_wf(*final(self)),
            final(self).shots@ == flown_shots(old(self).shots@, dt),
            final(self).crafts@ == near_crafts(all_ticked(old(self).crafts@, dt)),
    {
        proof {
            lemma_flown_wf(self.shots@, dt);
        }
        update_shots(&mut self.shots, dt);
        let mut i: usize = 0;
        while i < self.crafts.len()
            invariant
                i <= self.crafts@.len(),
                self.crafts@.len() == old(self).crafts@.len(),
                crafts_wf(self.crafts@),
                craft_ids_unique(self.crafts@),
                shots_wf(self.shots@),
                shot_ids_unique(self.shots@),
                self.shots@ == flown_shots(old(self).shots@, dt),
                forall|q: int| 0 <= q < i ==> #[trigger] self.crafts@[q] == ticked(old(self).crafts@[q], dt),
                forall|q: int| i <= q < self.crafts@.len() ==> #[trigger] self.crafts@[q] == old(self).crafts@[q],
            decreases self.crafts@.len() - i,
        {
            let ghost before = self.crafts@;
            let c = &mut self.crafts[i];
            tick_blink(c, dt);
            tick_stun(c, dt);
            assert(self.crafts@ == before.update(i as int, self.crafts@[i as int]));
            proof {
                assert(same_ids(before, self.crafts@)) by {
                    assert forall|q: int| 0 <= q < before.len() implies #[trigger] before[q].id == self.crafts@[q].id by {
                        if q != i as int {
                            assert(self.crafts@[q] == before[q]);
                        }
                    }
                }
                lemma_unique_by_same_ids(before, self.crafts@);
                assert forall|q: int| 0 <= q < self.crafts@.len() implies craft_wf(#[trigger] self.crafts@[q]) by {
                    assert(craft_wf(before[q]));
                    if q != i as int {
                        assert(self.crafts@[q] == before[q]);
                    }
                }
            }
            i = i + 1;
        }
        assert(self.crafts@ =~= all_ticked(old(self).crafts@, dt));
        let ghost cb = self.crafts@;
        despawn_far_ships(&mut self.crafts);
        proof {
            lemma_near_wf(cb);
        }
    }
}

proof fn lemma_near_wf(cs: Seq<Craft>)
    requires
        crafts_wf(cs),
        craft_ids_unique(cs),
    ensures
        crafts_wf(near_crafts(cs)),
        craft_ids_unique(near_crafts(cs)),
        near_crafts(cs).len() <= cs.len(),
        forall|i: int| 0 <= i < near_crafts(cs).len() ==> exists|j: int| 0 <= j < cs.len() && cs[j].id == (#[trigger] near_crafts(cs)[i]).id,
    decreases cs.len(),
{
    if cs.len() > 0 {
        let init = cs.drop_last();
        assert(crafts_wf(init));
        assert(craft_ids_unique(init));
        lemma_near_wf(init);
        let r = near_crafts(init);
        let out = near_crafts(cs);
        assert(craft_wf(cs[cs.len() - 1]));
        assert forall|i: int| 0 <= i < out.len() implies exists|j: int| 0 <= j < cs.len() && cs[j].id == (#[trigger] out[i]).id by {
            if i < r.len() {
                let j = choose|j: int| 0 <= j < init.len() && init[j].id == r[i].id;
                assert(cs[j].id == out[i].id);
            } else {
                assert(cs[cs.len() - 1].id == out[i].id);
            }
        }
        assert forall|a: int, b: int| 0 <= a < b < out.len() implies out[a].id != out[b].id by {
            if b >= r.len() {
                let j = choose|j: int| 0 <= j < init.len() && init[j].id == r[a].id;
                assert(cs[j].id != cs[cs.len() - 1].id);
            } else {
                assert(out[a] == r[a] && out[b] == r[b]);
            }
        }
        assert forall|i: int| 0 <= i < out.len() implies craft_wf(#[trigger] out[i]) by {
            if i < r.len() {
                assert(out[i] == r[i]);
            }
        }
    }
}

/// The craft after the elite of the encounter fell: an enemy still standing
/// is marked dead and muted and starts its blink window.
pub open spec fn routed(c: Craft) -> Craft {
    if !c.ship.friendly && !c.dead {
        Craft { dead: true, muted: true, blink_ms: crate::combat::BLINK_DURATION_ENEMY_MS, ..c }
    } else {
        c
    }
}

impl Field {
    /// Once the elite or boss of the encounter is killed, every remaining
    /// enemy goes down with it and every projectile vanishes.
    pub fn elite_cleared(&mut self)
        requires
            field_wf(*old(self)),
        ensures
            field_wf(*final(self)),
            final(self).shots@.len() == 0,
            final(self).crafts@.len() == old(self).crafts@.len(),
            forall|i: int| 0 <= i < old(self).crafts@.len() ==> #[trigger] final(self).crafts@[i] == routed(old(self).crafts@[i]),
    {
        let ghost c0 = self.crafts@;
        let mut i: usize = 0;
        while i < self.crafts.len()
            invariant
                i <= self.crafts@.len(),
                self.crafts@.len() == c0.len(),
                crafts_wf(c0),
                craft_ids_unique(c0),
                forall|q: int| 0 <= q < i ==> #[trigger] self.crafts@[q] == routed(c0[q]),
                forall|q: int| i <= q < c0.len() ==> #[trigger] self.crafts@[q] == c0[q],
            decreases c0.len() - i,
        {
            let c = self.crafts[i];
            if !c.ship.friendly && !c.dead {
                self.crafts.set(i, Craft { dead: true, muted: true, blink_ms: crate::combat::BLINK_DURATION_ENEMY_MS, ..c });
            }
            i = i + 1;
        }
        self.shots.clear();
        proof {
            assert(same_ids(c0, self.crafts@));
            lemma_unique_by_same_ids(c0, self.crafts@);
            assert forall|q: int| 0 <= q < self.crafts@.len() implies craft_wf(#[trigger] self.crafts@[q]) by {
                assert(craft_wf(c0[q]));
            }
        }
    }
}

/// The crafts that stay when an encounter ends: the player's own.
pub open spec fn player_crafts(cs: Seq<Craft>) -> Seq<Craft>
    decreases cs.len(),
{
    if cs.len() == 0 {
        Seq::empty()
    } else {
        let r = player_crafts(cs.drop_last());
        if cs.last().is_main {
            r.push(cs.last())
        } else {
            r
        }
    }
}

proof fn lemma_player_crafts_wf(cs: Seq<Craft>)
    requires
        crafts_wf(cs),
        craft_ids_unique(cs),
    ensures
        crafts_wf(player_crafts(cs)),
        craft_ids_unique(player_crafts(cs)),
        forall|i: int| 0 <= i < player_crafts(cs).len() ==> exists|j: int| 0 <= j < cs.len() && cs[j].id == (#[trigger] player_crafts(cs)[i]).id,
    decreases cs.len(),
{
    if cs.len() > 0 {
        let init = cs.drop_last();
        assert(crafts_wf(init));
        assert(craft_ids_unique(init));
        lemma_player_crafts_wf(init);
        let r = player_crafts(init);
        let out = player_crafts(cs);
        assert(craft_wf(cs[cs.len() - 1]));
        assert forall|i: int| 0 <= i < out.len() implies exists|j: int| 0 <= j < cs.len() && cs[j].id == (#[trigger] out[i]).id by {
            if i < r.len() {
                let j = choose|j: int| 0 <= j < init.len() && init[j].id == r[i].id;
                assert(cs[j].id == out[i].id);
            } else {
                assert(cs[cs.len() - 1].id == out[i].id);
            }
        }
        assert forall|a: int, b: int| 0 <= a < b < out.len() implies out[a].id != out[b].id by {
            if b >= r.len() {
                let j = choose|j: int| 0 <= j < init.len() && init[j].id == r[a].id;
                assert(cs[j].id != cs[cs.len() - 1].id);
            } else {
                assert(out[a] == r[a] && out[b] == r[b]);
            }
        }
        assert forall|i: int| 0 <= i < out.len() implies craft_wf(#[trigger] out[i]) by {
            if i < r.len() {
                assert(out[i] == r[i]);
            }
        }
    }
}

impl Field {
    /// Ends an encounter at once: every projectile and every craft but the
    /// player's own is removed.
    pub fn clear_encounter(&mut self)
        requires
            field_wf(*old(self)),
        ensures
            field_wf(*final(self)),
            final(self).shots@.len() == 0,
            final(self).crafts@ == player_crafts(old(self).crafts@),
    {
        let ghost c0 = self.crafts@;
        let n = self.crafts.len();
        let mut i: usize = 0;
        let mut k: usize = 0;
        while k < n
            invariant
                n == c0.len(),
                k <= n,
                i <= k,
                self.crafts@ == player_crafts(c0.take(k as int)) + c0.skip(k as int),
                i == player_crafts(c0.take(k as int)).len(),
            decreases n - k,
        {
            let ghost pre = c0.take(k as int);
            let ghost post = c0.take(k as int + 1);
            assert(post.drop_last() == pre);
            assert(self.crafts@[i as int] == c0[k as int]);
            assert(post.last() == c0[k as int]);
            assert(c0.skip(k as int) =~= seq![c0[k as int]].add(c0.skip(k as int + 1)));
            if self.crafts[i].is_main {
                assert(player_crafts(post) == player_crafts(pre).push(c0[k as int]));
                i = i + 1;
            } else {
                assert(player_crafts(post) == player_crafts(pre));
                self.crafts.remove(i);
            }
            assert(self.crafts@ =~= player_crafts(post) + c0.skip(k as int + 1));
            k = k + 1;
        }
        assert(c0.take(n as int) == c0);
        assert(self.crafts@ =~= player_crafts(c0));
        self.shots.clear();
        proof {
            lemma_player_crafts_wf(c0);
        }
    }
}

} // verus!
