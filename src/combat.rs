use vstd::prelude::*;

use crate::arena::{point_in_range, Point, COORD_LIMIT, HEIGHT_U, WIDTH_U};
use crate::ships::{elite_model, hitbox_px, loot_of, model_stats, Hitbox, Ship, Ships};
use crate::arena::PX;
use crate::items::{count_of, status_wf, ShipStatus, Upgrades, DAMAGE_STEP, SHOT_FREQUENCY_STEP, SHOT_SPEED_STEP, SPEED_STEP};

verus! {

/// Health below this many thousandths of a hit point counts as destroyed.
pub const HEALTH_EPSILON: u64 = 1;

/// Period of the blink flicker, in milliseconds.
pub const BLINK_INTERVAL_MS: u64 = 167;

/// Invulnerability window of a friendly craft after a hit, in milliseconds.
pub const BLINK_DURATION_MS: u64 = 1333;

/// Blink window of an elite or boss after a hit, in milliseconds.
pub const BLINK_DURATION_ELITE_MS: u64 = 1000;

/// Blink window of a regular enemy after a hit, in milliseconds.
pub const BLINK_DURATION_ENEMY_MS: u64 = 667;

/// Most bounces a bouncing projectile performs.
pub const MAX_BOUNCES: u8 = 3;

/// Projectile modifier bit: bounce off the arena edges.
pub const BOUNCING: usize = 2;

/// Projectile modifier bit: pass through targets.
pub const PIERCING: usize = 4;

/// Projectile modifier bit: chance to mute the target's weapons.
pub const STUN: usize = 8;

/// Bound on a projectile's attack, in thousandths of a hit point.
pub const ATTACK_LIMIT: u64 = 1_000_000_000;

/// Bound on hitbox extents, in micropixels.
pub const HITBOX_LIMIT: i64 = 1_000_000_000;

/// A craft on the field, with its identifier, position and combat status.
#[derive(Copy, Clone, Debug, PartialEq, Eq, Structural)]
pub struct Craft {
    pub id: u64,
    pub ship: Ship,
    pub pos: Point,
    pub hitbox: Hitbox,
    pub is_main: bool,
    /// Remaining blink window, in milliseconds; zero when not blinking.
    pub blink_ms: u64,
    pub dead: bool,
    /// Weapons silenced for good (destroyed craft).
    pub muted: bool,
    /// Remaining stun, in milliseconds; zero when not stunned.
    pub stun_ms: u64,
    pub loot: Loot,
}

/// Credits awarded when a craft is destroyed.
#[derive(Copy, Clone, Debug, PartialEq, Eq, Structural)]
pub struct Loot {
    pub credits: u16,
}

/// A projectile in flight.
#[derive(Debug)]
pub struct Projectile {
    pub id: u64,
    /// Damage dealt on hit, in thousandths of a hit point.
    pub attack: u64,
    pub friendly: bool,
    pub velocity: Point,
    pub hitbox: Hitbox,
    pub pos: Point,
    /// Bit set of `BOUNCING`, `PIERCING` and `STUN`.
    pub upgrades: usize,
    pub bounce_count: u8,
    /// Targets already hit since the last bounce.
    pub collisions: Vec<u64>,
}

/// A projectile overlapped an opposing craft.
#[derive(Copy, Clone, Debug, PartialEq, Eq, Structural)]
pub struct HitEvent {
    pub shot: u64,
    pub ship: u64,
}

/// A craft took damage; `fatal` when that damage destroyed it.
#[derive(Copy, Clone, Debug, PartialEq, Eq, Structural)]
pub struct DamageEvent {
    pub ship: u64,
    pub fatal: bool,
}

/// Extents within bounds.
pub open spec fn hitbox_wf(h: Hitbox) -> bool {
    0 <= h.width <= HITBOX_LIMIT && 0 <= h.height <= HITBOX_LIMIT
}

/// Health within `[0, max_health]`, and coordinates within bounds.
pub open spec fn craft_wf(c: Craft) -> bool {
    &&& c.ship.health <= c.ship.max_health
    &&& point_in_range(c.pos)
    &&& hitbox_wf(c.hitbox)
}

/// Attack, position, velocity and hitbox within bounds, and no more
/// bounces than allowed.
pub open spec fn projectile_wf(p: Projectile) -> bool {
    &&& p.attack <= ATTACK_LIMIT
    &&& point_in_range(p.pos)
    &&& point_in_range(p.velocity)
    &&& hitbox_wf(p.hitbox)
    &&& p.bounce_count <= MAX_BOUNCES
}

/// Health left, at or above the destruction threshold.
pub open spec fn alive(health: u64) -> bool {
    health >= HEALTH_EPSILON
}

/// A friendly craft inside its blink window ignores damage.
pub open spec fn immune(c: Craft) -> bool {
    c.ship.friendly && c.blink_ms > 0
}

/// The modifier bit `flag` is set.
pub open spec fn has_flag(upgrades: usize, flag: usize) -> bool {
    upgrades & flag != 0
}

/// Damage that a hit of `attack` deals to a target; doubled against enemies
/// while the player is berserk.
pub open spec fn hit_damage(attack: u64, target_friendly: bool, berserk: bool) -> int {
    if !target_friendly && berserk {
        2 * attack
    } else {
        attack as int
    }
}

/// Health after taking `damage`, clamped at zero.
pub open spec fn health_after(health: u64, damage: int) -> u64 {
    if health < damage {
        0
    } else {
        (health - damage) as u64
    }
}

/// Blink window granted to a damaged craft: none for the shield.
pub open spec fn blink_grant(ship: Ship) -> Option<u64> {
    if ship.model == Ships::Player(99) {
        None
    } else if ship.friendly {
        Some(BLINK_DURATION_MS)
    } else if elite_model(ship.model) {
        Some(BLINK_DURATION_ELITE_MS)
    } else {
        Some(BLINK_DURATION_ENEMY_MS)
    }
}

/// Whether a hit of `attack` lands on `c`: neither immune nor already destroyed.
pub open spec fn hit_lands(c: Craft) -> bool {
    !immune(c) && alive(c.ship.health)
}

/// The craft after a landed hit.
pub open spec fn damaged(c: Craft, attack: u64, berserk: bool) -> Craft {
    let h = health_after(c.ship.health, hit_damage(attack, c.ship.friendly, berserk));
    Craft {
        ship: Ship { health: h, ..c.ship },
        blink_ms: match blink_grant(c.ship) {
            Some(d) => d,
            None => c.blink_ms,
        },
        ..c
    }
}

/// Overlap of two axis-aligned boxes given by their centres and extents.
pub open spec fn overlaps(a: Point, ah: Hitbox, b: Point, bh: Hitbox) -> bool {
    &&& 2 * a.x - ah.width < 2 * b.x + bh.width
    &&& 2 * a.x + ah.width > 2 * b.x - bh.width
    &&& 2 * a.y - ah.height < 2 * b.y + bh.height
    &&& 2 * a.y + ah.height > 2 * b.y - bh.height
}

/// Strict overlap test of two axis-aligned boxes given by their centres and
/// extents.
pub fn collide(a: Point, ah: Hitbox, b: Point, bh: Hitbox) -> (r: bool)
    requires
        point_in_range(a),
        point_in_range(b),
        hitbox_wf(ah),
        hitbox_wf(bh),
    ensures
        r == overlaps(a, ah, b, bh),
{
    2 * a.x - ah.width < 2 * b.x + bh.width && 2 * a.x + ah.width > 2 * b.x - bh.width && 2 * a.y
        - ah.height < 2 * b.y + bh.height && 2 * a.y + ah.height > 2 * b.y - bh.height
}

/// Applies one hit of `attack` to `c`. A friendly craft inside its blink window
/// and a destroyed craft are left as they are; otherwise health drops by the
/// damage, clamped at zero, the blink window is granted, and the damage event
/// is returned.
pub fn apply_hit(c: &mut Craft, attack: u64, berserk: bool) -> (r: Option<DamageEvent>)
    requires
        craft_wf(*old(c)),
        attack <= ATTACK_LIMIT,
    ensures
        craft_wf(*final(c)),
        hit_lands(*old(c)) ==> *final(c) == damaged(*old(c), attack, berserk) && r == Some(
            DamageEvent { ship: old(c).id, fatal: !alive(final(c).ship.health) },
        ),
        !hit_lands(*old(c)) ==> *final(c) == *old(c) && r is None,
{
    if c.ship.friendly && c.blink_ms > 0 {
        return None;
    }
    if c.ship.health < HEALTH_EPSILON {
        return None;
    }
    let damage: u64 = if !c.ship.friendly && berserk {
        2 * attack
    } else {
        attack
    };
    if c.ship.health < damage {
        c.ship.health = 0;
    } else {
        c.ship.health = c.ship.health - damage;
    }
    if !c.ship.model.is_shield() {
        c.blink_ms = if c.ship.friendly {
            BLINK_DURATION_MS
        } else if c.ship.model.is_elite() {
            BLINK_DURATION_ELITE_MS
        } else {
            BLINK_DURATION_ENEMY_MS
        };
    }
    Some(DamageEvent { ship: c.id, fatal: c.ship.health < HEALTH_EPSILON })
}

/// Remaining blink window after `dt` milliseconds.
pub open spec fn blink_left(blink: u64, dt: u64) -> u64 {
    if blink <= dt {
        0
    } else {
        (blink - dt) as u64
    }
}

/// Counts the blink window of `c` down by `dt` milliseconds; it closes at zero.
pub fn tick_blink(c: &mut Craft, dt: u64)
    ensures
        *final(c) == (Craft { blink_ms: blink_left(old(c).blink_ms, dt), ..*old(c) }),
{
    c.blink_ms = if c.blink_ms <= dt {
        0
    } else {
        c.blink_ms - dt
    };
}

/// Whether the sprite of a craft with `blink` milliseconds of blink window left
/// is drawn this frame: on during even blink intervals, off during odd ones.
pub fn blink_visible(blink: u64) -> (r: bool)
    ensures
        r == ((blink / BLINK_INTERVAL_MS) % 2 == 0),
{
    (blink / BLINK_INTERVAL_MS) % 2 == 0
}

/// At or past the left or right edge of the arena.
pub open spec fn crosses_x(p: Point) -> bool {
    p.x >= WIDTH_U || p.x <= 0
}

/// At or past the top or bottom edge of the arena.
pub open spec fn crosses_y(p: Point) -> bool {
    p.y >= HEIGHT_U || p.y <= 0
}

/// A bouncing projectile that has bounces left.
pub open spec fn may_bounce(s: Projectile) -> bool {
    has_flag(s.upgrades, BOUNCING) && s.bounce_count < MAX_BOUNCES
}

/// Reflects a bouncing projectile off the arena edges it crossed: the
/// horizontal velocity when it crossed the left or right edge, the vertical
/// one when it crossed the top or bottom edge. A bounce counts once, clears the
/// projectile's hit set, and no bounce happens after `MAX_BOUNCES`.
pub fn bounce_shot(s: &mut Projectile)
    requires
        projectile_wf(*old(s)),
    ensures
        projectile_wf(*final(s)),
        final(s).id == old(s).id,
        final(s).attack == old(s).attack,
        final(s).friendly == old(s).friendly,
        final(s).hitbox == old(s).hitbox,
        final(s).pos == old(s).pos,
        final(s).upgrades == old(s).upgrades,
        !may_bounce(*old(s)) ==> final(s).velocity == old(s).velocity && final(s).bounce_count
            == old(s).bounce_count && final(s).collisions@ == old(s).collisions@,
        may_bounce(*old(s)) ==> {
            let hx = crosses_x(old(s).pos);
            let hy = crosses_y(old(s).pos);
            &&& final(s).velocity.x == (if hx {
                -old(s).velocity.x
            } else {
                old(s).velocity.x as int
            })
            &&& final(s).velocity.y == (if hy {
                -old(s).velocity.y
            } else {
                old(s).velocity.y as int
            })
            &&& final(s).bounce_count == old(s).bounce_count + (if hx || hy {
                1int
            } else {
                0
            })
            &&& final(s).collisions@ == (if hx || hy {
                Seq::empty()
            } else {
                old(s).collisions@
            })
        },
{
    if s.upgrades & BOUNCING == 0 {
        return ;
    }
    if s.bounce_count >= MAX_BOUNCES {
        return ;
    }
    let mut bounce = false;
    if s.pos.x >= WIDTH_U || s.pos.x <= 0 {
        s.velocity.x = -s.velocity.x;
        bounce = true;
    }
    if s.pos.y >= HEIGHT_U || s.pos.y <= 0 {
        s.velocity.y = -s.velocity.y;
        bounce = true;
    }
    if bounce {
        s.bounce_count = s.bounce_count + 1;
        s.collisions.clear();
    }
}

/// A projectile registers a hit on a craft: opposing sides, overlapping boxes,
/// and, for a piercing projectile, a craft it has not hit yet.
pub open spec fn registers(s: Projectile, c: Craft) -> bool {
    &&& s.friendly != c.ship.friendly
    &&& !(has_flag(s.upgrades, PIERCING) && s.collisions@.contains(c.id))
    &&& overlaps(s.pos, s.hitbox, c.pos, c.hitbox)
}

/// Identifiers of the crafts that `s` hits, in field order.
pub open spec fn targets_hit(s: Projectile, crafts: Seq<Craft>) -> Seq<u64>
    decreases crafts.len(),
{
    if crafts.len() == 0 {
        Seq::empty()
    } else {
        let rest = targets_hit(s, crafts.drop_last());
        if registers(s, crafts.last()) {
            rest.push(crafts.last().id)
        } else {
            rest
        }
    }
}

/// Hit events of one projectile against the given targets.
pub open spec fn hit_events(shot: u64, targets: Seq<u64>) -> Seq<HitEvent> {
    targets.map_values(|t: u64| HitEvent { shot, ship: t })
}

/// Hit events of every projectile, projectile by projectile.
pub open spec fn all_hits(shots: Seq<Projectile>, crafts: Seq<Craft>) -> Seq<HitEvent>
    decreases shots.len(),
{
    if shots.len() == 0 {
        Seq::empty()
    } else {
        all_hits(shots.drop_last(), crafts) + hit_events(
            shots.last().id,
            targets_hit(shots.last(), crafts),
        )
    }
}

pub open spec fn craft_ids_unique(cs: Seq<Craft>) -> bool {
    forall|i: int, j: int| 0 <= i < j < cs.len() ==> cs[i].id != cs[j].id
}

pub open spec fn shot_ids_unique(ss: Seq<Projectile>) -> bool {
    forall|i: int, j: int| 0 <= i < j < ss.len() ==> ss[i].id != ss[j].id
}

pub open spec fn crafts_wf(cs: Seq<Craft>) -> bool {
    forall|i: int| 0 <= i < cs.len() ==> craft_wf(#[trigger] cs[i])
}

pub open spec fn shots_wf(ss: Seq<Projectile>) -> bool {
    forall|i: int| 0 <= i < ss.len() ==> projectile_wf(#[trigger] ss[i])
}

/// Every target that `s` hits is the identifier of one of the crafts.
proof fn lemma_targets_from(s: Projectile, crafts: Seq<Craft>)
    ensures
        forall|k: int|
            0 <= k < targets_hit(s, crafts).len() ==> exists|j: int|
                0 <= j < crafts.len() && crafts[j].id == #[trigger] targets_hit(s, crafts)[k],
    decreases crafts.len(),
{
    if crafts.len() > 0 {
        lemma_targets_from(s, crafts.drop_last());
        let rest = targets_hit(s, crafts.drop_last());
        assert forall|k: int| 0 <= k < targets_hit(s, crafts).len() implies exists|j: int|
            0 <= j < crafts.len() && crafts[j].id == #[trigger] targets_hit(s, crafts)[k] by {
            if k < rest.len() {
                let j = choose|j: int| 0 <= j < crafts.drop_last().len() && crafts.drop_last()[j].id == rest[k];
                assert(crafts[j].id == targets_hit(s, crafts)[k]);
            } else {
                assert(crafts[crafts.len() - 1].id == targets_hit(s, crafts)[k]);
            }
        }
    }
}

/// A piercing projectile hits each craft at most once per detection pass, and
/// never a craft already in its hit set; since the pass adds every target to
/// that set, no target is hit twice until a bounce clears it.
pub proof fn lemma_pierce_hits_distinct(s: Projectile, crafts: Seq<Craft>)
    requires
        has_flag(s.upgrades, PIERCING),
        craft_ids_unique(crafts),
    ensures
        targets_hit(s, crafts).no_duplicates(),
        forall|t: u64| #[trigger] targets_hit(s, crafts).contains(t) ==> !s.collisions@.contains(t),
    decreases crafts.len(),
{
    if crafts.len() > 0 {
        let init = crafts.drop_last();
        assert(craft_ids_unique(init));
        lemma_pierce_hits_distinct(s, init);
        lemma_targets_from(s, init);
        let rest = targets_hit(s, init);
        let last = crafts.last();
        if registers(s, last) {
            assert forall|k: int| 0 <= k < rest.len() implies rest[k] != last.id by {
                let j = choose|j: int| 0 <= j < init.len() && init[j].id == rest[k];
                assert(crafts[j].id != crafts[crafts.len() - 1].id);
            }
            let all = rest.push(last.id);
            assert forall|t: u64| #[trigger] all.contains(t) implies !s.collisions@.contains(t) by {
                let k = choose|k: int| 0 <= k < all.len() && all[k] == t;
                if k < rest.len() {
                    assert(rest.contains(t));
                }
            }
        }
    }
}

/// Membership of an identifier in a hit set.
pub fn contains_id(v: &Vec<u64>, id: u64) -> (r: bool)
    ensures
        r == v@.contains(id),
{
    let mut i: usize = 0;
    while i < v.len()
        invariant
            i <= v.len(),
            forall|k: int| 0 <= k < i ==> v@[k] != id,
        decreases v.len() - i,
    {
        if v[i] == id {
            return true;
        }
        i = i + 1;
    }
    false
}

/// Collision pass of one projectile over the crafts: each craft it registers
/// a hit on is added to its hit set and reported, in field order.
pub fn detect_shot_hits(s: &mut Projectile, crafts: &Vec<Craft>, hits: &mut Vec<HitEvent>)
    requires
        projectile_wf(*old(s)),
        crafts_wf(crafts@),
        craft_ids_unique(crafts@),
    ensures
        final(s).collisions@ == old(s).collisions@ + targets_hit(*old(s), crafts@),
        (Projectile { collisions: old(s).collisions, ..*final(s) }) == *old(s),
        final(hits)@ == old(hits)@ + hit_events(old(s).id, targets_hit(*old(s), crafts@)),
{
    let ghost s0 = *old(s);
    let ghost h0 = old(hits)@;
    let piercing = s.upgrades & PIERCING != 0;
    let mut j: usize = 0;
    while j < crafts.len()
        invariant
            j <= crafts.len(),
            projectile_wf(s0),
            crafts_wf(crafts@),
            craft_ids_unique(crafts@),
            piercing == has_flag(s0.upgrades, PIERCING),
            s.collisions@ == s0.collisions@ + targets_hit(s0, crafts@.take(j as int)),
            (Projectile { collisions: s0.collisions, ..*s }) == s0,
            hits@ == h0 + hit_events(s0.id, targets_hit(s0, crafts@.take(j as int))),
        decreases crafts.len() - j,
    {
        let c = &crafts[j];
        let ghost pre = crafts@.take(j as int);
        assert(crafts@.take(j as int + 1).drop_last() == pre);
        proof {
            lemma_targets_from(s0, pre);
            let t = targets_hit(s0, pre);
            assert forall|k: int| 0 <= k < t.len() implies t[k] != c.id by {
                let jj = choose|jj: int| 0 <= jj < pre.len() && pre[jj].id == t[k];
                assert(crafts@[jj].id != crafts@[j as int].id);
            }
            assert(s.collisions@.contains(c.id) == s0.collisions@.contains(c.id)) by {
                if s.collisions@.contains(c.id) {
                    let k = choose|k: int| 0 <= k < s.collisions@.len() && s.collisions@[k] == c.id;
                    if k >= s0.collisions@.len() {
                        assert(t[k - s0.collisions@.len()] == c.id);
                    } else {
                        assert(s0.collisions@[k] == c.id);
                    }
                }
                if s0.collisions@.contains(c.id) {
                    let k = choose|k: int| 0 <= k < s0.collisions@.len() && s0.collisions@[k] == c.id;
                    assert(s.collisions@[k] == c.id);
                }
            }
        }
        let mut hit = s.friendly != c.ship.friendly;
        if hit && piercing && contains_id(&s.collisions, c.id) {
            hit = false;
        }
        if hit && !collide(s.pos, s.hitbox, c.pos, c.hitbox) {
            hit = false;
        }
        if hit {
            s.collisions.push(c.id);
            hits.push(HitEvent { shot: s.id, ship: c.id });
        }
        proof {
            let t1 = targets_hit(s0, crafts@.take(j as int + 1));
            assert(s.collisions@ == s0.collisions@ + t1);
            assert(hits@ == h0 + hit_events(s0.id, t1));
        }
        j = j + 1;
    }
    assert(crafts@.take(crafts.len() as int) == crafts@);
}

/// Collision phase: every projectile is tested against every craft of the
/// opposing side; each new overlap is reported once and recorded in the
/// projectile's hit set.
pub fn detect_hits(shots: &mut Vec<Projectile>, crafts: &Vec<Craft>) -> (hits: Vec<HitEvent>)
    requires
        shots_wf(old(shots)@),
        crafts_wf(crafts@),
        craft_ids_unique(crafts@),
    ensures
        hits@ == all_hits(old(shots)@, crafts@),
        final(shots)@.len() == old(shots)@.len(),
        forall|i: int|
            0 <= i < final(shots)@.len() ==> {
                &&& (#[trigger] final(shots)@[i]).collisions@ == old(shots)@[i].collisions@
                    + targets_hit(old(shots)@[i], crafts@)
                &&& (Projectile { collisions: old(shots)@[i].collisions, ..final(shots)@[i] })
                    == old(shots)@[i]
            },
{
    let ghost s0 = old(shots)@;
    let mut hits: Vec<HitEvent> = Vec::new();
    let mut i: usize = 0;
    while i < shots.len()
        invariant
            i <= shots.len(),
            shots@.len() == s0.len(),
            shots_wf(s0),
            crafts_wf(crafts@),
            craft_ids_unique(crafts@),
            hits@ == all_hits(s0.take(i as int), crafts@),
            forall|k: int| i <= k < s0.len() ==> shots@[k] == s0[k],
            forall|k: int|
                0 <= k < i ==> {
                    &&& (#[trigger] shots@[k]).collisions@ == s0[k].collisions@ + targets_hit(
                        s0[k],
                        crafts@,
                    )
                    &&& (Projectile { collisions: s0[k].collisions, ..shots@[k] }) == s0[k]
                },
        decreases s0.len() - i,
    {
        assert(s0.take(i as int + 1).drop_last() == s0.take(i as int));
        let ghost before = shots@;
        assert(projectile_wf(s0[i as int]));
        let s = &mut shots[i];
        detect_shot_hits(s, crafts, &mut hits);
        assert(shots@ == before.update(i as int, shots@[i as int]));
        i = i + 1;
    }
    assert(s0.take(s0.len() as int) == s0);
    hits
}

pub open spec fn has_craft(cs: Seq<Craft>, id: u64) -> bool {
    exists|i: int| 0 <= i < cs.len() && cs[i].id == id
}

/// Position of the craft with identifier `id`, when there is one.
pub open spec fn craft_index(cs: Seq<Craft>, id: u64) -> int {
    choose|i: int| 0 <= i < cs.len() && cs[i].id == id
}

pub open spec fn has_shot(ss: Seq<Projectile>, id: u64) -> bool {
    exists|i: int| 0 <= i < ss.len() && ss[i].id == id
}

pub open spec fn shot_index(ss: Seq<Projectile>, id: u64) -> int {
    choose|i: int| 0 <= i < ss.len() && ss[i].id == id
}

/// Damage step of one hit event: a no-op when its craft or its projectile no
/// longer exists, or when the hit does not land.
pub open spec fn resolve_hit(
    cs: Seq<Craft>,
    ss: Seq<Projectile>,
    h: HitEvent,
    berserk: bool,
) -> (Seq<Craft>, Option<DamageEvent>) {
    if has_craft(cs, h.ship) && has_shot(ss, h.shot) {
        let i = craft_index(cs, h.ship);
        let c = cs[i];
        if hit_lands(c) {
            let d = damaged(c, ss[shot_index(ss, h.shot)].attack, berserk);
            (cs.update(i, d), Some(DamageEvent { ship: h.ship, fatal: !alive(d.ship.health) }))
        } else {
            (cs, None)
        }
    } else {
        (cs, None)
    }
}

/// Damage phase over a sequence of hit events, in order: the crafts after all
/// of them, and the damage events emitted.
pub open spec fn resolve_hits(
    cs: Seq<Craft>,
    ss: Seq<Projectile>,
    hits: Seq<HitEvent>,
    berserk: bool,
) -> (Seq<Craft>, Seq<DamageEvent>)
    decreases hits.len(),
{
    if hits.len() == 0 {
        (cs, Seq::empty())
    } else {
        let prev = resolve_hits(cs, ss, hits.drop_last(), berserk);
        let step = resolve_hit(prev.0, ss, hits.last(), berserk);
        (
            step.0,
            match step.1 {
                Some(e) => prev.1.push(e),
                None => prev.1,
            },
        )
    }
}

/// Finds the craft with identifier `id`.
pub fn find_craft(cs: &Vec<Craft>, id: u64) -> (r: Option<usize>)
    requires
        craft_ids_unique(cs@),
    ensures
        r is None <==> !has_craft(cs@, id),
        r matches Some(i) ==> i == craft_index(cs@, id) && i < cs@.len() && cs@[i as int].id == id,
{
    let mut i: usize = 0;
    while i < cs.len()
        invariant
            i <= cs.len(),
            forall|k: int| 0 <= k < i ==> cs@[k].id != id,
            craft_ids_unique(cs@),
        decreases cs.len() - i,
    {
        if cs[i].id == id {
            assert(has_craft(cs@, id));
            let ghost j = craft_index(cs@, id);
            assert(cs@[j].id == id);
            assert(j == i as int) by {
                if j < i as int {
                    assert(cs@[j].id != cs@[i as int].id);
                } else if j > i as int {
                    assert(cs@[i as int].id != cs@[j].id);
                }
            }
            return Some(i);
        }
        i = i + 1;
    }
    None
}

/// Finds the projectile with identifier `id`.
pub fn find_shot(ss: &Vec<Projectile>, id: u64) -> (r: Option<usize>)
    requires
        shot_ids_unique(ss@),
    ensures
        r is None <==> !has_shot(ss@, id),
        r matches Some(i) ==> i == shot_index(ss@, id) && i < ss@.len() && ss@[i as int].id == id,
{
    let mut i: usize = 0;
    while i < ss.len()
        invariant
            i <= ss.len(),
            forall|k: int| 0 <= k < i ==> ss@[k].id != id,
            shot_ids_unique(ss@),
        decreases ss.len() - i,
    {
        if ss[i].id == id {
            assert(has_shot(ss@, id));
            let ghost j = shot_index(ss@, id);
            assert(ss@[j].id == id);
            assert(j == i as int) by {
                if j < i as int {
                    assert(ss@[j].id != ss@[i as int].id);
                } else if j > i as int {
                    assert(ss@[i as int].id != ss@[j].id);
                }
            }
            return Some(i);
        }
        i = i + 1;
    }
    None
}

/// Same identifiers, in the same order.
pub open spec fn same_ids(a: Seq<Craft>, b: Seq<Craft>) -> bool {
    a.len() == b.len() && forall|i: int| 0 <= i < a.len() ==> #[trigger] a[i].id == b[i].id
}

/// Two field orders with the same identifiers find each identifier at the
/// same place.
pub proof fn lemma_same_ids_lookup(a: Seq<Craft>, b: Seq<Craft>, id: u64)
    requires
        same_ids(a, b),
        craft_ids_unique(a),
    ensures
        craft_ids_unique(b),
        has_craft(a, id) == has_craft(b, id),
        has_craft(a, id) ==> craft_index(a, id) == craft_index(b, id),
{
    assert forall|i: int, j: int| 0 <= i < j < b.len() implies b[i].id != b[j].id by {
        assert(a[i].id == b[i].id && a[j].id == b[j].id);
    }
    if has_craft(a, id) {
        let i = craft_index(a, id);
        assert(b[i].id == id);
        let j = craft_index(b, id);
        assert(a[j].id == id);
    }
    if has_craft(b, id) {
        let j = craft_index(b, id);
        assert(a[j].id == id);
    }
}

/// Facts of the damage phase: identifiers are kept, health stays within
/// `[0, max_health]` and never rises, destroyed crafts are untouched, and each
/// fatal event names a distinct craft that was alive before and is destroyed
/// after.
pub proof fn lemma_resolve_hits(
    cs: Seq<Craft>,
    ss: Seq<Projectile>,
    hits: Seq<HitEvent>,
    berserk: bool,
)
    requires
        crafts_wf(cs),
        craft_ids_unique(cs),
        shots_wf(ss),
    ensures
        ({
            let (out, ev) = resolve_hits(cs, ss, hits, berserk);
            &&& same_ids(cs, out)
            &&& craft_ids_unique(out)
            &&& crafts_wf(out)
            &&& forall|i: int|
                0 <= i < cs.len() ==> (#[trigger] out[i]).ship.health <= cs[i].ship.health
            &&& forall|i: int|
                0 <= i < cs.len() && !alive(cs[i].ship.health) ==> #[trigger] out[i] == cs[i]
            &&& forall|k: int|
                0 <= k < ev.len() ==> has_craft(out, (#[trigger] ev[k]).ship)
            &&& forall|k: int|
                0 <= k < ev.len() && (#[trigger] ev[k]).fatal ==> {
                    &&& !alive(out[craft_index(out, ev[k].ship)].ship.health)
                    &&& alive(cs[craft_index(out, ev[k].ship)].ship.health)
                }
            &&& forall|k: int, l: int|
                0 <= k < l < ev.len() && (#[trigger] ev[k]).fatal && (#[trigger] ev[l]).fatal
                    ==> ev[k].ship != ev[l].ship
        }),
    decreases hits.len(),
{
    if hits.len() > 0 {
        lemma_resolve_hits(cs, ss, hits.drop_last(), berserk);
        let (mid, ev0) = resolve_hits(cs, ss, hits.drop_last(), berserk);
        let h = hits.last();
        let (out, e) = resolve_hit(mid, ss, h, berserk);
        let ev = resolve_hits(cs, ss, hits, berserk).1;
        assert(out == resolve_hits(cs, ss, hits, berserk).0);
        if has_craft(mid, h.ship) && has_shot(ss, h.shot) {
            let i = craft_index(mid, h.ship);
            let c = mid[i];
            if hit_lands(c) {
                let si = shot_index(ss, h.shot);
                assert(projectile_wf(ss[si]));
                assert(craft_wf(mid[i]));
                let d = damaged(c, ss[si].attack, berserk);
                assert(same_ids(mid, out));
                assert(same_ids(cs, out));
                assert forall|id: u64| has_craft(mid, id) implies has_craft(out, id) && craft_index(mid, id) == craft_index(out, id) by {
                    lemma_same_ids_lookup(mid, out, id);
                }
                assert forall|k: int| 0 <= k < ev.len() && (#[trigger] ev[k]).fatal && k < ev0.len() implies ev[k].ship != h.ship by {
                    assert(ev[k] == ev0[k]);
                    let j = craft_index(mid, ev0[k].ship);
                    if ev0[k].ship == h.ship {
                        assert(j == i);
                    }
                }
                assert forall|k: int| 0 <= k < ev.len() && (#[trigger] ev[k]).fatal implies {
                    &&& !alive(out[craft_index(out, ev[k].ship)].ship.health)
                    &&& alive(cs[craft_index(out, ev[k].ship)].ship.health)
                } by {
                    if k < ev0.len() {
                        assert(ev[k] == ev0[k]);
                        lemma_same_ids_lookup(mid, out, ev0[k].ship);
                    } else {
                        lemma_same_ids_lookup(mid, out, h.ship);
                        assert(alive(mid[i].ship.health));
                    }
                }
                assert forall|k: int| 0 <= k < ev.len() implies has_craft(out, (#[trigger] ev[k]).ship) by {
                    if k < ev0.len() {
                        assert(ev[k] == ev0[k]);
                        lemma_same_ids_lookup(mid, out, ev0[k].ship);
                    } else {
                        lemma_same_ids_lookup(mid, out, h.ship);
                    }
                }
                assert forall|k: int, l: int|
                    0 <= k < l < ev.len() && (#[trigger] ev[k]).fatal && (#[trigger] ev[l]).fatal
                        implies ev[k].ship != ev[l].ship by {
                    if l < ev0.len() {
                        assert(ev[k] == ev0[k] && ev[l] == ev0[l]);
                    } else {
                        assert(ev[l].ship == h.ship);
                    }
                }
                assert(crafts_wf(out)) by {
                    assert forall|j: int| 0 <= j < out.len() implies craft_wf(#[trigger] out[j]) by {
                        if j != i {
                            assert(out[j] == mid[j]);
                        }
                    }
                }
            }
        }
    }
}

/// Damage phase: each hit event, in order, is applied to its craft with the
/// attack of its projectile, doubled against enemies while the player is
/// berserk. Events whose craft or projectile is gone are skipped, as are hits
/// on destroyed crafts and on friendly crafts inside their blink window.
pub fn damage_ships(
    crafts: &mut Vec<Craft>,
    shots: &Vec<Projectile>,
    hits: &Vec<HitEvent>,
    berserk: bool,
) -> (events: Vec<DamageEvent>)
    requires
        crafts_wf(old(crafts)@),
        craft_ids_unique(old(crafts)@),
        shots_wf(shots@),
        shot_ids_unique(shots@),
    ensures
        (final(crafts)@, events@) == resolve_hits(old(crafts)@, shots@, hits@, berserk),
        crafts_wf(final(crafts)@),
        craft_ids_unique(final(crafts)@),
{
    let ghost c0 = old(crafts)@;
    let mut events: Vec<DamageEvent> = Vec::new();
    let mut k: usize = 0;
    while k < hits.len()
        invariant
            k <= hits.len(),
            crafts_wf(c0),
            craft_ids_unique(c0),
            shots_wf(shots@),
            shot_ids_unique(shots@),
            (crafts@, events@) == resolve_hits(c0, shots@, hits@.take(k as int), berserk),
        decreases hits.len() - k,
    {
        proof {
            lemma_resolve_hits(c0, shots@, hits@.take(k as int), berserk);
        }
        assert(hits@.take(k as int + 1).drop_last() == hits@.take(k as int));
        let h = hits[k];
        let ghost before = crafts@;
        match find_craft(crafts, h.ship) {
            Some(i) => match find_shot(shots, h.shot) {
                Some(j) => {
                    let attack = shots[j].attack;
                    assert(projectile_wf(shots@[j as int]));
                    assert(craft_wf(crafts@[i as int]));
                    let c = &mut crafts[i];
                    let r = apply_hit(c, attack, berserk);
                    assert(crafts@ == before.update(i as int, crafts@[i as int]));
                    match r {
                        Some(e) => {
                            events.push(e);
                        },
                        None => {
                            assert(crafts@ =~= before);
                        },
                    }
                },
                None => {},
            },
            None => {},
        }
        k = k + 1;
    }
    assert(hits@.take(hits.len() as int) == hits@);
    proof {
        lemma_resolve_hits(c0, shots@, hits@, berserk);
    }
    events
}

/// Health, blink window and count of fatal events of a craft after a series of
/// hits of the given attacks.
pub open spec fn hit_series(c: Craft, attacks: Seq<u64>, berserk: bool) -> (Craft, nat)
    decreases attacks.len(),
{
    if attacks.len() == 0 {
        (c, 0)
    } else {
        let (mid, n) = hit_series(c, attacks.drop_last(), berserk);
        if hit_lands(mid) {
            let d = damaged(mid, attacks.last(), berserk);
            (d, n + if alive(d.ship.health) {
                0nat
            } else {
                1nat
            })
        } else {
            (mid, n)
        }
    }
}

/// Whatever hits a craft takes, exactly one of them is fatal when the craft
/// ends destroyed having started alive, and none otherwise.
pub proof fn lemma_single_fatal_event(c: Craft, attacks: Seq<u64>, berserk: bool)
    ensures
        ({
            let (last, n) = hit_series(c, attacks, berserk);
            &&& last.ship.health <= c.ship.health
            &&& n == (if alive(c.ship.health) && !alive(last.ship.health) {
                1nat
            } else {
                0nat
            })
        }),
    decreases attacks.len(),
{
    if attacks.len() > 0 {
        lemma_single_fatal_event(c, attacks.drop_last(), berserk);
    }
}

/// Credits owed for the fatal events: the loot of each destroyed craft that is
/// still on the field, once per fatal event.
pub open spec fn credits_for(events: Seq<DamageEvent>, cs: Seq<Craft>) -> nat
    decreases events.len(),
{
    if events.len() == 0 {
        0
    } else {
        let e = events.last();
        credits_for(events.drop_last(), cs) + if e.fatal && has_craft(cs, e.ship) {
            cs[craft_index(cs, e.ship)].loot.credits as nat
        } else {
            0nat
        }
    }
}

/// Loot phase: sums the credits awarded for the fatal events.
pub fn credit_money(events: &Vec<DamageEvent>, crafts: &Vec<Craft>) -> (r: u128)
    requires
        craft_ids_unique(crafts@),
    ensures
        r == credits_for(events@, crafts@),
{
    let mut total: u128 = 0;
    let mut k: usize = 0;
    while k < events.len()
        invariant
            k <= events.len(),
            craft_ids_unique(crafts@),
            total == credits_for(events@.take(k as int), crafts@),
            total <= k * 65535,
            k <= u64::MAX,
        decreases events.len() - k,
    {
        assert(events@.take(k as int + 1).drop_last() == events@.take(k as int));
        let e = events[k];
        if e.fatal {
            match find_craft(crafts, e.ship) {
                Some(i) => {
                    total = total + crafts[i].loot.credits as u128;
                },
                None => {},
            }
        }
        k = k + 1;
    }
    assert(events@.take(events.len() as int) == events@);
    total
}

/// Blink window left after a series of ticks of the given lengths.
pub open spec fn blink_after(blink: u64, steps: Seq<u64>) -> u64
    decreases steps.len(),
{
    if steps.len() == 0 {
        blink
    } else {
        blink_left(blink_after(blink, steps.drop_last()), steps.last())
    }
}

pub open spec fn total_time(steps: Seq<u64>) -> nat
    decreases steps.len(),
{
    if steps.len() == 0 {
        0
    } else {
        total_time(steps.drop_last()) + steps.last() as nat
    }
}

proof fn lemma_blink_after(blink: u64, steps: Seq<u64>)
    ensures
        blink_after(blink, steps) == (if total_time(steps) >= blink {
            0
        } else {
            blink - total_time(steps)
        }),
    decreases steps.len(),
{
    if steps.len() > 0 {
        lemma_blink_after(blink, steps.drop_last());
    }
}

/// A friendly craft granted a blink window of `c.blink_ms` milliseconds takes
/// no damage from a hit that comes while less time than that has passed, and
/// takes damage again, if still alive, once that much time has passed.
pub proof fn lemma_invulnerability_window(c: Craft, steps: Seq<u64>, attack: u64, berserk: bool)
    requires
        c.ship.friendly,
    ensures
        ({
            let later = Craft { blink_ms: blink_after(c.blink_ms, steps), ..c };
            &&& total_time(steps) < c.blink_ms ==> !hit_lands(later)
            &&& total_time(steps) >= c.blink_ms && alive(c.ship.health) ==> hit_lands(later)
                && damaged(later, attack, berserk).ship.health == health_after(
                c.ship.health,
                attack as int,
            )
        }),
{
    lemma_blink_after(c.blink_ms, steps);
}

/// A craft marked by the death phase: it has a fatal event and no health left.
pub open spec fn marked_dead(events: Seq<DamageEvent>, c: Craft) -> bool {
    exists|k: int|
        0 <= k < events.len() && (#[trigger] events[k]).fatal && events[k].ship == c.id && !alive(
            c.ship.health,
        )
}

pub open spec fn after_death_phase(events: Seq<DamageEvent>, c: Craft) -> Craft {
    if marked_dead(events, c) {
        Craft { dead: true, muted: true, ..c }
    } else {
        c
    }
}

/// Deaths that the fatal events bring about, counted as (enemies, elites and
/// bosses, player crafts): each fatal event that falls on a present craft with
/// no health left counts once.
pub open spec fn count_deaths(events: Seq<DamageEvent>, cs: Seq<Craft>) -> (nat, nat, nat)
    decreases events.len(),
{
    if events.len() == 0 {
        (0, 0, 0)
    } else {
        let e = events.last();
        let prev = count_deaths(events.drop_last(), cs);
        if e.fatal && has_craft(cs, e.ship) && !alive(cs[craft_index(cs, e.ship)].ship.health) {
            let c = cs[craft_index(cs, e.ship)];
            (
                prev.0 + if c.is_main {
                    0nat
                } else {
                    1nat
                },
                prev.1 + if elite_model(c.ship.model) {
                    1nat
                } else {
                    0nat
                },
                prev.2 + if c.is_main {
                    1nat
                } else {
                    0nat
                },
            )
        } else {
            prev
        }
    }
}

/// What the death phase reports to the encounter: enemies destroyed, whether
/// an elite or boss died, and whether the player's craft died. Either death
/// puts the slow-motion scale in force (see `current_time_scale`); the
/// player's death ends the run.
#[derive(Copy, Clone, Debug, PartialEq, Eq, Structural)]
pub struct DeathReport {
    pub kills: u64,
    pub elite_killed: bool,
    pub player_died: bool,
}

/// Death phase: each craft with a fatal event and no health left is marked
/// dead and muted. Removal waits until its blink window has elapsed.
pub fn die_gracefully(crafts: &mut Vec<Craft>, events: &Vec<DamageEvent>) -> (r: DeathReport)
    requires
        craft_ids_unique(old(crafts)@),
    ensures
        final(crafts)@.len() == old(crafts)@.len(),
        forall|i: int|
            0 <= i < old(crafts)@.len() ==> #[trigger] final(crafts)@[i] == after_death_phase(
                events@,
                old(crafts)@[i],
            ),
        r.kills == count_deaths(events@, old(crafts)@).0,
        r.elite_killed == (count_deaths(events@, old(crafts)@).1 > 0),
        r.player_died == (count_deaths(events@, old(crafts)@).2 > 0),
{
    let ghost c0 = old(crafts)@;
    let mut report = DeathReport { kills: 0, elite_killed: false, player_died: false };
    let mut k: usize = 0;
    while k < events.len()
        invariant
            k <= events.len(),
            craft_ids_unique(c0),
            crafts@.len() == c0.len(),
            forall|i: int|
                0 <= i < c0.len() ==> #[trigger] crafts@[i] == after_death_phase(
                    events@.take(k as int),
                    c0[i],
                ),
            report.kills == count_deaths(events@.take(k as int), c0).0,
            report.kills <= k,
            report.elite_killed == (count_deaths(events@.take(k as int), c0).1 > 0),
            report.player_died == (count_deaths(events@.take(k as int), c0).2 > 0),
        decreases events.len() - k,
    {
        let ghost pre = events@.take(k as int);
        let ghost post = events@.take(k as int + 1);
        assert(post.drop_last() == pre);
        let e = events[k];
        assert(post =~= pre.push(e));
        assert(same_ids(c0, crafts@));
        proof {
            lemma_same_ids_lookup(c0, crafts@, e.ship);
        }
        if e.fatal {
            match find_craft(crafts, e.ship) {
                Some(i) => {
                    if crafts[i].ship.health < HEALTH_EPSILON {
                        let ghost before = crafts@;
                        crafts.set(i, Craft { dead: true, muted: true, ..crafts[i] });
                        if crafts[i].is_main {
                            report.player_died = true;
                        } else {
                            report.kills = report.kills + 1;
                        }
                        if crafts[i].ship.model.is_elite() {
                            report.elite_killed = true;
                        }
                        assert forall|j: int| 0 <= j < c0.len() implies #[trigger] crafts@[j]
                            == after_death_phase(post, c0[j]) by {
                            assert(post[k as int] == e);
                            if j == i as int {
                                assert(marked_dead(post, c0[j]));
                            } else {
                                assert(c0[j].id != e.ship);
                                if marked_dead(post, c0[j]) {
                                    let q = choose|q: int|
                                        0 <= q < post.len() && (#[trigger] post[q]).fatal
                                            && post[q].ship == c0[j].id && !alive(c0[j].ship.health);
                                    assert(pre[q] == post[q]);
                                }
                                if marked_dead(pre, c0[j]) {
                                    let q = choose|q: int|
                                        0 <= q < pre.len() && (#[trigger] pre[q]).fatal
                                            && pre[q].ship == c0[j].id && !alive(c0[j].ship.health);
                                    assert(post[q] == pre[q]);
                                }
                            }
                        }
                    } else {
                        proof { lemma_mark_unchanged(pre, post, c0, e); }
                    }
                },
                None => {
                    proof { lemma_mark_unchanged(pre, post, c0, e); }
                },
            }
        } else {
            proof { lemma_mark_unchanged(pre, post, c0, e); }
        }
        k = k + 1;
    }
    assert(events@.take(events.len() as int) == events@);
    report
}

/// An event that marks no craft leaves every craft's death mark as it was.
proof fn lemma_mark_unchanged(
    pre: Seq<DamageEvent>,
    post: Seq<DamageEvent>,
    c0: Seq<Craft>,
    e: DamageEvent,
)
    requires
        post == pre.push(e),
        craft_ids_unique(c0),
        !(e.fatal && has_craft(c0, e.ship) && !alive(c0[craft_index(c0, e.ship)].ship.health)),
    ensures
        forall|j: int|
            0 <= j < c0.len() ==> after_death_phase(post, #[trigger] c0[j]) == after_death_phase(
                pre,
                c0[j],
            ),
{
    assert forall|j: int| 0 <= j < c0.len() implies after_death_phase(post, #[trigger] c0[j])
        == after_death_phase(pre, c0[j]) by {
        if marked_dead(post, c0[j]) {
            let q = choose|q: int|
                0 <= q < post.len() && (#[trigger] post[q]).fatal && post[q].ship == c0[j].id
                    && !alive(c0[j].ship.health);
            if q == pre.len() {
                assert(has_craft(c0, e.ship));
                let ci = craft_index(c0, e.ship);
                assert(ci == j) by {
                    if ci < j {
                        assert(c0[ci].id != c0[j].id);
                    } else if ci > j {
                        assert(c0[j].id != c0[ci].id);
                    }
                }
            } else {
                assert(pre[q] == post[q]);
            }
        }
        if marked_dead(pre, c0[j]) {
            let q = choose|q: int|
                0 <= q < pre.len() && (#[trigger] pre[q]).fatal && pre[q].ship == c0[j].id
                    && !alive(c0[j].ship.health);
            assert(post[q] == pre[q]);
        }
    }
}

/// A dead craft whose blink window has elapsed leaves the field.
pub open spec fn wreck_gone(c: Craft) -> bool {
    c.dead && c.blink_ms == 0
}

/// The crafts that stay on the field, in order.
pub open spec fn remaining_crafts(cs: Seq<Craft>) -> Seq<Craft>
    decreases cs.len(),
{
    if cs.len() == 0 {
        Seq::empty()
    } else {
        let r = remaining_crafts(cs.drop_last());
        if wreck_gone(cs.last()) {
            r
        } else {
            r.push(cs.last())
        }
    }
}

/// What removing wrecks reports: an elite or boss left (the encounter is
/// cleared), and the player's craft left (the run is lost).
#[derive(Copy, Clone, Debug, PartialEq, Eq, Structural)]
pub struct DespawnReport {
    pub elite_removed: bool,
    pub player_removed: bool,
}

pub open spec fn elite_wreck(cs: Seq<Craft>) -> bool {
    exists|i: int| 0 <= i < cs.len() && wreck_gone(#[trigger] cs[i]) && elite_model(cs[i].ship.model)
}

pub open spec fn player_wreck(cs: Seq<Craft>) -> bool {
    exists|i: int| 0 <= i < cs.len() && wreck_gone(#[trigger] cs[i]) && cs[i].is_main
}

/// Removes the dead crafts whose blink window has fully elapsed.
pub fn despawn_ships(crafts: &mut Vec<Craft>) -> (r: DespawnReport)
    ensures
        final(crafts)@ == remaining_crafts(old(crafts)@),
        r.elite_removed == elite_wreck(old(crafts)@),
        r.player_removed == player_wreck(old(crafts)@),
{
    let ghost c0 = old(crafts)@;
    let mut r = DespawnReport { elite_removed: false, player_removed: false };
    let mut i: usize = 0;
    let mut k: usize = 0;
    let n = crafts.len();
    while k < n
        invariant
            n == c0.len(),
            k <= c0.len(),
            i <= k,
            crafts@ == remaining_crafts(c0.take(k as int)) + c0.skip(k as int),
            i == remaining_crafts(c0.take(k as int)).len(),
            r.elite_removed == elite_wreck(c0.take(k as int)),
            r.player_removed == player_wreck(c0.take(k as int)),
        decreases c0.len() - k,
    {
        let ghost pre = c0.take(k as int);
        let ghost post = c0.take(k as int + 1);
        assert(post.drop_last() == pre);
        assert(crafts@[i as int] == c0[k as int]);
        let c = crafts[i];
        assert(post.last() == c);
        assert(c0.skip(k as int) =~= seq![c].add(c0.skip(k as int + 1)));
        if c.dead && c.blink_ms == 0 {
            assert(remaining_crafts(post) == remaining_crafts(pre));
            crafts.remove(i);
            if c.ship.model.is_elite() {
                r.elite_removed = true;
            }
            if c.is_main {
                r.player_removed = true;
            }
            assert(crafts@ =~= remaining_crafts(post) + c0.skip(k as int + 1));
        } else {
            assert(remaining_crafts(post) == remaining_crafts(pre).push(c));
            i = i + 1;
            assert(crafts@ =~= remaining_crafts(post) + c0.skip(k as int + 1));
        }
        assert(r.elite_removed == elite_wreck(post)) by {
            if elite_wreck(post) {
                let j = choose|j: int| 0 <= j < post.len() && wreck_gone(#[trigger] post[j]) && elite_model(post[j].ship.model);
                if j < k {
                    assert(pre[j] == post[j]);
                }
            }
            if elite_wreck(pre) {
                let j = choose|j: int| 0 <= j < pre.len() && wreck_gone(#[trigger] pre[j]) && elite_model(pre[j].ship.model);
                assert(pre[j] == post[j]);
            }
        }
        assert(r.player_removed == player_wreck(post)) by {
            if player_wreck(post) {
                let j = choose|j: int| 0 <= j < post.len() && wreck_gone(#[trigger] post[j]) && post[j].is_main;
                if j < k {
                    assert(pre[j] == post[j]);
                }
            }
            if player_wreck(pre) {
                let j = choose|j: int| 0 <= j < pre.len() && wreck_gone(#[trigger] pre[j]) && pre[j].is_main;
                assert(pre[j] == post[j]);
            }
        }
        k = k + 1;
    }
    assert(c0.take(c0.len() as int) == c0);
    assert(crafts@ =~= remaining_crafts(c0));
    r
}

proof fn lemma_targets_len(s: Projectile, crafts: Seq<Craft>)
    ensures
        targets_hit(s, crafts).len() <= crafts.len(),
    decreases crafts.len(),
{
    if crafts.len() > 0 {
        lemma_targets_len(s, crafts.drop_last());
    }
}

/// A collision pass reports at most one hit per projectile and craft.
pub proof fn lemma_all_hits_len(shots: Seq<Projectile>, crafts: Seq<Craft>)
    ensures
        all_hits(shots, crafts).len() <= shots.len() * crafts.len(),
    decreases shots.len(),
{
    if shots.len() > 0 {
        lemma_all_hits_len(shots.drop_last(), crafts);
        lemma_targets_len(shots.last(), crafts);
        assert((shots.len() - 1) * crafts.len() + crafts.len() == shots.len() * crafts.len()) by (nonlinear_arith);
    }
}

/// The damage phase emits at most one event per hit event.
pub proof fn lemma_resolve_hits_len(
    cs: Seq<Craft>,
    ss: Seq<Projectile>,
    hits: Seq<HitEvent>,
    berserk: bool,
)
    ensures
        resolve_hits(cs, ss, hits, berserk).1.len() <= hits.len(),
    decreases hits.len(),
{
    if hits.len() > 0 {
        lemma_resolve_hits_len(cs, ss, hits.drop_last(), berserk);
    }
}

/// Removing wrecks keeps the remaining crafts well formed and their
/// identifiers unique.
pub proof fn lemma_remaining_wf(cs: Seq<Craft>)
    requires
        crafts_wf(cs),
        craft_ids_unique(cs),
    ensures
        crafts_wf(remaining_crafts(cs)),
        craft_ids_unique(remaining_crafts(cs)),
        forall|i: int| 0 <= i < remaining_crafts(cs).len() ==> exists|j: int| 0 <= j < cs.len() && cs[j].id == (#[trigger] remaining_crafts(cs)[i]).id,
    decreases cs.len(),
{
    if cs.len() > 0 {
        let init = cs.drop_last();
        assert(crafts_wf(init));
        assert(craft_ids_unique(init));
        lemma_remaining_wf(init);
        let r = remaining_crafts(init);
        let out = remaining_crafts(cs);
        assert(craft_wf(cs[cs.len() - 1]));
        assert forall|i: int| 0 <= i < out.len() implies exists|j: int| 0 <= j < cs.len() && cs[j].id == (#[trigger] out[i]).id by {
            if i < r.len() {
                let j = choose|j: int| 0 <= j < init.len() && init[j].id == r[i].id;
                assert(cs[j].id == out[i].id);
            } else {
                assert(cs[cs.len() - 1].id == out[i].id);
            }
        }
        assert forall|a: int, b: int| 0 <= a < b < out.len() implies out[a].id != out[b].id by {
            if b >= r.len() {
                let j = choose|j: int| 0 <= j < init.len() && init[j].id == r[a].id;
                assert(cs[j].id != cs[cs.len() - 1].id);
            } else {
                assert(out[a] == r[a] && out[b] == r[b]);
            }
        }
        assert forall|i: int| 0 <= i < out.len() implies craft_wf(#[trigger] out[i]) by {
            if i < r.len() {
                assert(out[i] == r[i]);
            }
        }
    }
}

impl Craft {
    /// A craft of the model entering the field at `pos`: its stats, hitbox
    /// and loot come from the model, at full health, with no blink, stun or
    /// death mark.
    pub fn spawn(id: u64, model: Ships, pos: Point, is_main: bool) -> (r: Craft)
        requires
            point_in_range(pos),
        ensures
            craft_wf(r),
            r.id == id,
            r.ship == Ship::from_spec(model),
            r.pos == pos,
            r.hitbox.width == hitbox_px(model).0 * PX,
            r.hitbox.height == hitbox_px(model).1 * PX,
            r.is_main == is_main,
            r.blink_ms == 0 && r.stun_ms == 0 && !r.dead && !r.muted,
            r.loot.credits == loot_of(model),
    {
        Craft {
            id,
            ship: Ship::from(model),
            pos,
            hitbox: model.hitbox(),
            is_main,
            blink_ms: 0,
            dead: false,
            muted: false,
            stun_ms: 0,
            loot: Loot { credits: model.credits() },
        }
    }
}

/// The player's craft as the ship status makes it: the model's stats with
/// the status's hull and the upgrades' multipliers applied (per-mille,
/// rounded down).
pub open spec fn player_ship(model: Ships, s: ShipStatus) -> Ship {
    let base = Ship::from_spec(model);
    Ship {
        health: s.health,
        max_health: s.max_health,
        speed: (base.speed * (1000 + SPEED_STEP * count_of(s.upgrades@, Upgrades::Speed)) / 1000) as u64,
        damage_factor: (base.damage_factor * (1000 + DAMAGE_STEP * count_of(s.upgrades@, Upgrades::Damage)) / 1000) as u64,
        shot_speed: (base.shot_speed * (1000 + SHOT_SPEED_STEP * count_of(s.upgrades@, Upgrades::ShotSpeed)) / 1000) as u64,
        shot_frequency: (base.shot_frequency * (1000 + SHOT_FREQUENCY_STEP * count_of(s.upgrades@, Upgrades::ShotFrequency)) / 1000) as u64,
        ..base
    }
}

impl Craft {
    /// The player's craft entering an encounter at `pos`, built from the
    /// selected model and the ship status.
    pub fn player(id: u64, model: Ships, status: &ShipStatus, pos: Point) -> (r: Craft)
        requires
            point_in_range(pos),
            status_wf(*status),
        ensures
            craft_wf(r),
            r.id == id,
            r.is_main,
            r.pos == pos,
            r.ship == player_ship(model, *status),
            r.hitbox.width == hitbox_px(model).0 * PX,
            r.hitbox.height == hitbox_px(model).1 * PX,
            r.blink_ms == 0 && r.stun_ms == 0 && !r.dead && !r.muted,
    {
        let mut c = Craft::spawn(id, model, pos, true);
        let sm = status.speed_multiplier();
        let dm = status.damage_multiplier();
        let ssm = status.shot_speed_multiplier();
        let sfm = status.shot_frequency_multiplier();
        proof {
            crate::items::lemma_count_bound(status.upgrades@, Upgrades::Speed);
            crate::items::lemma_count_bound(status.upgrades@, Upgrades::Damage);
            crate::items::lemma_count_bound(status.upgrades@, Upgrades::ShotSpeed);
            crate::items::lemma_count_bound(status.upgrades@, Upgrades::ShotFrequency);
        }
        assert(c.ship.speed * sm <= 100_000 * 300_001_000) by (nonlinear_arith)
            requires c.ship.speed <= 100_000, sm <= 300_001_000;
        assert(c.ship.damage_factor * dm <= 100_000 * 300_001_000) by (nonlinear_arith)
            requires c.ship.damage_factor <= 100_000, dm <= 300_001_000;
        assert(c.ship.shot_speed * ssm <= 100_000 * 300_001_000) by (nonlinear_arith)
            requires c.ship.shot_speed <= 100_000, ssm <= 300_001_000;
        assert(c.ship.shot_frequency * sfm <= 100_000 * 300_001_000) by (nonlinear_arith)
            requires c.ship.shot_frequency <= 100_000, sfm <= 300_001_000;
        c.ship = Ship {
            health: status.health,
            max_health: status.max_health,
            speed: c.ship.speed * sm / 1000,
            damage_factor: c.ship.damage_factor * dm / 1000,
            shot_speed: c.ship.shot_speed * ssm / 1000,
            shot_frequency: c.ship.shot_frequency * sfm / 1000,
            ..c.ship
        };
        c
    }
}

/// Copies the health of the player's craft, the first craft marked as the
/// player's, into the ship status; the status is unchanged when there is
/// none.
pub fn record_player_health(status: &mut ShipStatus, crafts: &Vec<Craft>)
    requires
        status_wf(*old(status)),
        crafts_wf(crafts@),
    ensures
        status_wf(*final(status)),
        final(status).max_health == old(status).max_health,
        final(status).upgrades@ == old(status).upgrades@,
        final(status).missiles == old(status).missiles,
        final(status).shields == old(status).shields,
        final(status).credits == old(status).credits,
        (exists|i: int| 0 <= i < crafts@.len() && (#[trigger] crafts@[i]).is_main) ==> exists|i: int|
            0 <= i < crafts@.len() && (#[trigger] crafts@[i]).is_main && (forall|j: int| 0 <= j < i ==> !(#[trigger] crafts@[j]).is_main)
                && final(status).health == if crafts@[i].ship.health > old(status).max_health {
                old(status).max_health
            } else {
                crafts@[i].ship.health
            },
        (forall|i: int| 0 <= i < crafts@.len() ==> !(#[trigger] crafts@[i]).is_main) ==> final(status).health
            == old(status).health,
{
    let mut k: usize = 0;
    while k < crafts.len()
        invariant
            k <= crafts@.len(),
            *status == *old(status),
            status_wf(*old(status)),
            forall|j: int| 0 <= j < k ==> !(#[trigger] crafts@[j]).is_main,
        decreases crafts@.len() - k,
    {
        if crafts[k].is_main {
            status.set_health(crafts[k].ship.health);
            return;
        }
        k = k + 1;
    }
}

} // verus!
