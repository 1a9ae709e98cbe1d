use vstd::prelude::*;

use crate::arena::{Point, PX};
use crate::fixed::{cos_md, cosine, ratio, ratio_of, sin_md, sine, ONE, FULL_TURN};
use crate::combat::Projectile;
use crate::ships::{Hitbox, Ship, Ships};
use crate::arena::WIDTH_U;

verus! {

/// Kinds of projectile.
#[derive(Copy, Clone, Debug, PartialEq, Eq, Structural)]
pub enum Shots {
    Bullet,
    Wave,
    Missile,
    Energy,
    DualBeam,
}

/// Damage of a projectile kind, in thousandths of a hit point.
pub open spec fn base_attack(s: Shots) -> u64 {
    match s {
        Shots::Bullet => 1000,
        Shots::Wave => 900,
        Shots::Energy => 6000,
        Shots::DualBeam => 1250,
        Shots::Missile => 10000,
    }
}

/// Time between two shots of a kind at the reference fire rate, in
/// milliseconds.
pub open spec fn base_delay(s: Shots) -> u64 {
    match s {
        Shots::Bullet => 1000,
        Shots::Wave => 1250,
        Shots::Missile => 1000,
        Shots::Energy => 1750,
        Shots::DualBeam => 900,
    }
}

/// Hitbox of a projectile kind, in pixels.
pub open spec fn shot_hitbox_px(s: Shots) -> (int, int) {
    match s {
        Shots::Bullet => (2, 2),
        Shots::Wave => (6, 2),
        Shots::Missile => (4, 4),
        Shots::Energy => (2, 4),
        Shots::DualBeam => (4, 4),
    }
}

impl Shots {
    pub fn attack(&self) -> (r: u64)
        ensures
            r == base_attack(*self),
    {
        match self {
            Shots::Bullet => 1000,
            Shots::Wave => 900,
            Shots::Energy => 6000,
            Shots::DualBeam => 1250,
            Shots::Missile => 10000,
        }
    }

    pub fn delay(&self) -> (r: u64)
        ensures
            r == base_delay(*self),
    {
        match self {
            Shots::Bullet => 1000,
            Shots::Wave => 1250,
            Shots::Missile => 1000,
            Shots::Energy => 1750,
            Shots::DualBeam => 900,
        }
    }

    /// Hitbox of the projectile, in micropixels.
    pub fn hitbox(&self) -> (r: Hitbox)
        ensures
            r.width == shot_hitbox_px(*self).0 * PX,
            r.height == shot_hitbox_px(*self).1 * PX,
    {
        match self {
            Shots::Bullet => Hitbox { width: 2 * PX, height: 2 * PX },
            Shots::Wave => Hitbox { width: 6 * PX, height: 2 * PX },
            Shots::Missile => Hitbox { width: 4 * PX, height: 4 * PX },
            Shots::Energy => Hitbox { width: 2 * PX, height: 4 * PX },
            Shots::DualBeam => Hitbox { width: 4 * PX, height: 4 * PX },
        }
    }

    /// Index of the projectile's sprite in the projectile atlas.
    pub fn sprite_atlas_index(&self) -> (r: usize)
        ensures
            r == match *self {
                Shots::Bullet => 0usize,
                Shots::Wave => 1,
                Shots::Missile => 2,
                Shots::Energy => 3,
                Shots::DualBeam => 4,
            },
    {
        match self {
            Shots::Bullet => 0,
            Shots::Wave => 1,
            Shots::Missile => 2,
            Shots::Energy => 3,
            Shots::DualBeam => 4,
        }
    }
}

/// Kinds of weapon mount.
#[derive(Copy, Clone, Debug, PartialEq, Eq, Structural)]
pub enum Weapons {
    Standard,
    Wave,
    Missile,
    Energy,
    Dual,
}

pub open spec fn shot_of(w: Weapons) -> Shots {
    match w {
        Weapons::Standard => Shots::Bullet,
        Weapons::Wave => Shots::Wave,
        Weapons::Missile => Shots::Missile,
        Weapons::Energy => Shots::Energy,
        Weapons::Dual => Shots::DualBeam,
    }
}

impl Weapons {
    pub fn shot_type(&self) -> (r: Shots)
        ensures
            r == shot_of(*self),
    {
        match self {
            Weapons::Standard => Shots::Bullet,
            Weapons::Wave => Shots::Wave,
            Weapons::Missile => Shots::Missile,
            Weapons::Energy => Shots::Energy,
            Weapons::Dual => Shots::DualBeam,
        }
    }
}

/// Weapon mounts of a playable hull: kind, offset from the hull's centre in
/// micropixels, and firing heading in millidegrees.
pub open spec fn player_loadout(n: u8) -> Seq<(Weapons, Point, u64)> {
    match n {
        0 => seq![(Weapons::Standard, Point { x: -4000000 as i64, y: 6000000 as i64 }, 90000), (Weapons::Standard, Point { x: 4000000 as i64, y: 6000000 as i64 }, 90000)],
        1 => seq![(Weapons::Wave, Point { x: -5000000 as i64, y: 6000000 as i64 }, 90000), (Weapons::Wave, Point { x: 5000000 as i64, y: 6000000 as i64 }, 90000)],
        2 => seq![(Weapons::Standard, Point { x: -4000000 as i64, y: 6000000 as i64 }, 115000), (Weapons::Standard, Point { x: 0 as i64, y: 6000000 as i64 }, 90000), (Weapons::Standard, Point { x: 4000000 as i64, y: 6000000 as i64 }, 65000)],
        _ => seq![(Weapons::Energy, Point { x: 0 as i64, y: 6000000 as i64 }, 90000)],
    }
}

/// The mount of a hull turned upside down: offset mirrored vertically and
/// heading mirrored.
pub open spec fn mirrored(m: (Weapons, Point, u64)) -> (Weapons, Point, u64) {
    (m.0, Point { x: m.1.x, y: (-m.1.y) as i64 }, (FULL_TURN - m.2) as u64)
}

/// Weapon mounts of a model. An elite carries the mounts of the matching
/// playable hull, turned upside down.
pub open spec fn loadout(m: Ships) -> Seq<(Weapons, Point, u64)> {
    match m {
        Ships::Player(n) => player_loadout(n),
        Ships::Elite(n) => player_loadout(n).map_values(|w: (Weapons, Point, u64)| mirrored(w)),
        Ships::Invader(0) | Ships::Invader(2) => seq![(Weapons::Standard, Point { x: 0 as i64, y: -3000000 as i64 }, 270000)],
        Ships::Invader(1) => seq![(Weapons::Standard, Point { x: -2000000 as i64, y: -3000000 as i64 }, 270000), (Weapons::Standard, Point { x: 2000000 as i64, y: -3000000 as i64 }, 270000)],
        Ships::Invader(3) => seq![(Weapons::Standard, Point { x: -5000000 as i64, y: -3000000 as i64 }, 225000), (Weapons::Standard, Point { x: 5000000 as i64, y: -3000000 as i64 }, 315000)],
        Ships::Invader(4) | Ships::Invader(7) => seq![(Weapons::Dual, Point { x: 0 as i64, y: -3000000 as i64 }, 270000)],
        Ships::Invader(5) => seq![(Weapons::Dual, Point { x: 0 as i64, y: -3000000 as i64 }, 270000), (Weapons::Standard, Point { x: -5000000 as i64, y: -3000000 as i64 }, 225000), (Weapons::Standard, Point { x: 5000000 as i64, y: -3000000 as i64 }, 315000)],
        Ships::Invader(6) => seq![(Weapons::Standard, Point { x: 0 as i64, y: -3000000 as i64 }, 270000), (Weapons::Standard, Point { x: -5000000 as i64, y: -3000000 as i64 }, 225000), (Weapons::Standard, Point { x: 5000000 as i64, y: -3000000 as i64 }, 315000)],
        Ships::Invader(8) => seq![(Weapons::Standard, Point { x: -5000000 as i64, y: -3000000 as i64 }, 270000), (Weapons::Standard, Point { x: 5000000 as i64, y: -3000000 as i64 }, 270000)],
        Ships::Boss(0) => Seq::empty(),
        Ships::Boss(1) => seq![(Weapons::Standard, Point { x: -10000000 as i64, y: -24000000 as i64 }, 270000), (Weapons::Standard, Point { x: 10000000 as i64, y: -24000000 as i64 }, 270000)],
        Ships::Boss(2) => seq![(Weapons::Standard, Point { x: -16000000 as i64, y: -24000000 as i64 }, 202500), (Weapons::Standard, Point { x: -8000000 as i64, y: -24000000 as i64 }, 225000), (Weapons::Standard, Point { x: 0 as i64, y: -24000000 as i64 }, 270000), (Weapons::Standard, Point { x: 8000000 as i64, y: -24000000 as i64 }, 315000), (Weapons::Standard, Point { x: 16000000 as i64, y: -24000000 as i64 }, 337500)],
        _ => Seq::empty(),
    }
}

fn player_loadout_exec(n: u8) -> (r: Vec<(Weapons, Point, u64)>)
    ensures
        r@ == player_loadout(n),
        forall|i: int| 0 <= i < r@.len() ==> (#[trigger] r@[i]).2 <= FULL_TURN && -PX * 100 <= r@[i].1.y <= PX * 100,
{
    let r = match n {
        0 => vec![(Weapons::Standard, Point { x: -4000000 as i64, y: 6000000 as i64 }, 90000), (Weapons::Standard, Point { x: 4000000 as i64, y: 6000000 as i64 }, 90000)],
        1 => vec![(Weapons::Wave, Point { x: -5000000 as i64, y: 6000000 as i64 }, 90000), (Weapons::Wave, Point { x: 5000000 as i64, y: 6000000 as i64 }, 90000)],
        2 => vec![(Weapons::Standard, Point { x: -4000000 as i64, y: 6000000 as i64 }, 115000), (Weapons::Standard, Point { x: 0 as i64, y: 6000000 as i64 }, 90000), (Weapons::Standard, Point { x: 4000000 as i64, y: 6000000 as i64 }, 65000)],
        _ => vec![(Weapons::Energy, Point { x: 0 as i64, y: 6000000 as i64 }, 90000)],
    };
    r
}

impl Ships {
    /// Weapon mounts of the model: kind, offset from the hull's centre in
    /// micropixels, and firing heading in millidegrees.
    pub fn weapons(&self) -> (r: Vec<(Weapons, Point, u64)>)
        ensures
            r@ == loadout(*self),
    {
        match self {
            Ships::Player(n) => player_loadout_exec(*n),
            Ships::Elite(n) => {
                let base = player_loadout_exec(*n);
                let mut r: Vec<(Weapons, Point, u64)> = Vec::new();
                let mut i: usize = 0;
                while i < base.len()
                    invariant
                        i <= base@.len(),
                        base@ == player_loadout(*n),
                        forall|j: int| 0 <= j < base@.len() ==> (#[trigger] base@[j]).2 <= FULL_TURN && -PX * 100 <= base@[j].1.y <= PX * 100,
                        r@ == base@.take(i as int).map_values(|w: (Weapons, Point, u64)| mirrored(w)),
                    decreases base@.len() - i,
                {
                    let (w, p, a) = base[i];
                    assert(base@[i as int].2 <= FULL_TURN);
                    r.push((w, Point { x: p.x, y: -p.y }, FULL_TURN - a));
                    assert(r@ =~= base@.take(i as int + 1).map_values(|w: (Weapons, Point, u64)| mirrored(w)));
                    i = i + 1;
                }
                assert(base@.take(base@.len() as int) == base@);
                r
            },
            Ships::Invader(0) | Ships::Invader(2) => vec![(Weapons::Standard, Point { x: 0 as i64, y: -3000000 as i64 }, 270000)],
            Ships::Invader(1) => vec![(Weapons::Standard, Point { x: -2000000 as i64, y: -3000000 as i64 }, 270000), (Weapons::Standard, Point { x: 2000000 as i64, y: -3000000 as i64 }, 270000)],
            Ships::Invader(3) => vec![(Weapons::Standard, Point { x: -5000000 as i64, y: -3000000 as i64 }, 225000), (Weapons::Standard, Point { x: 5000000 as i64, y: -3000000 as i64 }, 315000)],
            Ships::Invader(4) | Ships::Invader(7) => vec![(Weapons::Dual, Point { x: 0 as i64, y: -3000000 as i64 }, 270000)],
            Ships::Invader(5) => vec![(Weapons::Dual, Point { x: 0 as i64, y: -3000000 as i64 }, 270000), (Weapons::Standard, Point { x: -5000000 as i64, y: -3000000 as i64 }, 225000), (Weapons::Standard, Point { x: 5000000 as i64, y: -3000000 as i64 }, 315000)],
            Ships::Invader(6) => vec![(Weapons::Standard, Point { x: 0 as i64, y: -3000000 as i64 }, 270000), (Weapons::Standard, Point { x: -5000000 as i64, y: -3000000 as i64 }, 225000), (Weapons::Standard, Point { x: 5000000 as i64, y: -3000000 as i64 }, 315000)],
            Ships::Invader(8) => vec![(Weapons::Standard, Point { x: -5000000 as i64, y: -3000000 as i64 }, 270000), (Weapons::Standard, Point { x: 5000000 as i64, y: -3000000 as i64 }, 270000)],
            Ships::Boss(0) => vec![],
            Ships::Boss(1) => vec![(Weapons::Standard, Point { x: -10000000 as i64, y: -24000000 as i64 }, 270000), (Weapons::Standard, Point { x: 10000000 as i64, y: -24000000 as i64 }, 270000)],
            Ships::Boss(2) => vec![(Weapons::Standard, Point { x: -16000000 as i64, y: -24000000 as i64 }, 202500), (Weapons::Standard, Point { x: -8000000 as i64, y: -24000000 as i64 }, 225000), (Weapons::Standard, Point { x: 0 as i64, y: -24000000 as i64 }, 270000), (Weapons::Standard, Point { x: 8000000 as i64, y: -24000000 as i64 }, 315000), (Weapons::Standard, Point { x: 16000000 as i64, y: -24000000 as i64 }, 337500)],
            _ => vec![],
        }
    }
}

/// A mounted weapon with the stats of the craft that carries it.
#[derive(Copy, Clone, Debug, PartialEq, Eq, Structural)]
pub struct Weapon {
    pub shot: Shots,
    /// Damage of each shot, in thousandths of a hit point.
    pub attack: u64,
    /// Velocity of each shot, in micropixels per millisecond.
    pub speed: Point,
    pub offset: Point,
    /// Time between shots, in milliseconds.
    pub delay: u64,
}

/// Bound on a craft's multipliers, in per-mille.
pub const FACTOR_LIMIT: u64 = 1_000_000;

/// Bound on a craft's projectile speed, in micropixels per millisecond.
pub const SHOT_SPEED_LIMIT: u64 = 1_000_000_000;

impl Weapon {
    /// The weapon of kind `model` mounted at `offset` and aimed at `angle`
    /// millidegrees on `ship`: its attack scaled by the ship's damage factor,
    /// its shots as fast as the ship's shots, its delay divided by the ship's
    /// fire rate.
    pub fn new(model: Shots, ship: &Ship, offset: Point, angle: u64) -> (r: Weapon)
        requires
            0 < ship.shot_frequency <= FACTOR_LIMIT,
            ship.damage_factor <= FACTOR_LIMIT,
            ship.shot_speed <= SHOT_SPEED_LIMIT,
            angle <= u64::MAX - 90_000,
        ensures
            r.shot == model,
            r.attack == base_attack(model) * ship.damage_factor / 1000int,
            r.speed.x == ratio_of(ship.shot_speed as int, cosine(angle as int), ONE as int),
            r.speed.y == ratio_of(ship.shot_speed as int, sine(angle as int), ONE as int),
            r.offset == offset,
            r.delay == base_delay(model) * 1000 / (ship.shot_frequency as int),
    {
        let v = ship.shot_speed as i64;
        Weapon {
            shot: model,
            attack: model.attack() * ship.damage_factor / 1000,
            speed: Point { x: ratio(v, cos_md(angle), ONE), y: ratio(v, sin_md(angle), ONE) },
            offset,
            delay: model.delay() * 1000 / ship.shot_frequency,
        }
    }

    /// Whether the weapon fires during the tick that brought its timer from
    /// `timer - delta` to `timer`: the timer crossed a multiple of the delay.
    pub fn fires(&self, timer: u64, delta: u64) -> (r: bool)
        requires
            self.delay > 0,
            delta <= timer,
        ensures
            r == ((timer - delta) as int % (self.delay as int) > timer as int % (self.delay as int)),
    {
        (timer - delta) % self.delay > timer % self.delay
    }
}

/// The weapons of a craft and their shared timer, in milliseconds.
#[derive(Debug)]
pub struct ShipWeapons {
    pub weapons: Vec<Weapon>,
    pub timer: u64,
}

impl ShipWeapons {
    /// Mounts each weapon of the loadout on `ship`, with the timer at zero.
    pub fn new(ship: &Ship, weapons: Vec<(Weapons, Point, u64)>) -> (r: ShipWeapons)
        requires
            0 < ship.shot_frequency <= FACTOR_LIMIT,
            ship.damage_factor <= FACTOR_LIMIT,
            ship.shot_speed <= SHOT_SPEED_LIMIT,
            forall|i: int| 0 <= i < weapons@.len() ==> (#[trigger] weapons@[i]).2 <= FULL_TURN,
        ensures
            r.timer == 0,
            r.weapons@.len() == weapons@.len(),
            forall|i: int|
                0 <= i < weapons@.len() ==> {
                    let w = #[trigger] r.weapons@[i];
                    &&& w.shot == shot_of(weapons@[i].0)
                    &&& w.offset == weapons@[i].1
                    &&& w.attack == base_attack(w.shot) * ship.damage_factor / 1000int
                    &&& w.delay == base_delay(w.shot) * 1000 / (ship.shot_frequency as int)
                },
    {
        let mut out: Vec<Weapon> = Vec::new();
        let mut i: usize = 0;
        while i < weapons.len()
            invariant
                i <= weapons@.len(),
                0 < ship.shot_frequency <= FACTOR_LIMIT,
                ship.damage_factor <= FACTOR_LIMIT,
                ship.shot_speed <= SHOT_SPEED_LIMIT,
                forall|j: int| 0 <= j < weapons@.len() ==> (#[trigger] weapons@[j]).2 <= FULL_TURN,
                out@.len() == i,
                forall|j: int|
                    0 <= j < i ==> {
                        let w = #[trigger] out@[j];
                        &&& w.shot == shot_of(weapons@[j].0)
                        &&& w.offset == weapons@[j].1
                        &&& w.attack == base_attack(w.shot) * ship.damage_factor / 1000int
                        &&& w.delay == base_delay(w.shot) * 1000 / (ship.shot_frequency as int)
                    },
            decreases weapons@.len() - i,
        {
            let (kind, offset, angle) = weapons[i];
            assert(weapons@[i as int].2 <= FULL_TURN);
            out.push(Weapon::new(kind.shot_type(), ship, offset, angle));
            i = i + 1;
        }
        ShipWeapons { weapons: out, timer: 0 }
    }
}

/// How far outside the arena's side edges a craft still fires, in
/// micropixels.
pub const FIRING_MARGIN: i64 = 8_000_000;

/// Whether a craft at abscissa `x` is close enough to the arena to fire.
pub open spec fn in_firing_range(x: i64) -> bool {
    -FIRING_MARGIN <= x < WIDTH_U + FIRING_MARGIN
}

/// The weapons whose delay is crossed while the timer goes from `t` to
/// `t + dt`, in mount order.
pub open spec fn firing(ws: Seq<Weapon>, t: int, dt: int) -> Seq<Weapon>
    decreases ws.len(),
{
    if ws.len() == 0 {
        Seq::empty()
    } else {
        let r = firing(ws.drop_last(), t, dt);
        let w = ws.last();
        if t % (w.delay as int) > (t + dt) % (w.delay as int) {
            r.push(w)
        } else {
            r
        }
    }
}

impl ShipWeapons {
    /// Advances the weapons' timer by `dt` milliseconds and returns, in mount
    /// order, the weapons that fire: those whose delay was crossed, for a
    /// craft that may fire and stands near the arena.
    pub fn fire(&mut self, dt: u64, can_fire: bool, x: i64) -> (r: Vec<Weapon>)
        requires
            old(self).timer + dt <= u64::MAX,
            forall|i: int| 0 <= i < old(self).weapons@.len() ==> (#[trigger] old(self).weapons@[i]).delay > 0,
        ensures
            final(self).weapons@ == old(self).weapons@,
            (can_fire && in_firing_range(x)) ==> final(self).timer == old(self).timer + dt,
            !(can_fire && in_firing_range(x)) ==> final(self).timer == old(self).timer && r@.len() == 0,
            (can_fire && in_firing_range(x)) ==> r@ == firing(old(self).weapons@, old(self).timer as int, dt as int),
    {
        let mut out: Vec<Weapon> = Vec::new();
        if !can_fire || x < -FIRING_MARGIN || x >= WIDTH_U + FIRING_MARGIN {
            return out;
        }
        self.timer = self.timer + dt;
        let mut i: usize = 0;
        while i < self.weapons.len()
            invariant
                i <= self.weapons@.len(),
                self.weapons@ == old(self).weapons@,
                self.timer == old(self).timer + dt,
                forall|j: int| 0 <= j < self.weapons@.len() ==> (#[trigger] self.weapons@[j]).delay > 0,
                out@ == firing(old(self).weapons@.take(i as int), old(self).timer as int, dt as int),
            decreases self.weapons@.len() - i,
        {
            let w = self.weapons[i];
            assert(self.weapons@[i as int].delay > 0);
            assert(old(self).weapons@.take(i as int + 1).drop_last() == old(self).weapons@.take(i as int));
            if w.fires(self.timer, dt) {
                out.push(w);
            }
            i = i + 1;
        }
        assert(old(self).weapons@.take(old(self).weapons@.len() as int) == old(self).weapons@);
        out
    }
}

impl Projectile {
    /// A projectile fired by `weapon` from a craft at `origin`: it appears at
    /// the mount's offset, flies at the weapon's velocity, deals its attack,
    /// and carries the given modifiers, with no bounce and no hit yet.
    pub fn fired(id: u64, weapon: &Weapon, friendly: bool, origin: Point, upgrades: usize) -> (r: Projectile)
        requires
            -1_000_000_000_000 <= origin.x <= 1_000_000_000_000,
            -1_000_000_000_000 <= origin.y <= 1_000_000_000_000,
            -1_000_000_000_000 <= weapon.offset.x <= 1_000_000_000_000,
            -1_000_000_000_000 <= weapon.offset.y <= 1_000_000_000_000,
        ensures
            r.id == id,
            r.attack == weapon.attack,
            r.friendly == friendly,
            r.velocity == weapon.speed,
            r.hitbox.width == shot_hitbox_px(weapon.shot).0 * PX,
            r.hitbox.height == shot_hitbox_px(weapon.shot).1 * PX,
            r.pos.x == origin.x + weapon.offset.x,
            r.pos.y == origin.y + weapon.offset.y,
            r.upgrades == upgrades,
            r.bounce_count == 0,
            r.collisions@.len() == 0,
    {
        Projectile {
            id,
            attack: weapon.attack,
            friendly,
            velocity: weapon.speed,
            hitbox: weapon.shot.hitbox(),
            pos: Point { x: origin.x + weapon.offset.x, y: origin.y + weapon.offset.y },
            upgrades,
            bounce_count: 0,
            collisions: Vec::new(),
        }
    }
}

} // verus!
