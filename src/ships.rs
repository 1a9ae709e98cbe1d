use vstd::prelude::*;

use crate::arena::PX;
use crate::random::random_below;

verus! {

/// Reference projectile speed, in micropixels per millisecond (100 pixels per second).
pub const BASE_SHOT_SPEED: u64 = 100_000;

/// Health of a deployed shield, in thousandths of a hit point.
pub const SHIELD_HEALTH: u64 = 9_999_000;

/// Model tag of a craft: the playable hulls, the regular invaders by tier, the
/// elites and the bosses. `Player(99)` is the deployable shield.
#[derive(Copy, Clone, Debug, PartialEq, Eq, Structural)]
pub enum Ships {
    Player(u8),
    Invader(u8),
    Elite(u8),
    Boss(u8),
}

/// Axis-aligned extent of a hitbox, in micropixels.
#[derive(Copy, Clone, Debug, PartialEq, Eq, Structural)]
pub struct Hitbox {
    pub width: i64,
    pub height: i64,
}

/// Stats of a craft. Health values are in thousandths of a hit point, speeds in
/// micropixels per millisecond, multipliers in per-mille.
#[derive(Copy, Clone, Debug, PartialEq, Eq, Structural)]
pub struct Ship {
    pub model: Ships,
    pub friendly: bool,
    pub speed: u64,
    pub damage_factor: u64,
    pub shot_speed: u64,
    pub shot_frequency: u64,
    pub health: u64,
    pub max_health: u64,
}

/// Elite and boss units.
pub open spec fn elite_model(m: Ships) -> bool {
    m is Elite || m is Boss
}

/// Friendliness, health, speed, damage factor and fire-rate factor of a model.
pub open spec fn model_stats(m: Ships) -> (bool, u64, u64, u64, u64) {
    match m {
        Ships::Player(0) => (true, 12000, 25000, 1000, 1000),
        Ships::Elite(0) => (false, 18000, 25000, 1000, 1000),
        Ships::Player(1) => (true, 20000, 25000, 1000, 1000),
        Ships::Elite(1) => (false, 24000, 25000, 1000, 1000),
        Ships::Player(2) => (true, 12000, 37500, 1200, 1000),
        Ships::Elite(2) => (false, 18000, 25000, 1000, 1000),
        Ships::Player(_) => (true, 6000, 25000, 1000, 1000),
        Ships::Elite(_) => (false, 12000, 25000, 1000, 1000),
        Ships::Invader(0) => (false, 4000, 12500, 1000, 1000),
        Ships::Invader(1) => (false, 5333, 8333, 1000, 1000),
        Ships::Invader(2) => (false, 4000, 16667, 1000, 1500),
        Ships::Invader(3) => (false, 5333, 12500, 1000, 1000),
        Ships::Invader(4) => (false, 8000, 16667, 1000, 1000),
        Ships::Invader(5) => (false, 4000, 20000, 1500, 1000),
        Ships::Invader(6) => (false, 16000, 12500, 1250, 667),
        Ships::Invader(7) => (false, 12000, 20000, 1250, 1000),
        Ships::Invader(8) => (false, 12000, 16667, 1250, 1500),
        Ships::Boss(0) => (false, 112000, 16667, 1000, 1000),
        Ships::Boss(1) => (false, 96000, 20000, 1000, 800),
        Ships::Boss(2) => (false, 112000, 22727, 1350, 1150),
        _ => (false, 8000, 25000, 1000, 1000),
    }
}

/// Credits awarded for destroying a unit of the model.
pub open spec fn loot_of(m: Ships) -> u16 {
    match m {
        Ships::Player(_) => 0,
        Ships::Invader(n) => if n <= 3 {
            2
        } else if n <= 6 {
            5
        } else {
            10
        },
        Ships::Elite(_) => 25,
        Ships::Boss(_) => 50,
    }
}

/// Sprite index of a model in the ship atlas.
pub open spec fn sprite_of(m: Ships) -> int {
    match m {
        Ships::Player(n) => n as int,
        Ships::Invader(n) => 4 + n,
        Ships::Elite(n) => 13 + n,
        Ships::Boss(n) => if n == 0 {
            4
        } else if n == 1 {
            9
        } else {
            11
        },
    }
}

/// Hitbox of a model, in pixels.
pub open spec fn hitbox_px(m: Ships) -> (int, int) {
    match m {
        Ships::Player(_) => (6, 4),
        Ships::Invader(_) => (12, 6),
        Ships::Elite(_) => (8, 4),
        Ships::Boss(_) => (48, 24),
    }
}

impl Ships {
    /// Elite and boss units.
    pub fn is_elite(&self) -> (r: bool)
        ensures
            r == elite_model(*self),
    {
        match self {
            Ships::Elite(_) | Ships::Boss(_) => true,
            _ => false,
        }
    }

    /// The deployable shield, modelled as the hull `Player(99)`.
    pub fn is_shield(&self) -> (r: bool)
        ensures
            r == (*self == Ships::Player(99)),
    {
        match self {
            Ships::Player(n) => *n == 99,
            _ => false,
        }
    }

    /// Hitbox of the model, in micropixels.
    pub fn hitbox(&self) -> (r: Hitbox)
        ensures
            r.width == hitbox_px(*self).0 * PX,
            r.height == hitbox_px(*self).1 * PX,
    {
        match self {
            Ships::Player(_) => Hitbox { width: 6 * PX, height: 4 * PX },
            Ships::Invader(_) => Hitbox { width: 12 * PX, height: 6 * PX },
            Ships::Elite(_) => Hitbox { width: 8 * PX, height: 4 * PX },
            Ships::Boss(_) => Hitbox { width: 48 * PX, height: 24 * PX },
        }
    }

    /// Credits awarded for destroying a unit of this model.
    pub fn credits(&self) -> (r: u16)
        ensures
            r == loot_of(*self),
    {
        match self {
            Ships::Player(_) => 0,
            Ships::Invader(n) => if *n <= 3 {
                2
            } else if *n <= 6 {
                5
            } else {
                10
            },
            Ships::Elite(_) => 25,
            Ships::Boss(_) => 50,
        }
    }

    fn stats(&self) -> (r: (bool, u64, u64, u64, u64))
        ensures
            r == model_stats(*self),
    {
        match self {
            Ships::Player(0) => (true, 12000, 25000, 1000, 1000),
            Ships::Elite(0) => (false, 18000, 25000, 1000, 1000),
            Ships::Player(1) => (true, 20000, 25000, 1000, 1000),
            Ships::Elite(1) => (false, 24000, 25000, 1000, 1000),
            Ships::Player(2) => (true, 12000, 37500, 1200, 1000),
            Ships::Elite(2) => (false, 18000, 25000, 1000, 1000),
            Ships::Player(_) => (true, 6000, 25000, 1000, 1000),
            Ships::Elite(_) => (false, 12000, 25000, 1000, 1000),
            Ships::Invader(0) => (false, 4000, 12500, 1000, 1000),
            Ships::Invader(1) => (false, 5333, 8333, 1000, 1000),
            Ships::Invader(2) => (false, 4000, 16667, 1000, 1500),
            Ships::Invader(3) => (false, 5333, 12500, 1000, 1000),
            Ships::Invader(4) => (false, 8000, 16667, 1000, 1000),
            Ships::Invader(5) => (false, 4000, 20000, 1500, 1000),
            Ships::Invader(6) => (false, 16000, 12500, 1250, 667),
            Ships::Invader(7) => (false, 12000, 20000, 1250, 1000),
            Ships::Invader(8) => (false, 12000, 16667, 1250, 1500),
            Ships::Boss(0) => (false, 112000, 16667, 1000, 1000),
            Ships::Boss(1) => (false, 96000, 20000, 1000, 800),
            Ships::Boss(2) => (false, 112000, 22727, 1350, 1150),
            _ => (false, 8000, 25000, 1000, 1000),
        }
    }
}

impl Ship {
    /// Stats of a freshly spawned craft of the model, at full health.
    pub open spec fn from_spec(model: Ships) -> Ship {
        Ship {
            model,
            friendly: model_stats(model).0,
            speed: model_stats(model).2,
            damage_factor: model_stats(model).3,
            shot_speed: BASE_SHOT_SPEED,
            shot_frequency: model_stats(model).4,
            health: model_stats(model).1,
            max_health: model_stats(model).1,
        }
    }

    /// Stats of a freshly spawned craft of the model, at full health.
    pub fn from(model: Ships) -> (r: Ship)
        ensures
            r == Ship::from_spec(model),
    {
        let (friendly, health, speed, damage_factor, shot_frequency) = model.stats();
        Ship {
            model,
            friendly,
            speed,
            damage_factor,
            shot_speed: BASE_SHOT_SPEED,
            shot_frequency,
            health,
            max_health: health,
        }
    }

    /// The deployable shield: friendly, motionless and nearly indestructible.
    pub fn shield() -> (r: Ship)
        ensures
            r.model == Ships::Player(99),
            r.friendly,
            r.health == SHIELD_HEALTH,
            r.max_health == SHIELD_HEALTH,
            r.speed == 0,
            r.damage_factor == 0,
    {
        Ship {
            model: Ships::Player(99),
            friendly: true,
            speed: 0,
            damage_factor: 0,
            shot_speed: 0,
            shot_frequency: 0,
            health: SHIELD_HEALTH,
            max_health: SHIELD_HEALTH,
        }
    }

    /// Sprite index of the craft's model in the ship atlas.
    pub fn sprite_index(&self) -> (r: usize)
        ensures
            r == sprite_of(self.model),
    {
        match self.model {
            Ships::Player(n) => n as usize,
            Ships::Invader(n) => 4 + n as usize,
            Ships::Elite(n) => 13 + n as usize,
            Ships::Boss(n) => if n == 0 {
                4
            } else if n == 1 {
                9
            } else {
                11
            },
        }
    }
}

/// Levels in one act of the route.
pub const ACT_LEN: usize = 9;

/// Act of a level, counted from zero; levels past the third act play as the
/// third.
pub open spec fn act_of(level: int) -> int {
    if level / (ACT_LEN as int) >= 2 {
        2
    } else {
        level / (ACT_LEN as int)
    }
}

/// Invader tiers that appear in an act, each as often as it is listed.
pub open spec fn enemy_pool(act: int) -> Seq<u8> {
    if act == 0 {
        seq![0u8, 1, 2, 3]
    } else if act == 1 {
        seq![0u8, 1, 2, 3, 4, 4, 5, 5, 6, 6]
    } else {
        seq![0u8, 1, 2, 3, 4, 4, 5, 5, 6, 6, 7, 7, 7, 8, 8, 8]
    }
}

/// A regular enemy that may appear at the level.
pub open spec fn enemy_of_level(m: Ships, level: int) -> bool {
    m matches Ships::Invader(n) && enemy_pool(act_of(level)).contains(n)
}

impl Ships {
    /// A regular enemy drawn from the act's weighted table.
    pub fn random_enemy(level: usize) -> (r: Ships)
        ensures
            enemy_of_level(r, level as int),
    {
        let act = if level / ACT_LEN >= 2 {
            2
        } else {
            level / ACT_LEN
        };
        let pool: Vec<u8> = if act == 0 {
            vec![0u8, 1, 2, 3]
        } else if act == 1 {
            vec![0u8, 1, 2, 3, 4, 4, 5, 5, 6, 6]
        } else {
            vec![0u8, 1, 2, 3, 4, 4, 5, 5, 6, 6, 7, 7, 7, 8, 8, 8]
        };
        assert(pool@ == enemy_pool(act as int));
        let i = random_below(0, pool.len() as u64) as usize;
        assert(enemy_pool(act as int).contains(pool@[i as int]));
        Ships::Invader(pool[i])
    }
}

} // verus!
