use vstd::prelude::*;

use crate::combat::{BOUNCING, PIERCING, STUN};
use crate::random::{random_below, random_coin};
use crate::route::GameMode;

verus! {

/// Hull points an upgrade of the hull adds, in thousandths.
pub const HULL_UPGRADE: u64 = 4000;

/// Hull points a repair restores, in thousandths.
pub const REPAIR_AMOUNT: u64 = 1000;

/// Speed gained per speed module, in per-mille.
pub const SPEED_STEP: u64 = 200;

/// Damage gained per power module, in per-mille.
pub const DAMAGE_STEP: u64 = 250;

/// Projectile speed gained per module, in per-mille.
pub const SHOT_SPEED_STEP: u64 = 200;

/// Fire rate gained per module, in per-mille.
pub const SHOT_FREQUENCY_STEP: u64 = 150;

/// Share of the hull below which a berserk ship doubles its damage, in
/// percent.
pub const BERSERK_PERCENT: u64 = 25;

/// Kills that a leeching hull needs for one repair.
pub const LEECH_COUNT: usize = 8;

/// Attempts at an upgrade the ship lacks before a stat upgrade is offered.
pub const UPGRADE_DRAWS: usize = 30;

/// Upgrades a ship can install.
#[derive(Copy, Clone, Debug, PartialEq, Eq, Structural, Hash)]
pub enum Upgrades {
    Speed,
    Damage,
    ShotSpeed,
    ShotFrequency,
    Hull,
    BouncingShots,
    PiercingShots,
    LeechShots,
    StunShots,
    SideShots,
    Berserk,
    BetterShields,
    BetterMissiles,
}

pub open spec fn upgrade_name(u: Upgrades) -> Seq<char> {
    match u {
        Upgrades::Speed => "Speed Module +"@,
        Upgrades::ShotSpeed => "Shot Speed +"@,
        Upgrades::ShotFrequency => "Shot Frequency +"@,
        Upgrades::Damage => "Power +"@,
        Upgrades::Hull => "Hull +"@,
        Upgrades::BouncingShots => "Bouncing Shots"@,
        Upgrades::PiercingShots => "Piercing Shots"@,
        Upgrades::StunShots => "Stun Shots"@,
        Upgrades::LeechShots => "Leech Shots"@,
        Upgrades::SideShots => "Side Shots"@,
        Upgrades::BetterShields => "Better Shields"@,
        Upgrades::BetterMissiles => "Better Missiles"@,
        Upgrades::Berserk => "Berserk"@,
    }
}

/// Upgrades that raise a stat rather than change how the ship plays.
pub open spec fn stat_upgrade(u: Upgrades) -> bool {
    u == Upgrades::Speed || u == Upgrades::ShotSpeed || u == Upgrades::ShotFrequency || u
        == Upgrades::Damage || u == Upgrades::Hull
}

impl Upgrades {
    pub fn name(&self) -> (r: &'static str)
        ensures
            r@ == upgrade_name(*self),
    {
        match self {
            Upgrades::Speed => "Speed Module +",
            Upgrades::ShotSpeed => "Shot Speed +",
            Upgrades::ShotFrequency => "Shot Frequency +",
            Upgrades::Damage => "Power +",
            Upgrades::Hull => "Hull +",
            Upgrades::BouncingShots => "Bouncing Shots",
            Upgrades::PiercingShots => "Piercing Shots",
            Upgrades::StunShots => "Stun Shots",
            Upgrades::LeechShots => "Leech Shots",
            Upgrades::SideShots => "Side Shots",
            Upgrades::BetterShields => "Better Shields",
            Upgrades::BetterMissiles => "Better Missiles",
            Upgrades::Berserk => "Berserk",
        }
    }

    pub fn is_stat_upgrade(&self) -> (r: bool)
        ensures
            r == stat_upgrade(*self),
    {
        match self {
            Upgrades::Speed | Upgrades::ShotSpeed | Upgrades::ShotFrequency | Upgrades::Damage
            | Upgrades::Hull => true,
            _ => false,
        }
    }

    /// A stat upgrade drawn uniformly.
    pub fn random_stat_upgrade() -> (r: Upgrades)
        ensures
            stat_upgrade(r),
    {
        let options: Vec<Upgrades> = vec![
            Upgrades::Speed,
            Upgrades::ShotSpeed,
            Upgrades::ShotFrequency,
            Upgrades::Damage,
            Upgrades::Hull,
        ];
        let i = random_below(0, options.len() as u64) as usize;
        options[i]
    }

    /// An upgrade that is not a stat upgrade, drawn uniformly.
    fn random_non_stat_upgrade() -> (r: Upgrades)
        ensures
            !stat_upgrade(r),
    {
        let options: Vec<Upgrades> = vec![
            Upgrades::BouncingShots,
            Upgrades::PiercingShots,
            Upgrades::StunShots,
            Upgrades::LeechShots,
            Upgrades::SideShots,
            Upgrades::BetterShields,
            Upgrades::BetterMissiles,
            Upgrades::Berserk,
        ];
        let i = random_below(0, options.len() as u64) as usize;
        options[i]
    }

    /// An upgrade that changes how the ship plays and that the ship lacks,
    /// drawn up to `UPGRADE_DRAWS + 1` times; when every draw is one the ship
    /// already has, a stat upgrade instead.
    pub fn new_non_stat_upgrade(status: &ShipStatus) -> (r: Upgrades)
        ensures
            stat_upgrade(r) || !status.upgrades@.contains(r),
    {
        let mut i: usize = 0;
        while i <= UPGRADE_DRAWS
            invariant
                i <= UPGRADE_DRAWS + 1,
            decreases UPGRADE_DRAWS + 1 - i,
        {
            let upgrade = Self::random_non_stat_upgrade();
            if !status.has_upgrade(upgrade) {
                return upgrade;
            }
            i = i + 1;
        }
        Self::random_stat_upgrade()
    }

    /// An upgrade to offer: one time in three one that changes how the ship
    /// plays (see `new_non_stat_upgrade`), otherwise a stat upgrade.
    pub fn new_upgrade(status: &ShipStatus) -> (r: Upgrades)
        ensures
            stat_upgrade(r) || !status.upgrades@.contains(r),
    {
        if random_below(0, 3) == 0 {
            Upgrades::new_non_stat_upgrade(status)
        } else {
            Upgrades::random_stat_upgrade()
        }
    }
}

/// What a shop sells or a wreck drops.
#[derive(Copy, Clone, Debug, PartialEq, Eq, Structural, Hash)]
pub enum Items {
    Missile,
    Shield,
    Repair,
    Upgrade(Upgrades),
}

pub open spec fn item_name(i: Items) -> Seq<char> {
    match i {
        Items::Missile => "Missile"@,
        Items::Shield => "Shield"@,
        Items::Repair => "Repair"@,
        Items::Upgrade(u) => upgrade_name(u),
    }
}

impl Items {
    pub fn name(&self) -> (r: &'static str)
        ensures
            r@ == item_name(*self),
    {
        match self {
            Items::Missile => "Missile",
            Items::Shield => "Shield",
            Items::Repair => "Repair",
            Items::Upgrade(u) => u.name(),
        }
    }

    /// A missile or a shield, with even odds.
    pub fn random_collectible() -> (r: Items)
        ensures
            r == Items::Missile || r == Items::Shield,
    {
        if random_coin() {
            Items::Missile
        } else {
            Items::Shield
        }
    }
}

pub open spec fn price_of(item: Items, sale: bool) -> int {
    let p: int = match item {
        Items::Missile | Items::Shield => 12,
        Items::Repair => 6,
        Items::Upgrade(u) => if stat_upgrade(u) {
            50
        } else {
            100
        },
    };
    if sale {
        p / 2
    } else {
        p
    }
}

/// Price of an item in the shop, halved during a sale.
pub fn item_price(item: &Items, sale: bool) -> (r: i16)
    ensures
        r == price_of(*item, sale),
{
    let p: i16 = match item {
        Items::Missile | Items::Shield => 12,
        Items::Repair => 6,
        Items::Upgrade(u) => if u.is_stat_upgrade() {
            50
        } else {
            100
        },
    };
    if sale {
        p / 2
    } else {
        p
    }
}

/// Bit set of projectile modifiers.
#[derive(Copy, Clone, Debug, PartialEq, Eq, Structural, Default)]
pub struct ShotUpgrades(pub usize);

/// The player's ship between encounters: items, installed upgrades, hull and
/// credits. Health is in thousandths of a hit point.
#[derive(Debug)]
pub struct ShipStatus {
    pub missiles: usize,
    pub shields: usize,
    pub upgrades: Vec<Upgrades>,
    pub health: u64,
    pub max_health: u64,
    pub credits: i16,
}

/// Bound on the hull, in thousandths of a hit point.
pub const MAX_HULL: u64 = 1_000_000_000_000;

/// Health within `[0, max_health]` and a hull in bounds.
pub open spec fn status_wf(s: ShipStatus) -> bool {
    s.health <= s.max_health <= MAX_HULL && s.upgrades@.len() <= 1_000_000
}

/// Times an upgrade is installed.
pub open spec fn count_of(us: Seq<Upgrades>, u: Upgrades) -> nat
    decreases us.len(),
{
    if us.len() == 0 {
        0
    } else {
        count_of(us.drop_last(), u) + if us.last() == u {
            1nat
        } else {
            0nat
        }
    }
}

pub open spec fn starting_items(mode: GameMode) -> (usize, usize) {
    match mode {
        GameMode::Standard => (2, 2),
        GameMode::Act2 => (4, 4),
        GameMode::Act3 => (4, 4),
        GameMode::LastBoss => (1, 2),
        GameMode::BossRush => (3, 3),
    }
}

fn count_upgrade(us: &Vec<Upgrades>, u: Upgrades) -> (r: u64)
    requires
        us@.len() <= 1_000_000,
    ensures
        r == count_of(us@, u),
        r <= us@.len(),
{
    let mut n: u64 = 0;
    let mut k: usize = 0;
    while k < us.len()
        invariant
            k <= us.len(),
            us@.len() <= 1_000_000,
            n == count_of(us@.take(k as int), u),
            n <= k,
        decreases us.len() - k,
    {
        assert(us@.take(k as int + 1).drop_last() == us@.take(k as int));
        if us[k] == u {
            n = n + 1;
        }
        k = k + 1;
    }
    assert(us@.take(us.len() as int) == us@);
    n
}

impl ShipStatus {
    /// A fresh ship for a run in `mode`: the mode's starting missiles and
    /// shields, no upgrade, a full hull and no credits.
    pub fn new(mode: GameMode, max_health: u64) -> (r: ShipStatus)
        requires
            max_health <= MAX_HULL,
        ensures
            status_wf(r),
            (r.missiles, r.shields) == starting_items(mode),
            r.upgrades@.len() == 0,
            r.health == max_health,
            r.max_health == max_health,
            r.credits == 0,
    {
        let (missiles, shields): (usize, usize) = match mode {
            GameMode::Standard => (2, 2),
            GameMode::Act2 => (4, 4),
            GameMode::Act3 => (4, 4),
            GameMode::LastBoss => (1, 2),
            GameMode::BossRush => (3, 3),
        };
        ShipStatus { missiles, shields, upgrades: Vec::new(), health: max_health, max_health, credits: 0 }
    }

    /// Adds an item: a repair restores one hull point up to the maximum, an
    /// upgrade is installed (a hull upgrade also raises the hull), and a
    /// missile or a shield joins the inventory.
    pub fn add(&mut self, item: &Items)
        requires
            status_wf(*old(self)),
            old(self).max_health + HULL_UPGRADE <= MAX_HULL,
            old(self).upgrades@.len() < 1_000_000,
            old(self).missiles < usize::MAX,
            old(self).shields < usize::MAX,
        ensures
            status_wf(*final(self)),
            final(self).credits == old(self).credits,
            match *item {
                Items::Repair => final(self).health == (if old(self).health + REPAIR_AMOUNT > old(self).max_health {
                    old(self).max_health as int
                } else {
                    old(self).health + REPAIR_AMOUNT
                }) && final(self).max_health == old(self).max_health && final(self).upgrades@ == old(self).upgrades@
                    && final(self).missiles == old(self).missiles && final(self).shields == old(self).shields,
                Items::Upgrade(u) => final(self).upgrades@ == old(self).upgrades@.push(u)
                    && final(self).missiles == old(self).missiles && final(self).shields == old(self).shields
                    && if u == Upgrades::Hull {
                    final(self).max_health == old(self).max_health + HULL_UPGRADE && final(self).health == old(self).health + HULL_UPGRADE
                } else {
                    final(self).max_health == old(self).max_health && final(self).health == old(self).health
                },
                Items::Missile => final(self).missiles == old(self).missiles + 1 && final(self).shields == old(self).shields
                    && final(self).health == old(self).health && final(self).max_health == old(self).max_health
                    && final(self).upgrades@ == old(self).upgrades@,
                Items::Shield => final(self).shields == old(self).shields + 1 && final(self).missiles == old(self).missiles
                    && final(self).health == old(self).health && final(self).max_health == old(self).max_health
                    && final(self).upgrades@ == old(self).upgrades@,
            },
    {
        match item {
            Items::Repair => {
                if self.health < self.max_health {
                    self.health = self.health + REPAIR_AMOUNT;
                }
                if self.health > self.max_health {
                    self.health = self.max_health;
                }
            },
            Items::Upgrade(u) => {
                self.upgrades.push(*u);
                if *u == Upgrades::Hull {
                    self.max_health = self.max_health + HULL_UPGRADE;
                    self.health = self.health + HULL_UPGRADE;
                }
            },
            Items::Missile => {
                self.missiles = self.missiles + 1;
            },
            Items::Shield => {
                self.shields = self.shields + 1;
            },
        }
    }

    /// Uses up one missile or shield; false when there is none, or for an
    /// item the inventory does not hold.
    pub fn remove(&mut self, item: &Items) -> (r: bool)
        ensures
            final(self).upgrades@ == old(self).upgrades@,
            final(self).health == old(self).health,
            final(self).max_health == old(self).max_health,
            final(self).credits == old(self).credits,
            *item == Items::Missile ==> r == (old(self).missiles > 0) && final(self).missiles == (if r {
                old(self).missiles - 1
            } else {
                old(self).missiles as int
            }) && final(self).shields == old(self).shields,
            *item == Items::Shield ==> r == (old(self).shields > 0) && final(self).shields == (if r {
                old(self).shields - 1
            } else {
                old(self).shields as int
            }) && final(self).missiles == old(self).missiles,
            *item != Items::Missile && *item != Items::Shield ==> !r && final(self).missiles
                == old(self).missiles && final(self).shields == old(self).shields,
    {
        match item {
            Items::Missile => {
                if self.missiles > 0 {
                    self.missiles = self.missiles - 1;
                    true
                } else {
                    false
                }
            },
            Items::Shield => {
                if self.shields > 0 {
                    self.shields = self.shields - 1;
                    true
                } else {
                    false
                }
            },
            _ => false,
        }
    }

    /// How many of an item the inventory holds.
    pub fn get(&self, item: &Items) -> (r: usize)
        ensures
            r == match *item {
                Items::Missile => self.missiles,
                Items::Shield => self.shields,
                _ => 0,
            },
    {
        match item {
            Items::Missile => self.missiles,
            Items::Shield => self.shields,
            _ => 0,
        }
    }

    pub fn health(&self) -> (r: (u64, u64))
        ensures
            r == (self.health, self.max_health),
    {
        (self.health, self.max_health)
    }

    /// Sets the hull, clamped to its maximum.
    pub fn set_health(&mut self, new_health: u64)
        ensures
            final(self).health == if new_health > old(self).max_health {
                old(self).max_health
            } else {
                new_health
            },
            final(self).max_health == old(self).max_health,
            final(self).upgrades@ == old(self).upgrades@,
            final(self).missiles == old(self).missiles,
            final(self).shields == old(self).shields,
            final(self).credits == old(self).credits,
    {
        self.health = if new_health > self.max_health {
            self.max_health
        } else {
            new_health
        };
    }

    pub fn is_max_health(&self) -> (r: bool)
        ensures
            r == (self.health >= self.max_health),
    {
        self.health >= self.max_health
    }

    /// Speed multiplier, in per-mille.
    pub fn speed_multiplier(&self) -> (r: u64)
        requires
            status_wf(*self),
        ensures
            r == 1000 + SPEED_STEP * count_of(self.upgrades@, Upgrades::Speed),
    {
        1000 + SPEED_STEP * count_upgrade(&self.upgrades, Upgrades::Speed)
    }

    /// Damage multiplier, in per-mille.
    pub fn damage_multiplier(&self) -> (r: u64)
        requires
            status_wf(*self),
        ensures
            r == 1000 + DAMAGE_STEP * count_of(self.upgrades@, Upgrades::Damage),
    {
        1000 + DAMAGE_STEP * count_upgrade(&self.upgrades, Upgrades::Damage)
    }

    /// Projectile speed multiplier, in per-mille.
    pub fn shot_speed_multiplier(&self) -> (r: u64)
        requires
            status_wf(*self),
        ensures
            r == 1000 + SHOT_SPEED_STEP * count_of(self.upgrades@, Upgrades::ShotSpeed),
    {
        1000 + SHOT_SPEED_STEP * count_upgrade(&self.upgrades, Upgrades::ShotSpeed)
    }

    /// Fire-rate multiplier, in per-mille.
    pub fn shot_frequency_multiplier(&self) -> (r: u64)
        requires
            status_wf(*self),
        ensures
            r == 1000 + SHOT_FREQUENCY_STEP * count_of(self.upgrades@, Upgrades::ShotFrequency),
    {
        1000 + SHOT_FREQUENCY_STEP * count_upgrade(&self.upgrades, Upgrades::ShotFrequency)
    }

    pub fn has_upgrade(&self, upgrade: Upgrades) -> (r: bool)
        ensures
            r == self.upgrades@.contains(upgrade),
    {
        let mut k: usize = 0;
        while k < self.upgrades.len()
            invariant
                k <= self.upgrades@.len(),
                forall|j: int| 0 <= j < k ==> self.upgrades@[j] != upgrade,
            decreases self.upgrades@.len() - k,
        {
            if self.upgrades[k] == upgrade {
                return true;
            }
            k = k + 1;
        }
        false
    }

    /// The projectile modifiers the installed upgrades grant, as a bit set.
    pub fn shot_upgrades(&self) -> (r: usize)
        ensures
            r == (if self.upgrades@.contains(Upgrades::BouncingShots) {
                BOUNCING
            } else {
                0
            }) + (if self.upgrades@.contains(Upgrades::PiercingShots) {
                PIERCING
            } else {
                0
            }) + (if self.upgrades@.contains(Upgrades::StunShots) {
                STUN
            } else {
                0
            }),
    {
        let mut modifier: usize = 0;
        if self.has_upgrade(Upgrades::BouncingShots) {
            modifier = modifier + BOUNCING;
        }
        if self.has_upgrade(Upgrades::PiercingShots) {
            modifier = modifier + PIERCING;
        }
        if self.has_upgrade(Upgrades::StunShots) {
            modifier = modifier + STUN;
        }
        modifier
    }

    /// Berserk: the upgrade is installed and the hull is at `BERSERK_PERCENT`
    /// of its maximum or below.
    pub fn is_berserk(&self) -> (r: bool)
        requires
            status_wf(*self),
        ensures
            r == (self.upgrades@.contains(Upgrades::Berserk) && self.max_health > 0 && 100 * self.health
                <= BERSERK_PERCENT * self.max_health),
    {
        self.has_upgrade(Upgrades::Berserk) && self.max_health > 0 && 100 * self.health <= BERSERK_PERCENT * self.max_health
    }

    /// The installed upgrades that are not stat upgrades, in order.
    pub fn non_stat_upgrades(&self) -> (r: Vec<Upgrades>)
        ensures
            forall|j: int| 0 <= j < r@.len() ==> !stat_upgrade(#[trigger] r@[j]) && self.upgrades@.contains(r@[j]),
            forall|u: Upgrades| !stat_upgrade(u) && self.upgrades@.contains(u) ==> #[trigger] r@.contains(u),
    {
        let mut r: Vec<Upgrades> = Vec::new();
        let mut k: usize = 0;
        while k < self.upgrades.len()
            invariant
                k <= self.upgrades@.len(),
                forall|j: int| 0 <= j < r@.len() ==> !stat_upgrade(#[trigger] r@[j]) && self.upgrades@.contains(r@[j]),
                forall|j: int| 0 <= j < k && !stat_upgrade(self.upgrades@[j]) ==> r@.contains(#[trigger] self.upgrades@[j]),
            decreases self.upgrades@.len() - k,
        {
            let u = self.upgrades[k];
            if !u.is_stat_upgrade() {
                let ghost r0 = r@;
                r.push(u);
                assert(r@[r@.len() - 1] == u);
                assert forall|j: int| 0 <= j < k + 1 && !stat_upgrade(self.upgrades@[j]) implies r@.contains(#[trigger] self.upgrades@[j]) by {
                    if j < k {
                        assert(r0.contains(self.upgrades@[j]));
                        let q = choose|q: int| 0 <= q < r0.len() && r0[q] == self.upgrades@[j];
                        assert(r@[q] == r0[q]);
                    }
                }
            }
            k = k + 1;
        }
        assert forall|u: Upgrades| !stat_upgrade(u) && self.upgrades@.contains(u) implies #[trigger] r@.contains(u) by {
            let j = choose|j: int| 0 <= j < self.upgrades@.len() && self.upgrades@[j] == u;
        }
        r
    }

    pub fn get_credits(&self) -> (r: i16)
        ensures
            r == self.credits,
    {
        self.credits
    }

    pub fn add_credits(&mut self, gain: i16)
        requires
            i16::MIN <= old(self).credits + gain <= i16::MAX,
        ensures
            final(self).credits == old(self).credits + gain,
            final(self).health == old(self).health,
            final(self).max_health == old(self).max_health,
            final(self).upgrades@ == old(self).upgrades@,
    {
        self.credits = self.credits + gain;
    }

    pub fn buy(&mut self, cost: i16)
        requires
            i16::MIN <= old(self).credits - cost <= i16::MAX,
        ensures
            final(self).credits == old(self).credits - cost,
            final(self).health == old(self).health,
            final(self).max_health == old(self).max_health,
            final(self).upgrades@ == old(self).upgrades@,
    {
        self.credits = self.credits - cost;
    }
}

/// Leech: with the upgrade installed, every `LEECH_COUNT` kills repair the
/// hull once and the count starts over. Returns whether a repair happened.
pub fn leech(kill_count: &mut usize, status: &mut ShipStatus) -> (r: bool)
    requires
        status_wf(*old(status)),
        old(status).max_health + HULL_UPGRADE <= MAX_HULL,
        old(status).upgrades@.len() < 1_000_000,
        old(status).missiles < usize::MAX,
        old(status).shields < usize::MAX,
    ensures
        status_wf(*final(status)),
        r == (old(status).upgrades@.contains(Upgrades::LeechShots) && *old(kill_count) > 0
            && *old(kill_count) % LEECH_COUNT == 0),
        r ==> *final(kill_count) == 0 && final(status).health == (if old(status).health + REPAIR_AMOUNT
            > old(status).max_health {
            old(status).max_health as int
        } else {
            old(status).health + REPAIR_AMOUNT
        }),
        !r ==> *final(kill_count) == *old(kill_count) && final(status).health == old(status).health,
        final(status).max_health == old(status).max_health,
{
    if status.has_upgrade(Upgrades::LeechShots) && *kill_count > 0 && *kill_count % LEECH_COUNT == 0 {
        *kill_count = 0;
        status.add(&Items::Repair);
        true
    } else {
        false
    }
}

/// An upgrade is installed no more often than upgrades are.
pub proof fn lemma_count_bound(us: Seq<Upgrades>, u: Upgrades)
    ensures
        count_of(us, u) <= us.len(),
    decreases us.len(),
{
    if us.len() > 0 {
        lemma_count_bound(us.drop_last(), u);
    }
}

} // verus!
