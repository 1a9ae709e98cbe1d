use vstd::prelude::*;

use crate::random::{random_below, random_coin};
use crate::ships::ACT_LEN;

verus! {

/// Number of steps of a route: three acts and the final victory.
pub const ROUTE_LEN: usize = 28;

/// Screen or encounter the game is in.
#[derive(Copy, Clone, Debug, PartialEq, Eq, Structural)]
pub enum GameState {
    Loading,
    Title,
    Hangar,
    Space,
    Elite,
    Boss,
    Shop,
    Upgrade,
    Repair,
    SimpleText,
    GameOver,
    /// Placeholder state used to re-enter a state.
    Dummy,
}

/// One step of a route.
#[derive(Copy, Clone, Debug, PartialEq, Eq, Structural)]
pub enum Level {
    /// Regular fight.
    Space,
    /// Choice between two upgrades.
    Upgrade,
    /// Boss fight.
    Boss,
    /// Shop with random offers and a paid repair.
    Shop,
    /// Free repair.
    Repair,
    /// Fight with a strong enemy, with a good amount of loot.
    Elite,
    /// Anything but a boss, revealed on arrival.
    Unknown,
    Win,
}

pub open spec fn level_name(l: Level) -> Seq<char> {
    match l {
        Level::Space => "Fight"@,
        Level::Upgrade => "Upgrade station"@,
        Level::Boss => "Boss"@,
        Level::Shop => "Shop"@,
        Level::Repair => "Repair station"@,
        Level::Elite => "Elite"@,
        Level::Unknown => "???"@,
        Level::Win => "You won!"@,
    }
}

/// Levels a route draws for a choice, each as often as it is listed.
pub open spec fn choice_pool() -> Seq<Level> {
    seq![
        Level::Unknown,
        Level::Unknown,
        Level::Unknown,
        Level::Unknown,
        Level::Unknown,
        Level::Shop,
        Level::Shop,
        Level::Shop,
        Level::Shop,
        Level::Repair,
        Level::Repair,
        Level::Elite,
        Level::Elite,
        Level::Upgrade,
    ]
}

/// Levels an unknown step turns out to be, each as often as it is listed.
pub open spec fn unknown_pool() -> Seq<Level> {
    seq![
        Level::Space,
        Level::Space,
        Level::Space,
        Level::Elite,
        Level::Shop,
        Level::Shop,
        Level::Repair,
        Level::Repair,
        Level::Upgrade,
    ]
}

/// State a known level leads to.
pub open spec fn known_state(l: Level) -> GameState {
    match l {
        Level::Space => GameState::Space,
        Level::Elite => GameState::Elite,
        Level::Boss => GameState::Boss,
        Level::Shop => GameState::Shop,
        Level::Upgrade => GameState::Upgrade,
        Level::Repair => GameState::Repair,
        Level::Unknown => GameState::Dummy,
        Level::Win => GameState::GameOver,
    }
}

fn choice_pool_exec() -> (r: Vec<Level>)
    ensures
        r@ == choice_pool(),
{
    vec![
        Level::Unknown,
        Level::Unknown,
        Level::Unknown,
        Level::Unknown,
        Level::Unknown,
        Level::Shop,
        Level::Shop,
        Level::Shop,
        Level::Shop,
        Level::Repair,
        Level::Repair,
        Level::Elite,
        Level::Elite,
        Level::Upgrade,
    ]
}

impl Level {
    /// Name of the level as shown on the route map.
    pub fn name(&self) -> (r: &'static str)
        ensures
            r@ == level_name(*self),
    {
        match self {
            Level::Space => "Fight",
            Level::Upgrade => "Upgrade station",
            Level::Boss => "Boss",
            Level::Shop => "Shop",
            Level::Repair => "Repair station",
            Level::Elite => "Elite",
            Level::Unknown => "???",
            Level::Win => "You won!",
        }
    }

    /// The state the level leads to; an unknown level is revealed at random.
    pub fn state(&self) -> (r: GameState)
        ensures
            *self != Level::Unknown ==> r == known_state(*self),
            *self == Level::Unknown ==> exists|i: int|
                0 <= i < unknown_pool().len() && r == known_state(#[trigger] unknown_pool()[i]),
    {
        match self {
            Level::Unknown => {
                let u = Level::unknown();
                let r = match u {
                    Level::Space => GameState::Space,
                    Level::Elite => GameState::Elite,
                    Level::Shop => GameState::Shop,
                    Level::Upgrade => GameState::Upgrade,
                    _ => GameState::Repair,
                };
                let ghost i = choose|i: int| 0 <= i < unknown_pool().len() && unknown_pool()[i] == u;
                assert(r == known_state(unknown_pool()[i]));
                r
            },
            Level::Space => GameState::Space,
            Level::Elite => GameState::Elite,
            Level::Boss => GameState::Boss,
            Level::Shop => GameState::Shop,
            Level::Upgrade => GameState::Upgrade,
            Level::Repair => GameState::Repair,
            Level::Win => GameState::GameOver,
        }
    }

    /// A level for a choice, drawn from the weighted pool.
    fn random() -> (r: Level)
        ensures
            choice_pool().contains(r),
    {
        let pool = choice_pool_exec();
        let i = random_below(0, pool.len() as u64) as usize;
        assert(choice_pool()[i as int] == pool@[i as int]);
        pool[i]
    }

    /// What an unknown level turns out to be, drawn from the weighted pool.
    fn unknown() -> (r: Level)
        ensures
            unknown_pool().contains(r),
    {
        let pool: Vec<Level> = vec![
            Level::Space,
            Level::Space,
            Level::Space,
            Level::Elite,
            Level::Shop,
            Level::Shop,
            Level::Repair,
            Level::Repair,
            Level::Upgrade,
        ];
        assert(pool@ == unknown_pool());
        let i = random_below(0, pool.len() as u64) as usize;
        assert(unknown_pool()[i as int] == pool@[i as int]);
        pool[i]
    }

    /// A level drawn from the weighted pool, other than `l`: the pool's
    /// entries equal to `l` are left out and one of the others is drawn.
    fn random_other_than(l: Level) -> (r: Level)
        ensures
            choice_pool().contains(r),
            r != l,
    {
        let pool = choice_pool_exec();
        let mut others: Vec<Level> = Vec::new();
        let mut k: usize = 0;
        // The pool opens with unknown levels and holds a shop sixth, so some
        // entry differs from `l` early on.
        while k < pool.len()
            invariant
                k <= pool.len(),
                pool@ == choice_pool(),
                forall|j: int| 0 <= j < others@.len() ==> choice_pool().contains(#[trigger] others@[j]) && others@[j] != l,
                l != Level::Unknown && k > 0 ==> others@.len() > 0,
                l == Level::Unknown && k > 5 ==> others@.len() > 0,
            decreases pool.len() - k,
        {
            if pool[k] != l {
                assert(choice_pool()[k as int] == pool@[k as int]);
                others.push(pool[k]);
            }
            k = k + 1;
        }
        let i = random_below(0, others.len() as u64) as usize;
        others[i]
    }
}

/// One step of a route: a level, or a choice between two distinct levels.
#[derive(Copy, Clone, Debug, PartialEq, Eq, Structural)]
pub enum RouteElement {
    Level(Level),
    Choice(Level, Level),
}

impl RouteElement {
    /// State the step leads to; a choice leads nowhere until it is made.
    pub fn state(&self) -> (r: Option<GameState>)
        ensures
            match *self {
                RouteElement::Level(l) => r is Some && (l != Level::Unknown ==> r == Some(known_state(l))),
                RouteElement::Choice(_, _) => r is None,
            },
    {
        match self {
            RouteElement::Level(l) => Some(l.state()),
            RouteElement::Choice(_, _) => None,
        }
    }

    /// A choice between two distinct levels drawn from the weighted pool.
    pub fn choice() -> (r: RouteElement)
        ensures
            r matches RouteElement::Choice(a, b) && a != b && choice_pool().contains(a)
                && choice_pool().contains(b),
    {
        let l1 = Level::random();
        let l2 = Level::random_other_than(l1);
        RouteElement::Choice(l1, l2)
    }

    /// A choice between `l1` and a distinct level drawn from the weighted
    /// pool, in random order.
    pub fn choice_with(l1: Level) -> (r: RouteElement)
        ensures
            r matches RouteElement::Choice(a, b) && a != b && (a == l1 || b == l1) && (
            choice_pool().contains(a) || a == l1) && (choice_pool().contains(b) || b == l1),
    {
        let l2 = Level::random_other_than(l1);
        if random_coin() {
            RouteElement::Choice(l1, l2)
        } else {
            RouteElement::Choice(l2, l1)
        }
    }
}

/// The shape of a route at step `i`: an upgrade station fourth in each act, a
/// choice involving a repair eighth, a boss ninth, fights at the other even
/// positions and choices at the other odd ones; victory last.
pub open spec fn route_step_ok(e: RouteElement, i: int) -> bool {
    if i == ROUTE_LEN - 1 {
        e == RouteElement::Level(Level::Win)
    } else if i % 9 == 3 {
        e == RouteElement::Level(Level::Upgrade)
    } else if i % 9 == 7 {
        e matches RouteElement::Choice(a, b) && a != b && (a == Level::Repair || b == Level::Repair)
    } else if i % 9 == 8 {
        e == RouteElement::Level(Level::Boss)
    } else if (i % 9) % 2 == 0 {
        e == RouteElement::Level(Level::Space)
    } else {
        e matches RouteElement::Choice(a, b) && a != b
    }
}

/// The steps of a run.
#[derive(Debug)]
pub struct Route(pub Vec<RouteElement>);

pub open spec fn route_wf(r: Route) -> bool {
    r.0@.len() == ROUTE_LEN && forall|i: int| 0 <= i < ROUTE_LEN ==> route_step_ok(#[trigger] r.0@[i], i)
}

impl Route {
    /// Levels in one act.
    pub fn act_len() -> (r: usize)
        ensures
            r == ACT_LEN,
    {
        ACT_LEN
    }

    /// A fresh random route of three acts followed by the victory.
    pub fn new() -> (r: Route)
        ensures
            route_wf(r),
    {
        let mut route: Vec<RouteElement> = Vec::new();
        let mut i: usize = 0;
        while i < 27
            invariant
                i <= 27,
                route@.len() == i,
                forall|j: int| 0 <= j < i ==> route_step_ok(#[trigger] route@[j], j),
            decreases 27 - i,
        {
            let element = match i % 9 {
                3 => RouteElement::Level(Level::Upgrade),
                7 => RouteElement::choice_with(Level::Repair),
                8 => RouteElement::Level(Level::Boss),
                k => if k % 2 == 0 {
                    RouteElement::Level(Level::Space)
                } else {
                    RouteElement::choice()
                },
            };
            route.push(element);
            i = i + 1;
        }
        route.push(RouteElement::Level(Level::Win));
        Route(route)
    }
}

/// Game mode: where in the route a run starts.
#[derive(Copy, Clone, Debug, PartialEq, Eq, Structural, Hash)]
pub enum GameMode {
    Standard,
    Act2,
    Act3,
    LastBoss,
    BossRush,
}

pub open spec fn mode_text(m: GameMode) -> Seq<char> {
    match m {
        GameMode::Standard => "Normal"@,
        GameMode::Act2 => "Act 2"@,
        GameMode::Act3 => "Act 3"@,
        GameMode::LastBoss => "Last Boss"@,
        GameMode::BossRush => "Boss Rush"@,
    }
}

/// Whether a mode plays the route step `e` at position `i`.
pub open spec fn mode_accepts(m: GameMode, e: RouteElement, i: int) -> bool {
    if e == RouteElement::Level(Level::Win) {
        true
    } else {
        match m {
            GameMode::Standard => true,
            GameMode::Act2 => e == RouteElement::Level(Level::Upgrade) || i >= ACT_LEN,
            GameMode::Act3 => e == RouteElement::Level(Level::Upgrade) || i >= ACT_LEN * 2,
            GameMode::LastBoss => e == RouteElement::Level(Level::Upgrade) || i >= ACT_LEN * 3 - 1,
            GameMode::BossRush => e == RouteElement::Level(Level::Upgrade) || e == RouteElement::Level(
                Level::Boss,
            ),
        }
    }
}

impl GameMode {
    /// Name of the mode as shown on the title screen.
    pub fn text(&self) -> (r: &'static str)
        ensures
            r@ == mode_text(*self),
    {
        match self {
            GameMode::Standard => "Normal",
            GameMode::Act2 => "Act 2",
            GameMode::Act3 => "Act 3",
            GameMode::LastBoss => "Last Boss",
            GameMode::BossRush => "Boss Rush",
        }
    }

    /// The mode after this one on the title screen, cycling.
    pub fn next(&self) -> (r: GameMode)
        ensures
            r == match *self {
                GameMode::Standard => GameMode::Act2,
                GameMode::Act2 => GameMode::Act3,
                GameMode::Act3 => GameMode::LastBoss,
                GameMode::LastBoss => GameMode::BossRush,
                GameMode::BossRush => GameMode::Standard,
            },
    {
        match self {
            GameMode::Standard => GameMode::Act2,
            GameMode::Act2 => GameMode::Act3,
            GameMode::Act3 => GameMode::LastBoss,
            GameMode::LastBoss => GameMode::BossRush,
            GameMode::BossRush => GameMode::Standard,
        }
    }

    /// Whether the mode plays the route step `level.0` at position `level.1`.
    pub fn accepts(&self, level: (RouteElement, usize)) -> (r: bool)
        ensures
            r == mode_accepts(*self, level.0, level.1 as int),
    {
        if level.0 == RouteElement::Level(Level::Win) {
            return true;
        }
        match self {
            GameMode::Standard => true,
            GameMode::Act2 => level.0 == RouteElement::Level(Level::Upgrade) || level.1 >= ACT_LEN,
            GameMode::Act3 => level.0 == RouteElement::Level(Level::Upgrade) || level.1 >= ACT_LEN * 2,
            GameMode::LastBoss => level.0 == RouteElement::Level(Level::Upgrade) || level.1 >= ACT_LEN * 3 - 1,
            GameMode::BossRush => level.0 == RouteElement::Level(Level::Upgrade) || level.0 == RouteElement::Level(Level::Boss),
        }
    }
}

/// Progress of a run along its route.
#[derive(Debug)]
pub struct CurrentRoute {
    pub route: Route,
    pub level: usize,
    pub lost: bool,
    /// The state picked at the last choice.
    pub chosen: GameState,
    pub mode: GameMode,
    /// Shops turn into elite fights once the shopkeepers are angry.
    pub angry_shopkeepers: bool,
}

/// The first position at or after `from` that the mode plays.
pub open spec fn skips_to(m: GameMode, r: Route, from: int, to: int) -> bool {
    &&& from <= to < ROUTE_LEN
    &&& mode_accepts(m, r.0@[to], to)
    &&& forall|j: int| from <= j < to ==> !mode_accepts(m, #[trigger] r.0@[j], j)
}

impl CurrentRoute {
    /// A run on a fresh route, at the first step the mode plays.
    pub fn new(mode: GameMode) -> (r: CurrentRoute)
        ensures
            route_wf(r.route),
            r.mode == mode,
            !r.lost,
            skips_to(mode, r.route, 0, r.level as int),
    {
        let mut cr = CurrentRoute {
            route: Route::new(),
            level: 0,
            lost: false,
            chosen: GameState::Dummy,
            mode,
            angry_shopkeepers: false,
        };
        if !cr.mode.accepts((cr.route.0[0], 0)) {
            cr.advance();
        }
        cr
    }

    /// Moves to the next step the mode plays.
    pub fn advance(&mut self)
        requires
            route_wf(old(self).route),
            old(self).level < ROUTE_LEN - 1,
        ensures
            route_wf(final(self).route),
            final(self).route == old(self).route,
            final(self).mode == old(self).mode,
            final(self).lost == old(self).lost,
            final(self).chosen == old(self).chosen,
            final(self).angry_shopkeepers == old(self).angry_shopkeepers,
            skips_to(old(self).mode, old(self).route, old(self).level + 1, final(self).level as int),
    {
        let start = self.level + 1;
        self.level = start;
        while !self.mode.accepts((self.route.0[self.level], self.level))
            invariant
                route_wf(self.route),
                start <= self.level < ROUTE_LEN,
                self.route == old(self).route,
                self.mode == old(self).mode,
                self.lost == old(self).lost,
                self.chosen == old(self).chosen,
                self.angry_shopkeepers == old(self).angry_shopkeepers,
                start == old(self).level + 1,
                forall|j: int| start <= j < self.level ==> !mode_accepts(self.mode, #[trigger] self.route.0@[j], j),
            decreases ROUTE_LEN - self.level,
        {
            assert(self.level < ROUTE_LEN - 1) by {
                if self.level == ROUTE_LEN - 1 {
                    assert(route_step_ok(self.route.0@[ROUTE_LEN - 1], ROUTE_LEN - 1));
                }
            }
            self.level = self.level + 1;
        }
    }

    /// The state the current step leads to: the hangar past the end, game
    /// over once lost, the chosen state at a choice, and an elite fight in
    /// place of a shop once the shopkeepers are angry.
    pub fn state(&self) -> (r: GameState)
        requires
            route_wf(self.route),
        ensures
            self.level >= ROUTE_LEN ==> r == GameState::Hangar,
            self.level < ROUTE_LEN && self.lost ==> r == GameState::GameOver,
            self.level < ROUTE_LEN && !self.lost ==> {
                let base = match self.route.0@[self.level as int] {
                    RouteElement::Choice(_, _) => self.chosen,
                    RouteElement::Level(l) => known_state(l),
                };
                self.route.0@[self.level as int] != RouteElement::Level(Level::Unknown) ==> r == if self.angry_shopkeepers && base == GameState::Shop {
                    GameState::Elite
                } else {
                    base
                }
            },
    {
        if self.level >= self.route.0.len() {
            return GameState::Hangar;
        }
        if self.lost {
            return GameState::GameOver;
        }
        let s = match self.route.0[self.level].state() {
            Some(state) => state,
            None => self.chosen,
        };
        if self.angry_shopkeepers && s == GameState::Shop {
            GameState::Elite
        } else {
            s
        }
    }

    /// The act of the current step, counted from one.
    pub fn act(&self) -> (r: usize)
        ensures
            r == self.level / ACT_LEN + 1,
    {
        self.level / ACT_LEN + 1
    }

    /// Whether the run stands at its final step.
    pub fn win(&self) -> (r: bool)
        requires
            route_wf(self.route),
        ensures
            r == (self.level == ROUTE_LEN - 1),
    {
        self.level == self.route.0.len() - 1
    }

    pub fn set_angry_shopkeepers(&mut self, angry: bool)
        ensures
            *final(self) == (CurrentRoute { angry_shopkeepers: angry, ..*old(self) }),
    {
        self.angry_shopkeepers = angry;
    }

    pub fn are_shopkeepers_angry(&self) -> (r: bool)
        ensures
            r == self.angry_shopkeepers,
    {
        self.angry_shopkeepers
    }
}

} // verus!
