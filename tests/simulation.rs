use station_core::arena::{current_time_scale, patterns_nb, scaled_tick, time_ratio, Point, HEIGHT_U, PX, WIDTH_U};
use station_core::combat::{
    apply_hit, bounce_shot, record_player_health, collide, credit_money, damage_ships, detect_hits, die_gracefully,
    despawn_ships, tick_blink, Craft, DamageEvent, HitEvent, Loot, Projectile, BLINK_DURATION_MS,
    BOUNCING, MAX_BOUNCES, PIERCING,
};
use station_core::director::{CurrentWave, Director, DirectorPhase, EncounterKind};
use station_core::field::{apply_movement, clear_shots, stun_applies, update_shots, Field, Movement};
use station_core::fixed::{cos_md, sin_md};
use station_core::gear::{home_missile, missile_target, shield_duration, tick_shield, ShieldTick};
use station_core::generator::{gen_space_wave, SpecialEvent, WavePart};
use station_core::items::{Items, ShipStatus, Upgrades};
use station_core::route::GameMode;
use station_core::motion::Moves;
use station_core::ships::{Hitbox, Ship, Ships};
use station_core::timeline::{merge_waves, WaveEvent};
use station_core::weapons::{ShipWeapons, Shots, Weapon};

fn craft(id: u64, model: Ships, health: u64, x: i64, y: i64) -> Craft {
    let mut ship = Ship::from(model);
    ship.health = health;
    ship.max_health = if health > ship.max_health { health } else { ship.max_health };
    Craft {
        id,
        ship,
        pos: Point { x, y },
        hitbox: model.hitbox(),
        is_main: false,
        blink_ms: 0,
        dead: false,
        muted: false,
        stun_ms: 0,
        loot: Loot { credits: model.credits() },
    }
}

fn shot(id: u64, attack: u64, friendly: bool, x: i64, y: i64, upgrades: usize) -> Projectile {
    Projectile {
        id,
        attack,
        friendly,
        velocity: Point { x: 0, y: 100_000 },
        hitbox: Shots::Bullet.hitbox(),
        pos: Point { x, y },
        upgrades,
        bounce_count: 0,
        collisions: vec![],
    }
}

#[test]
fn hit_then_fatal_hit_awards_credits_once() {
    let mut attacker = Ship::from(Ships::Player(0));
    attacker.damage_factor = 1500;
    let weapon = Weapon::new(Shots::Bullet, &attacker, Point { x: 0, y: 0 }, 90_000);
    assert_eq!(weapon.attack, 1500);

    let mut crafts = vec![craft(1, Ships::Invader(0), 2000, 50 * PX, 50 * PX)];
    let shots = vec![shot(10, weapon.attack, true, 50 * PX, 50 * PX, 0)];
    let hits = vec![HitEvent { shot: 10, ship: 1 }];
    let events = damage_ships(&mut crafts, &shots, &hits, false);
    assert_eq!(crafts[0].ship.health, 500);
    assert_eq!(events, vec![DamageEvent { ship: 1, fatal: false }]);
    assert_eq!(credit_money(&events, &crafts), 0);

    let shots = vec![shot(11, 1000, true, 50 * PX, 50 * PX, 0)];
    let hits = vec![HitEvent { shot: 11, ship: 1 }];
    let events = damage_ships(&mut crafts, &shots, &hits, false);
    assert_eq!(crafts[0].ship.health, 0);
    assert_eq!(events, vec![DamageEvent { ship: 1, fatal: true }]);
    assert_eq!(credit_money(&events, &crafts), 2);

    let events = damage_ships(&mut crafts, &shots, &hits, false);
    assert!(events.is_empty());
    assert_eq!(credit_money(&events, &crafts), 0);
}

#[test]
fn two_hits_in_one_tick_make_one_fatal_event() {
    let mut crafts = vec![craft(1, Ships::Invader(4), 1000, 0, 0)];
    let shots = vec![shot(1, 5000, true, 0, 0, 0), shot(2, 5000, true, 0, 0, 0)];
    let hits = vec![HitEvent { shot: 1, ship: 1 }, HitEvent { shot: 2, ship: 1 }];
    let events = damage_ships(&mut crafts, &shots, &hits, false);
    assert_eq!(events, vec![DamageEvent { ship: 1, fatal: true }]);
    let report = die_gracefully(&mut crafts, &events);
    assert_eq!(report.kills, 1);
    assert!(!report.elite_killed);
    assert!(crafts[0].dead && crafts[0].muted);
    assert_eq!(credit_money(&events, &crafts), 5);
}

#[test]
fn health_clamps_at_zero_and_stays_below_max() {
    let mut c = craft(3, Ships::Boss(0), 700, 0, 0);
    let e = apply_hit(&mut c, 10_000, false);
    assert_eq!(c.ship.health, 0);
    assert_eq!(e, Some(DamageEvent { ship: 3, fatal: true }));
    assert!(c.ship.health <= c.ship.max_health);
}

#[test]
fn berserk_doubles_damage_on_enemies_only() {
    let mut enemy = craft(1, Ships::Invader(6), 16000, 0, 0);
    apply_hit(&mut enemy, 1000, true);
    assert_eq!(enemy.ship.health, 14000);
    let mut friend = craft(2, Ships::Player(0), 12000, 0, 0);
    apply_hit(&mut friend, 1000, true);
    assert_eq!(friend.ship.health, 11000);
}

#[test]
fn blink_window_blocks_damage_until_it_elapses() {
    let mut c = craft(1, Ships::Player(1), 20000, 0, 0);
    let e = apply_hit(&mut c, 1000, false);
    assert_eq!(e, Some(DamageEvent { ship: 1, fatal: false }));
    assert_eq!(c.blink_ms, BLINK_DURATION_MS);
    tick_blink(&mut c, BLINK_DURATION_MS - 1);
    assert_eq!(apply_hit(&mut c, 1000, false), None);
    assert_eq!(c.ship.health, 19000);
    tick_blink(&mut c, 1);
    assert_eq!(c.blink_ms, 0);
    assert!(apply_hit(&mut c, 1000, false).is_some());
    assert_eq!(c.ship.health, 18000);
}

#[test]
fn piercing_shot_hits_each_target_once() {
    let crafts = vec![
        craft(1, Ships::Invader(0), 4000, 50 * PX, 50 * PX),
        craft(2, Ships::Invader(0), 4000, 52 * PX, 50 * PX),
        craft(3, Ships::Player(0), 12000, 50 * PX, 50 * PX),
    ];
    let mut shots = vec![shot(7, 1000, true, 51 * PX, 50 * PX, PIERCING)];
    let hits = detect_hits(&mut shots, &crafts);
    assert_eq!(hits, vec![HitEvent { shot: 7, ship: 1 }, HitEvent { shot: 7, ship: 2 }]);
    assert_eq!(shots[0].collisions, vec![1, 2]);
    let again = detect_hits(&mut shots, &crafts);
    assert!(again.is_empty());
    clear_shots(&mut shots, &hits);
    assert_eq!(shots.len(), 1);
}

#[test]
fn plain_shot_is_cleared_after_a_hit() {
    let crafts = vec![craft(1, Ships::Invader(0), 4000, 50 * PX, 50 * PX)];
    let mut shots = vec![shot(7, 1000, true, 50 * PX, 50 * PX, 0), shot(8, 1000, true, 0, 0, 0)];
    let hits = detect_hits(&mut shots, &crafts);
    assert_eq!(hits, vec![HitEvent { shot: 7, ship: 1 }]);
    clear_shots(&mut shots, &hits);
    assert_eq!(shots.len(), 1);
    assert_eq!(shots[0].id, 8);
}

#[test]
fn boxes_overlap_strictly() {
    let h = Hitbox { width: 2 * PX, height: 2 * PX };
    assert!(collide(Point { x: 0, y: 0 }, h, Point { x: PX, y: 0 }, h));
    assert!(!collide(Point { x: 0, y: 0 }, h, Point { x: 2 * PX, y: 0 }, h));
}

#[test]
fn bounce_reverses_the_crossed_component_up_to_the_cap() {
    let mut s = shot(1, 1000, true, WIDTH_U, 50 * PX, BOUNCING);
    s.velocity = Point { x: 3000, y: 4000 };
    s.collisions = vec![5];
    bounce_shot(&mut s);
    assert_eq!(s.velocity, Point { x: -3000, y: 4000 });
    assert_eq!(s.bounce_count, 1);
    assert!(s.collisions.is_empty());
    s.pos = Point { x: 50 * PX, y: HEIGHT_U };
    bounce_shot(&mut s);
    assert_eq!(s.velocity, Point { x: -3000, y: -4000 });
    s.pos = Point { x: 0, y: 0 };
    bounce_shot(&mut s);
    assert_eq!(s.velocity, Point { x: 3000, y: 4000 });
    assert_eq!(s.bounce_count, MAX_BOUNCES);
    bounce_shot(&mut s);
    assert_eq!(s.velocity, Point { x: 3000, y: 4000 });
    assert_eq!(s.bounce_count, MAX_BOUNCES);
}

#[test]
fn shots_fly_and_leave_the_surroundings() {
    let mut a = shot(1, 1000, true, 0, 0, 0);
    a.velocity = Point { x: 1000, y: -2000 };
    let mut b = shot(2, 1000, true, 0, 0, 0);
    b.velocity = Point { x: 0, y: 1_000_000 };
    let mut shots = vec![a, b];
    update_shots(&mut shots, 500);
    assert_eq!(shots.len(), 1);
    assert_eq!(shots[0].pos, Point { x: 500_000, y: -1_000_000 });
}

#[test]
fn wrecks_leave_once_their_blink_ends() {
    let mut boss = craft(1, Ships::Boss(1), 0, 0, 0);
    boss.dead = true;
    boss.blink_ms = 10;
    let mut crafts = vec![boss, craft(2, Ships::Invader(1), 5000, 0, 0)];
    let r = despawn_ships(&mut crafts);
    assert_eq!(crafts.len(), 2);
    assert!(!r.elite_removed);
    tick_blink(&mut crafts[0], 10);
    let r = despawn_ships(&mut crafts);
    assert_eq!(crafts.len(), 1);
    assert!(r.elite_removed);
    assert!(!r.player_removed);
}

#[test]
fn combat_tick_runs_the_phases() {
    let mut field = Field::new();
    field.crafts.push(craft(1, Ships::Invader(0), 1000, 50 * PX, 50 * PX));
    field.shots.push(shot(9, 1000, true, 50 * PX, 50 * PX, 0));
    let report = field.combat_tick(false);
    assert_eq!(report.hits.len(), 1);
    assert_eq!(report.damage, vec![DamageEvent { ship: 1, fatal: true }]);
    assert_eq!(report.credits, 2);
    assert_eq!(report.deaths.kills, 1);
    assert!(field.shots.is_empty());
    assert!(field.crafts[0].dead);
}

#[test]
fn stun_chance_and_elite_coin() {
    assert!(stun_applies(49, false, false));
    assert!(!stun_applies(50, true, false));
    assert!(!stun_applies(10, false, true));
    assert!(stun_applies(10, true, true));
}

#[test]
fn merging_two_parts_orders_spawns_by_time() {
    let a = vec![
        WaveEvent::WaitMilliseconds(0),
        WaveEvent::Spawn(Ships::Invader(1), Moves::Linear(Point { x: 0, y: 0 }, 0)),
    ];
    let b = vec![
        WaveEvent::WaitMilliseconds(8000),
        WaveEvent::Spawn(Ships::Invader(2), Moves::Linear(Point { x: 1, y: 1 }, 0)),
    ];
    let merged = merge_waves(&vec![b, a]);
    assert_eq!(merged.len(), 4);
    assert!(matches!(merged[0], WaveEvent::WaitMilliseconds(0)));
    assert!(matches!(merged[1], WaveEvent::Spawn(Ships::Invader(1), _)));
    assert!(matches!(merged[2], WaveEvent::WaitMilliseconds(8000)));
    assert!(matches!(merged[3], WaveEvent::Spawn(Ships::Invader(2), _)));
}

#[test]
fn merging_groups_simultaneous_spawns_and_drops_barriers() {
    let a = vec![
        WaveEvent::WaitMilliseconds(3000),
        WaveEvent::Spawn(Ships::Invader(1), Moves::Linear(Point { x: 0, y: 0 }, 0)),
        WaveEvent::WaitForClear,
    ];
    let b = vec![
        WaveEvent::WaitMilliseconds(1000),
        WaveEvent::WaitMilliseconds(2000),
        WaveEvent::Spawn(Ships::Invader(2), Moves::Linear(Point { x: 0, y: 0 }, 0)),
        WaveEvent::WaitMilliseconds(500),
        WaveEvent::Spawn(Ships::Invader(3), Moves::Linear(Point { x: 0, y: 0 }, 0)),
    ];
    let merged = merge_waves(&vec![a, b]);
    assert_eq!(merged.len(), 5);
    assert!(matches!(merged[0], WaveEvent::WaitMilliseconds(3000)));
    assert!(matches!(merged[1], WaveEvent::Spawn(Ships::Invader(1), _)));
    assert!(matches!(merged[2], WaveEvent::Spawn(Ships::Invader(2), _)));
    assert!(matches!(merged[3], WaveEvent::WaitMilliseconds(500)));
    assert!(matches!(merged[4], WaveEvent::Spawn(Ships::Invader(3), _)));
}

#[test]
fn descend_then_follow_linear_path() {
    let origin = Point { x: 80 * PX, y: 300 * PX };
    let path = Point { x: 80 * PX, y: 100 * PX };
    let mut m = Moves::DownUntil(origin, 100 * PX, None, Box::new(Moves::Linear(path, 0)));
    let speed: u64 = 25_000;
    assert_eq!(m.pos(0, speed), origin);
    assert_eq!(m.pos(4000, speed), Point { x: 80 * PX, y: 200 * PX });
    assert_eq!(m.pos(8000, speed), Point { x: 80 * PX, y: 100 * PX });
    let mut linear = Moves::Linear(path, 0);
    for t in [8000u64, 9000, 12000] {
        let expected = linear.pos(t - 8000, speed);
        assert_eq!(m.pos(t, speed), expected);
        assert_eq!(m.pos(t, speed), expected);
    }
    assert_eq!(m.pos(10000, speed), Point { x: 130 * PX, y: 100 * PX });
}

#[test]
fn pause_freezes_then_resumes_with_offset() {
    let start = Point { x: 0, y: 50 * PX };
    let mut m = Moves::WithPause(10 * PX, 2000, None, Box::new(Moves::Linear(start, 0)));
    let speed: u64 = 10_000;
    assert_eq!(m.pos(500, speed), Point { x: 5 * PX, y: 50 * PX });
    assert_eq!(m.pos(1000, speed), Point { x: 10 * PX, y: 50 * PX });
    assert_eq!(m.pos(2500, speed), Point { x: 10 * PX, y: 50 * PX });
    assert_eq!(m.pos(3500, speed), Point { x: 15 * PX, y: 50 * PX });
}

#[test]
fn zero_pause_follows_the_wrapped_curve() {
    let start = Point { x: 0, y: 50 * PX };
    let mut m = Moves::WithPause(10 * PX, 0, None, Box::new(Moves::Linear(start, 0)));
    assert_eq!(m.pos(1000, 10_000), Point { x: 10 * PX, y: 50 * PX });
    assert_eq!(m.pos(1500, 10_000), Point { x: 15 * PX, y: 50 * PX });
}

#[test]
fn stationary_latch_keeps_its_position() {
    let start = Point { x: 0, y: 50 * PX };
    let mut m = Moves::StationaryAt(10 * PX, None, Box::new(Moves::Linear(start, 0)));
    assert_eq!(m.pos(1000, 10_000), Point { x: 10 * PX, y: 50 * PX });
    assert_eq!(m.pos(5000, 10_000), Point { x: 10 * PX, y: 50 * PX });
    assert_eq!(m.starting_pos(), start);
}

#[test]
fn triangular_swing_values() {
    let start = Point { x: 0, y: 0 };
    let mut m = Moves::Triangular(start, 0, 1000, 8 * PX);
    assert_eq!(m.pos(0, 0), Point { x: 0, y: 8 * PX });
    assert_eq!(m.pos(1000, 0), Point { x: 0, y: -8 * PX });
    assert_eq!(m.pos(500, 0), Point { x: 0, y: 0 });
}

#[test]
fn ellipse_starts_at_its_top_point() {
    let top = Point { x: 80 * PX, y: 96 * PX };
    let mut m = Moves::Ellipsis(top, 2000, 32 * PX, 20 * PX);
    assert_eq!(m.pos(0, 0), top);
}

#[test]
fn sine_approximation_exact_points() {
    assert_eq!(sin_md(0), 0);
    assert_eq!(sin_md(30_000), 500_000);
    assert_eq!(sin_md(90_000), 1_000_000);
    assert_eq!(sin_md(270_000), -1_000_000);
    assert_eq!(cos_md(0), 1_000_000);
    assert_eq!(cos_md(180_000), -1_000_000);
}

#[test]
fn infinite_spawner_spawns_on_interval_boundaries() {
    let mut wave = CurrentWave {
        events: vec![],
        special: vec![SpecialEvent::InfiniteWave(1000, 60 * PX, true, 0)],
        level: 3,
    };
    let u = wave.update(600, true, false);
    assert!(u.spawns.is_empty());
    let u = wave.update(600, true, false);
    assert_eq!(u.spawns.len(), 1);
    assert_eq!(u.spawns[0].start, Point { x: -16 * PX, y: 60 * PX });
    assert!(matches!(u.spawns[0].model, Ships::Invader(n) if n <= 3));
    let u = wave.update(100, true, true);
    assert!(u.spawns.is_empty());
    assert!(wave.special.is_empty());
}

#[test]
fn timeline_waits_then_clears() {
    let mut wave = CurrentWave {
        events: vec![
            WaveEvent::WaitMilliseconds(1000),
            WaveEvent::Spawn(Ships::Invader(0), Moves::Linear(Point { x: 3, y: 4 }, 0)),
            WaveEvent::WaitForClear,
        ],
        special: vec![],
        level: 0,
    };
    assert!(wave.update(700, false, false).spawns.is_empty());
    assert!(wave.update(700, false, false).spawns.is_empty());
    assert!(wave.update(16, false, false).spawns.is_empty());
    let u = wave.update(16, false, false);
    assert_eq!(u.spawns.len(), 1);
    assert_eq!(u.spawns[0].start, Point { x: 3, y: 4 });
    let u = wave.update(16, true, false);
    assert!(!u.cleared);
    let u = wave.update(16, false, false);
    assert!(u.cleared);
    assert!(wave.events.is_empty());
}

#[test]
fn encounters_are_generated_per_kind() {
    let w = CurrentWave::new(EncounterKind::Space, 0);
    assert!(matches!(w.events.last(), Some(WaveEvent::WaitForClear)));
    let clears = w.events.iter().filter(|e| matches!(e, WaveEvent::WaitForClear)).count();
    assert_eq!(clears, patterns_nb(0));
    let b = CurrentWave::new(EncounterKind::Boss, 10);
    assert!(matches!(b.special[0], SpecialEvent::Spawn(Ships::Boss(1), _)));
    assert!(matches!(b.special[1], SpecialEvent::InfiniteWave(8000, _, true, 0)));
    let e = CurrentWave::new(EncounterKind::Elite, 4);
    assert!(matches!(e.special[0], SpecialEvent::Spawn(Ships::Elite(_), _)));
    assert!(e.events.is_empty());
}

#[test]
fn random_enemy_comes_from_the_act_pool() {
    for _ in 0..50 {
        assert!(matches!(Ships::random_enemy(0), Ships::Invader(n) if n <= 3));
        assert!(matches!(Ships::random_enemy(20), Ships::Invader(n) if n <= 8));
    }
}

#[test]
fn random_crossing_starts_outside_the_arena() {
    for _ in 0..50 {
        let m = Moves::random_crossing_dir(60 * PX, false);
        assert_eq!(m.starting_pos(), Point { x: 176 * PX, y: 60 * PX });
        match m {
            Moves::Wavy(_, a, f, amp) | Moves::Triangular(_, a, f, amp) => {
                assert_eq!(a, 180_000);
                assert!((500..2000).contains(&f));
                assert!((4 * PX..12 * PX).contains(&amp));
            }
            _ => panic!("not a crossing"),
        }
    }
}

#[test]
fn movement_places_crafts_on_their_curves() {
    let mut crafts = vec![craft(4, Ships::Invader(0), 4000, 0, 0)];
    let mut movements = vec![
        Movement { craft: 4, moves: Moves::Linear(Point { x: 10 * PX, y: 20 * PX }, 0), t_0: 1000 },
        Movement { craft: 99, moves: Moves::Linear(Point { x: 0, y: 0 }, 0), t_0: 0 },
    ];
    apply_movement(&mut crafts, &mut movements, 3000);
    assert_eq!(crafts[0].pos, Point { x: 35 * PX, y: 20 * PX });
}

#[test]
fn advance_counts_windows_down_and_drops_strays() {
    let mut field = Field::new();
    let mut c = craft(1, Ships::Player(0), 12000, 80 * PX, 72 * PX);
    c.blink_ms = 500;
    c.stun_ms = 300;
    field.crafts.push(c);
    field.crafts.push(craft(2, Ships::Invader(0), 4000, 80 * PX, 300 * PX));
    field.advance(400);
    assert_eq!(field.crafts.len(), 1);
    assert_eq!(field.crafts[0].blink_ms, 100);
    assert_eq!(field.crafts[0].stun_ms, 0);
}

#[test]
fn elite_kill_routs_the_remaining_enemies() {
    let mut field = Field::new();
    field.crafts.push(craft(1, Ships::Player(0), 12000, 0, 0));
    field.crafts.push(craft(2, Ships::Invader(3), 5333, 0, 0));
    field.shots.push(shot(3, 1000, false, 0, 0, 0));
    field.elite_cleared();
    assert!(!field.crafts[0].dead);
    assert!(field.crafts[1].dead && field.crafts[1].muted);
    assert_eq!(field.crafts[1].blink_ms, station_core::combat::BLINK_DURATION_ENEMY_MS);
    assert!(field.shots.is_empty());
}

#[test]
fn weapons_fire_on_their_delay() {
    let ship = Ship::from(Ships::Invader(0));
    let mut w = ShipWeapons::new(&ship, Ships::Invader(0).weapons());
    assert_eq!(w.weapons.len(), 1);
    assert_eq!(w.weapons[0].delay, 1000);
    assert_eq!(w.weapons[0].speed, Point { x: 0, y: -100_000 });
    assert!(w.fire(600, true, 50 * PX).is_empty());
    assert_eq!(w.fire(600, true, 50 * PX).len(), 1);
    assert!(w.fire(600, false, 50 * PX).is_empty());
    assert_eq!(w.timer, 1200);
    let p = Projectile::fired(5, &w.weapons[0], false, Point { x: 10 * PX, y: 10 * PX }, 0);
    assert_eq!(p.pos, Point { x: 10 * PX, y: 7 * PX });
    assert_eq!(p.attack, 1000);
}

#[test]
fn time_scale_grows_with_the_level() {
    assert_eq!(time_ratio(0), 1000);
    assert_eq!(time_ratio(26), 1300);
    assert_eq!(time_ratio(13), 1150);
}

#[test]
fn director_runs_then_clears_then_idles() {
    let mut d = Director::new();
    assert_eq!(d.phase, DirectorPhase::Idle);
    assert!(d.tick(16, false, false).spawns.is_empty());
    d.start(EncounterKind::Space, 2);
    assert_eq!(d.phase, DirectorPhase::Running);
    let mut cleared = false;
    for _ in 0..100_000 {
        let u = d.tick(100, false, false);
        if u.cleared {
            cleared = true;
            break;
        }
    }
    assert!(cleared);
    assert_eq!(d.phase, DirectorPhase::Cleared);
    d.cancel();
    assert_eq!(d.phase, DirectorPhase::Idle);
    assert!(d.wave.events.is_empty());
}

#[test]
fn ending_an_encounter_keeps_only_the_player() {
    let mut field = Field::new();
    let mut me = craft(1, Ships::Player(0), 12000, 0, 0);
    me.is_main = true;
    field.crafts.push(craft(2, Ships::Invader(0), 4000, 0, 0));
    field.crafts.push(me);
    field.shots.push(shot(3, 1000, true, 0, 0, 0));
    field.clear_encounter();
    assert_eq!(field.crafts.len(), 1);
    assert_eq!(field.crafts[0].id, 1);
    assert!(field.shots.is_empty());
}

#[test]
fn blink_flicker_and_sprite_indices() {
    assert!(station_core::combat::blink_visible(0));
    assert!(station_core::combat::blink_visible(166));
    assert!(!station_core::combat::blink_visible(167));
    assert!(station_core::combat::blink_visible(334));
    assert_eq!(Shots::Missile.sprite_atlas_index(), 2);
    assert_eq!(Ship::from(Ships::Invader(3)).sprite_index(), 7);
}

#[test]
fn spawned_craft_takes_the_model_stats() {
    let c = Craft::spawn(9, Ships::Elite(1), Point { x: PX, y: 2 * PX }, false);
    assert_eq!(c.ship.health, 24000);
    assert_eq!(c.ship.max_health, 24000);
    assert_eq!(c.hitbox, Hitbox { width: 8 * PX, height: 4 * PX });
    assert_eq!(c.loot, Loot { credits: 25 });
    assert!(!c.dead && !c.ship.friendly);
}

#[test]
fn missiles_home_on_the_nearest_enemy_in_range() {
    let crafts = vec![
        craft(1, Ships::Player(0), 12000, 40 * PX, 10 * PX),
        craft(2, Ships::Invader(0), 4000, 90 * PX, 10 * PX),
        craft(3, Ships::Invader(0), 4000, 20 * PX, 10 * PX),
        craft(4, Ships::Invader(0), 4000, 200 * PX, 10 * PX),
    ];
    let pos = Point { x: 50 * PX, y: 10 * PX };
    assert_eq!(missile_target(pos, &crafts), Some(2));
    assert_eq!(home_missile(pos, &crafts, 100), Point { x: 50 * PX - 833_300, y: 10 * PX });
    let far = vec![craft(4, Ships::Invader(0), 4000, 200 * PX, 10 * PX)];
    assert_eq!(missile_target(pos, &far), None);
    assert_eq!(home_missile(pos, &far, 100), pos);
}

#[test]
fn shields_blink_then_expire() {
    assert_eq!(shield_duration(false), 6000);
    assert_eq!(shield_duration(true), 12000);
    let t = tick_shield(1400, 100);
    assert_eq!(t, ShieldTick { remaining: 1300, start_blink: true, expired: false });
    let t = tick_shield(1300, 100);
    assert!(!t.start_blink);
    let t = tick_shield(50, 100);
    assert_eq!(t, ShieldTick { remaining: 0, start_blink: false, expired: true });
}

#[test]
fn parallel_part_spawns_at_its_offsets() {
    let part = WavePart::Parallel(8000, vec![WavePart::SimpleEnemy, WavePart::SimpleEnemy]);
    let events = part.events(3, 60 * PX);
    assert_eq!(events.len(), 4);
    assert!(matches!(events[0], WaveEvent::WaitMilliseconds(0)));
    assert!(matches!(events[1], WaveEvent::Spawn(Ships::Invader(_), _)));
    assert!(matches!(events[2], WaveEvent::WaitMilliseconds(8000)));
    assert!(matches!(events[3], WaveEvent::Spawn(Ships::Invader(_), _)));
    let (a, b) = match (&events[1], &events[3]) {
        (WaveEvent::Spawn(_, a), WaveEvent::Spawn(_, b)) => (a.starting_pos().y, b.starting_pos().y),
        _ => panic!("expected spawns"),
    };
    assert!((a - b).abs() >= 18 * PX);
}

#[test]
fn paused_sequence_shares_one_crossing() {
    let part = WavePart::ConsecutiveWithPause(3, 80 * PX, 4000);
    let events = part.events(0, 60 * PX);
    assert_eq!(events.len(), 6);
    let mut starts = vec![];
    for i in 0..3 {
        match &events[2 * i] {
            WaveEvent::Spawn(_, Moves::WithPause(x, p, None, w)) => {
                assert_eq!(*x, 80 * PX);
                assert_eq!(*p, 4000);
                starts.push(w.starting_pos());
            }
            _ => panic!("expected a paused spawn"),
        }
        assert!(matches!(events[2 * i + 1], WaveEvent::WaitMilliseconds(6000)));
    }
    assert_eq!(starts[0], starts[1]);
    assert_eq!(starts[1], starts[2]);
    assert_eq!(starts[0].y, 60 * PX);
}

#[test]
fn standard_wave_has_a_spawn_before_each_barrier() {
    for level in [0usize, 10, 20] {
        let w = gen_space_wave(level);
        let mut seen_spawn = false;
        for e in &w {
            match e {
                WaveEvent::Spawn(_, _) => seen_spawn = true,
                WaveEvent::WaitForClear => {
                    assert!(seen_spawn);
                    seen_spawn = false;
                }
                _ => {}
            }
        }
    }
}

#[test]
fn director_tick_passes_spawns_through() {
    let mut d = Director::new();
    d.start(EncounterKind::Boss, 0);
    let u = d.tick(16, true, false);
    assert_eq!(u.spawns.len(), 1);
    assert_eq!(u.spawns[0].model, Ships::Boss(0));
    assert_eq!(u.spawns[0].start, Point { x: 80 * PX, y: 160 * PX });
}

#[test]
fn time_scale_in_force() {
    assert_eq!(current_time_scale(26, false, false), 1300);
    assert_eq!(current_time_scale(26, false, true), 600);
    assert_eq!(current_time_scale(26, true, true), 0);
    assert_eq!(scaled_tick(16, 1300), 20);
    assert_eq!(scaled_tick(16, 0), 0);
}

#[test]
fn player_craft_follows_the_ship_status() {
    let mut status = ShipStatus::new(GameMode::Standard, 12000);
    status.add(&Items::Upgrade(Upgrades::Damage));
    status.add(&Items::Upgrade(Upgrades::Speed));
    status.set_health(7000);
    let mut me = Craft::player(0, Ships::Player(0), &status, Point { x: 80 * PX, y: 24 * PX });
    assert!(me.is_main);
    assert_eq!(me.ship.health, 7000);
    assert_eq!(me.ship.max_health, 12000);
    assert_eq!(me.ship.damage_factor, 1250);
    assert_eq!(me.ship.speed, 30000);
    apply_hit(&mut me, 2000, false);
    let crafts = vec![craft(5, Ships::Invader(0), 4000, 0, 0), me];
    record_player_health(&mut status, &crafts);
    assert_eq!(status.health(), (5000, 12000));
}
