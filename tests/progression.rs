use station_core::arena::patterns_nb;
use station_core::items::{item_price, Items, ShipStatus, Upgrades};
use station_core::route::{CurrentRoute, GameMode, Level, Route, RouteElement};
use station_core::ships::{Ship, Ships};
use station_core::text::{format_credits, format_items};

#[test]
fn upgrade_descriptions_show_current_values() {
    let mut s = ShipStatus::new(GameMode::Standard, 12000);
    s.add(&Items::Upgrade(Upgrades::Speed));
    let (a, b, c) = Upgrades::Speed.description(&s);
    assert_eq!(a, "Improves ship speed");
    assert_eq!(b, "by 20%.");
    assert_eq!(c, "Current: x1.20");
    let (_, b, c) = Upgrades::Hull.description(&s);
    assert_eq!(b, "resistance by 4.");
    assert_eq!(c, "Current: 12");
    let (a, _, c) = Upgrades::StunShots.description(&s);
    assert_eq!(a, "Shots have a 5%");
    assert_eq!(c, "enemy for 5s on hit.");
    let (_, b, _) = Upgrades::ShotFrequency.description(&s);
    assert_eq!(b, "15% faster.");
    let (_, _, c) = Upgrades::Berserk.description(&s);
    assert_eq!(c, "is <25%.");
    let (_, b, _) = Upgrades::LeechShots.description(&s);
    assert_eq!(b, "after killing 8");
}

#[test]
fn show_route() {
    let route = CurrentRoute::new(GameMode::Standard);
    for (i, element) in route.route.0.iter().enumerate() {
        if i % 9 == 0 {
            println!();
        }
        println!("{} – {:?}", i, element);
    }
}

#[test]
fn route_has_the_act_structure() {
    let route = Route::new();
    assert_eq!(route.0.len(), 28);
    assert_eq!(route.0[3], RouteElement::Level(Level::Upgrade));
    assert_eq!(route.0[8], RouteElement::Level(Level::Boss));
    assert_eq!(route.0[0], RouteElement::Level(Level::Space));
    assert_eq!(route.0[27], RouteElement::Level(Level::Win));
    match route.0[7] {
        RouteElement::Choice(a, b) => {
            assert_ne!(a, b);
            assert!(a == Level::Repair || b == Level::Repair);
        }
        _ => panic!("expected a choice"),
    }
}

#[test]
fn modes_start_where_they_should() {
    assert_eq!(CurrentRoute::new(GameMode::Standard).level, 0);
    let act2 = CurrentRoute::new(GameMode::Act2);
    assert_eq!(act2.level, 3);
    let mut r = act2;
    r.advance();
    assert_eq!(r.level, 9);
    assert_eq!(r.act(), 2);
    let last = CurrentRoute::new(GameMode::LastBoss);
    assert_eq!(last.level, 3);
    let rush = CurrentRoute::new(GameMode::BossRush);
    assert_eq!(rush.level, 3);
}

#[test]
fn angry_shopkeepers_turn_shops_into_elites() {
    let mut r = CurrentRoute::new(GameMode::Standard);
    r.route.0[0] = RouteElement::Level(Level::Shop);
    assert_eq!(r.state(), station_core::route::GameState::Shop);
    r.set_angry_shopkeepers(true);
    assert!(r.are_shopkeepers_angry());
    assert_eq!(r.state(), station_core::route::GameState::Elite);
    r.lost = true;
    assert_eq!(r.state(), station_core::route::GameState::GameOver);
}

#[test]
fn names_and_texts() {
    assert_eq!(Level::Space.name(), "Fight");
    assert_eq!(Level::Unknown.name(), "???");
    assert_eq!(GameMode::LastBoss.text(), "Last Boss");
    assert_eq!(GameMode::BossRush.next(), GameMode::Standard);
    assert_eq!(Items::Upgrade(Upgrades::Damage).name(), "Power +");
    assert_eq!(Items::Shield.name(), "Shield");
    assert_eq!(Route::act_len(), 9);
}

#[test]
fn pattern_counts_per_tier() {
    assert_eq!(patterns_nb(0), 2);
    assert_eq!(patterns_nb(8), 2);
    assert_eq!(patterns_nb(9), 3);
    assert_eq!(patterns_nb(17), 3);
    assert_eq!(patterns_nb(18), 4);
}

#[test]
fn prices_and_sales() {
    assert_eq!(item_price(&Items::Missile, false), 12);
    assert_eq!(item_price(&Items::Repair, true), 3);
    assert_eq!(item_price(&Items::Upgrade(Upgrades::Hull), false), 50);
    assert_eq!(item_price(&Items::Upgrade(Upgrades::Berserk), true), 50);
    assert!(Upgrades::Hull.is_stat_upgrade());
    assert!(!Upgrades::SideShots.is_stat_upgrade());
}

#[test]
fn credit_counter_is_zero_padded() {
    assert_eq!(format_credits(5), "Credits: 005");
    assert_eq!(format_credits(123), "Credits: 123");
    assert_eq!(format_credits(4567), "Credits: 4567");
    assert_eq!(format_credits(-5), "Credits: -05");
}

#[test]
fn ship_status_items_and_upgrades() {
    let mut s = ShipStatus::new(GameMode::Standard, 12000);
    assert_eq!(s.get(&Items::Missile), 2);
    assert!(s.remove(&Items::Missile));
    assert_eq!(s.get(&Items::Missile), 1);
    assert!(!s.remove(&Items::Repair));
    s.add(&Items::Shield);
    assert_eq!(format_items(&s), "M1 S3");
    s.add(&Items::Upgrade(Upgrades::Damage));
    s.add(&Items::Upgrade(Upgrades::Damage));
    assert_eq!(s.damage_multiplier(), 1500);
    s.add(&Items::Upgrade(Upgrades::Hull));
    assert_eq!(s.health(), (16000, 16000));
    s.set_health(3000);
    s.add(&Items::Repair);
    assert_eq!(s.health(), (4000, 16000));
    assert!(!s.is_berserk());
    s.add(&Items::Upgrade(Upgrades::Berserk));
    assert!(s.is_berserk());
    s.add(&Items::Upgrade(Upgrades::PiercingShots));
    assert_eq!(s.shot_upgrades(), 4);
    assert_eq!(s.non_stat_upgrades(), vec![Upgrades::Berserk, Upgrades::PiercingShots]);
    s.add_credits(30);
    s.buy(12);
    assert_eq!(s.get_credits(), 18);
}

#[test]
fn leech_repairs_every_eighth_kill() {
    let mut s = ShipStatus::new(GameMode::Standard, 12000);
    s.set_health(5000);
    let mut kills: usize = 8;
    assert!(!station_core::items::leech(&mut kills, &mut s));
    s.add(&Items::Upgrade(Upgrades::LeechShots));
    assert!(station_core::items::leech(&mut kills, &mut s));
    assert_eq!(kills, 0);
    assert_eq!(s.health().0, 6000);
}

#[test]
fn model_stats_table() {
    let s = Ship::from(Ships::Invader(5));
    assert_eq!(s.health, 4000);
    assert_eq!(s.damage_factor, 1500);
    assert!(!s.friendly);
    assert!(Ship::from(Ships::Player(2)).friendly);
    assert_eq!(Ship::from(Ships::Boss(2)).max_health, 112000);
    assert_eq!(Ships::Invader(7).credits(), 10);
    assert_eq!(Ships::Boss(0).credits(), 50);
    assert_eq!(Ship::from(Ships::Elite(1)).sprite_index(), 14);
    assert_eq!(Ships::Elite(0).weapons().len(), 2);
    assert_eq!(Ships::Elite(0).weapons()[0].2, 270_000);
}

#[test]
fn small_queries() {
    use_small_queries();
}

fn use_small_queries() {
    let mut s = ShipStatus::new(GameMode::Act2, 8000);
    assert!(s.is_max_health());
    s.set_health(7000);
    assert!(!s.is_max_health());
    for _ in 0..20 {
        let c = Items::random_collectible();
        assert!(c == Items::Missile || c == Items::Shield);
        let _ = Upgrades::new_upgrade(&s);
        assert!(Upgrades::random_stat_upgrade().is_stat_upgrade());
    }
    let mut r = CurrentRoute::new(GameMode::Standard);
    assert!(!r.win());
    r.level = 27;
    assert!(r.win());
}
