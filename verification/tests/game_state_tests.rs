use galaxy_core::game_state::GameState;
use galaxy_core::planet::{PlanetId, TechFocus};
use galaxy_core::position::Position;
use galaxy_core::race::TechnologyType;
use galaxy_core::ship::{ShipDesign, ShipLocation};

#[test]
fn test_build_ship_requires_materials_and_owner() {
    let mut game = GameState::new(1_000_000, 1_000_000);
    let home = game.galaxy_mut().add_planet(Position::new(100_000, 100_000), 100, Some(0));
    let wild = game.galaxy_mut().add_planet(Position::new(200_000, 200_000), 50, None);
    let _race = game.add_race("Humans".to_string(), home.0);

    let design = ShipDesign::new(3000, 1, 3000, 4000, 1000);

    // Unknown planet: no ship.
    assert!(game.build_ship(PlanetId(99), design).is_none());

    // Unowned planet: no ship.
    assert!(game.build_ship(wild, design).is_none());

    // Owned planet without materials: no ship, nothing debited.
    assert!(game.build_ship(home, design).is_none());
    assert_eq!(game.galaxy().get_planet(home).unwrap().materials(), 0);

    // With materials the build succeeds and debits exactly the cost (11.0).
    game.galaxy_mut().get_planet_mut(home).add_materials(25_000);
    let ship_id = game.build_ship(home, design);
    assert!(ship_id.is_some());
    assert_eq!(game.galaxy().get_planet(home).unwrap().materials(), 14_000);

    // The new ship is docked at the planet with a full hull.
    let ship = game.get_ship(ship_id.unwrap()).unwrap();
    assert_eq!(ship.current_hull(), 4000);
    assert_eq!(ship.location().planet_id(), Some(home));

    // A second build gets a fresh identity.
    let second = game.build_ship(home, design);
    assert!(second.is_some());
    assert_ne!(ship_id.unwrap(), second.unwrap());
}

#[test]
fn test_order_ship_travel_rejections() {
    let mut game = GameState::new(1_000_000, 1_000_000);
    let home = game.galaxy_mut().add_planet(Position::new(100_000, 100_000), 100, Some(0));
    let target = game.galaxy_mut().add_planet(Position::new(900_000, 900_000), 50, None);
    let _race = game.add_race("Humans".to_string(), home.0);
    game.galaxy_mut().get_planet_mut(home).add_materials(100_000);

    let design = ShipDesign::new(3000, 1, 3000, 4000, 1000);
    let ship_id = game.build_ship(home, design).unwrap();

    // Unknown ship.
    assert!(!game.order_ship_travel(galaxy_core::ship::ShipId(42), target));

    // Travel to the current planet.
    assert!(!game.order_ship_travel(ship_id, home));

    // Travel to a planet that does not exist.
    assert!(!game.order_ship_travel(ship_id, PlanetId(77)));

    // A valid order starts the trip at zero progress.
    assert!(game.order_ship_travel(ship_id, target));
    match game.get_ship(ship_id).unwrap().location() {
        ShipLocation::Traveling { from, to, progress } => {
            assert_eq!(*from, home);
            assert_eq!(*to, target);
            assert_eq!(*progress, 0);
        }
        ShipLocation::AtPlanet(_) => panic!("ship should be traveling"),
    }

    // A ship already traveling rejects a second order.
    assert!(!game.order_ship_travel(ship_id, home));
}

#[test]
fn test_travel_arrival_colonizes() {
    let mut game = GameState::new(1_000_000, 1_000_000);
    let home = game.galaxy_mut().add_planet(Position::new(100_000, 100_000), 100, Some(0));
    // A close-by unowned planet (distance 1.0, under the ship's speed).
    let near = game.galaxy_mut().add_planet(Position::new(101_000, 100_000), 50, None);
    let race = game.add_race("Humans".to_string(), home.0);
    game.galaxy_mut().get_planet_mut(home).add_materials(100_000);

    // A pure drive ship crosses the gap in one turn.
    let scout = ShipDesign::new(2000, 0, 0, 1000, 0);
    let ship_id = game.build_ship(home, scout).unwrap();
    assert!(game.order_ship_travel(ship_id, near));

    game.advance_turn();

    let ship = game.get_ship(ship_id).unwrap();
    assert_eq!(ship.location().planet_id(), Some(near));
    // Arrival at an unowned planet colonises it for the ship's owner.
    assert_eq!(game.galaxy().get_planet(near).unwrap().owner(), Some(race.0));
}

#[test]
fn test_research_advances_technology() {
    let mut game = GameState::new(1_000_000, 1_000_000);
    // A size-100 planet contributes 100 effort per turn; advancing from
    // level 1 costs 100 x 1, so one turn suffices, and the accumulator
    // resets without carrying surplus.
    let home = game.galaxy_mut().add_planet(Position::new(100_000, 100_000), 100, Some(0));
    let race = game.add_race("Scholars".to_string(), home.0);
    game.set_planet_tech_focus(home, TechFocus::Research(TechnologyType::Weapon));

    assert_eq!(game.get_race(race).unwrap().technology().weapon_level(), 1);
    game.advance_turn();
    assert_eq!(game.get_race(race).unwrap().technology().weapon_level(), 2);
    // The next level costs 100 x 2: one more turn is not enough...
    game.advance_turn();
    assert_eq!(game.get_race(race).unwrap().technology().weapon_level(), 2);
    // ...but two are.
    game.advance_turn();
    assert_eq!(game.get_race(race).unwrap().technology().weapon_level(), 3);
    // The other tracks never moved.
    assert_eq!(game.get_race(race).unwrap().technology().drive_level(), 1);
    assert_eq!(game.get_race(race).unwrap().technology().shield_level(), 1);
}

#[test]
fn test_materials_grow_each_turn() {
    let mut game = GameState::new(1_000_000, 1_000_000);
    // A home planet starts in materials mode with production 100 and
    // resources 10: 1000.0 materials per turn.
    let home = game.galaxy_mut().add_planet(Position::new(100_000, 100_000), 100, Some(0));
    let _race = game.add_race("Miners".to_string(), home.0);

    game.advance_turn();
    assert_eq!(game.galaxy().get_planet(home).unwrap().materials(), 1_000_000);
    game.advance_turn();
    assert_eq!(game.galaxy().get_planet(home).unwrap().materials(), 2_000_000);
}

#[test]
fn test_galaxy_accessors() {
    let mut game = GameState::new(800_000, 600_000);
    assert_eq!(game.galaxy().width(), 800_000);
    assert_eq!(game.galaxy().height(), 600_000);

    let a = game.galaxy_mut().add_planet(Position::new(0, 0), 100, Some(0));
    let b = game.galaxy_mut().add_planet(Position::new(10_000, 0), 50, None);
    let c = game.galaxy_mut().add_planet(Position::new(20_000, 0), 30, None);
    assert_eq!(game.galaxy().planets().len(), 3);

    assert_eq!(game.galaxy().get_planet(a).unwrap().size(), 100);
    assert!(game.galaxy().get_planet(PlanetId(9)).is_none());

    let owned = game.galaxy().planets_owned_by(0);
    assert_eq!(owned, [a]);
    assert_eq!(game.galaxy().count_planets_owned_by(0), 1);

    let unowned = game.galaxy().uninhabited_planets();
    assert_eq!(unowned, [b, c]);
}

#[test]
fn test_check_victory_prefers_largest_holder() {
    let mut game = GameState::new(1_000_000, 1_000_000);
    let h0 = game.galaxy_mut().add_planet(Position::new(0, 0), 100, Some(0));
    let h1 = game.galaxy_mut().add_planet(Position::new(10_000, 0), 100, Some(1));
    game.galaxy_mut().add_planet(Position::new(20_000, 0), 100, Some(1));
    let r0 = game.add_race("One".to_string(), h0.0);
    let r1 = game.add_race("Two".to_string(), h1.0);

    let winner = game.check_victory();
    assert_eq!(winner, Some(r1));
    assert_ne!(winner, Some(r0));
}

#[test]
fn test_position_distance() {
    let a = Position::new(0, 0);
    let b = Position::new(3000, 4000);
    // A 3-4-5 triangle, in milli units.
    assert_eq!(a.distance_to(&b), 5000);
    assert_eq!(b.distance_to(&a), 5000);
    assert_eq!(a.dist2(&b), 25_000_000);
}

#[test]
fn test_certain_kill_removes_loser_from_live_set() {
    let mut game = GameState::new(1_000_000, 1_000_000);
    let home_a = game.galaxy_mut().add_planet(Position::new(100_000, 100_000), 100, Some(0));
    let home_b = game.galaxy_mut().add_planet(Position::new(101_000, 100_000), 100, Some(1));
    let race_a = game.add_race("Raiders".to_string(), home_a.0);
    let race_b = game.add_race("Settlers".to_string(), home_b.0);
    game.galaxy_mut().get_planet_mut(home_a).add_materials(100_000);
    game.galaxy_mut().get_planet_mut(home_b).add_materials(100_000);

    // The raider's attack (20.0) is more than four times the target's
    // defence, so its opening shot is a certain kill.
    let raider_design = ShipDesign::new(5000, 1, 20_000, 5000, 0);
    let target_design = ShipDesign::new(1000, 0, 0, 2000, 0);
    let raider = game.build_ship(home_a, raider_design).unwrap();
    let target = game.build_ship(home_b, target_design).unwrap();

    game.diplomacy_mut().make_hostile(race_a, race_b);
    assert!(game.order_ship_travel(raider, home_b));

    // The raider arrives this turn; the combat phase then removes the
    // destroyed target from the live set while the raider survives.
    game.advance_turn();

    assert!(game.get_ship(raider).is_some());
    assert!(game.get_ship(target).is_none());
    assert_eq!(game.ships().len(), 1);
}
