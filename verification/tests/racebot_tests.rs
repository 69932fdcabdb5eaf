use galaxy_core::game_state::GameState;
use galaxy_core::planet::ProductionType;
use galaxy_core::position::Position;
use galaxy_core::racebot::{Personality, Racebot};
use galaxy_core::ship::{Ship, ShipDesign, ShipLocation};

#[test]
fn racebot_test_racebot_analyzes_state() {
    let mut game = GameState::new(1_000_000, 1_000_000);

    // Create a race.
    let home_pos = Position::new(500_000, 500_000);
    let home_planet = game.galaxy_mut().add_planet(home_pos, 100, Some(0));
    let race_id = game.add_race("TestRace".to_string(), home_planet.0);

    // Add some colonizable planets.
    game.galaxy_mut().add_planet(Position::new(600_000, 600_000), 50, None);
    game.galaxy_mut().add_planet(Position::new(400_000, 400_000), 30, None);

    // Create the racebot and analyze.
    let racebot = Racebot::with_personality(race_id, Personality::Balanced);
    let race = game.get_race(race_id).unwrap();
    let ships: Vec<Ship> = Vec::new();
    let state = racebot.analyze_state(game.galaxy(), race, &ships);

    assert_eq!(state.owned_planets.len(), 1);
    assert_eq!(state.colonizable_planets.len(), 2);
    assert!(state.total_population > 0);
}

#[test]
fn racebot_test_racebot_makes_production_decisions() {
    let mut game = GameState::new(1_000_000, 1_000_000);

    let home_pos = Position::new(500_000, 500_000);
    let home_planet = game.galaxy_mut().add_planet(home_pos, 100, Some(0));
    let race_id = game.add_race("TestRace".to_string(), home_planet.0);

    game.run_racebot(race_id);

    // The home planet has production capacity.
    let planet = game.galaxy().get_planet(home_planet).unwrap();
    assert!(planet.production() > 0);
}

#[test]
fn racebot_test_racebot_decides_ship_movements() {
    let mut game = GameState::new(1_000_000, 1_000_000);

    let home_pos = Position::new(500_000, 500_000);
    let home_planet = game.galaxy_mut().add_planet(home_pos, 100, Some(0));
    let race_id = game.add_race("TestRace".to_string(), home_planet.0);

    // A colonizable planet nearby.
    let target_pos = Position::new(550_000, 550_000);
    let _target_planet = game.galaxy_mut().add_planet(target_pos, 50, None);

    // Materials for ship building.
    game.galaxy_mut().get_planet_mut(home_planet).add_materials(1_000_000);

    // Build a scout ship.
    let scout = ShipDesign::new(2000, 0, 0, 1000, 1000);
    let ship_id = game.build_ship(home_planet, scout);
    assert!(ship_id.is_some(), "failed to build ship");

    // Run the racebot; it may send the ship to colonize.
    game.run_racebot(race_id);

    // The ship still exists, docked or traveling.
    let ship = game.get_ship(ship_id.unwrap()).unwrap();
    match ship.location() {
        ShipLocation::AtPlanet(_) | ShipLocation::Traveling { .. } => {}
    }
}

#[test]
fn racebot_test_racebot_finds_nearest_colonizable() {
    let mut game = GameState::new(1_000_000, 1_000_000);

    let home_pos = Position::new(500_000, 500_000);
    let home_planet = game.galaxy_mut().add_planet(home_pos, 100, Some(0));
    let race_id = game.add_race("TestRace".to_string(), home_planet.0);

    // Planets at different distances.
    let near_planet = game.galaxy_mut().add_planet(Position::new(520_000, 520_000), 50, None);
    let _far_planet = game.galaxy_mut().add_planet(Position::new(800_000, 800_000), 30, None);

    let racebot = Racebot::with_personality(race_id, Personality::Balanced);
    let race = game.get_race(race_id).unwrap();
    let ships: Vec<Ship> = Vec::new();
    let state = racebot.analyze_state(game.galaxy(), race, &ships);

    let nearest = racebot.find_nearest_colonizable(home_planet, &state, game.galaxy());

    assert_eq!(nearest, Some(near_planet));
}

#[test]
fn racebot_test_aggressive_personality() {
    let mut game = GameState::new(1_000_000, 1_000_000);

    let home_pos = Position::new(500_000, 500_000);
    let home_planet = game.galaxy_mut().add_planet(home_pos, 100, Some(0));
    let race_id = game.add_race("Aggressive".to_string(), home_planet.0);

    let _racebot = Racebot::with_personality(race_id, Personality::Aggressive);
    let race = game.get_race(race_id).unwrap();
    let design = Personality::Aggressive.design_ship(race);
    assert!(design.weapons_mass() > design.shields_mass());
    assert!(design.attacks() >= 2);
    assert_eq!(Personality::Aggressive.capital_target(), 30_000);
}

#[test]
fn racebot_test_defensive_personality() {
    let mut game = GameState::new(1_000_000, 1_000_000);

    let home_pos = Position::new(500_000, 500_000);
    let home_planet = game.galaxy_mut().add_planet(home_pos, 100, Some(0));
    let race_id = game.add_race("Defensive".to_string(), home_planet.0);

    let _racebot = Racebot::with_personality(race_id, Personality::Defensive);
    let race = game.get_race(race_id).unwrap();

    let design = Personality::Defensive.design_ship(race);
    assert!(design.shields_mass() > design.weapons_mass());
    assert!(Personality::Defensive.colonization_priority() > 0);
}

#[test]
fn racebot_test_expansionist_personality() {
    let mut game = GameState::new(1_000_000, 1_000_000);

    let home_pos = Position::new(500_000, 500_000);
    let home_planet = game.galaxy_mut().add_planet(home_pos, 100, Some(0));
    let race_id = game.add_race("Expansionist".to_string(), home_planet.0);

    let _racebot = Racebot::with_personality(race_id, Personality::Expansionist);
    let race = game.get_race(race_id).unwrap();

    let design = Personality::Expansionist.design_ship(race);
    assert!(design.cargo_mass() > 0);
    assert_eq!(design.attacks(), 0);
    assert_eq!(Personality::Expansionist.colonization_priority(), 1000);
    assert!(Personality::Expansionist.ship_building_aggression() > 500);
}

#[test]
fn racebot_test_economic_personality() {
    let mut game = GameState::new(1_000_000, 1_000_000);

    let home_pos = Position::new(500_000, 500_000);
    let home_planet = game.galaxy_mut().add_planet(home_pos, 100, Some(0));
    let race_id = game.add_race("Economic".to_string(), home_planet.0);

    let _racebot = Racebot::with_personality(race_id, Personality::Economic);
    let race = game.get_race(race_id).unwrap();

    assert_eq!(Personality::Economic.capital_target(), 100_000);

    let design = Personality::Economic.design_ship(race);
    assert!(design.cargo_mass() >= 3000);
    assert_eq!(design.attacks(), 0);
    assert!(Personality::Economic.ship_building_aggression() < 500);
}

#[test]
fn racebot_test_personality_affects_production() {
    let mut game = GameState::new(1_000_000, 1_000_000);

    let home_pos = Position::new(500_000, 500_000);
    let home_planet = game.galaxy_mut().add_planet(home_pos, 100, Some(0));
    let race_id = game.add_race("Test".to_string(), home_planet.0);

    // Materials for production.
    game.galaxy_mut().get_planet_mut(home_planet).add_materials(1_000_000);

    let economic_bot = Racebot::with_personality(race_id, Personality::Economic);
    let race = game.get_race(race_id).unwrap();
    let ships: Vec<Ship> = Vec::new();
    let state = economic_bot.analyze_state(game.galaxy(), race, &ships);

    let planet = game.galaxy().get_planet(home_planet).unwrap();
    let production_choice = economic_bot.decide_production(planet, &state);

    // With no capital banked, the economic personality builds capital.
    assert_eq!(production_choice, ProductionType::Capital);
}

#[test]
fn test_combat_seeking_only_aggressive() {
    assert!(Personality::Aggressive.combat_seeking());
    assert!(!Personality::Defensive.combat_seeking());
    assert!(!Personality::Expansionist.combat_seeking());
    assert!(!Personality::Economic.combat_seeking());
    assert!(!Personality::Balanced.combat_seeking());
}

#[test]
fn test_build_orders_capped_by_planets_and_materials() {
    let mut game = GameState::new(1_000_000, 1_000_000);

    let home = game.galaxy_mut().add_planet(Position::new(100_000, 100_000), 100, Some(0));
    let race_id = game.add_race("Builders".to_string(), home.0);

    // Aggressive spends everything: cost of its warship is 27.0, so 100.0
    // materials pay for 3 ships, but only one owned planet caps it at 1.
    game.galaxy_mut().get_planet_mut(home).add_materials(100_000);
    let bot = Racebot::with_personality(race_id, Personality::Aggressive);
    let race = game.get_race(race_id).unwrap();
    let ships: Vec<Ship> = Vec::new();
    let state = bot.analyze_state(game.galaxy(), race, &ships);
    let builds = bot.decide_ship_builds(&state, race);
    assert_eq!(builds.len(), 1);
    assert_eq!(builds[0].planet_id, home);

    // Economic spends a fifth: 20.0 materials do not cover its 6.0-cost
    // colony ship three times over, but do cover it three times; still one
    // planet, so one build.
    let econ = Racebot::with_personality(race_id, Personality::Economic);
    let builds = econ.decide_ship_builds(&state, race);
    assert_eq!(builds.len(), 1);

    // With too few materials nothing is built.
    let mut poor_game = GameState::new(1_000_000, 1_000_000);
    let poor_home = poor_game.galaxy_mut().add_planet(Position::new(0, 0), 100, Some(0));
    let poor_race = poor_game.add_race("Poor".to_string(), poor_home.0);
    poor_game.galaxy_mut().get_planet_mut(poor_home).add_materials(5_000);
    let bot2 = Racebot::with_personality(poor_race, Personality::Economic);
    let race2 = poor_game.get_race(poor_race).unwrap();
    let state2 = bot2.analyze_state(poor_game.galaxy(), race2, &ships);
    // 20% of 5.0 is 1.0, under the 6.0 ship cost.
    let builds2 = bot2.decide_ship_builds(&state2, race2);
    assert_eq!(builds2.len(), 0);
}
