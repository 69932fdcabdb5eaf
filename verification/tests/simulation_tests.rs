use galaxy_core::game_state::GameState;
use galaxy_core::position::Position;
use galaxy_core::racebot::Personality;

#[test]
fn test_multi_bot_simulation() {
    let mut game = GameState::new(2_000_000, 2_000_000);

    // Four AI races with different personalities in different corners.
    let race1_pos = Position::new(200_000, 200_000);
    let race1_home = game.galaxy_mut().add_planet(race1_pos, 100, Some(0));
    let race1 = game.add_ai_race("Aggressors".to_string(), race1_home.0, Personality::Aggressive);

    let race2_pos = Position::new(1_800_000, 200_000);
    let race2_home = game.galaxy_mut().add_planet(race2_pos, 100, Some(1));
    let race2 = game.add_ai_race("Defenders".to_string(), race2_home.0, Personality::Defensive);

    let race3_pos = Position::new(200_000, 1_800_000);
    let race3_home = game.galaxy_mut().add_planet(race3_pos, 100, Some(2));
    let race3 = game.add_ai_race("Explorers".to_string(), race3_home.0, Personality::Expansionist);

    let race4_pos = Position::new(1_800_000, 1_800_000);
    let race4_home = game.galaxy_mut().add_planet(race4_pos, 100, Some(3));
    let race4 = game.add_ai_race("Economists".to_string(), race4_home.0, Personality::Economic);

    // Some unclaimed planets for colonization.
    game.galaxy_mut().add_planet(Position::new(1_000_000, 1_000_000), 50, None);
    game.galaxy_mut().add_planet(Position::new(500_000, 1_500_000), 40, None);
    game.galaxy_mut().add_planet(Position::new(1_500_000, 500_000), 60, None);

    // All races exist.
    assert!(game.get_race(race1).is_some());
    assert!(game.get_race(race2).is_some());
    assert!(game.get_race(race3).is_some());
    assert!(game.get_race(race4).is_some());

    // Simulate 10 turns.
    for _turn in 0..10 {
        game.advance_turn();
    }

    // The game is still running.
    assert_eq!(game.turn(), 10);

    // All races still exist.
    assert!(game.get_race(race1).is_some());
    assert!(game.get_race(race2).is_some());
    assert!(game.get_race(race3).is_some());
    assert!(game.get_race(race4).is_some());
}

#[test]
fn test_aggressive_vs_defensive() {
    let mut game = GameState::new(1_000_000, 1_000_000);

    // Two races close together.
    let race1_home = game.galaxy_mut().add_planet(Position::new(400_000, 500_000), 100, Some(0));
    let race1 = game.add_ai_race("Warmongers".to_string(), race1_home.0, Personality::Aggressive);

    let race2_home = game.galaxy_mut().add_planet(Position::new(600_000, 500_000), 100, Some(1));
    let race2 = game.add_ai_race("Pacifists".to_string(), race2_home.0, Personality::Defensive);

    // Simulate 20 turns.
    for _turn in 0..20 {
        game.advance_turn();
    }

    // Both races still exist.
    assert!(game.get_race(race1).is_some());
    assert!(game.get_race(race2).is_some());
}

#[test]
fn test_expansionist_colonization() {
    let mut game = GameState::new(1_500_000, 1_500_000);

    // One expansionist race.
    let home_pos = Position::new(750_000, 750_000);
    let home_planet = game.galaxy_mut().add_planet(home_pos, 100, Some(0));
    let race =
        game.add_ai_race("Colonizers".to_string(), home_planet.0, Personality::Expansionist);

    // Five nearby colonizable planets on a circle of radius 300.
    for i in 0..5 {
        let angle = (i as f64) * (2.0 * std::f64::consts::PI / 5.0);
        let x = (750.0 + 300.0 * angle.cos()) * 1000.0;
        let y = (750.0 + 300.0 * angle.sin()) * 1000.0;
        game.galaxy_mut().add_planet(Position::new(x as i64, y as i64), 50, None);
    }

    // Count initial planets.
    let initial_owned =
        game.galaxy().planets().iter().filter(|p| p.owner() == Some(race.0)).count();
    assert_eq!(initial_owned, 1);

    // Simulate 30 turns: enough to build ships and colonize.
    for _turn in 0..30 {
        game.advance_turn();
    }

    let final_owned = game.galaxy().planets().iter().filter(|p| p.owner() == Some(race.0)).count();

    assert!(final_owned >= initial_owned, "expected colonization, owned {} planets", final_owned);
}

#[test]
fn test_economic_vs_aggressive_capital() {
    let mut game = GameState::new(1_000_000, 1_000_000);

    // An economic race.
    let econ_home = game.galaxy_mut().add_planet(Position::new(300_000, 500_000), 100, Some(0));
    let _econ_race = game.add_ai_race("Builders".to_string(), econ_home.0, Personality::Economic);

    // An aggressive race.
    let aggr_home = game.galaxy_mut().add_planet(Position::new(700_000, 500_000), 100, Some(1));
    let _aggr_race = game.add_ai_race("Warriors".to_string(), aggr_home.0, Personality::Aggressive);

    // Materials on both home planets.
    game.galaxy_mut().get_planet_mut(econ_home).add_materials(1_000_000);
    game.galaxy_mut().get_planet_mut(aggr_home).add_materials(1_000_000);

    // Simulate 15 turns.
    for _turn in 0..15 {
        game.advance_turn();
    }

    // The economic race prioritises capital more (target 100 vs 30).
    let econ_capital = game.galaxy().get_planet(econ_home).unwrap().capital();
    let aggr_capital = game.galaxy().get_planet(aggr_home).unwrap().capital();

    assert!(
        econ_capital >= aggr_capital,
        "economic capital={}, aggressive capital={}",
        econ_capital,
        aggr_capital
    );
}

#[test]
fn test_long_simulation_stability() {
    let mut game = GameState::new(1_500_000, 1_500_000);

    // A single balanced race.
    let home_pos = Position::new(750_000, 750_000);
    let home_planet = game.galaxy_mut().add_planet(home_pos, 100, Some(0));
    let _race = game.add_ai_race("Balanced".to_string(), home_planet.0, Personality::Balanced);

    // Some planets to colonize.
    for i in 0..10 {
        let x: i64 = 300_000 + (i as i64) * 100_000;
        let y: i64 = 300_000 + ((i * 7) % 10) as i64 * 100_000;
        game.galaxy_mut().add_planet(Position::new(x, y), 40, None);
    }

    // A hundred turns leave the counter at exactly one hundred.
    for _turn in 0..100 {
        game.advance_turn();
    }

    assert_eq!(game.turn(), 100);
}

#[test]
fn test_ai_race_identification() {
    let mut game = GameState::new(1_000_000, 1_000_000);

    // An AI race.
    let ai_home = game.galaxy_mut().add_planet(Position::new(500_000, 500_000), 100, Some(0));
    let ai_race = game.add_ai_race("AI".to_string(), ai_home.0, Personality::Balanced);

    // A player race.
    let human_home = game.galaxy_mut().add_planet(Position::new(700_000, 500_000), 100, Some(1));
    let human_race = game.add_race("Human".to_string(), human_home.0);

    assert!(game.get_race(ai_race).unwrap().is_ai_controlled());
    assert!(!game.get_race(human_race).unwrap().is_ai_controlled());
}

#[test]
fn test_end_to_end_many_factions() {
    // N factions and M >= N planets, 100 turns: no crash and the turn
    // counter lands at exactly 100.
    let mut game = GameState::with_seed(2_000_000, 2_000_000, 99);
    let personalities = [
        Personality::Aggressive,
        Personality::Defensive,
        Personality::Expansionist,
        Personality::Economic,
        Personality::Balanced,
    ];
    for (i, p) in personalities.iter().enumerate() {
        let x: i64 = 200_000 + (i as i64) * 350_000;
        let home = game.galaxy_mut().add_planet(Position::new(x, 500_000), 100, Some(i as u32));
        game.add_ai_race(format!("Faction{}", i), home.0, *p);
    }
    for i in 0..7 {
        let x: i64 = 150_000 + (i as i64) * 250_000;
        game.galaxy_mut().add_planet(Position::new(x, 1_400_000), 60, None);
    }
    assert!(game.galaxy().planets().len() >= game.races().len());

    for _ in 0..100 {
        game.advance_turn();
    }
    assert_eq!(game.turn(), 100);
}

#[test]
fn test_expansionist_gains_planets_with_materials() {
    // With ample starting materials and close targets, an expansionist
    // faction started alone owns strictly more planets after 30 turns.
    let mut game = GameState::with_seed(1_500_000, 1_500_000, 5);
    let home = game.galaxy_mut().add_planet(Position::new(750_000, 750_000), 100, Some(0));
    let race =
        game.add_ai_race("Settlers".to_string(), home.0, Personality::Expansionist);
    game.galaxy_mut().get_planet_mut(home).add_materials(1_000_000);

    for i in 0..5 {
        let angle = (i as f64) * (2.0 * std::f64::consts::PI / 5.0);
        let x = (750.0 + 100.0 * angle.cos()) * 1000.0;
        let y = (750.0 + 100.0 * angle.sin()) * 1000.0;
        game.galaxy_mut().add_planet(Position::new(x as i64, y as i64), 50, None);
    }

    for _ in 0..30 {
        game.advance_turn();
    }

    let owned = game.galaxy().planets().iter().filter(|p| p.owner() == Some(race.0)).count();
    assert!(owned > 1, "expansionist should have colonized, owns {}", owned);
}
