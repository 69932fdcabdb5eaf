use galaxy_core::combat::CombatSystem;
use galaxy_core::planet::PlanetId;
use galaxy_core::race::{RaceId, Technology, TechnologyType};
use galaxy_core::rng::GameRng;
use galaxy_core::ship::{Ship, ShipDesign, ShipId};

#[test]
fn test_kill_probability_formula() {
    // Equal attack and defence (ratio 1) -> one half.
    let p = CombatSystem::calculate_kill_probability(10_000, 10_000);
    assert!((p as i64 - 500).abs() < 10);

    // Attack four times defence (ratio 4) -> certainty.
    let p = CombatSystem::calculate_kill_probability(40_000, 10_000);
    assert!((p as i64 - 1000).abs() < 10);

    // Attack a quarter of defence (ratio 0.25) -> zero.
    let p = CombatSystem::calculate_kill_probability(10_000, 40_000);
    assert!((p as i64).abs() < 10);

    // Zero attack or defence gives zero probability exactly.
    assert_eq!(CombatSystem::calculate_kill_probability(0, 10_000), 0);
    assert_eq!(CombatSystem::calculate_kill_probability(10_000, 0), 0);
}

#[test]
fn test_combat_probabilistic() {
    // Balanced ships where kills are possible: weapons heavier than shields.
    let design1 = ShipDesign::new(1000, 1, 3000, 2000, 0);
    let design2 = ShipDesign::new(1000, 1, 3000, 2000, 0);

    let tech = Technology::new();
    let mut rng = GameRng::from_seed(42);

    let mut attacker_wins = 0;
    let mut defender_wins = 0;
    let mut both_survive = 0;
    let mut mutual_destruction = 0;

    for _ in 0..100 {
        let mut ship1 = Ship::new(ShipId(0), RaceId(0), design1, PlanetId(0));
        let mut ship2 = Ship::new(ShipId(1), RaceId(1), design2, PlanetId(1));

        let result = CombatSystem::resolve_combat(&mut ship1, &tech, &mut ship2, &tech, &mut rng);

        if result.attacker_survived && !result.defender_survived {
            attacker_wins += 1;
        } else if !result.attacker_survived && result.defender_survived {
            defender_wins += 1;
        } else if result.attacker_survived && result.defender_survived {
            both_survive += 1;
        } else {
            mutual_destruction += 1;
        }
    }

    // With equal ships and probabilistic combat the outcomes vary.
    let outcomes = [attacker_wins, defender_wins, both_survive, mutual_destruction];
    let distinct = outcomes.iter().filter(|&&x| x > 0).count();
    assert!(
        distinct >= 2,
        "combat should have varied outcomes, got: attacker={}, defender={}, both={}, mutual={}",
        attacker_wins,
        defender_wins,
        both_survive,
        mutual_destruction
    );
}

#[test]
fn test_combat_strong_vs_weak() {
    let strong_design = ShipDesign::new(2000, 1, 10_000, 20_000, 0);
    let weak_design = ShipDesign::new(1000, 1, 500, 1000, 0);

    let tech = Technology::new();
    let mut rng = GameRng::from_seed(7);

    let mut strong_wins = 0;

    for _ in 0..20 {
        let mut strong = Ship::new(ShipId(0), RaceId(0), strong_design, PlanetId(0));
        let mut weak = Ship::new(ShipId(1), RaceId(1), weak_design, PlanetId(1));

        let result = CombatSystem::resolve_combat(&mut strong, &tech, &mut weak, &tech, &mut rng);

        if result.attacker_survived && !result.defender_survived {
            strong_wins += 1;
        }
    }

    assert!(strong_wins >= 15, "the strong ship should win most combats");
}

#[test]
fn test_combat_with_technology() {
    let design = ShipDesign::new(2000, 1, 2000, 2000, 0);

    let mut tech_high = Technology::new();
    tech_high.advance(TechnologyType::Weapon);
    tech_high.advance(TechnologyType::Weapon);

    let tech_low = Technology::new();
    let mut rng = GameRng::from_seed(11);

    let mut high_tech_wins = 0;

    for _ in 0..20 {
        let mut ship1 = Ship::new(ShipId(0), RaceId(0), design, PlanetId(0));
        let mut ship2 = Ship::new(ShipId(1), RaceId(1), design, PlanetId(1));

        let result =
            CombatSystem::resolve_combat(&mut ship1, &tech_high, &mut ship2, &tech_low, &mut rng);

        if result.attacker_survived && !result.defender_survived {
            high_tech_wins += 1;
        }
    }

    assert!(high_tech_wins >= 15, "higher technology should win most combats");
}

#[test]
fn test_combat_rounds_limit() {
    // Ships that realistically cannot kill each other: negligible attack,
    // very high defence on both sides.
    let design = ShipDesign::new(1000, 1, 100, 100_000, 0);

    let tech = Technology::new();
    let mut rng = GameRng::from_seed(3);

    let mut ship1 = Ship::new(ShipId(0), RaceId(0), design, PlanetId(0));
    let mut ship2 = Ship::new(ShipId(1), RaceId(1), design, PlanetId(1));

    let result = CombatSystem::resolve_combat(&mut ship1, &tech, &mut ship2, &tech, &mut rng);

    // The encounter ends even though nobody can die.
    assert!(result.rounds <= 100, "combat must not exceed 100 rounds");
}

#[test]
fn combat_test_should_engage_different_races() {
    assert!(CombatSystem::should_engage(RaceId(0), RaceId(1)));
    assert!(!CombatSystem::should_engage(RaceId(0), RaceId(0)));
}

#[test]
fn test_certain_kill_removes_whole_hull() {
    // Attack at least four times the defence: the kill is certain, so the
    // defender loses its entire hull in the very first round.
    let attacker_design = ShipDesign::new(2000, 1, 50_000, 10_000, 0);
    let defender_design = ShipDesign::new(1000, 0, 0, 2000, 0);

    let tech = Technology::new();
    let mut rng = GameRng::from_seed(1);

    let mut attacker = Ship::new(ShipId(0), RaceId(0), attacker_design, PlanetId(0));
    let mut defender = Ship::new(ShipId(1), RaceId(1), defender_design, PlanetId(1));

    let result =
        CombatSystem::resolve_combat(&mut attacker, &tech, &mut defender, &tech, &mut rng);

    assert_eq!(result.rounds, 1);
    assert!(result.attacker_survived);
    assert!(!result.defender_survived);
    assert!(defender.is_destroyed());
    // The damage dealt is exactly the defender's starting hull.
    assert_eq!(result.attacker_damage_dealt, 2000);
    assert_eq!(result.defender_damage_dealt, 0);
}
