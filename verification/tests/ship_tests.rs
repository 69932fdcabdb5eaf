use galaxy_core::planet::PlanetId;
use galaxy_core::race::RaceId;
use galaxy_core::ship::{CargoType, Ship, ShipDesign, ShipId};

#[test]
fn ship_test_ship_mass_calculation() {
    // Fighter: drive 2.48, 1 attack, weapons 1.20, shields 1.27, cargo 0.
    let fighter = ShipDesign::new(2480, 1, 1200, 1270, 0);
    // Mass = 2.48 + 1.20 + 1.27 + 0.0 = 4.95
    assert!((fighter.ship_mass() as i64 - 4950).abs() < 10);
}

#[test]
fn ship_test_ship_mass_with_multiple_attacks() {
    // Gunship: drive 4.00, 2 attacks, weapons 2.00, shields 4.00, cargo 0.
    let gunship = ShipDesign::new(4000, 2, 2000, 4000, 0);
    // Mass = 4.0 + 2.0 + 4.0 + 0.0 + (2-1) x 2.0/2 = 11.0
    assert!((gunship.ship_mass() as i64 - 11000).abs() < 10);
}

#[test]
fn ship_test_speed_calculation() {
    // Drone: drive 1.0 and nothing else is speed 20.0 at tech 1.
    let drone = ShipDesign::new(1000, 0, 0, 0, 0);
    let speed = drone.speed(1, 0);
    assert!((speed as i64 - 20000).abs() < 10);
}

#[test]
fn ship_test_speed_with_cargo() {
    // Hauler: drive 2.0, cargo 1.0; ship mass 3.0.
    let hauler = ShipDesign::new(2000, 0, 0, 0, 1000);
    // Speed with no cargo = 20 x 1.0 x (2.0 / 3.0) = 13.33
    let speed_empty = hauler.speed(1, 0);
    assert!((speed_empty as i64 - 13330).abs() < 100);

    // Speed with cargo = 20 x 1.0 x (2.0 / (3.0 + 1.1)) = 9.75
    let speed_loaded = hauler.speed(1, 1100);
    assert!((speed_loaded as i64 - 9750).abs() < 100);
}

#[test]
fn ship_test_cargo_capacity() {
    // Freighter with cargo mass 10.0: capacity = 10 + 100/10 = 20.
    let freighter = ShipDesign::new(30000, 0, 0, 9500, 10000);
    assert_eq!(freighter.base_cargo_capacity(), 20000);
}

#[test]
fn ship_test_attack_and_defence() {
    let battleship = ShipDesign::new(33000, 3, 25000, 16000, 1000);

    // Attack = weapons mass x weapon tech = 25.0 x 2 = 50.0
    assert_eq!(battleship.attack_strength(2), 50000);

    // Defence is positive for a shielded ship.
    let defence = battleship.defence_strength(2, 0);
    assert!(defence > 0);
}

#[test]
fn test_cargo_capacity_with_tech() {
    // Freighter with cargo mass 10.0.
    let design = ShipDesign::new(5000, 0, 0, 5000, 10000);

    // Base capacity = 10 + 100/10 = 20
    assert_eq!(design.base_cargo_capacity(), 20000);

    // With tech level 1: 20 x 1 = 20
    assert_eq!(design.cargo_capacity(1), 20000);

    // With tech level 2: 20 x 2 = 40
    assert_eq!(design.cargo_capacity(2), 40000);
}

#[test]
fn test_load_cargo() {
    let design = ShipDesign::new(5000, 0, 0, 5000, 5000);
    let mut ship = Ship::new(ShipId(1), RaceId(0), design, PlanetId(0));

    // Capacity = 5 + 25/10 = 7.5 at tech 1.
    assert_eq!(ship.available_cargo(1), 7500);

    // Load 3.0 colonists.
    let loaded = ship.load_cargo(CargoType::Colonists, 3000, 1);
    assert_eq!(loaded, 3000);
    assert_eq!(ship.cargo(CargoType::Colonists), 3000);
    assert_eq!(ship.available_cargo(1), 4500);

    // Load 2.0 materials.
    let loaded = ship.load_cargo(CargoType::Materials, 2000, 1);
    assert_eq!(loaded, 2000);
    assert_eq!(ship.total_cargo(), 5000);

    // Try to load more than available (2.5 available, try 5.0).
    let loaded = ship.load_cargo(CargoType::Capital, 5000, 1);
    assert_eq!(loaded, 2500);
    assert_eq!(ship.total_cargo(), 7500);
    assert_eq!(ship.available_cargo(1), 0);
}

#[test]
fn test_unload_cargo() {
    let design = ShipDesign::new(5000, 0, 0, 5000, 10000);
    let mut ship = Ship::new(ShipId(1), RaceId(0), design, PlanetId(0));

    // Load cargo.
    ship.load_cargo(CargoType::Materials, 10000, 1);
    assert_eq!(ship.cargo(CargoType::Materials), 10000);

    // Unload 4.0.
    let unloaded = ship.unload_cargo(CargoType::Materials, 4000);
    assert_eq!(unloaded, 4000);
    assert_eq!(ship.cargo(CargoType::Materials), 6000);

    // Try to unload more than is aboard.
    let unloaded = ship.unload_cargo(CargoType::Materials, 10000);
    assert_eq!(unloaded, 6000);
    assert_eq!(ship.cargo(CargoType::Materials), 0);
}

#[test]
fn test_cargo_affects_speed() {
    let design = ShipDesign::new(10000, 0, 0, 5000, 5000);
    let mut ship = Ship::new(ShipId(1), RaceId(0), design, PlanetId(0));

    // Empty ship speed.
    let empty_speed = ship.travel_speed(1);

    // Load cargo.
    ship.load_cargo(CargoType::Materials, 5000, 1);

    // A loaded ship is slower.
    let loaded_speed = ship.travel_speed(1);
    assert!(loaded_speed < empty_speed);
}

#[test]
fn test_cargo_types_separate() {
    let design = ShipDesign::new(5000, 0, 0, 5000, 10000);
    let mut ship = Ship::new(ShipId(1), RaceId(0), design, PlanetId(0));

    ship.load_cargo(CargoType::Colonists, 3000, 1);
    ship.load_cargo(CargoType::Materials, 5000, 1);
    ship.load_cargo(CargoType::Capital, 2000, 1);

    assert_eq!(ship.cargo(CargoType::Colonists), 3000);
    assert_eq!(ship.cargo(CargoType::Materials), 5000);
    assert_eq!(ship.cargo(CargoType::Capital), 2000);
    assert_eq!(ship.total_cargo(), 10000);
}

#[test]
fn test_cargo_tech_increases_capacity() {
    let design = ShipDesign::new(5000, 0, 0, 5000, 10000);
    let mut ship = Ship::new(ShipId(1), RaceId(0), design, PlanetId(0));

    // Base capacity = 10 + 100/10 = 20; at tech 1 the capacity is 20.
    assert_eq!(ship.available_cargo(1), 20000);

    // At tech 2 the capacity is 40.
    assert_eq!(ship.available_cargo(2), 40000);

    // Load 25.0 at tech 2 (fits).
    let loaded = ship.load_cargo(CargoType::Materials, 25000, 2);
    assert_eq!(loaded, 25000);

    // But at tech 1 this exceeds capacity.
    assert!(ship.total_cargo() > ship.design().cargo_capacity(1));
}

#[test]
fn test_hull_initialises_to_shields_and_damage_clamps() {
    let design = ShipDesign::new(1000, 1, 1000, 4000, 0);
    let mut ship = Ship::new(ShipId(7), RaceId(2), design, PlanetId(3));
    assert_eq!(ship.current_hull(), 4000);
    assert!(!ship.is_destroyed());

    ship.take_damage(1500);
    assert_eq!(ship.current_hull(), 2500);

    // Damage beyond the hull clamps at zero and destroys the ship.
    ship.take_damage(9999);
    assert_eq!(ship.current_hull(), 0);
    assert!(ship.is_destroyed());
}

#[test]
fn test_immobile_without_drive() {
    let platform = ShipDesign::new(0, 2, 4000, 4000, 0);
    assert_eq!(platform.speed(5, 0), 0);
}

#[test]
fn test_defence_zero_without_shields() {
    let glass_cannon = ShipDesign::new(2000, 2, 8000, 0, 0);
    assert_eq!(glass_cannon.defence_strength(3, 0), 0);
}

#[test]
fn test_material_cost_equals_mass() {
    let design = ShipDesign::new(3000, 1, 3000, 4000, 1000);
    assert_eq!(design.material_cost(), design.ship_mass());
    assert_eq!(design.material_cost(), 11000);
}
