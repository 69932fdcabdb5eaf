use galaxy_core::planet::{Planet, PlanetId, ProductionType};
use galaxy_core::position::Position;

fn home(size: u32) -> Planet {
    Planet::new_home_planet(PlanetId(1), Position::new(100_000, 100_000), size, 0)
}

#[test]
fn test_population_growth() {
    // Size larger than population.
    let mut planet = home(200);

    // Start population below size.
    assert!(planet.set_population(100_000, 100_000));

    // Grow population by 8%.
    planet.grow_population();
    assert!((planet.population() as i64 - 108_000).abs() < 100);
}

#[test]
fn test_population_excess_becomes_colonists() {
    // Size equals population.
    let mut planet = home(100);

    assert_eq!(planet.population(), 100_000);
    assert_eq!(planet.colonists(), 0);

    // Population is at size, so growth creates colonists: (108-100)/8 = 1.0.
    planet.grow_population();
    assert_eq!(planet.population(), 100_000);
    assert!(planet.colonists() > 0);
    assert!((planet.colonists() as i64 - 1000).abs() < 100);
}

#[test]
fn test_production_formula() {
    let mut planet = home(500);

    // Production = industry + (population - industry) / 4.
    // With 500 pop and 500 industry: 500 + 0 = 500.
    assert_eq!(planet.production(), 500_000);

    // With 500 pop and 250 industry: 250 + 250/4 = 312.5.
    assert!(planet.set_population(500_000, 250_000));
    assert_eq!(planet.production(), 312_500);
}

#[test]
fn test_material_production_with_resources() {
    let mut planet = home(100);

    // A home planet has resources 10.0 and production 100.0:
    // material production = 100.0 x 10.0 = 1000.0.
    assert_eq!(planet.material_production(), 1_000_000);

    // Change resources.
    planet.set_resources(5000);
    assert_eq!(planet.material_production(), 500_000);
}

#[test]
fn test_capital_increases_industry() {
    let mut planet = home(500);

    assert!(planet.set_population(500_000, 200_000));
    planet.add_capital(100_000);

    // Growth moves capital into industry, up to the population level.
    planet.grow_population();

    assert!(planet.industry() > 200_000);
    assert!(planet.capital() < 100_000);
}

#[test]
fn test_capital_production_with_materials() {
    let mut planet = home(100);

    planet.set_production_type(ProductionType::Capital);
    planet.add_materials(100_000);

    // Production 100 with plenty of materials: 20 capital for 20 materials.
    planet.execute_production();

    assert_eq!(planet.capital(), 20_000);
    assert_eq!(planet.materials(), 80_000);
}

#[test]
fn test_capital_production_auto_materials() {
    let mut planet = home(100);

    planet.set_production_type(ProductionType::Capital);
    planet.set_resources(10_000);
    // No stockpile, production 100, resources 10: the budget splits so the
    // materials produced exactly pay for the capital produced:
    // capital = 100 x 10 / (5 x 10 + 1) = 19.6.
    planet.execute_production();

    assert!(planet.capital() > 0);
    assert!((planet.capital() as i64 - 19_607).abs() < 500);
    assert_eq!(planet.materials(), 0);
}

#[test]
fn test_materials_production() {
    let mut planet = home(100);

    planet.set_production_type(ProductionType::Materials);
    planet.set_resources(5000);

    planet.execute_production();

    // Production 100 x resources 5.0 = 500.
    assert_eq!(planet.materials(), 500_000);
}

#[test]
fn test_unowned_planet_neither_produces_nor_grows() {
    let mut planet = Planet::new(PlanetId(3), Position::new(0, 0), 80, None);
    assert!(planet.set_population(10_000, 5_000));
    planet.set_production_type(ProductionType::Materials);

    planet.execute_production();
    assert_eq!(planet.materials(), 0);

    planet.grow_population();
    assert_eq!(planet.population(), 10_000);
    assert_eq!(planet.colonists(), 0);
}

#[test]
fn test_consume_materials_is_checked() {
    let mut planet = home(100);
    planet.add_materials(5_000);

    // Too much: fails without any debit.
    assert!(!planet.consume_materials(6_000));
    assert_eq!(planet.materials(), 5_000);

    // Exactly covered: succeeds.
    assert!(planet.consume_materials(5_000));
    assert_eq!(planet.materials(), 0);
}

#[test]
fn test_consume_capital_is_checked() {
    let mut planet = home(100);
    planet.add_capital(2_000);

    assert!(!planet.consume_capital(2_001));
    assert_eq!(planet.capital(), 2_000);

    assert!(planet.consume_capital(1_500));
    assert_eq!(planet.capital(), 500);
}

#[test]
fn test_population_never_exceeds_size() {
    let mut planet = home(100);
    for _ in 0..50 {
        planet.grow_population();
        assert!(planet.population() <= 100_000);
    }
}
