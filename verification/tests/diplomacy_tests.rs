use galaxy_core::diplomacy::{Diplomacy, Relationship};
use galaxy_core::race::RaceId;

#[test]
fn test_default_relationship_is_neutral() {
    let diplomacy = Diplomacy::new();
    let race1 = RaceId(0);
    let race2 = RaceId(1);

    assert_eq!(diplomacy.get_relationship(race1, race2), Relationship::Neutral);
}

#[test]
fn test_self_relationship_is_friendly() {
    let diplomacy = Diplomacy::new();
    let race = RaceId(0);

    assert_eq!(diplomacy.get_relationship(race, race), Relationship::Friendly);
}

#[test]
fn test_set_and_get_relationship() {
    let mut diplomacy = Diplomacy::new();
    let race1 = RaceId(0);
    let race2 = RaceId(1);

    diplomacy.set_relationship(race1, race2, Relationship::Hostile);
    assert_eq!(diplomacy.get_relationship(race1, race2), Relationship::Hostile);

    // Lookups are symmetric.
    assert_eq!(diplomacy.get_relationship(race2, race1), Relationship::Hostile);
}

#[test]
fn test_make_hostile() {
    let mut diplomacy = Diplomacy::new();
    let race1 = RaceId(0);
    let race2 = RaceId(1);

    diplomacy.make_hostile(race1, race2);
    assert!(diplomacy.are_hostile(race1, race2));
    assert!(diplomacy.should_attack(race1, race2));
}

#[test]
fn test_friendly_relationship() {
    let mut diplomacy = Diplomacy::new();
    let race1 = RaceId(0);
    let race2 = RaceId(1);

    diplomacy.set_relationship(race1, race2, Relationship::Friendly);
    assert!(diplomacy.are_friendly(race1, race2));
    assert!(!diplomacy.should_attack(race1, race2));
}

#[test]
fn test_make_hostile_symmetric_and_idempotent() {
    let mut diplomacy = Diplomacy::new();
    let a = RaceId(3);
    let b = RaceId(9);

    diplomacy.make_hostile(a, b);
    assert!(diplomacy.are_hostile(b, a));
    assert!(diplomacy.should_attack(b, a));

    // A second declaration changes nothing.
    diplomacy.make_hostile(b, a);
    assert!(diplomacy.are_hostile(a, b));
    assert_eq!(diplomacy.get_relationship(a, b), Relationship::Hostile);
}

#[test]
fn test_self_writes_are_ignored() {
    let mut diplomacy = Diplomacy::new();
    let a = RaceId(5);

    diplomacy.set_relationship(a, a, Relationship::Hostile);
    assert_eq!(diplomacy.get_relationship(a, a), Relationship::Friendly);
    assert!(!diplomacy.should_attack(a, a));
}

#[test]
fn test_overwriting_relationship() {
    let mut diplomacy = Diplomacy::new();
    let a = RaceId(0);
    let b = RaceId(2);

    diplomacy.make_hostile(a, b);
    diplomacy.set_relationship(a, b, Relationship::Friendly);
    assert!(diplomacy.are_friendly(b, a));

    // An unrelated pair stays neutral throughout.
    assert_eq!(diplomacy.get_relationship(RaceId(0), RaceId(1)), Relationship::Neutral);
}
