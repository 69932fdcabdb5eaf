//! AI policy: a stateless decision maker per faction.
//!
//! Five personality profiles parametrise one algorithm. Each turn the bot
//! reads a snapshot of the galaxy, its faction and the live ships, and emits
//! a decision batch: per-planet production assignments, ship-build orders and
//! ship-travel orders.

use crate::galaxy::{owned_ids, Galaxy};
use crate::planet::{Planet, PlanetId, ProductionType};
use crate::position::{spec_dist2, Position};
use crate::race::{Race, RaceId};
use crate::ship::{Ship, ShipDesign, ShipId, ShipLocation};
use vstd::prelude::*;

verus! {

/// Materials a planet keeps aiming for before favouring capital, in milli
/// units: enough for several ships.
pub const MATERIALS_TARGET: u64 = 50_000;

/// Behavioural personality for AI decision making.
#[derive(Debug, Clone, Copy, PartialEq, Eq, Hash, Structural)]
pub enum Personality {
    /// Builds warships, seeks combat, attacks readily.
    Aggressive,
    /// Builds defensive ships, stays near home, fortifies.
    Defensive,
    /// Builds scouts, explores aggressively, colonises rapidly.
    Expansionist,
    /// Focuses on production, capital and research.
    Economic,
    /// A mix of all strategies.
    Balanced,
}

impl Personality {
    /// Capital per owned planet the personality aims for, in milli units.
    pub open spec fn spec_capital_target(self) -> u64 {
        match self {
            Personality::Aggressive => 30_000u64,
            Personality::Defensive => 60_000u64,
            Personality::Expansionist => 40_000u64,
            Personality::Economic => 100_000u64,
            Personality::Balanced => 50_000u64,
        }
    }

    /// Share of stockpiled materials spent on ships each turn, in milli
    /// units of one.
    pub open spec fn spec_ship_building_aggression(self) -> u64 {
        match self {
            Personality::Aggressive => 1000u64,
            Personality::Defensive => 400u64,
            Personality::Expansionist => 700u64,
            Personality::Economic => 200u64,
            Personality::Balanced => 500u64,
        }
    }

    /// Share of idle ships sent out to colonise, in milli units of one.
    pub open spec fn spec_colonization_priority(self) -> u64 {
        match self {
            Personality::Aggressive => 300u64,
            Personality::Defensive => 500u64,
            Personality::Expansionist => 1000u64,
            Personality::Economic => 800u64,
            Personality::Balanced => 600u64,
        }
    }

    /// Ships the personality wants in hand before sending any out.
    pub open spec fn spec_colonization_gate(self) -> int {
        match self {
            Personality::Aggressive => 2int,
            Personality::Defensive => 1int,
            Personality::Expansionist => 0int,
            Personality::Economic => 0int,
            Personality::Balanced => 0int,
        }
    }

    /// The ship blueprint the personality builds.
    pub open spec fn spec_design(self) -> ShipDesign {
        match self {
            // Warship: heavy weapons, moderate shields.
            Personality::Aggressive => ShipDesign {
                drive_mass: 5000u64,
                attacks: 3u32,
                weapons_mass: 8000u64,
                shields_mass: 6000u64,
                cargo_mass: 0u64,
            },
            // Defensive ship: heavy shields, moderate weapons.
            Personality::Defensive => ShipDesign {
                drive_mass: 4000u64,
                attacks: 2u32,
                weapons_mass: 4000u64,
                shields_mass: 10000u64,
                cargo_mass: 0u64,
            },
            // Scout: fast and light, with room for colonists.
            Personality::Expansionist => ShipDesign {
                drive_mass: 3000u64,
                attacks: 0u32,
                weapons_mass: 0u64,
                shields_mass: 2000u64,
                cargo_mass: 2000u64,
            },
            // Colony ship: minimal combat, maximal cargo.
            Personality::Economic => ShipDesign {
                drive_mass: 2000u64,
                attacks: 0u32,
                weapons_mass: 0u64,
                shields_mass: 1000u64,
                cargo_mass: 3000u64,
            },
            // Moderate everything.
            Personality::Balanced => ShipDesign {
                drive_mass: 3000u64,
                attacks: 1u32,
                weapons_mass: 3000u64,
                shields_mass: 4000u64,
                cargo_mass: 1000u64,
            },
        }
    }

    /// Capital per owned planet the personality aims for.
    pub fn capital_target(&self) -> (r: u64)
        ensures
            r == self.spec_capital_target(),
    {
        match self {
            Personality::Aggressive => 30_000,
            Personality::Defensive => 60_000,
            Personality::Expansionist => 40_000,
            Personality::Economic => 100_000,
            Personality::Balanced => 50_000,
        }
    }

    /// How aggressively the personality spends materials on ships.
    pub fn ship_building_aggression(&self) -> (r: u64)
        ensures
            r == self.spec_ship_building_aggression(),
    {
        match self {
            Personality::Aggressive => 1000,
            Personality::Defensive => 400,
            Personality::Expansionist => 700,
            Personality::Economic => 200,
            Personality::Balanced => 500,
        }
    }

    /// The ship blueprint the personality builds.
    pub fn design_ship(&self, _race: &Race) -> (r: ShipDesign)
        ensures
            r == self.spec_design(),
    {
        match self {
            Personality::Aggressive => ShipDesign::new(5000, 3, 8000, 6000, 0),
            Personality::Defensive => ShipDesign::new(4000, 2, 4000, 10000, 0),
            Personality::Expansionist => ShipDesign::new(3000, 0, 0, 2000, 2000),
            Personality::Economic => ShipDesign::new(2000, 0, 0, 1000, 3000),
            Personality::Balanced => ShipDesign::new(3000, 1, 3000, 4000, 1000),
        }
    }

    /// Share of idle ships sent out to colonise.
    pub fn colonization_priority(&self) -> (r: u64)
        ensures
            r == self.spec_colonization_priority(),
    {
        match self {
            Personality::Aggressive => 300,
            Personality::Defensive => 500,
            Personality::Expansionist => 1000,
            Personality::Economic => 800,
            Personality::Balanced => 600,
        }
    }

    /// Whether the personality hunts for battles.
    pub fn combat_seeking(&self) -> (r: bool)
        ensures
            r == (self is Aggressive),
    {
        match self {
            Personality::Aggressive => true,
            _ => false,
        }
    }
}

/// Identities of the planets in `s` that are unowned and large enough to
/// settle, in order.
pub open spec fn colonizable_ids(s: Seq<Planet>) -> Seq<PlanetId>
    decreases s.len(),
{
    if s.len() == 0 {
        Seq::empty()
    } else {
        let rest = colonizable_ids(s.drop_last());
        if s.last().owner is None && s.last().size > 0 {
            rest.push(s.last().id)
        } else {
            rest
        }
    }
}

/// Identities of the ships in `s` owned by the given faction, in order.
pub open spec fn owned_ship_ids(s: Seq<Ship>, race_id: RaceId) -> Seq<ShipId>
    decreases s.len(),
{
    if s.len() == 0 {
        Seq::empty()
    } else {
        let rest = owned_ship_ids(s.drop_last(), race_id);
        if s.last().owner == race_id {
            rest.push(s.last().id)
        } else {
            rest
        }
    }
}

/// Sum of `f` over the planets in `s` owned by the given faction.
pub open spec fn sum_owned(s: Seq<Planet>, race_id: u32, f: spec_fn(Planet) -> int) -> int
    decreases s.len(),
{
    if s.len() == 0 {
        0int
    } else {
        sum_owned(s.drop_last(), race_id, f) + if s.last().owner == Some(race_id) {
            f(s.last())
        } else {
            0int
        }
    }
}

/// What the bot has gathered about its faction before deciding: owned
/// planets and ships, settleable targets, and faction-wide totals.
#[derive(Debug)]
pub struct BotState {
    pub owned_planets: Vec<PlanetId>,
    pub owned_ships: Vec<ShipId>,
    pub colonizable_planets: Vec<PlanetId>,
    pub total_population: u128,
    pub total_industry: u128,
    pub total_production: u128,
    pub total_materials: u128,
    pub total_capital: u128,
}

impl BotState {
    /// Faction-wide totals stay well inside `u128`: each is a sum of at most
    /// `u32::MAX` values of at most `u64::MAX`.
    pub open spec fn wf(self) -> bool {
        &&& self.total_population < 0x1000000000000000000000000
        &&& self.total_industry < 0x1000000000000000000000000
        &&& self.total_production < 0x1000000000000000000000000
        &&& self.total_materials < 0x1000000000000000000000000
        &&& self.total_capital < 0x1000000000000000000000000
    }
}

/// Order to build one ship at a planet.
#[derive(Debug, Clone, Copy, PartialEq, Eq, Structural)]
pub struct ShipBuild {
    pub planet_id: PlanetId,
    pub design: ShipDesign,
}

/// Order to send one ship to a destination planet.
#[derive(Debug, Clone, Copy, PartialEq, Eq, Structural)]
pub struct ShipMovement {
    pub ship_id: ShipId,
    pub destination: PlanetId,
}

/// One turn's decision batch.
#[derive(Debug)]
pub struct RacebotDecisions {
    pub production_orders: Vec<(PlanetId, ProductionType)>,
    pub ship_builds: Vec<ShipBuild>,
    pub ship_movements: Vec<ShipMovement>,
}

/// The production assignment the bot picks for one planet: capital while the
/// faction's average capital per planet is below the personality's target
/// and the planet can afford the conversion (at least one material and five
/// production); materials while stockpiles are short or the capital target
/// is nearly met; otherwise capital if affordable, else materials.
pub open spec fn spec_decide_production(
    personality: Personality,
    planet: Planet,
    n_owned: int,
    total_materials: int,
    total_capital: int,
) -> ProductionType {
    let avg_capital = if n_owned > 0 {
        total_capital / n_owned
    } else {
        0int
    };
    let avg_materials = if n_owned > 0 {
        total_materials / n_owned
    } else {
        0int
    };
    let affordable = planet.materials >= 1000 && planet.spec_production() >= 5000;
    if avg_capital < personality.spec_capital_target() && affordable {
        ProductionType::Capital
    } else if avg_materials < MATERIALS_TARGET {
        ProductionType::Materials
    } else if avg_capital >= personality.spec_capital_target() * 7 / 10 {
        ProductionType::Materials
    } else if affordable {
        ProductionType::Capital
    } else {
        ProductionType::Materials
    }
}

/// How many ships the bot builds: as many as the materials it is willing to
/// spend can pay for, at most one per owned planet.
pub open spec fn spec_build_count(
    personality: Personality,
    n_owned: int,
    total_materials: int,
) -> int {
    let cost = personality.spec_design().spec_ship_mass();
    let spend = total_materials * personality.spec_ship_building_aggression() / 1000;
    let affordable = spend / cost;
    if affordable <= n_owned {
        affordable
    } else {
        n_owned
    }
}

/// Euclidean distance truncated to whole units: the deliberately
/// low-precision measure candidate targets are compared by.
pub open spec fn spec_trunc_distance(a: Position, b: Position) -> int {
    crate::num::sqrt_floor(spec_dist2(a, b)) / 1000
}

/// A destination is a nearest settleable candidate from `from_pos`: it is on
/// the candidate list, it exists, and no existing candidate is strictly
/// closer by whole-unit-truncated Euclidean distance (an intentional
/// low-precision tie-break; truncation ties fall to the earliest listed
/// candidate).
pub open spec fn is_nearest_colonizable(
    galaxy: Galaxy,
    candidates: Seq<PlanetId>,
    from_pos: Position,
    dest: PlanetId,
) -> bool {
    &&& candidates.contains(dest)
    &&& (dest.0 as int) < galaxy.planets@.len()
    &&& forall|q: PlanetId|
        candidates.contains(q) && (q.0 as int) < galaxy.planets@.len() ==> spec_trunc_distance(
            from_pos,
            galaxy.planets@[dest.0 as int].position,
        ) <= spec_trunc_distance(from_pos, (#[trigger] galaxy.planets@[q.0 as int]).position)
}


/// First ship in `s` with the given identity, if any.
pub open spec fn spec_find_ship(s: Seq<Ship>, id: ShipId) -> Option<Ship>
    decreases s.len(),
{
    if s.len() == 0 {
        None
    } else if s[0].id == id {
        Some(s[0])
    } else {
        spec_find_ship(s.drop_first(), id)
    }
}

/// Some settleable candidate refers to a planet that exists.
pub open spec fn has_valid_candidate(galaxy: Galaxy, candidates: Seq<PlanetId>) -> bool {
    exists|j: int|
        0 <= j < candidates.len() && ((#[trigger] candidates[j]).0 as int) < galaxy.planets@.len()
}

/// A listed ship can be given a travel order: it resolves to a docked ship
/// whose planet exists, and some settleable candidate exists to aim at.
pub open spec fn spec_eligible(
    ships: Seq<Ship>,
    galaxy: Galaxy,
    candidates: Seq<PlanetId>,
    id: ShipId,
) -> bool {
    match spec_find_ship(ships, id) {
        Some(s) => match s.location {
            ShipLocation::AtPlanet(p) => (p.0 as int) < galaxy.planets@.len()
                && has_valid_candidate(galaxy, candidates),
            ShipLocation::Traveling { .. } => false,
        },
        None => false,
    }
}

/// How many of the listed ships can be given a travel order.
pub open spec fn eligible_count(
    owned: Seq<ShipId>,
    ships: Seq<Ship>,
    galaxy: Galaxy,
    candidates: Seq<PlanetId>,
) -> nat
    decreases owned.len(),
{
    if owned.len() == 0 {
        0nat
    } else {
        eligible_count(owned.drop_last(), ships, galaxy, candidates) + (if spec_eligible(
            ships,
            galaxy,
            candidates,
            owned.last(),
        ) {
            1nat
        } else {
            0nat
        })
    }
}

/// Travel orders a personality issues from a fleet of the given size: the
/// share set by its colonisation priority, rounded up.
pub open spec fn spec_ships_to_send(p: Personality, fleet: int) -> int {
    (fleet * p.spec_colonization_priority() + 999) / 1000
}

/// A prefix of the fleet list never holds more order-eligible ships than the
/// whole list.
proof fn lemma_eligible_count_monotone(
    owned: Seq<ShipId>,
    i: int,
    ships: Seq<Ship>,
    galaxy: Galaxy,
    candidates: Seq<PlanetId>,
)
    requires
        0 <= i <= owned.len(),
    ensures
        eligible_count(owned.subrange(0, i), ships, galaxy, candidates) <= eligible_count(
            owned,
            ships,
            galaxy,
            candidates,
        ),
    decreases owned.len() - i,
{
    if i == owned.len() {
        assert(owned.subrange(0, i) =~= owned);
    } else {
        let prefix = owned.subrange(0, i);
        let prefix1 = owned.subrange(0, i + 1);
        assert(prefix1.drop_last() =~= prefix);
        lemma_eligible_count_monotone(owned, i + 1, ships, galaxy, candidates);
    }
}

/// A travel order is sound: it moves one of the faction's own ships, the
/// ship is docked at an existing planet, and the destination is a nearest
/// settleable candidate from there.
pub open spec fn movement_ok(
    galaxy: Galaxy,
    ships: Seq<Ship>,
    owned: Seq<ShipId>,
    candidates: Seq<PlanetId>,
    m: ShipMovement,
) -> bool {
    &&& owned.contains(m.ship_id)
    &&& exists|k: int|
        0 <= k < ships.len() && (#[trigger] ships[k]).id == m.ship_id && match ships[k].location {
            ShipLocation::AtPlanet(p) => (p.0 as int) < galaxy.planets@.len()
                && is_nearest_colonizable(
                galaxy,
                candidates,
                galaxy.planets@[p.0 as int].position,
                m.destination,
            ),
            ShipLocation::Traveling { .. } => false,
        }
}


/// What a decision batch from one bot looks like: one production assignment
/// per owned planet by the personality's rule, ship builds for the first
/// owned planets as far as the personality's materials budget reaches, and
/// sound travel orders gated and counted by its colonisation priority.
pub open spec fn decisions_match(
    galaxy: Galaxy,
    rid: RaceId,
    personality: Personality,
    ships: Seq<Ship>,
    production_orders: Seq<(PlanetId, ProductionType)>,
    ship_builds: Seq<ShipBuild>,
    ship_movements: Seq<ShipMovement>,
) -> bool {
    let owned = owned_ids(galaxy.planets@, rid.0);
    let totals_materials = sum_owned(galaxy.planets@, rid.0, |p: Planet| p.materials as int);
    let totals_capital = sum_owned(galaxy.planets@, rid.0, |p: Planet| p.capital as int);
    &&& production_orders.len() == owned.len()
    &&& forall|j: int|
        0 <= j < owned.len() ==> (#[trigger] production_orders[j]) == (
        owned[j],
        spec_decide_production(
            personality,
            galaxy.planets@[owned[j].0 as int],
            owned.len() as int,
            totals_materials,
            totals_capital,
        ),
    )
    &&& ship_builds.len() == spec_build_count(personality, owned.len() as int, totals_materials)
    &&& forall|j: int|
        0 <= j < ship_builds.len() ==> #[trigger] ship_builds[j] == (ShipBuild {
            planet_id: owned[j],
            design: personality.spec_design(),
        })
    &&& forall|j: int|
        0 <= j < ship_movements.len() ==> movement_ok(
            galaxy,
            ships,
            owned_ship_ids(ships, rid),
            colonizable_ids(galaxy.planets@),
            #[trigger] ship_movements[j],
        )
    &&& (owned_ship_ids(ships, rid).len() as int) < personality.spec_colonization_gate()
        ==> ship_movements.len() == 0
    &&& (owned_ship_ids(ships, rid).len() as int) >= personality.spec_colonization_gate()
        ==> ship_movements.len() as int == ({
        let ts = spec_ships_to_send(personality, owned_ship_ids(ships, rid).len() as int);
        let avail = eligible_count(
            owned_ship_ids(ships, rid),
            ships,
            galaxy,
            colonizable_ids(galaxy.planets@),
        ) as int;
        if ts <= avail {
            ts
        } else {
            avail
        }
    })
}

/// AI controller for one faction.
#[derive(Debug)]
pub struct Racebot {
    pub race_id: RaceId,
    pub personality: Personality,
}

impl Racebot {
    pub fn with_personality(race_id: RaceId, personality: Personality) -> (r: Self)
        ensures
            r.race_id == race_id,
            r.personality == personality,
    {
        Self { race_id, personality }
    }

    pub fn race_id(&self) -> (r: RaceId)
        ensures
            r == self.race_id,
    {
        self.race_id
    }

    /// Gather the snapshot the decisions are made from: owned planets with
    /// faction-wide totals, owned ships, and settleable planets.
    pub fn analyze_state(&self, galaxy: &Galaxy, _race: &Race, ships: &Vec<Ship>) -> (r: BotState)
        requires
            galaxy.wf(),
        ensures
            r.wf(),
            r.owned_planets@ == owned_ids(galaxy.planets@, self.race_id.0),
            r.owned_ships@ == owned_ship_ids(ships@, self.race_id),
            r.colonizable_planets@ == colonizable_ids(galaxy.planets@),
            r.total_population == sum_owned(
                galaxy.planets@,
                self.race_id.0,
                |p: Planet| p.population as int,
            ),
            r.total_industry == sum_owned(
                galaxy.planets@,
                self.race_id.0,
                |p: Planet| p.industry as int,
            ),
            r.total_production == sum_owned(
                galaxy.planets@,
                self.race_id.0,
                |p: Planet| p.spec_production(),
            ),
            r.total_materials == sum_owned(
                galaxy.planets@,
                self.race_id.0,
                |p: Planet| p.materials as int,
            ),
            r.total_capital == sum_owned(
                galaxy.planets@,
                self.race_id.0,
                |p: Planet| p.capital as int,
            ),
    {
        let rid = self.race_id.0;
        let n = galaxy.planets().len();
        let mut owned_planets: Vec<PlanetId> = Vec::new();
        let mut colonizable: Vec<PlanetId> = Vec::new();
        let mut total_population: u128 = 0;
        let mut total_industry: u128 = 0;
        let mut total_production: u128 = 0;
        let mut total_materials: u128 = 0;
        let mut total_capital: u128 = 0;
        let mut i: usize = 0;
        while i < n
            invariant
                i <= n,
                galaxy.wf(),
                n == galaxy.planets@.len(),
                owned_planets@ == owned_ids(galaxy.planets@.subrange(0, i as int), rid),
                colonizable@ == colonizable_ids(galaxy.planets@.subrange(0, i as int)),
                total_population == sum_owned(
                    galaxy.planets@.subrange(0, i as int),
                    rid,
                    |p: Planet| p.population as int,
                ),
                total_industry == sum_owned(
                    galaxy.planets@.subrange(0, i as int),
                    rid,
                    |p: Planet| p.industry as int,
                ),
                total_production == sum_owned(
                    galaxy.planets@.subrange(0, i as int),
                    rid,
                    |p: Planet| p.spec_production(),
                ),
                total_materials == sum_owned(
                    galaxy.planets@.subrange(0, i as int),
                    rid,
                    |p: Planet| p.materials as int,
                ),
                total_capital == sum_owned(
                    galaxy.planets@.subrange(0, i as int),
                    rid,
                    |p: Planet| p.capital as int,
                ),
                total_population <= i * 0xFFFFFFFFFFFFFFFF,
                total_industry <= i * 0xFFFFFFFFFFFFFFFF,
                total_production <= i * 0xFFFFFFFFFFFFFFFF,
                total_materials <= i * 0xFFFFFFFFFFFFFFFF,
                total_capital <= i * 0xFFFFFFFFFFFFFFFF,
            decreases n - i,
        {
            let ghost prefix = galaxy.planets@.subrange(0, i as int);
            let ghost prefix1 = galaxy.planets@.subrange(0, i as int + 1);
            proof {
                assert(prefix1.drop_last() =~= prefix);
                assert(prefix1.last() == galaxy.planets@[i as int]);
            }
            let p = &galaxy.planets()[i];
            let owned_here = match p.owner {
                Some(o) => o == rid,
                None => false,
            };
            if owned_here {
                owned_planets.push(p.id);
                total_population = total_population + (p.population as u128);
                total_industry = total_industry + (p.industry as u128);
                total_production = total_production + (p.production() as u128);
                total_materials = total_materials + (p.materials as u128);
                total_capital = total_capital + (p.capital as u128);
            }
            let colonizable_here = match p.owner {
                Some(_) => false,
                None => p.size > 0,
            };
            if colonizable_here {
                colonizable.push(p.id);
            }
            i = i + 1;
        }
        proof {
            assert(galaxy.planets@.subrange(0, n as int) =~= galaxy.planets@);
        }
        let m = ships.len();
        let mut owned_ships: Vec<ShipId> = Vec::new();
        let mut j: usize = 0;
        while j < m
            invariant
                j <= m,
                m == ships@.len(),
                owned_ships@ == owned_ship_ids(ships@.subrange(0, j as int), self.race_id),
            decreases m - j,
        {
            let ghost prefix = ships@.subrange(0, j as int);
            let ghost prefix1 = ships@.subrange(0, j as int + 1);
            proof {
                assert(prefix1.drop_last() =~= prefix);
                assert(prefix1.last() == ships@[j as int]);
            }
            let s = &ships[j];
            if s.owner.0 == self.race_id.0 {
                proof {
                    assert(s.owner == self.race_id);
                }
                owned_ships.push(s.id);
            }
            j = j + 1;
        }
        proof {
            assert(ships@.subrange(0, m as int) =~= ships@);
        }
        BotState {
            owned_planets,
            owned_ships,
            colonizable_planets: colonizable,
            total_population,
            total_industry,
            total_production,
            total_materials,
            total_capital,
        }
    }

    /// Pick the production assignment for one planet.
    pub fn decide_production(&self, planet: &Planet, state: &BotState) -> (r: ProductionType)
        requires
            planet.wf(),
        ensures
            r == spec_decide_production(
                self.personality,
                *planet,
                state.owned_planets@.len() as int,
                state.total_materials as int,
                state.total_capital as int,
            ),
    {
        let n = state.owned_planets.len();
        let avg_capital: u128 = if n > 0 {
            state.total_capital / (n as u128)
        } else {
            0
        };
        let avg_materials: u128 = if n > 0 {
            state.total_materials / (n as u128)
        } else {
            0
        };
        let capital_target = self.personality.capital_target();
        let affordable = planet.materials() >= 1000 && planet.production() >= 5000;
        if avg_capital < capital_target as u128 && affordable {
            return ProductionType::Capital;
        }
        if avg_materials < MATERIALS_TARGET as u128 {
            return ProductionType::Materials;
        }
        if avg_capital >= (capital_target as u128) * 7 / 10 {
            return ProductionType::Materials;
        }
        if affordable {
            ProductionType::Capital
        } else {
            ProductionType::Materials
        }
    }

    /// Order one ship of the personality's blueprint at each of the first
    /// owned planets, as many as the materials the personality is willing to
    /// spend can pay for.
    pub fn decide_ship_builds(&self, state: &BotState, race: &Race) -> (r: Vec<ShipBuild>)
        requires
            state.wf(),
        ensures
            r@.len() == spec_build_count(
                self.personality,
                state.owned_planets@.len() as int,
                state.total_materials as int,
            ),
            forall|j: int|
                0 <= j < r@.len() ==> #[trigger] r@[j] == (ShipBuild {
                    planet_id: state.owned_planets@[j],
                    design: self.personality.spec_design(),
                }),
    {
        let design = self.personality.design_ship(race);
        let cost = design.material_cost();
        proof {
            match self.personality {
                Personality::Aggressive => assert(cost > 0),
                Personality::Defensive => assert(cost > 0),
                Personality::Expansionist => assert(cost > 0),
                Personality::Economic => assert(cost > 0),
                Personality::Balanced => assert(cost > 0),
            }
        }
        let aggression = self.personality.ship_building_aggression();
        let to_spend: u128 = state.total_materials * (aggression as u128) / 1000;
        proof {
            assert((state.total_materials as int) * (aggression as int) < 0x1000000000000000000000000
                * 1000) by (nonlinear_arith)
                requires
                    state.total_materials < 0x1000000000000000000000000u128,
                    aggression <= 1000u64,
            ;
        }
        let affordable: u128 = to_spend / (cost as u128);
        let n = state.owned_planets.len();
        let count: usize = if affordable <= n as u128 {
            affordable as usize
        } else {
            n
        };
        let mut builds: Vec<ShipBuild> = Vec::new();
        let mut i: usize = 0;
        while i < count
            invariant
                i <= count,
                count <= state.owned_planets@.len(),
                builds@.len() == i,
                forall|j: int|
                    0 <= j < i ==> #[trigger] builds@[j] == (ShipBuild {
                        planet_id: state.owned_planets@[j],
                        design: self.personality.spec_design(),
                    }),
                design == self.personality.spec_design(),
            decreases count - i,
        {
            builds.push(ShipBuild { planet_id: state.owned_planets[i], design });
            i = i + 1;
        }
        builds
    }

    /// Send idle ships to the nearest settleable planets: none before the
    /// personality's pre-colonisation gate is met, then a share of the fleet
    /// set by its colonisation priority, rounded up.
    pub fn decide_ship_movements(
        &self,
        state: &BotState,
        ships: &Vec<Ship>,
        galaxy: &Galaxy,
    ) -> (r: Vec<ShipMovement>)
        requires
            galaxy.wf(),
        ensures
            forall|j: int|
                0 <= j < r@.len() ==> movement_ok(
                    *galaxy,
                    ships@,
                    state.owned_ships@,
                    state.colonizable_planets@,
                    #[trigger] r@[j],
                ),
            (state.owned_ships@.len() as int) < self.personality.spec_colonization_gate() ==> r@
                .len() == 0,
            (state.owned_ships@.len() as int) >= self.personality.spec_colonization_gate() ==> r@
                .len() as int == ({
                let ts = spec_ships_to_send(
                    self.personality,
                    state.owned_ships@.len() as int,
                );
                let avail = eligible_count(
                    state.owned_ships@,
                    ships@,
                    *galaxy,
                    state.colonizable_planets@,
                ) as int;
                if ts <= avail {
                    ts
                } else {
                    avail
                }
            }),
    {
        let mut movements: Vec<ShipMovement> = Vec::new();
        let gate: usize = match self.personality {
            Personality::Aggressive => 2,
            Personality::Defensive => 1,
            _ => 0,
        };
        if state.owned_ships.len() < gate {
            return movements;
        }
        let priority = self.personality.colonization_priority();
        let fleet = state.owned_ships.len();
        proof {
            assert((fleet as int) * (priority as int) + 999 < 0xFFFFFFFFFFFFFFFFFFFFFFFFFFFFFFFF)
                by (nonlinear_arith)
                requires
                    (fleet as int) <= 0xFFFFFFFFFFFFFFFF,
                    priority <= 1000u64,
            ;
        }
        let ships_to_send: u128 = ((fleet as u128) * (priority as u128) + 999) / 1000;
        let mut sent: u128 = 0;
        let mut i: usize = 0;
        while i < fleet && sent < ships_to_send
            invariant
                i <= fleet,
                fleet == state.owned_ships@.len(),
                galaxy.wf(),
                ships_to_send == spec_ships_to_send(self.personality, fleet as int),
                sent == movements@.len(),
                sent <= ships_to_send,
                sent == eligible_count(
                    state.owned_ships@.subrange(0, i as int),
                    ships@,
                    *galaxy,
                    state.colonizable_planets@,
                ),
                forall|j: int|
                    0 <= j < movements@.len() ==> movement_ok(
                        *galaxy,
                        ships@,
                        state.owned_ships@,
                        state.colonizable_planets@,
                        #[trigger] movements@[j],
                    ),
            decreases fleet - i,
        {
            let ghost prefix = state.owned_ships@.subrange(0, i as int);
            let ghost prefix1 = state.owned_ships@.subrange(0, i as int + 1);
            proof {
                assert(prefix1.drop_last() =~= prefix);
                assert(prefix1.last() == state.owned_ships@[i as int]);
            }
            let ship_id = state.owned_ships[i];
            match find_ship(ships, ship_id) {
                Some(ship) => {
                    match ship.location {
                        ShipLocation::AtPlanet(current_planet) => {
                            match self.find_nearest_colonizable(current_planet, state, galaxy) {
                                Some(target) => {
                                    proof {
                                        assert(state.owned_ships@.contains(ship_id)) by {
                                            assert(state.owned_ships@[i as int] == ship_id);
                                        }
                                        assert(spec_eligible(
                                            ships@,
                                            *galaxy,
                                            state.colonizable_planets@,
                                            ship_id,
                                        ));
                                    }
                                    movements.push(
                                        ShipMovement { ship_id, destination: target },
                                    );
                                    sent = sent + 1;
                                },
                                None => {
                                    proof {
                                        assert(!spec_eligible(
                                            ships@,
                                            *galaxy,
                                            state.colonizable_planets@,
                                            ship_id,
                                        ));
                                    }
                                },
                            }
                        },
                        ShipLocation::Traveling { .. } => {
                            proof {
                                assert(!spec_eligible(
                                    ships@,
                                    *galaxy,
                                    state.colonizable_planets@,
                                    ship_id,
                                ));
                            }
                        },
                    }
                },
                None => {
                    proof {
                        assert(!spec_eligible(
                            ships@,
                            *galaxy,
                            state.colonizable_planets@,
                            ship_id,
                        ));
                    }
                },
            }
            i = i + 1;
        }
        proof {
            if i == fleet {
                assert(state.owned_ships@.subrange(0, fleet as int) =~= state.owned_ships@);
            } else {
                assert(sent == ships_to_send);
                lemma_eligible_count_monotone(
                    state.owned_ships@,
                    i as int,
                    ships@,
                    *galaxy,
                    state.colonizable_planets@,
                );
            }
        }
        movements
    }

    /// Among the settleable candidates that exist, the one closest to the
    /// given planet by whole-unit-truncated Euclidean distance, earliest
    /// listed first.
    pub fn find_nearest_colonizable(
        &self,
        from: PlanetId,
        state: &BotState,
        galaxy: &Galaxy,
    ) -> (r: Option<PlanetId>)
        requires
            galaxy.wf(),
        ensures
            r matches Some(dest) ==> (from.0 as int) < galaxy.planets@.len()
                && is_nearest_colonizable(
                *galaxy,
                state.colonizable_planets@,
                galaxy.planets@[from.0 as int].position,
                dest,
            ),
            (r is Some) == ((from.0 as int) < galaxy.planets@.len() && has_valid_candidate(
                *galaxy,
                state.colonizable_planets@,
            )),
    {
        let from_planet = match galaxy.get_planet(from) {
            Some(p) => p,
            None => {
                return None;
            },
        };
        let from_pos = from_planet.position;
        let n = state.colonizable_planets.len();
        let mut best: Option<PlanetId> = None;
        let mut best_dist: u64 = 0;
        let mut i: usize = 0;
        while i < n
            invariant
                i <= n,
                galaxy.wf(),
                n == state.colonizable_planets@.len(),
                from_pos == galaxy.planets@[from.0 as int].position,
                (from.0 as int) < galaxy.planets@.len(),
                from_pos.wf(),
                best is None ==> forall|j: int|
                    0 <= j < i ==> (state.colonizable_planets@[j].0 as int) >= galaxy.planets@.len(),
                best matches Some(b) ==> {
                    &&& state.colonizable_planets@.subrange(0, i as int).contains(b)
                    &&& (b.0 as int) < galaxy.planets@.len()
                    &&& best_dist == spec_trunc_distance(
                        from_pos,
                        galaxy.planets@[b.0 as int].position,
                    )
                    &&& forall|j: int|
                        0 <= j < i && ((#[trigger] state.colonizable_planets@[j]).0 as int)
                            < galaxy.planets@.len() ==> best_dist <= spec_trunc_distance(
                            from_pos,
                            galaxy.planets@[state.colonizable_planets@[j].0 as int].position,
                        )
                },
            decreases n - i,
        {
            let candidate = state.colonizable_planets[i];
            match galaxy.get_planet(candidate) {
                Some(planet) => {
                    let d = from_pos.distance_to(&planet.position) / 1000;
                    let better = match best {
                        Some(_) => d < best_dist,
                        None => true,
                    };
                    if better {
                        best = Some(candidate);
                        best_dist = d;
                        proof {
                            assert(state.colonizable_planets@.subrange(0, i as int + 1).contains(
                                candidate,
                            )) by {
                                assert(state.colonizable_planets@.subrange(0, i as int + 1)[
                                    i as int] == candidate);
                            }
                        }
                    }
                },
                None => {},
            }
            proof {
                match best {
                    Some(b) => {
                        assert(state.colonizable_planets@.subrange(0, i as int + 1).contains(b))
                            by {
                            let s0 = state.colonizable_planets@.subrange(0, i as int);
                            let s1 = state.colonizable_planets@.subrange(0, i as int + 1);
                            if s0.contains(b) {
                                let k = choose|k: int| 0 <= k < s0.len() && s0[k] == b;
                                assert(s1[k] == b);
                            }
                        }
                    },
                    None => {},
                }
            }
            i = i + 1;
        }
        proof {
            assert(state.colonizable_planets@.subrange(0, n as int)
                =~= state.colonizable_planets@);
            match best {
                Some(b) => {
                    let j = choose|j: int|
                        0 <= j < state.colonizable_planets@.len()
                            && state.colonizable_planets@[j] == b;
                    assert((state.colonizable_planets@[j].0 as int) < galaxy.planets@.len());
                },
                None => {
                    assert(!has_valid_candidate(*galaxy, state.colonizable_planets@)) by {
                        assert(forall|j: int|
                            0 <= j < state.colonizable_planets@.len() ==> ((
                            #[trigger] state.colonizable_planets@[j]).0 as int)
                                >= galaxy.planets@.len());
                    }
                },
            }
        }
        best
    }

    /// Produce the whole decision batch for this turn: a production
    /// assignment per owned planet, the ship builds, and the travel orders.
    pub fn make_decisions(&self, galaxy: &Galaxy, race: &Race, ships: &Vec<Ship>) -> (r:
        RacebotDecisions)
        requires
            galaxy.wf(),
        ensures
            decisions_match(
                *galaxy,
                self.race_id,
                self.personality,
                ships@,
                r.production_orders@,
                r.ship_builds@,
                r.ship_movements@,
            ),
    {
        let state = self.analyze_state(galaxy, race, ships);
        proof {
            crate::galaxy::lemma_owned_ids_valid(galaxy.planets@, self.race_id.0);
        }
        let n_owned = state.owned_planets.len();
        let mut production_orders: Vec<(PlanetId, ProductionType)> = Vec::new();
        let mut i: usize = 0;
        while i < n_owned
            invariant
                i <= n_owned,
                galaxy.wf(),
                n_owned == state.owned_planets@.len(),
                state.owned_planets@ == owned_ids(galaxy.planets@, self.race_id.0),
                forall|j: int|
                    0 <= j < n_owned ==> ((#[trigger] state.owned_planets@[j]).0 as int)
                        < galaxy.planets@.len(),
                production_orders@.len() == i,
                forall|j: int|
                    0 <= j < i ==> (#[trigger] production_orders@[j]) == (
                    state.owned_planets@[j],
                    spec_decide_production(
                        self.personality,
                        galaxy.planets@[state.owned_planets@[j].0 as int],
                        state.owned_planets@.len() as int,
                        state.total_materials as int,
                        state.total_capital as int,
                    ),
                ),
            decreases n_owned - i,
        {
            let planet_id = state.owned_planets[i];
            match galaxy.get_planet(planet_id) {
                Some(planet) => {
                    let production = self.decide_production(planet, &state);
                    production_orders.push((planet_id, production));
                },
                None => {
                    proof {
                        assert(false);
                    }
                },
            }
            i = i + 1;
        }
        let ship_builds = self.decide_ship_builds(&state, race);
        let ship_movements = self.decide_ship_movements(&state, ships, galaxy);
        RacebotDecisions { production_orders, ship_builds, ship_movements }
    }
}

/// First ship with the given identity, if any.
fn find_ship(ships: &Vec<Ship>, id: ShipId) -> (r: Option<&Ship>)
    ensures
        r matches Some(s) ==> exists|k: int|
            0 <= k < ships@.len() && *s == ships@[k] && (#[trigger] ships@[k]).id == id,
        match r {
            Some(s) => spec_find_ship(ships@, id) == Some(*s),
            None => spec_find_ship(ships@, id) is None,
        },
{
    let n = ships.len();
    let mut i: usize = 0;
    proof {
        assert(ships@.skip(0) =~= ships@);
    }
    while i < n
        invariant
            i <= n,
            n == ships@.len(),
            spec_find_ship(ships@, id) == spec_find_ship(ships@.skip(i as int), id),
        decreases n - i,
    {
        let ghost rest = ships@.skip(i as int);
        proof {
            assert(rest.len() == n - i);
            assert(rest[0] == ships@[i as int]);
            assert(rest.drop_first() =~= ships@.skip(i as int + 1));
        }
        if ships[i].id.0 == id.0 {
            proof {
                assert(ships@[i as int].id == id);
            }
            return Some(&ships[i]);
        }
        proof {
            assert(ships@[i as int].id != id);
        }
        i = i + 1;
    }
    proof {
        assert(ships@.skip(n as int).len() == 0);
    }
    None
}

} // verus!
