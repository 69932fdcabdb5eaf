//! Ship designs, derived combat statistics, and mobile units.
//!
//! All masses and cargo quantities are in milli units; technology levels are
//! whole integers. A design's statistics are pure functions of its four
//! masses, the attack-mount count, the relevant technology level and the
//! cargo carried.

use crate::num::{cbrt_floor, icbrt, sat64, sat_add, sat_sub, SCALE};
use crate::planet::PlanetId;
use crate::race::RaceId;
use vstd::prelude::*;

verus! {

/// Unique identifier for a ship.
#[derive(Debug, Clone, Copy, PartialEq, Eq, Hash, Structural)]
pub struct ShipId(pub u32);

/// Numerator of the defence-strength cube root: 30 times `SCALE` to the
/// fourth power, so that dividing by a laden mass in milli units and taking
/// the cube root yields the cube root of 30 over the mass, in milli units.
pub const DEFENCE_CUBE_NUM: u64 = 30_000_000_000_000;

/// Progress steps for one whole trip between two planets.
pub const PROGRESS_ONE: u64 = 1_000_000_000;

/// An immutable ship blueprint: drive, weapons, shields and cargo masses in
/// milli units plus the number of attack mounts.
#[derive(Debug, Clone, Copy, PartialEq, Eq, Structural)]
pub struct ShipDesign {
    pub drive_mass: u64,
    pub attacks: u32,
    pub weapons_mass: u64,
    pub shields_mass: u64,
    pub cargo_mass: u64,
}

impl ShipDesign {
    /// Total mass: the four masses plus half a weapons mass for each attack
    /// mount beyond the first.
    pub open spec fn spec_ship_mass(self) -> int {
        sat64(
            self.drive_mass + self.weapons_mass + self.shields_mass + self.cargo_mass + (
            if self.attacks > 1 {
                (self.attacks - 1) * self.weapons_mass / 2
            } else {
                0int
            }),
        )
    }

    /// Speed at a drive technology level with the given cargo aboard:
    /// 20 * tech * drive / (mass + cargo); zero for a ship without a drive.
    pub open spec fn spec_speed(self, drive_tech: u32, cargo_carried: u64) -> int {
        if self.drive_mass == 0 {
            0int
        } else {
            sat64(
                20 * drive_tech * self.drive_mass * SCALE / (self.spec_ship_mass()
                    + cargo_carried),
            )
        }
    }

    /// Attack strength: weapons mass times the weapon technology level.
    pub open spec fn spec_attack_strength(self, weapons_tech: u32) -> int {
        sat64(self.weapons_mass * weapons_tech)
    }

    /// Defence strength: shields mass times the shield technology level,
    /// divided by the cube root of the laden mass and scaled by the cube
    /// root of 30; zero for a ship without shields.
    pub open spec fn spec_defence_strength(self, shields_tech: u32, cargo_carried: u64) -> int {
        if self.shields_mass == 0 {
            0int
        } else {
            sat64(
                self.shields_mass * shields_tech * cbrt_floor(
                    (DEFENCE_CUBE_NUM as int) / (self.spec_ship_mass() + cargo_carried),
                ) / (SCALE as int),
            )
        }
    }

    /// Unscaled cargo capacity: cargo mass plus its square over ten.
    pub open spec fn spec_base_cargo_capacity(self) -> int {
        sat64(self.cargo_mass + self.cargo_mass * self.cargo_mass / (10 * SCALE as int))
    }

    /// Cargo capacity at a cargo technology level.
    pub open spec fn spec_cargo_capacity(self, cargo_tech: u32) -> int {
        sat64(self.spec_base_cargo_capacity() * cargo_tech)
    }

    pub fn new(drive_mass: u64, attacks: u32, weapons_mass: u64, shields_mass: u64, cargo_mass: u64)
        -> (r: Self)
        ensures
            r == (ShipDesign { drive_mass, attacks, weapons_mass, shields_mass, cargo_mass }),
    {
        Self { drive_mass, attacks, weapons_mass, shields_mass, cargo_mass }
    }

    pub fn drive_mass(&self) -> (r: u64)
        ensures
            r == self.drive_mass,
    {
        self.drive_mass
    }

    pub fn attacks(&self) -> (r: u32)
        ensures
            r == self.attacks,
    {
        self.attacks
    }

    pub fn weapons_mass(&self) -> (r: u64)
        ensures
            r == self.weapons_mass,
    {
        self.weapons_mass
    }

    pub fn shields_mass(&self) -> (r: u64)
        ensures
            r == self.shields_mass,
    {
        self.shields_mass
    }

    pub fn cargo_mass(&self) -> (r: u64)
        ensures
            r == self.cargo_mass,
    {
        self.cargo_mass
    }

    /// Total mass of the design.
    pub fn ship_mass(&self) -> (r: u64)
        ensures
            r == self.spec_ship_mass(),
    {
        let extra: u128 = if self.attacks > 1 {
            proof {
                assert(((self.attacks - 1) as int) * (self.weapons_mass as int)
                    <= 0xFFFFFFFF * 0xFFFFFFFFFFFFFFFF) by (nonlinear_arith)
                    requires
                        self.attacks >= 1,
                        self.attacks <= 0xFFFFFFFFu32 + 1,
                        self.weapons_mass <= 0xFFFFFFFFFFFFFFFFu64,
                ;
            }
            ((self.attacks - 1) as u128) * (self.weapons_mass as u128) / 2
        } else {
            0
        };
        let base: u128 = (self.drive_mass as u128) + (self.weapons_mass as u128) + (
        self.shields_mass as u128) + (self.cargo_mass as u128);
        let total: u128 = base + extra;
        if total > u64::MAX as u128 {
            u64::MAX
        } else {
            total as u64
        }
    }

    /// Material cost of building one ship: one material per mass unit.
    pub fn material_cost(&self) -> (r: u64)
        ensures
            r == self.spec_ship_mass(),
    {
        self.ship_mass()
    }

    /// Speed at a drive technology level with the given cargo aboard.
    pub fn speed(&self, drive_tech: u32, cargo_carried: u64) -> (r: u64)
        ensures
            r == self.spec_speed(drive_tech, cargo_carried),
    {
        if self.drive_mass == 0 {
            return 0;
        }
        let mass = self.ship_mass();
        proof {
            assert(20 * (drive_tech as int) <= 20 * 0xFFFFFFFF && 20 * (drive_tech as int) * (
            self.drive_mass as int) <= 20 * 0xFFFFFFFF * 0xFFFFFFFFFFFFFFFF && 20 * (
            drive_tech as int) * (self.drive_mass as int) * (SCALE as int) <= 20 * 0xFFFFFFFF
                * 0xFFFFFFFFFFFFFFFF * 1000) by (nonlinear_arith)
                requires
                    drive_tech <= 0xFFFFFFFFu32,
                    self.drive_mass <= 0xFFFFFFFFFFFFFFFFu64,
                    SCALE == 1000u64,
            ;
        }
        let numerator: u128 = 20u128 * (drive_tech as u128) * (self.drive_mass as u128) * (
        SCALE as u128);
        let denominator: u128 = (mass as u128) + (cargo_carried as u128);
        let q: u128 = numerator / denominator;
        if q > u64::MAX as u128 {
            u64::MAX
        } else {
            q as u64
        }
    }

    /// Attack strength at a weapon technology level.
    pub fn attack_strength(&self, weapons_tech: u32) -> (r: u64)
        ensures
            r == self.spec_attack_strength(weapons_tech),
    {
        proof {
            assert((self.weapons_mass as int) * (weapons_tech as int) <
                0x100000000000000000000000000000000) by (nonlinear_arith)
                requires
                    self.weapons_mass <= 0xFFFFFFFFFFFFFFFFu64,
                    weapons_tech <= 0xFFFFFFFFu32,
            ;
        }
        let p: u128 = (self.weapons_mass as u128) * (weapons_tech as u128);
        if p > u64::MAX as u128 {
            u64::MAX
        } else {
            p as u64
        }
    }

    /// Defence strength at a shield technology level with the given cargo
    /// aboard.
    pub fn defence_strength(&self, shields_tech: u32, cargo_carried: u64) -> (r: u64)
        ensures
            r == self.spec_defence_strength(shields_tech, cargo_carried),
    {
        if self.shields_mass == 0 {
            return 0;
        }
        let mass = self.ship_mass();
        let laden: u128 = (mass as u128) + (cargo_carried as u128);
        // mass >= shields_mass > 0, so the division is well defined.
        proof {
            assert(self.spec_ship_mass() >= 1);
        }
        let ratio_wide: u128 = (DEFENCE_CUBE_NUM as u128) / laden;
        let ratio: u64 = ratio_wide as u64;
        let root: u64 = icbrt(ratio);
        proof {
            lemma_cbrt_small(ratio as int, root as int);
            assert((self.shields_mass as int) * (shields_tech as int) <= 0xFFFFFFFFFFFFFFFF
                * 0xFFFFFFFF && (self.shields_mass as int) * (shields_tech as int) * (root as int)
                <= 0xFFFFFFFFFFFFFFFF * 0xFFFFFFFF * 1000000) by (nonlinear_arith)
                requires
                    self.shields_mass <= 0xFFFFFFFFFFFFFFFFu64,
                    shields_tech <= 0xFFFFFFFFu32,
                    root <= 1000000u64,
            ;
        }
        let p: u128 = (self.shields_mass as u128) * (shields_tech as u128) * (root as u128) / (
        SCALE as u128);
        if p > u64::MAX as u128 {
            u64::MAX
        } else {
            p as u64
        }
    }

    /// Unscaled cargo capacity of the design.
    pub fn base_cargo_capacity(&self) -> (r: u64)
        ensures
            r == self.spec_base_cargo_capacity(),
    {
        proof {
            assert((self.cargo_mass as int) * (self.cargo_mass as int)
                <= 0xFFFFFFFFFFFFFFFF * 0xFFFFFFFFFFFFFFFF) by (nonlinear_arith)
                requires
                    self.cargo_mass <= 0xFFFFFFFFFFFFFFFFu64,
            ;
        }
        let sq: u128 = (self.cargo_mass as u128) * (self.cargo_mass as u128) / 10000;
        let total: u128 = (self.cargo_mass as u128) + sq;
        if total > u64::MAX as u128 {
            u64::MAX
        } else {
            total as u64
        }
    }

    /// Cargo capacity scaled by the cargo technology level.
    pub fn cargo_capacity(&self, cargo_tech: u32) -> (r: u64)
        ensures
            r == self.spec_cargo_capacity(cargo_tech),
    {
        let base = self.base_cargo_capacity();
        proof {
            assert((base as int) * (cargo_tech as int) < 0x100000000000000000000000000000000)
                by (nonlinear_arith)
                requires
                    base <= 0xFFFFFFFFFFFFFFFFu64,
                    cargo_tech <= 0xFFFFFFFFu32,
            ;
        }
        let p: u128 = (base as u128) * (cargo_tech as u128);
        if p > u64::MAX as u128 {
            u64::MAX
        } else {
            p as u64
        }
    }
}

/// Doubling the cargo technology level doubles a design's effective cargo
/// capacity, as long as the doubled capacity still fits in a `u64`.
pub proof fn lemma_cargo_capacity_doubles(design: ShipDesign, cargo_tech: u32)
    requires
        2 * cargo_tech <= u32::MAX,
        design.spec_base_cargo_capacity() * (2 * cargo_tech) <= u64::MAX,
    ensures
        design.spec_cargo_capacity((2 * cargo_tech) as u32) == 2 * design.spec_cargo_capacity(
            cargo_tech,
        ),
{
    let base = design.spec_base_cargo_capacity();
    assert(base * (2 * cargo_tech) == 2 * (base * cargo_tech)) by (nonlinear_arith);
    assert(base * cargo_tech >= 0 && base * cargo_tech <= base * (2 * cargo_tech))
        by (nonlinear_arith)
        requires
            base >= 0,
            cargo_tech >= 0,
    ;
}

/// A cube root of a quantity no larger than the defence numerator stays
/// well under a million.
proof fn lemma_cbrt_small(x: int, r: int)
    requires
        0 <= r,
        r * r * r <= x,
        x <= 30_000_000_000_000,
    ensures
        r <= 1000000,
{
    if r > 1000000 {
        assert(r * r * r > 30_000_000_000_000) by (nonlinear_arith)
            requires
                r > 1000000,
        ;
    }
}

/// The three fungible stocks a ship can carry.
#[derive(Debug, Clone, Copy, PartialEq, Eq, Structural)]
pub enum CargoType {
    Colonists,
    Materials,
    Capital,
}

/// Where a ship is: docked at a planet, or between two planets with trip
/// progress in `PROGRESS_ONE` steps.
#[derive(Debug, Clone, Copy, PartialEq, Eq, Structural)]
pub enum ShipLocation {
    AtPlanet(PlanetId),
    Traveling { from: PlanetId, to: PlanetId, progress: u64 },
}

impl ShipLocation {
    /// The planet the ship is docked at, if any.
    pub fn planet_id(&self) -> (r: Option<PlanetId>)
        ensures
            r == match *self {
                ShipLocation::AtPlanet(id) => Some(id),
                ShipLocation::Traveling { .. } => None::<PlanetId>,
            },
    {
        match self {
            ShipLocation::AtPlanet(id) => Some(*id),
            ShipLocation::Traveling { .. } => None,
        }
    }

    /// The ship is between planets.
    pub fn is_traveling(&self) -> (r: bool)
        ensures
            r == (self matches ShipLocation::Traveling { .. }),
    {
        match self {
            ShipLocation::AtPlanet(_) => false,
            ShipLocation::Traveling { .. } => true,
        }
    }
}

/// A mobile unit: hull doubles as hit points and initialises to the design's
/// shields mass; destroyed exactly when the hull is gone.
#[derive(Debug, Clone, Copy)]
pub struct Ship {
    pub id: ShipId,
    pub owner: RaceId,
    pub design: ShipDesign,
    pub current_hull: u64,
    pub location: ShipLocation,
    pub cargo_colonists: u64,
    pub cargo_materials: u64,
    pub cargo_capital: u64,
}

impl Ship {
    /// The three cargo stocks always sum inside `u64`.
    pub open spec fn wf(self) -> bool {
        self.cargo_colonists + self.cargo_materials + self.cargo_capital <= u64::MAX
    }

    /// Total cargo aboard.
    pub open spec fn spec_total_cargo(self) -> int {
        self.cargo_colonists + self.cargo_materials + self.cargo_capital
    }

    /// Cargo of one kind aboard.
    pub open spec fn spec_cargo(self, cargo_type: CargoType) -> u64 {
        match cargo_type {
            CargoType::Colonists => self.cargo_colonists,
            CargoType::Materials => self.cargo_materials,
            CargoType::Capital => self.cargo_capital,
        }
    }

    /// Free cargo space at a cargo technology level.
    pub open spec fn spec_available_cargo(self, cargo_tech: u32) -> int {
        if self.design.spec_cargo_capacity(cargo_tech) >= self.spec_total_cargo() {
            self.design.spec_cargo_capacity(cargo_tech) - self.spec_total_cargo()
        } else {
            0int
        }
    }

    pub fn new(id: ShipId, owner: RaceId, design: ShipDesign, location: PlanetId) -> (r: Self)
        ensures
            r == (Ship {
                id,
                owner,
                design,
                current_hull: design.shields_mass,
                location: ShipLocation::AtPlanet(location),
                cargo_colonists: 0u64,
                cargo_materials: 0u64,
                cargo_capital: 0u64,
            }),
            r.wf(),
    {
        Self {
            id,
            owner,
            design,
            current_hull: design.shields_mass,
            location: ShipLocation::AtPlanet(location),
            cargo_colonists: 0,
            cargo_materials: 0,
            cargo_capital: 0,
        }
    }

    pub fn id(&self) -> (r: ShipId)
        ensures
            r == self.id,
    {
        self.id
    }

    pub fn owner(&self) -> (r: RaceId)
        ensures
            r == self.owner,
    {
        self.owner
    }

    pub fn design(&self) -> (r: &ShipDesign)
        ensures
            r == self.design,
    {
        &self.design
    }

    pub fn current_hull(&self) -> (r: u64)
        ensures
            r == self.current_hull,
    {
        self.current_hull
    }

    pub fn location(&self) -> (r: &ShipLocation)
        ensures
            r == self.location,
    {
        &self.location
    }

    pub fn set_location(&mut self, location: ShipLocation)
        ensures
            *final(self) == (Ship { location, ..*old(self) }),
    {
        self.location = location;
    }

    /// A ship is destroyed exactly when its hull is gone.
    pub fn is_destroyed(&self) -> (r: bool)
        ensures
            r == (self.current_hull == 0),
    {
        self.current_hull == 0
    }

    /// Remove hull points, clamping at zero.
    pub fn take_damage(&mut self, damage: u64)
        ensures
            *final(self) == (Ship {
                current_hull: if old(self).current_hull >= damage {
                    (old(self).current_hull - damage) as u64
                } else {
                    0u64
                },
                ..*old(self)
            }),
    {
        self.current_hull = sat_sub(self.current_hull, damage);
    }

    /// Total cargo aboard.
    pub fn total_cargo(&self) -> (r: u64)
        requires
            self.wf(),
        ensures
            r == self.spec_total_cargo(),
    {
        self.cargo_colonists + self.cargo_materials + self.cargo_capital
    }

    /// Free cargo space at a cargo technology level.
    pub fn available_cargo(&self, cargo_tech: u32) -> (r: u64)
        requires
            self.wf(),
        ensures
            r == self.spec_available_cargo(cargo_tech),
    {
        let capacity = self.design.cargo_capacity(cargo_tech);
        sat_sub(capacity, self.total_cargo())
    }

    /// Load cargo of one kind, capped by the remaining capacity; reports the
    /// amount actually loaded.
    pub fn load_cargo(&mut self, cargo_type: CargoType, amount: u64, cargo_tech: u32) -> (r: u64)
        requires
            old(self).wf(),
        ensures
            r == if amount <= old(self).spec_available_cargo(cargo_tech) {
                amount as int
            } else {
                old(self).spec_available_cargo(cargo_tech)
            },
            final(self).spec_cargo(cargo_type) == old(self).spec_cargo(cargo_type) + r,
            forall|t: CargoType|
                t != cargo_type ==> final(self).spec_cargo(t) == old(self).spec_cargo(t),
            *final(self) == (Ship {
                cargo_colonists: final(self).cargo_colonists,
                cargo_materials: final(self).cargo_materials,
                cargo_capital: final(self).cargo_capital,
                ..*old(self)
            }),
            final(self).wf(),
    {
        let available = self.available_cargo(cargo_tech);
        let to_load = if amount <= available {
            amount
        } else {
            available
        };
        match cargo_type {
            CargoType::Colonists => {
                self.cargo_colonists = self.cargo_colonists + to_load;
            },
            CargoType::Materials => {
                self.cargo_materials = self.cargo_materials + to_load;
            },
            CargoType::Capital => {
                self.cargo_capital = self.cargo_capital + to_load;
            },
        }
        to_load
    }

    /// Unload cargo of one kind, capped by what is aboard; reports the
    /// amount actually unloaded.
    pub fn unload_cargo(&mut self, cargo_type: CargoType, amount: u64) -> (r: u64)
        requires
            old(self).wf(),
        ensures
            r == if amount <= old(self).spec_cargo(cargo_type) {
                amount
            } else {
                old(self).spec_cargo(cargo_type)
            },
            final(self).spec_cargo(cargo_type) == old(self).spec_cargo(cargo_type) - r,
            forall|t: CargoType|
                t != cargo_type ==> final(self).spec_cargo(t) == old(self).spec_cargo(t),
            *final(self) == (Ship {
                cargo_colonists: final(self).cargo_colonists,
                cargo_materials: final(self).cargo_materials,
                cargo_capital: final(self).cargo_capital,
                ..*old(self)
            }),
            final(self).wf(),
    {
        match cargo_type {
            CargoType::Colonists => {
                let unload = if amount <= self.cargo_colonists {
                    amount
                } else {
                    self.cargo_colonists
                };
                self.cargo_colonists = self.cargo_colonists - unload;
                unload
            },
            CargoType::Materials => {
                let unload = if amount <= self.cargo_materials {
                    amount
                } else {
                    self.cargo_materials
                };
                self.cargo_materials = self.cargo_materials - unload;
                unload
            },
            CargoType::Capital => {
                let unload = if amount <= self.cargo_capital {
                    amount
                } else {
                    self.cargo_capital
                };
                self.cargo_capital = self.cargo_capital - unload;
                unload
            },
        }
    }

    /// Cargo of one kind aboard.
    pub fn cargo(&self, cargo_type: CargoType) -> (r: u64)
        ensures
            r == self.spec_cargo(cargo_type),
    {
        match cargo_type {
            CargoType::Colonists => self.cargo_colonists,
            CargoType::Materials => self.cargo_materials,
            CargoType::Capital => self.cargo_capital,
        }
    }

    /// Travel speed at a drive technology level, slowed by the cargo aboard.
    pub fn travel_speed(&self, drive_tech: u32) -> (r: u64)
        requires
            self.wf(),
        ensures
            r == self.design.spec_speed(drive_tech, self.spec_total_cargo() as u64),
    {
        let cargo = self.total_cargo();
        self.design.speed(drive_tech, cargo)
    }

    /// Attack strength at a weapon technology level.
    pub fn attack_strength(&self, weapons_tech: u32) -> (r: u64)
        ensures
            r == self.design.spec_attack_strength(weapons_tech),
    {
        self.design.attack_strength(weapons_tech)
    }

    /// Defence strength at a shield technology level; cargo is not counted
    /// against the shields.
    pub fn defence_strength(&self, shields_tech: u32) -> (r: u64)
        ensures
            r == self.design.spec_defence_strength(shields_tech, 0),
    {
        self.design.defence_strength(shields_tech, 0)
    }
}

} // verus!
