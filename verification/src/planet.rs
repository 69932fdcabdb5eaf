//! Planets and their per-turn economy.
//!
//! A planet's output per turn ("production") is a diminishing function of
//! population versus industry. Production can be assigned to stockpiling
//! materials, converting into capital (one capital costs five production and
//! one material), research, or ship building (reserved; currently without a
//! consumption effect). Population compounds by 8% per turn up to the
//! planet's size; the excess emigrates as colonists at one colonist per
//! eight population.

use crate::num::{sat64, sat_add, sat_sub, SCALE};
use crate::position::Position;
use crate::race::TechnologyType;
use vstd::prelude::*;

verus! {

/// Unique identifier for a planet.
#[derive(Debug, Clone, Copy, PartialEq, Eq, Hash, Structural)]
pub struct PlanetId(pub u32);

/// Placeholder identifier for ship classes a planet could be told to build.
#[derive(Debug, Clone, Copy, PartialEq, Eq, Structural)]
pub struct ShipTypeId(pub u32);

/// What a planet's production is assigned to this turn.
#[derive(Debug, Clone, Copy, PartialEq, Eq, Structural)]
pub enum ProductionType {
    /// Production is not assigned to anything.
    Idle,
    /// Stockpile materials: production times the resource multiplier.
    Materials,
    /// Convert production and materials into capital.
    Capital,
    /// Delegated to the owning faction's research track.
    Research(TechnologyType),
    /// Reserved extension point; has no consumption effect yet.
    Ships(ShipTypeId),
}

/// Which technology track, if any, a planet researches this turn.
#[derive(Debug, Clone, Copy, PartialEq, Eq, Structural)]
pub enum TechFocus {
    /// No research this turn.
    Idle,
    /// Contribute this planet's size as effort to one track.
    Research(TechnologyType),
}

/// Population growth per turn: 8%, i.e. 1080 / 1000.
pub const GROWTH_NUM: u64 = 1080;

/// Production points needed per unit of capital.
pub const CAPITAL_PRODUCTION_COST: u64 = 5;

/// An economic body: stock quantities are in milli units, `size` in whole
/// population units.
#[derive(Debug, Clone, Copy)]
pub struct Planet {
    pub id: PlanetId,
    pub position: Position,
    pub size: u32,
    pub owner: Option<u32>,
    pub population: u64,
    pub industry: u64,
    pub resources: u64,
    pub materials: u64,
    pub capital: u64,
    pub colonists: u64,
    pub tech_focus: TechFocus,
    pub production_type: ProductionType,
}


/// How one growth step transforms a planet: nothing happens to an unowned
/// planet; an owned one compounds population by 8% up to its size, turns the
/// excess into colonists at one per eight, and then moves banked capital
/// one-for-one into industry up to the population level.
pub open spec fn spec_after_growth(p: Planet, q: Planet) -> bool {
    if p.owner is None {
        q == p
    } else {
        let np = p.population * GROWTH_NUM / (SCALE as int);
        let cap = p.size * SCALE;
        let pop1 = if np <= cap {
            np
        } else {
            cap as int
        };
        let col1 = if np <= cap {
            p.colonists as int
        } else {
            sat64(p.colonists + (np - cap) / 8)
        };
        let shortfall = pop1 - p.industry;
        let moved = if p.capital > 0 && p.industry < pop1 {
            if shortfall <= p.capital {
                shortfall
            } else {
                p.capital as int
            }
        } else {
            0int
        };
        q == (Planet {
            population: pop1 as u64,
            colonists: col1 as u64,
            industry: (p.industry + moved) as u64,
            capital: (p.capital - moved) as u64,
            ..p
        })
    }
}

/// How one production step transforms a planet: nothing for an unowned
/// planet or an idle, research or ships assignment; materials mode stockpiles
/// production times resources; capital mode converts five production plus
/// one material into one capital, draining the stock first and then solving
/// the split of the remaining budget so the materials produced exactly pay
/// for the capital produced.
pub open spec fn spec_after_production(p: Planet, q: Planet) -> bool {
    if p.owner is None {
        q == p
    } else {
        match p.production_type {
            ProductionType::Idle => q == p,
            ProductionType::Research(_) => q == p,
            ProductionType::Ships(_) => q == p,
            ProductionType::Materials => q == (Planet {
                materials: sat64(p.materials + p.spec_material_production()) as u64,
                ..p
            }),
            ProductionType::Capital => {
                let prod = p.spec_production();
                let full_cost = prod / (CAPITAL_PRODUCTION_COST as int);
                if p.materials >= full_cost {
                    q == (Planet {
                        capital: sat64(p.capital + full_cost) as u64,
                        materials: (p.materials - full_cost) as u64,
                        ..p
                    })
                } else {
                    let from_stock = p.materials as int;
                    let remaining = prod - CAPITAL_PRODUCTION_COST * from_stock;
                    let solved = remaining * p.resources / (CAPITAL_PRODUCTION_COST * p.resources
                        + SCALE);
                    q == (Planet {
                        capital: sat64(p.capital + from_stock + solved) as u64,
                        materials: 0u64,
                        ..p
                    })
                }
            },
        }
    }
}


/// The planet `Planet::new` creates.
pub open spec fn spec_bare_planet(id: PlanetId, position: Position, size: u32) -> Planet {
    Planet {
        id,
        position,
        size,
        owner: None,
        population: 0u64,
        industry: 0u64,
        resources: SCALE,
        materials: 0u64,
        capital: 0u64,
        colonists: 0u64,
        tech_focus: TechFocus::Idle,
        production_type: ProductionType::Idle,
    }
}

/// The planet `Planet::new_home_planet` creates.
pub open spec fn spec_home_planet(id: PlanetId, position: Position, size: u32, owner: u32) -> Planet {
    Planet {
        id,
        position,
        size,
        owner: Some(owner),
        population: (size * SCALE) as u64,
        industry: (size * SCALE) as u64,
        resources: (10 * SCALE) as u64,
        materials: 0u64,
        capital: 0u64,
        colonists: 0u64,
        tech_focus: TechFocus::Idle,
        production_type: ProductionType::Materials,
    }
}

impl Planet {
    /// Population never exceeds the planet's size and industry never exceeds
    /// population; the position is inside the supported plane.
    pub open spec fn wf(self) -> bool {
        &&& self.industry <= self.population
        &&& self.population <= self.size * SCALE
        &&& self.position.wf()
    }

    /// Production this turn: industry plus a quarter of the population that
    /// industry does not cover.
    pub open spec fn spec_production(self) -> int {
        self.industry + (self.population - self.industry) / 4
    }

    /// Materials produced in one materials-mode turn: production times the
    /// resource multiplier.
    pub open spec fn spec_material_production(self) -> int {
        sat64(self.spec_production() * self.resources / (SCALE as int))
    }

    pub fn new(id: PlanetId, position: Position, size: u32, owner: Option<u32>) -> (r: Self)
        requires
            position.wf(),
        ensures
            r == (Planet {
                id,
                position,
                size,
                owner,
                population: 0u64,
                industry: 0u64,
                resources: SCALE,
                materials: 0u64,
                capital: 0u64,
                colonists: 0u64,
                tech_focus: TechFocus::Idle,
                production_type: ProductionType::Idle,
            }),
            r.wf(),
    {
        Self {
            id,
            position,
            size,
            owner,
            population: 0,
            industry: 0,
            resources: SCALE,
            materials: 0,
            capital: 0,
            colonists: 0,
            tech_focus: TechFocus::Idle,
            production_type: ProductionType::Idle,
        }
    }

    /// A faction's starting planet: fully populated and industrialised, with
    /// a resource multiplier of 10 and materials production already assigned.
    pub fn new_home_planet(id: PlanetId, position: Position, size: u32, owner: u32) -> (r: Self)
        requires
            position.wf(),
        ensures
            r == (Planet {
                id,
                position,
                size,
                owner: Some(owner),
                population: (size * SCALE) as u64,
                industry: (size * SCALE) as u64,
                resources: (10 * SCALE) as u64,
                materials: 0u64,
                capital: 0u64,
                colonists: 0u64,
                tech_focus: TechFocus::Idle,
                production_type: ProductionType::Materials,
            }),
            r.wf(),
    {
        let pop: u64 = (size as u64) * SCALE;
        Self {
            id,
            position,
            size,
            owner: Some(owner),
            population: pop,
            industry: pop,
            resources: 10 * SCALE,
            materials: 0,
            capital: 0,
            colonists: 0,
            tech_focus: TechFocus::Idle,
            production_type: ProductionType::Materials,
        }
    }

    pub fn id(&self) -> (r: PlanetId)
        ensures
            r == self.id,
    {
        self.id
    }

    pub fn position(&self) -> (r: &Position)
        ensures
            r == self.position,
    {
        &self.position
    }

    pub fn size(&self) -> (r: u32)
        ensures
            r == self.size,
    {
        self.size
    }

    pub fn owner(&self) -> (r: Option<u32>)
        ensures
            r == self.owner,
    {
        self.owner
    }

    pub fn set_owner(&mut self, owner: Option<u32>)
        ensures
            *final(self) == (Planet { owner, ..*old(self) }),
    {
        self.owner = owner;
    }

    pub fn materials(&self) -> (r: u64)
        ensures
            r == self.materials,
    {
        self.materials
    }

    pub fn capital(&self) -> (r: u64)
        ensures
            r == self.capital,
    {
        self.capital
    }

    pub fn colonists(&self) -> (r: u64)
        ensures
            r == self.colonists,
    {
        self.colonists
    }

    pub fn population(&self) -> (r: u64)
        ensures
            r == self.population,
    {
        self.population
    }

    pub fn industry(&self) -> (r: u64)
        ensures
            r == self.industry,
    {
        self.industry
    }

    pub fn resources(&self) -> (r: u64)
        ensures
            r == self.resources,
    {
        self.resources
    }

    pub fn set_resources(&mut self, resources: u64)
        ensures
            *final(self) == (Planet { resources, ..*old(self) }),
    {
        self.resources = resources;
    }

    /// Overwrite population and industry; succeeds only when the new values
    /// keep the planet well-formed.
    pub fn set_population(&mut self, population: u64, industry: u64) -> (r: bool)
        ensures
            r == (industry <= population && population <= old(self).size * SCALE),
            r ==> *final(self) == (Planet { population, industry, ..*old(self) }),
            !r ==> *final(self) == *old(self),
    {
        if industry <= population && population <= (self.size as u64) * SCALE {
            self.population = population;
            self.industry = industry;
            true
        } else {
            false
        }
    }

    pub fn tech_focus(&self) -> (r: TechFocus)
        ensures
            r == self.tech_focus,
    {
        self.tech_focus
    }

    pub fn set_tech_focus(&mut self, focus: TechFocus)
        ensures
            *final(self) == (Planet { tech_focus: focus, ..*old(self) }),
    {
        self.tech_focus = focus;
    }

    pub fn set_production_type(&mut self, production_type: ProductionType)
        ensures
            *final(self) == (Planet { production_type, ..*old(self) }),
    {
        self.production_type = production_type;
    }

    pub fn production_type(&self) -> (r: ProductionType)
        ensures
            r == self.production_type,
    {
        self.production_type
    }

    /// Production capacity this turn.
    pub fn production(&self) -> (r: u64)
        requires
            self.wf(),
        ensures
            r == self.spec_production(),
    {
        self.industry + (self.population - self.industry) / 4
    }

    /// Materials-mode output this turn.
    pub fn material_production(&self) -> (r: u64)
        requires
            self.wf(),
        ensures
            r == self.spec_material_production(),
    {
        let prod = self.production();
        proof {
            assert((prod as int) * (self.resources as int)
                <= 0xFFFFFFFFFFFFFFFF * 0xFFFFFFFFFFFFFFFF) by (nonlinear_arith)
                requires
                    prod <= 0xFFFFFFFFFFFFFFFFu64,
                    self.resources <= 0xFFFFFFFFFFFFFFFFu64,
            ;
        }
        let p: u128 = (prod as u128) * (self.resources as u128) / (SCALE as u128);
        if p > u64::MAX as u128 {
            u64::MAX
        } else {
            p as u64
        }
    }

    /// Stockpile this turn's materials output; unowned planets produce
    /// nothing.
    pub fn produce_materials(&mut self)
        requires
            old(self).wf(),
        ensures
            old(self).owner is Some ==> *final(self) == (Planet {
                materials: sat64(old(self).materials + old(self).spec_material_production()) as u64,
                ..*old(self)
            }),
            old(self).owner is None ==> *final(self) == *old(self),
            final(self).wf(),
    {
        if self.owner.is_some() {
            let produced = self.material_production();
            self.materials = sat_add(self.materials, produced);
        }
    }

    /// Withdraw materials; succeeds and debits only when the stock covers
    /// the request.
    pub fn consume_materials(&mut self, amount: u64) -> (r: bool)
        ensures
            r == (old(self).materials >= amount),
            r ==> *final(self) == (Planet {
                materials: (old(self).materials - amount) as u64,
                ..*old(self)
            }),
            !r ==> *final(self) == *old(self),
    {
        if self.materials >= amount {
            self.materials = self.materials - amount;
            true
        } else {
            false
        }
    }

    /// Withdraw capital; succeeds and debits only when the stock covers the
    /// request.
    pub fn consume_capital(&mut self, amount: u64) -> (r: bool)
        ensures
            r == (old(self).capital >= amount),
            r ==> *final(self) == (Planet {
                capital: (old(self).capital - amount) as u64,
                ..*old(self)
            }),
            !r ==> *final(self) == *old(self),
    {
        if self.capital >= amount {
            self.capital = self.capital - amount;
            true
        } else {
            false
        }
    }

    pub fn add_materials(&mut self, amount: u64)
        ensures
            *final(self) == (Planet {
                materials: sat64(old(self).materials + amount) as u64,
                ..*old(self)
            }),
    {
        self.materials = sat_add(self.materials, amount);
    }

    pub fn add_capital(&mut self, amount: u64)
        ensures
            *final(self) == (Planet {
                capital: sat64(old(self).capital + amount) as u64,
                ..*old(self)
            }),
    {
        self.capital = sat_add(self.capital, amount);
    }

    pub fn add_colonists(&mut self, amount: u64)
        ensures
            *final(self) == (Planet {
                colonists: sat64(old(self).colonists + amount) as u64,
                ..*old(self)
            }),
    {
        self.colonists = sat_add(self.colonists, amount);
    }

    /// Compound population by 8%, capped at the planet's size; the excess
    /// becomes colonists at one per eight population. Independently, banked
    /// capital converts one-for-one into industry up to the population level.
    /// Unowned planets do not grow.
    pub fn grow_population(&mut self)
        requires
            old(self).wf(),
        ensures
            final(self).wf(),
            spec_after_growth(*old(self), *final(self)),
    {
        if self.owner.is_none() {
            return;
        }
        let np_wide: u128 = (self.population as u128) * (GROWTH_NUM as u128) / (SCALE as u128);
        proof {
            assert((self.population as int) * (GROWTH_NUM as int) / (SCALE as int)
                <= (self.population as int) * 2) by (nonlinear_arith)
                requires
                    GROWTH_NUM == 1080u64,
                    SCALE == 1000u64,
            ;
        }
        let np: u64 = np_wide as u64;
        let cap: u64 = (self.size as u64) * SCALE;
        if np <= cap {
            self.population = np;
        } else {
            let excess = np - cap;
            self.colonists = sat_add(self.colonists, excess / 8);
            self.population = cap;
        }
        if self.capital > 0 && self.industry < self.population {
            let shortfall = self.population - self.industry;
            let moved = if shortfall <= self.capital {
                shortfall
            } else {
                self.capital
            };
            self.industry = self.industry + moved;
            self.capital = self.capital - moved;
        }
    }

    /// Run this turn's production according to the assigned mode.
    ///
    /// Materials mode stockpiles production times resources. Capital mode
    /// makes one capital from five production plus one material: when the
    /// stock covers converting the whole budget, a fifth of the budget
    /// becomes capital and as many materials are debited; otherwise the
    /// stock is drained first and the remaining budget is split so that the
    /// materials produced on the spot exactly pay for the capital produced.
    /// Research mode is handled by the owning faction; ships mode is a
    /// reserved extension point. Unowned planets produce nothing.
    pub fn execute_production(&mut self)
        requires
            old(self).wf(),
        ensures
            final(self).wf(),
            spec_after_production(*old(self), *final(self)),
    {
        if self.owner.is_none() {
            return;
        }
        match self.production_type {
            ProductionType::Idle => {},
            ProductionType::Research(_) => {},
            ProductionType::Ships(_) => {},
            ProductionType::Materials => {
                let produced = self.material_production();
                self.materials = sat_add(self.materials, produced);
            },
            ProductionType::Capital => {
                let prod = self.production();
                let full_cost = prod / CAPITAL_PRODUCTION_COST;
                if self.materials >= full_cost {
                    self.capital = sat_add(self.capital, full_cost);
                    self.materials = self.materials - full_cost;
                } else {
                    let from_stock = self.materials;
                    let remaining = prod - CAPITAL_PRODUCTION_COST * from_stock;
                    let denom: u128 = (CAPITAL_PRODUCTION_COST as u128) * (self.resources as u128)
                        + (SCALE as u128);
                    proof {
                        assert((remaining as int) * (self.resources as int)
                            <= 0xFFFFFFFFFFFFFFFF * 0xFFFFFFFFFFFFFFFF) by (nonlinear_arith)
                            requires
                                remaining <= 0xFFFFFFFFFFFFFFFFu64,
                                self.resources <= 0xFFFFFFFFFFFFFFFFu64,
                        ;
                        assert((remaining as int) * (self.resources as int) / (5 * (
                        self.resources as int) + 1000) <= remaining as int) by (nonlinear_arith)
                            requires
                                remaining >= 0,
                                self.resources >= 0,
                        ;
                    }
                    let solved_wide: u128 = (remaining as u128) * (self.resources as u128) / denom;
                    let solved: u64 = solved_wide as u64;
                    self.capital = sat_add(self.capital, sat_add(from_stock, solved));
                    self.materials = 0;
                }
            },
        }
    }
}

} // verus!
