//! Factions and their technology tracks.

use crate::num::{sat64, sat_add};
use vstd::prelude::*;

verus! {

/// Unique identifier for a faction.
#[derive(Debug, Clone, Copy, PartialEq, Eq, Hash, Structural)]
pub struct RaceId(pub u32);

/// The three independent technology tracks a faction can research.
#[derive(Debug, Clone, Copy, PartialEq, Eq, Structural)]
pub enum TechnologyType {
    Drive,
    Weapon,
    Shield,
}

/// Baseline planet size that prices one technology level.
pub const RESEARCH_BASELINE: u64 = 100;

/// Technology levels for a faction; every track starts at level 1 and can
/// only rise.
#[derive(Debug, Clone, Copy, PartialEq, Eq, Structural)]
pub struct Technology {
    pub drive_level: u32,
    pub weapon_level: u32,
    pub shield_level: u32,
}

impl Technology {
    pub open spec fn spec_level(self, tech_type: TechnologyType) -> u32 {
        match tech_type {
            TechnologyType::Drive => self.drive_level,
            TechnologyType::Weapon => self.weapon_level,
            TechnologyType::Shield => self.shield_level,
        }
    }

    /// Every track is at least level 1.
    pub open spec fn wf(self) -> bool {
        self.drive_level >= 1 && self.weapon_level >= 1 && self.shield_level >= 1
    }

    pub fn new() -> (r: Self)
        ensures
            r.drive_level == 1,
            r.weapon_level == 1,
            r.shield_level == 1,
            r.wf(),
    {
        Self { drive_level: 1, weapon_level: 1, shield_level: 1 }
    }

    pub fn drive_level(&self) -> (r: u32)
        ensures
            r == self.drive_level,
    {
        self.drive_level
    }

    pub fn weapon_level(&self) -> (r: u32)
        ensures
            r == self.weapon_level,
    {
        self.weapon_level
    }

    pub fn shield_level(&self) -> (r: u32)
        ensures
            r == self.shield_level,
    {
        self.shield_level
    }

    pub fn get_level(&self, tech_type: TechnologyType) -> (r: u32)
        ensures
            r == self.spec_level(tech_type),
    {
        match tech_type {
            TechnologyType::Drive => self.drive_level,
            TechnologyType::Weapon => self.weapon_level,
            TechnologyType::Shield => self.shield_level,
        }
    }

    /// Raise one track by a level; the other tracks are untouched.
    pub fn advance(&mut self, tech_type: TechnologyType)
        ensures
            final(self).spec_level(tech_type) == if old(self).spec_level(tech_type) < u32::MAX {
                old(self).spec_level(tech_type) + 1
            } else {
                u32::MAX as int
            },
            forall|t: TechnologyType|
                t != tech_type ==> final(self).spec_level(t) == old(self).spec_level(t),
            old(self).wf() ==> final(self).wf(),
    {
        match tech_type {
            TechnologyType::Drive => {
                if self.drive_level < u32::MAX {
                    self.drive_level = self.drive_level + 1;
                }
            },
            TechnologyType::Weapon => {
                if self.weapon_level < u32::MAX {
                    self.weapon_level = self.weapon_level + 1;
                }
            },
            TechnologyType::Shield => {
                if self.shield_level < u32::MAX {
                    self.shield_level = self.shield_level + 1;
                }
            },
        }
    }

    /// Research effort that a planet of the given size prices for advancing
    /// from the given level: size times level.
    pub fn effort_required(planet_size: u32, current_level: u32) -> (r: u64)
        ensures
            r == planet_size * current_level,
    {
        proof {
            assert((planet_size as int) * (current_level as int) <= 0xFFFFFFFF * 0xFFFFFFFF)
                by (nonlinear_arith)
                requires
                    planet_size <= 0xFFFFFFFFu32,
                    current_level <= 0xFFFFFFFFu32,
            ;
        }
        (planet_size as u64) * (current_level as u64)
    }
}

impl Default for Technology {
    fn default() -> (r: Self)
        ensures
            r == (Technology { drive_level: 1, weapon_level: 1, shield_level: 1 }),
    {
        Self::new()
    }
}

/// Pending research effort per technology track, reset on each level-up.
#[derive(Debug, Clone, Copy, PartialEq, Eq, Structural)]
pub struct TechProgress {
    pub drive_progress: u64,
    pub weapon_progress: u64,
    pub shield_progress: u64,
}

impl TechProgress {
    pub open spec fn spec_effort(self, tech_type: TechnologyType) -> u64 {
        match tech_type {
            TechnologyType::Drive => self.drive_progress,
            TechnologyType::Weapon => self.weapon_progress,
            TechnologyType::Shield => self.shield_progress,
        }
    }

    pub fn new() -> (r: Self)
        ensures
            r.drive_progress == 0,
            r.weapon_progress == 0,
            r.shield_progress == 0,
    {
        Self { drive_progress: 0, weapon_progress: 0, shield_progress: 0 }
    }
}


/// The technology with one track set to the given level.
pub open spec fn spec_with_level(t: Technology, tech_type: TechnologyType, level: u32) -> Technology {
    match tech_type {
        TechnologyType::Drive => Technology { drive_level: level, ..t },
        TechnologyType::Weapon => Technology { weapon_level: level, ..t },
        TechnologyType::Shield => Technology { shield_level: level, ..t },
    }
}

/// The progress record with one track set to the given effort.
pub open spec fn spec_with_effort(p: TechProgress, tech_type: TechnologyType, effort: u64) -> TechProgress {
    match tech_type {
        TechnologyType::Drive => TechProgress { drive_progress: effort, ..p },
        TechnologyType::Weapon => TechProgress { weapon_progress: effort, ..p },
        TechnologyType::Shield => TechProgress { shield_progress: effort, ..p },
    }
}

/// The faction after one research contribution: the effort joins the track's
/// accumulator; when the accumulator reaches the price of the current level
/// (the baseline times the level), the level rises by one and the
/// accumulator resets, discarding any surplus.
pub open spec fn spec_after_research(r: Race, tech_type: TechnologyType, effort: u64) -> Race {
    let acc = sat64(r.tech_progress.spec_effort(tech_type) + effort) as u64;
    let level = r.technology.spec_level(tech_type);
    if acc >= RESEARCH_BASELINE * level {
        let new_level = if level < u32::MAX {
            (level + 1) as u32
        } else {
            u32::MAX
        };
        Race {
            technology: spec_with_level(r.technology, tech_type, new_level),
            tech_progress: spec_with_effort(r.tech_progress, tech_type, 0),
            ..r
        }
    } else {
        Race { tech_progress: spec_with_effort(r.tech_progress, tech_type, acc), ..r }
    }
}

/// A faction: identity, display name, technology, home planet and whether an
/// AI policy plays it.
#[derive(Debug, Clone)]
pub struct Race {
    pub id: RaceId,
    pub name: String,
    pub technology: Technology,
    pub home_planet_id: u32,
    pub tech_progress: TechProgress,
    pub ai_controlled: bool,
}

impl Race {
    pub open spec fn wf(self) -> bool {
        self.technology.wf()
    }

    pub fn new(id: RaceId, name: String, home_planet_id: u32) -> (r: Self)
        ensures
            r.id == id,
            r.name == name,
            r.home_planet_id == home_planet_id,
            r.technology == (Technology { drive_level: 1, weapon_level: 1, shield_level: 1 }),
            r.tech_progress == (TechProgress {
                drive_progress: 0,
                weapon_progress: 0,
                shield_progress: 0,
            }),
            !r.ai_controlled,
            r.wf(),
    {
        Self {
            id,
            name,
            technology: Technology::new(),
            home_planet_id,
            tech_progress: TechProgress::new(),
            ai_controlled: false,
        }
    }

    pub fn new_ai(id: RaceId, name: String, home_planet_id: u32) -> (r: Self)
        ensures
            r.id == id,
            r.name == name,
            r.home_planet_id == home_planet_id,
            r.technology == (Technology { drive_level: 1, weapon_level: 1, shield_level: 1 }),
            r.tech_progress == (TechProgress {
                drive_progress: 0,
                weapon_progress: 0,
                shield_progress: 0,
            }),
            r.ai_controlled,
            r.wf(),
    {
        Self {
            id,
            name,
            technology: Technology::new(),
            home_planet_id,
            tech_progress: TechProgress::new(),
            ai_controlled: true,
        }
    }

    pub fn id(&self) -> (r: RaceId)
        ensures
            r == self.id,
    {
        self.id
    }

    pub fn name(&self) -> (r: &str)
        ensures
            r@ == self.name@,
    {
        self.name.as_str()
    }

    pub fn technology(&self) -> (r: &Technology)
        ensures
            r == self.technology,
    {
        &self.technology
    }

    pub fn home_planet_id(&self) -> (r: u32)
        ensures
            r == self.home_planet_id,
    {
        self.home_planet_id
    }

    pub fn is_ai_controlled(&self) -> (r: bool)
        ensures
            r == self.ai_controlled,
    {
        self.ai_controlled
    }

    /// Add research effort to one track; when the accumulated effort reaches
    /// the price of the current level the track advances by one level and the
    /// accumulator resets, discarding any surplus effort.
    pub fn add_research(&mut self, tech_type: TechnologyType, effort: u64)
        ensures
            *final(self) == spec_after_research(*old(self), tech_type, effort),
            ({
                let acc = if old(self).tech_progress.spec_effort(tech_type) + effort <= u64::MAX {
                    old(self).tech_progress.spec_effort(tech_type) + effort
                } else {
                    u64::MAX as int
                };
                let level = old(self).technology.spec_level(tech_type);
                let req = RESEARCH_BASELINE * level;
                if acc >= req {
                    final(self).technology.spec_level(tech_type) == (if level < u32::MAX {
                        level + 1
                    } else {
                        u32::MAX as int
                    }) && final(self).tech_progress.spec_effort(tech_type) == 0
                } else {
                    final(self).technology.spec_level(tech_type) == level
                        && final(self).tech_progress.spec_effort(tech_type) == acc
                }
            }),
            forall|t: TechnologyType|
                t != tech_type ==> final(self).technology.spec_level(t)
                    == old(self).technology.spec_level(t)
                    && final(self).tech_progress.spec_effort(t)
                    == old(self).tech_progress.spec_effort(t),
            final(self).technology.spec_level(tech_type)
                >= old(self).technology.spec_level(tech_type),
            final(self).id == old(self).id,
            final(self).name == old(self).name,
            final(self).home_planet_id == old(self).home_planet_id,
            final(self).ai_controlled == old(self).ai_controlled,
            old(self).wf() ==> final(self).wf(),
    {
        let current = match tech_type {
            TechnologyType::Drive => self.tech_progress.drive_progress,
            TechnologyType::Weapon => self.tech_progress.weapon_progress,
            TechnologyType::Shield => self.tech_progress.shield_progress,
        };
        let acc = sat_add(current, effort);
        let level = self.technology.get_level(tech_type);
        let required = Technology::effort_required(RESEARCH_BASELINE as u32, level);
        if acc >= required {
            self.technology.advance(tech_type);
            match tech_type {
                TechnologyType::Drive => self.tech_progress.drive_progress = 0,
                TechnologyType::Weapon => self.tech_progress.weapon_progress = 0,
                TechnologyType::Shield => self.tech_progress.shield_progress = 0,
            }
        } else {
            match tech_type {
                TechnologyType::Drive => self.tech_progress.drive_progress = acc,
                TechnologyType::Weapon => self.tech_progress.weapon_progress = acc,
                TechnologyType::Shield => self.tech_progress.shield_progress = acc,
            }
        }
        proof {
            let tq = self.technology;
            let tp = old(self).technology;
            assert(tq.spec_level(TechnologyType::Drive) == tq.drive_level);
            assert(tq.spec_level(TechnologyType::Weapon) == tq.weapon_level);
            assert(tq.spec_level(TechnologyType::Shield) == tq.shield_level);
            assert(tp.spec_level(TechnologyType::Drive) == tp.drive_level);
            assert(tp.spec_level(TechnologyType::Weapon) == tp.weapon_level);
            assert(tp.spec_level(TechnologyType::Shield) == tp.shield_level);
        }
    }
}

} // verus!
