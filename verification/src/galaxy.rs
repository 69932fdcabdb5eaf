//! The galaxy: the collection of all planets.
//!
//! Planet identities are assigned densely in creation order, so the planet
//! with identity `i` sits at index `i`; planets are never removed.

use crate::planet::{spec_after_production, spec_bare_planet, spec_home_planet, Planet, PlanetId};
use crate::position::Position;
use vstd::prelude::*;

verus! {

/// Identities of the planets in `s` owned by the given faction, in order.
pub open spec fn owned_ids(s: Seq<Planet>, race_id: u32) -> Seq<PlanetId>
    decreases s.len(),
{
    if s.len() == 0 {
        Seq::empty()
    } else {
        let rest = owned_ids(s.drop_last(), race_id);
        if s.last().owner == Some(race_id) {
            rest.push(s.last().id)
        } else {
            rest
        }
    }
}

/// Identities of the planets in `s` that no faction owns, in order.
pub open spec fn uninhabited_ids(s: Seq<Planet>) -> Seq<PlanetId>
    decreases s.len(),
{
    if s.len() == 0 {
        Seq::empty()
    } else {
        let rest = uninhabited_ids(s.drop_last());
        if s.last().owner is None {
            rest.push(s.last().id)
        } else {
            rest
        }
    }
}



/// The two snapshots hold the same planets: none created or destroyed, and
/// each keeps its identity, position and size.
pub open spec fn planets_preserved(s1: Seq<Planet>, s2: Seq<Planet>) -> bool {
    &&& s1.len() == s2.len()
    &&& forall|i: int|
        0 <= i < s1.len() ==> (#[trigger] s2[i]).id == s1[i].id && s2[i].position == s1[i].position
            && s2[i].size == s1[i].size
}

/// In a galaxy whose identities are dense, every owned-planet identity
/// indexes an existing planet that the faction indeed owns.
pub proof fn lemma_owned_ids_valid(s: Seq<Planet>, race_id: u32)
    requires
        forall|i: int| 0 <= i < s.len() ==> (#[trigger] s[i]).id.0 == i,
    ensures
        forall|j: int|
            0 <= j < owned_ids(s, race_id).len() ==> ((#[trigger] owned_ids(s, race_id)[j]).0
                as int) < s.len() && s[owned_ids(s, race_id)[j].0 as int].owner == Some(race_id),
    decreases s.len(),
{
    if s.len() > 0 {
        let prefix = s.drop_last();
        lemma_owned_ids_valid(prefix, race_id);
        let ids = owned_ids(s, race_id);
        let rest = owned_ids(prefix, race_id);
        assert forall|j: int| 0 <= j < ids.len() implies ((#[trigger] ids[j]).0 as int) < s.len()
            && s[ids[j].0 as int].owner == Some(race_id) by {
            if j < rest.len() {
                assert(ids[j] == rest[j]);
                assert(prefix[rest[j].0 as int] == s[rest[j].0 as int]);
            } else {
                assert(ids[j] == s.last().id);
            }
        }
    }
}

/// All planets, with bounds in milli units.
#[derive(Debug, Clone)]
pub struct Galaxy {
    pub planets: Vec<Planet>,
    pub width: u64,
    pub height: u64,
}

impl Galaxy {
    /// Planet identities are dense and in creation order, every planet is
    /// well-formed, and one more identity can still be assigned.
    pub open spec fn wf(self) -> bool {
        &&& forall|i: int|
            0 <= i < self.planets@.len() ==> (#[trigger] self.planets@[i]).id.0 == i
                && self.planets@[i].wf()
        &&& self.planets@.len() <= u32::MAX
    }

    pub fn new(width: u64, height: u64) -> (r: Self)
        ensures
            r.planets@.len() == 0,
            r.width == width,
            r.height == height,
            r.wf(),
    {
        Self { planets: Vec::new(), width, height }
    }

    pub fn width(&self) -> (r: u64)
        ensures
            r == self.width,
    {
        self.width
    }

    pub fn height(&self) -> (r: u64)
        ensures
            r == self.height,
    {
        self.height
    }

    /// Create a planet with the next identity: a fully developed home planet
    /// when an owner is given, a bare planet otherwise.
    pub fn add_planet(&mut self, position: Position, size: u32, owner: Option<u32>) -> (r: PlanetId)
        requires
            old(self).wf(),
            old(self).planets@.len() < u32::MAX,
            position.wf(),
        ensures
            final(self).wf(),
            r.0 == old(self).planets@.len(),
            final(self).planets@.len() == old(self).planets@.len() + 1,
            forall|i: int|
                0 <= i < old(self).planets@.len() ==> final(self).planets@[i] == old(
                    self,
                ).planets@[i],
            final(self).planets@.last() == (if owner is Some {
                spec_home_planet(r, position, size, owner->0)
            } else {
                spec_bare_planet(r, position, size)
            }),
            final(self).width == old(self).width,
            final(self).height == old(self).height,
    {
        let id = PlanetId(self.planets.len() as u32);
        let planet = match owner {
            Some(owner_id) => Planet::new_home_planet(id, position, size, owner_id),
            None => Planet::new(id, position, size, None),
        };
        self.planets.push(planet);
        id
    }

    /// Look a planet up by identity.
    pub fn get_planet(&self, id: PlanetId) -> (r: Option<&Planet>)
        ensures
            ((id.0 as int) < self.planets@.len()) == (r is Some),
            r matches Some(p) ==> *p == self.planets@[id.0 as int],
    {
        if (id.0 as usize) < self.planets.len() {
            Some(&self.planets[id.0 as usize])
        } else {
            None
        }
    }

    /// Borrow a planet mutably by identity; the identity must exist.
    pub fn get_planet_mut(&mut self, id: PlanetId) -> (r: &mut Planet)
        requires
            (id.0 as int) < old(self).planets@.len(),
        ensures
            *r == old(self).planets@[id.0 as int],
            final(self).planets@ == old(self).planets@.update(id.0 as int, *final(r)),
            final(self).width == old(self).width,
            final(self).height == old(self).height,
    {
        &mut self.planets[id.0 as usize]
    }

    /// Whether a planet with this identity exists.
    pub fn has_planet(&self, id: PlanetId) -> (r: bool)
        ensures
            r == ((id.0 as int) < self.planets@.len()),
    {
        (id.0 as usize) < self.planets.len()
    }

    /// All planets, in identity order.
    pub fn planets(&self) -> (r: &Vec<Planet>)
        ensures
            r == self.planets,
    {
        &self.planets
    }

    /// All planets, mutably.
    pub fn planets_mut(&mut self) -> (r: &mut Vec<Planet>)
        ensures
            *r == old(self).planets,
            final(self).planets == *final(r),
            final(self).width == old(self).width,
            final(self).height == old(self).height,
    {
        &mut self.planets
    }

    /// Identities of the planets owned by a faction.
    pub fn planets_owned_by(&self, race_id: u32) -> (r: Vec<PlanetId>)
        ensures
            r@ == owned_ids(self.planets@, race_id),
    {
        let n = self.planets.len();
        let mut ids: Vec<PlanetId> = Vec::new();
        let mut i: usize = 0;
        while i < n
            invariant
                i <= n,
                n == self.planets@.len(),
                ids@ == owned_ids(self.planets@.subrange(0, i as int), race_id),
            decreases n - i,
        {
            let ghost prefix = self.planets@.subrange(0, i as int);
            let ghost prefix1 = self.planets@.subrange(0, i as int + 1);
            proof {
                assert(prefix1.drop_last() =~= prefix);
                assert(prefix1.last() == self.planets@[i as int]);
            }
            let p = &self.planets[i];
            match p.owner {
                Some(o) => {
                    if o == race_id {
                        ids.push(p.id);
                    }
                },
                None => {},
            }
            i = i + 1;
        }
        proof {
            assert(self.planets@.subrange(0, n as int) =~= self.planets@);
        }
        ids
    }

    /// Identities of the planets no faction owns.
    pub fn uninhabited_planets(&self) -> (r: Vec<PlanetId>)
        ensures
            r@ == uninhabited_ids(self.planets@),
    {
        let n = self.planets.len();
        let mut ids: Vec<PlanetId> = Vec::new();
        let mut i: usize = 0;
        while i < n
            invariant
                i <= n,
                n == self.planets@.len(),
                ids@ == uninhabited_ids(self.planets@.subrange(0, i as int)),
            decreases n - i,
        {
            let ghost prefix = self.planets@.subrange(0, i as int);
            let ghost prefix1 = self.planets@.subrange(0, i as int + 1);
            proof {
                assert(prefix1.drop_last() =~= prefix);
                assert(prefix1.last() == self.planets@[i as int]);
            }
            let p = &self.planets[i];
            if p.owner.is_none() {
                ids.push(p.id);
            }
            i = i + 1;
        }
        proof {
            assert(self.planets@.subrange(0, n as int) =~= self.planets@);
        }
        ids
    }

    /// How many planets a faction owns.
    pub fn count_planets_owned_by(&self, race_id: u32) -> (r: usize)
        ensures
            r == owned_ids(self.planets@, race_id).len(),
    {
        let ids = self.planets_owned_by(race_id);
        ids.len()
    }

    /// Run this turn's production on every planet.
    pub fn execute_production(&mut self)
        requires
            old(self).wf(),
        ensures
            final(self).wf(),
            final(self).planets@.len() == old(self).planets@.len(),
            forall|i: int|
                0 <= i < old(self).planets@.len() ==> spec_after_production(
                    old(self).planets@[i],
                    #[trigger] final(self).planets@[i],
                ),
            planets_preserved(old(self).planets@, final(self).planets@),
            final(self).width == old(self).width,
            final(self).height == old(self).height,
    {
        let n = self.planets.len();
        let mut i: usize = 0;
        while i < n
            invariant
                i <= n,
                n == self.planets@.len(),
                old(self).wf(),
                n == old(self).planets@.len(),
                self.width == old(self).width,
                self.height == old(self).height,
                forall|j: int|
                    i <= j < n ==> #[trigger] self.planets@[j] == old(self).planets@[j],
                forall|j: int|
                    0 <= j < i ==> spec_after_production(
                        old(self).planets@[j],
                        #[trigger] self.planets@[j],
                    ),
                forall|j: int|
                    0 <= j < i ==> (#[trigger] self.planets@[j]).wf() && self.planets@[j].id == old(
                        self,
                    ).planets@[j].id,
            decreases n - i,
        {
            let mut p = self.planets[i];
            p.execute_production();
            self.planets.set(i, p);
            i = i + 1;
        }
    }
}

} // verus!
