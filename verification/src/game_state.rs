//! The orchestrator: owns the galaxy, all factions, all ships and the
//! diplomacy ledger, and advances the whole game one turn at a time.

use crate::diplomacy::Diplomacy;
use crate::galaxy::{owned_ids, planets_preserved, Galaxy};
use crate::planet::{Planet, PlanetId, ProductionType, TechFocus};
use crate::race::{Race, RaceId, TechnologyType};
use crate::racebot::{Personality, Racebot, RacebotDecisions};
use crate::rng::GameRng;
use crate::ship::{Ship, ShipDesign, ShipId, ShipLocation, PROGRESS_ONE};
use vstd::prelude::*;

verus! {

/// A ship is sound inside a game: well-formed, its identity below the next
/// free one, and every planet it references exists.
pub open spec fn ship_ok(s: Ship, n_planets: int, next_ship_id: u32) -> bool {
    &&& s.wf()
    &&& s.id.0 < next_ship_id
    &&& match s.location {
        ShipLocation::AtPlanet(p) => (p.0 as int) < n_planets,
        ShipLocation::Traveling { from, to, progress } => (from.0 as int) < n_planets && (to.0
            as int) < n_planets,
    }
}

/// An order to start travel is valid: the ship exists, is docked, is not
/// asked to fly to its own planet, and the destination exists.
pub open spec fn travel_order_valid(
    ships: Seq<Ship>,
    ship_id: ShipId,
    destination: PlanetId,
    n_planets: int,
) -> bool {
    exists|k: int|
        0 <= k < ships.len() && (#[trigger] ships[k]).id == ship_id && match ships[k].location {
            ShipLocation::AtPlanet(origin) => origin != destination && (destination.0 as int)
                < n_planets,
            ShipLocation::Traveling { .. } => false,
        }
}

/// The drive technology level a ship moves with: its owner's, or 1 for a
/// ship whose owner is unknown.
pub open spec fn spec_drive_tech(races: Seq<Race>, owner: RaceId) -> u32 {
    if (owner.0 as int) < races.len() {
        races[owner.0 as int].technology.drive_level
    } else {
        1u32
    }
}

/// The trip progress a traveling ship reaches this turn: its speed over the
/// distance between the two planets (at least one whole unit), both in
/// `PROGRESS_ONE` steps, added to the progress so far.
pub open spec fn spec_progress_after_step(s: Ship, galaxy: Galaxy, drive_tech: u32) -> int
    recommends
        s.location is Traveling,
{
    match s.location {
        ShipLocation::AtPlanet(_) => 0int,
        ShipLocation::Traveling { from, to, progress } => {
            let dist = crate::num::sqrt_floor(
                crate::position::spec_dist2(
                    galaxy.planets@[from.0 as int].position,
                    galaxy.planets@[to.0 as int].position,
                ),
            );
            let denom = if dist >= 1000 {
                dist
            } else {
                1000int
            };
            let speed = s.design.spec_speed(drive_tech, s.spec_total_cargo() as u64);
            let step = crate::num::sat64(speed * PROGRESS_ONE / denom);
            crate::num::sat64(progress + step)
        },
    }
}

/// How one movement step transforms one ship: docked ships stay put; a
/// traveling ship advances its progress and docks at its destination once a
/// whole trip is accumulated.
pub open spec fn spec_after_movement(s: Ship, q: Ship, galaxy: Galaxy, races: Seq<Race>) -> bool {
    match s.location {
        ShipLocation::AtPlanet(_) => q == s,
        ShipLocation::Traveling { from, to, progress } => {
            let np = spec_progress_after_step(s, galaxy, spec_drive_tech(races, s.owner));
            q == (Ship {
                location: if np >= PROGRESS_ONE {
                    ShipLocation::AtPlanet(to)
                } else {
                    ShipLocation::Traveling { from, to, progress: np as u64 }
                },
                ..s
            })
        },
    }
}

/// The ship is traveling to the given planet and completes the trip this
/// movement step.
pub open spec fn spec_arrives_at(s: Ship, galaxy: Galaxy, races: Seq<Race>, pid: PlanetId) -> bool {
    match s.location {
        ShipLocation::AtPlanet(_) => false,
        ShipLocation::Traveling { from, to, progress } => to == pid && spec_progress_after_step(
            s,
            galaxy,
            spec_drive_tech(races, s.owner),
        ) >= PROGRESS_ONE,
    }
}

/// One ship descends from another through combat: same ship, with the hull
/// either untouched or removed whole (kills are one-shot).
pub open spec fn ship_descends(q: Ship, s: Ship) -> bool {
    &&& q == (Ship { current_hull: q.current_hull, ..s })
    &&& q.current_hull == s.current_hull || q.current_hull == 0
}

/// The ship descends from one of the ships in `base`.
pub open spec fn descends_from_some(q: Ship, base: Seq<Ship>) -> bool {
    exists|b: int| 0 <= b < base.len() && ship_descends(q, #[trigger] base[b])
}

/// The live set `s` evolved from `base` through combat alone: no more ships
/// than before, every ship descends from one in `base`, all remain sound,
/// and identities stay unique.
pub open spec fn ships_evolved(s: Seq<Ship>, base: Seq<Ship>, n_planets: int, next_id: u32) -> bool {
    &&& s.len() <= base.len()
    &&& forall|a: int| 0 <= a < s.len() ==> descends_from_some(#[trigger] s[a], base)
    &&& forall|a: int| 0 <= a < s.len() ==> ship_ok(#[trigger] s[a], n_planets, next_id)
    &&& forall|a: int, b: int|
        0 <= a < s.len() && 0 <= b < s.len() && a != b ==> (#[trigger] s[a]).id != (
        #[trigger] s[b]).id
}

/// Damaging one ship in place keeps a combat-evolved live set evolved.
proof fn lemma_evolved_update(
    s: Seq<Ship>,
    base: Seq<Ship>,
    n_planets: int,
    next_id: u32,
    i: int,
    q: Ship,
)
    requires
        ships_evolved(s, base, n_planets, next_id),
        0 <= i < s.len(),
        ship_descends(q, s[i]),
    ensures
        ships_evolved(s.update(i, q), base, n_planets, next_id),
{
    let s2 = s.update(i, q);
    assert forall|a: int| 0 <= a < s2.len() implies descends_from_some(#[trigger] s2[a], base) by {
        assert(descends_from_some(s[a], base));
        let b0 = choose|b: int| 0 <= b < base.len() && ship_descends(s[a], #[trigger] base[b]);
        if a == i {
            assert(ship_descends(q, base[b0]));
        }
        assert(ship_descends(s2[a], base[b0]));
    }
    assert forall|a: int| 0 <= a < s2.len() implies ship_ok(#[trigger] s2[a], n_planets, next_id)
        by {
        assert(ship_ok(s[a], n_planets, next_id));
    }
}

/// Dropping a destroyed ship keeps a combat-evolved live set evolved.
proof fn lemma_evolved_remove(s: Seq<Ship>, base: Seq<Ship>, n_planets: int, next_id: u32, i: int)
    requires
        ships_evolved(s, base, n_planets, next_id),
        0 <= i < s.len(),
    ensures
        ships_evolved(s.remove(i), base, n_planets, next_id),
{
    let s2 = s.remove(i);
    assert forall|a: int| 0 <= a < s2.len() implies descends_from_some(#[trigger] s2[a], base) by {
        let orig = if a < i {
            a
        } else {
            a + 1
        };
        assert(s2[a] == s[orig]);
        assert(descends_from_some(s[orig], base));
    }
    assert forall|a: int| 0 <= a < s2.len() implies ship_ok(#[trigger] s2[a], n_planets, next_id)
        by {
        let orig = if a < i {
            a
        } else {
            a + 1
        };
        assert(s2[a] == s[orig]);
    }
    assert forall|a: int, b: int|
        0 <= a < s2.len() && 0 <= b < s2.len() && a != b implies (#[trigger] s2[a]).id != (
    #[trigger] s2[b]).id by {
        let oa = if a < i {
            a
        } else {
            a + 1
        };
        let ob = if b < i {
            b
        } else {
            b + 1
        };
        assert(s2[a] == s[oa] && s2[b] == s[ob]);
    }
}


/// The research contributions one turn collects: for every owned planet with
/// a research focus, its owner, the focused track, and the planet's size, in
/// planet order.
pub open spec fn research_entries(planets: Seq<Planet>) -> Seq<(u32, TechnologyType, u32)>
    decreases planets.len(),
{
    if planets.len() == 0 {
        Seq::empty()
    } else {
        let rest = research_entries(planets.drop_last());
        let p = planets.last();
        match (p.owner, p.tech_focus) {
            (Some(owner), TechFocus::Research(tech_type)) => rest.push((owner, tech_type, p.size)),
            _ => rest,
        }
    }
}

/// The factions after the collected research contributions are applied in
/// order: each entry feeds its planet's size as effort into the owner's
/// focused track; entries naming unknown factions do nothing.
pub open spec fn apply_research(
    races: Seq<Race>,
    entries: Seq<(u32, TechnologyType, u32)>,
) -> Seq<Race>
    decreases entries.len(),
{
    if entries.len() == 0 {
        races
    } else {
        let prev = apply_research(races, entries.drop_last());
        let e = entries.last();
        if (e.0 as int) < prev.len() {
            prev.update(
                e.0 as int,
                crate::race::spec_after_research(prev[e.0 as int], e.1, e.2 as u64),
            )
        } else {
            prev
        }
    }
}


/// Two distinct live ships are docked at the same planet and their owning
/// factions are hostile.
pub open spec fn ships_hostile_pair(ships: Seq<Ship>, diplomacy: Diplomacy, i: int, j: int) -> bool {
    &&& 0 <= i < ships.len()
    &&& 0 <= j < ships.len()
    &&& i != j
    &&& match (ships[i].location, ships[j].location) {
        (ShipLocation::AtPlanet(p), ShipLocation::AtPlanet(q)) => p == q,
        _ => false,
    }
    &&& diplomacy.spec_relationship(ships[i].owner, ships[j].owner)
        == crate::diplomacy::Relationship::Hostile
}

/// The ship at index `i` shares a planet with some hostile ship.
pub open spec fn has_hostile_contact(ships: Seq<Ship>, diplomacy: Diplomacy, i: int) -> bool {
    exists|j: int| #[trigger] ships_hostile_pair(ships, diplomacy, i, j)
}

/// Some two co-located ships are hostile.
pub open spec fn has_any_hostile_pair(ships: Seq<Ship>, diplomacy: Diplomacy) -> bool {
    exists|i: int, j: int| #[trigger] ships_hostile_pair(ships, diplomacy, i, j)
}

/// The technology a faction fights with: its own, or the starting levels
/// for an unknown identity.
pub open spec fn spec_tech_of(races: Seq<Race>, rid: RaceId) -> crate::race::Technology {
    if (rid.0 as int) < races.len() {
        races[rid.0 as int].technology
    } else {
        crate::race::Technology { drive_level: 1u32, weapon_level: 1u32, shield_level: 1u32 }
    }
}

/// The state holds exactly one hostile co-located pair, both ships alive,
/// and the lower-indexed ship's attack is at least four times the other's
/// defence against positive strengths: its opening shot is a certain kill.
#[verifier::opaque]
pub open spec fn sole_certain_kill_pair(pre: GameState, x: int, y: int) -> bool {
    &&& ships_hostile_pair(pre.ships@, pre.diplomacy, x, y)
    &&& x < y
    &&& forall|a: int, b: int|
        #[trigger] ships_hostile_pair(pre.ships@, pre.diplomacy, a, b) ==> ((a == x && b == y) || (
        a == y && b == x))
    &&& pre.ships@[x].current_hull > 0
    &&& pre.ships@[y].current_hull > 0
    &&& pre.ships@[x].design.spec_attack_strength(
        spec_tech_of(pre.races@, pre.ships@[x].owner).weapon_level,
    ) > 0
    &&& pre.ships@[y].design.spec_defence_strength(
        spec_tech_of(pre.races@, pre.ships@[y].owner).shield_level,
        0,
    ) > 0
    &&& pre.ships@[x].design.spec_attack_strength(
        spec_tech_of(pre.races@, pre.ships@[x].owner).weapon_level,
    ) >= 4 * pre.ships@[y].design.spec_defence_strength(
        spec_tech_of(pre.races@, pre.ships@[y].owner).shield_level,
        0,
    )
}

/// The identity belongs to a ship that has hostile contact.
pub open spec fn is_contact_id(ships: Seq<Ship>, diplomacy: Diplomacy, id: ShipId) -> bool {
    exists|i: int|
        0 <= i < ships.len() && (#[trigger] ships[i]).id == id && has_hostile_contact(
            ships,
            diplomacy,
            i,
        )
}

/// Every dead ship in `s` already entered the phase dead: a ship destroyed
/// in a resolved encounter leaves the live set at once, so a zero hull in
/// the final set can only be an untouched ship that arrived with one.
pub open spec fn dead_ships_entered_dead(base: Seq<Ship>, s: Seq<Ship>) -> bool {
    forall|k: int|
        0 <= k < s.len() && (#[trigger] s[k]).current_hull == 0 ==> exists|j: int|
            0 <= j < base.len() && base[j] == s[k]
}

/// Every ship of `base` without hostile contact is still present, unchanged,
/// in `s`.
pub open spec fn noncontact_ships_kept(base: Seq<Ship>, dip: Diplomacy, s: Seq<Ship>) -> bool {
    forall|a: int|
        0 <= a < base.len() && !has_hostile_contact(base, dip, a) ==> exists|k: int|
            0 <= k < s.len() && s[k] == #[trigger] base[a]
}

/// Damaging the ship that carries a hostile-contact identity leaves every
/// ship without hostile contact present and unchanged.
proof fn lemma_noncontact_kept_update(
    base: Seq<Ship>,
    dip: Diplomacy,
    s: Seq<Ship>,
    i: int,
    q: Ship,
    cid: ShipId,
)
    requires
        noncontact_ships_kept(base, dip, s),
        forall|a: int, b: int|
            0 <= a < base.len() && 0 <= b < base.len() && a != b ==> (#[trigger] base[a]).id != (
            #[trigger] base[b]).id,
        0 <= i < s.len(),
        s[i].id == cid,
        is_contact_id(base, dip, cid),
    ensures
        noncontact_ships_kept(base, dip, s.update(i, q)),
{
    let s2 = s.update(i, q);
    assert forall|a: int|
        0 <= a < base.len() && !has_hostile_contact(base, dip, a) implies exists|k: int|
        0 <= k < s2.len() && s2[k] == base[a] by {
        let k0 = choose|k: int| 0 <= k < s.len() && s[k] == base[a];
        if k0 == i {
            let iw = choose|iw: int|
                0 <= iw < base.len() && (#[trigger] base[iw]).id == cid && has_hostile_contact(
                    base,
                    dip,
                    iw,
                );
            assert(base[a].id == cid);
            assert(iw == a);
            assert(false);
        }
        assert(s2[k0] == base[a]);
    }
}

/// Dropping the ship that carries a hostile-contact identity leaves every
/// ship without hostile contact present and unchanged.
proof fn lemma_noncontact_kept_remove(
    base: Seq<Ship>,
    dip: Diplomacy,
    s: Seq<Ship>,
    i: int,
    cid: ShipId,
)
    requires
        noncontact_ships_kept(base, dip, s),
        forall|a: int, b: int|
            0 <= a < base.len() && 0 <= b < base.len() && a != b ==> (#[trigger] base[a]).id != (
            #[trigger] base[b]).id,
        0 <= i < s.len(),
        s[i].id == cid,
        is_contact_id(base, dip, cid),
    ensures
        noncontact_ships_kept(base, dip, s.remove(i)),
{
    let s2 = s.remove(i);
    assert forall|a: int|
        0 <= a < base.len() && !has_hostile_contact(base, dip, a) implies exists|k: int|
        0 <= k < s2.len() && s2[k] == base[a] by {
        let k0 = choose|k: int| 0 <= k < s.len() && s[k] == base[a];
        if k0 == i {
            let iw = choose|iw: int|
                0 <= iw < base.len() && (#[trigger] base[iw]).id == cid && has_hostile_contact(
                    base,
                    dip,
                    iw,
                );
            assert(base[a].id == cid);
            assert(iw == a);
            assert(false);
        }
        if k0 < i {
            assert(s2[k0] == base[a]);
        } else {
            assert(s2[k0 - 1] == s[k0]);
        }
    }
}


/// The production assignment the latest order in the list gives a planet,
/// if any order names it.
pub open spec fn last_production_order(
    orders: Seq<(PlanetId, ProductionType)>,
    pid: PlanetId,
) -> Option<ProductionType>
    decreases orders.len(),
{
    if orders.len() == 0 {
        None
    } else if orders.last().0 == pid {
        Some(orders.last().1)
    } else {
        last_production_order(orders.drop_last(), pid)
    }
}

/// What applying a decision batch may do to the planets: reassign production
/// and spend materials; everything else stays.
pub open spec fn planets_after_decisions(pre: Seq<Planet>, post: Seq<Planet>) -> bool {
    &&& post.len() == pre.len()
    &&& forall|j: int|
        0 <= j < pre.len() ==> {
            let q = #[trigger] post[j];
            q == (Planet { materials: q.materials, production_type: q.production_type, ..pre[j] })
                && q.materials <= pre[j].materials
        }
}

/// What applying a decision batch may do to the ships: the old ships keep
/// everything but their location, and any ship beyond them is freshly built,
/// docked with a full hull and no cargo.
pub open spec fn ships_after_decisions(pre: Seq<Ship>, post: Seq<Ship>) -> bool {
    &&& post.len() >= pre.len()
    &&& forall|i: int|
        0 <= i < pre.len() ==> #[trigger] post[i] == (Ship { location: post[i].location, ..pre[i] })
    &&& forall|i: int|
        pre.len() <= i < post.len() ==> (#[trigger] post[i]).current_hull
            == post[i].design.shields_mass && post[i].cargo_colonists == 0
            && post[i].cargo_materials == 0 && post[i].cargo_capital == 0
}

/// The ship is freshly built from one of the listed build orders: full
/// hull, empty holds, and the design of some order.
pub open spec fn built_from_some(q: Ship, builds: Seq<crate::racebot::ShipBuild>) -> bool {
    &&& q.current_hull == q.design.shields_mass
    &&& q.cargo_colonists == 0
    &&& q.cargo_materials == 0
    &&& q.cargo_capital == 0
    &&& exists|b: int| 0 <= b < builds.len() && q.design == (#[trigger] builds[b]).design
}

/// Two decision applications in a row look like one.
proof fn lemma_planets_after_decisions_trans(a: Seq<Planet>, b: Seq<Planet>, c: Seq<Planet>)
    requires
        planets_after_decisions(a, b),
        planets_after_decisions(b, c),
    ensures
        planets_after_decisions(a, c),
{
    assert forall|j: int| 0 <= j < a.len() implies ({
        let q = #[trigger] c[j];
        q == (Planet { materials: q.materials, production_type: q.production_type, ..a[j] })
            && q.materials <= a[j].materials
    }) by {
        assert(b[j] == (Planet {
            materials: b[j].materials,
            production_type: b[j].production_type,
            ..a[j]
        }));
    }
}

/// Two decision applications in a row look like one.
proof fn lemma_ships_after_decisions_trans(a: Seq<Ship>, b: Seq<Ship>, c: Seq<Ship>)
    requires
        ships_after_decisions(a, b),
        ships_after_decisions(b, c),
    ensures
        ships_after_decisions(a, c),
{
    assert forall|i: int| 0 <= i < a.len() implies #[trigger] c[i] == (Ship {
        location: c[i].location,
        ..a[i]
    }) by {
        assert(b[i] == (Ship { location: b[i].location, ..a[i] }));
    }
    assert forall|i: int|
        a.len() <= i < c.len() implies (#[trigger] c[i]).current_hull == c[i].design.shields_mass
        && c[i].cargo_colonists == 0 && c[i].cargo_materials == 0 && c[i].cargo_capital == 0 by {
        if i < b.len() {
            assert(b[i].current_hull == b[i].design.shields_mass);
        }
    }
}


/// What the AI phase may do: every AI faction's decision batch is applied,
/// which can reassign production, spend materials, add freshly built ships
/// and start trips; factions, the ledger, the dice and the turn stay.
pub open spec fn ai_phase_rel(pre: GameState, post: GameState) -> bool {
    &&& post.wf()
    &&& post.races == pre.races
    &&& post.turn == pre.turn
    &&& post.diplomacy == pre.diplomacy
    &&& post.rng == pre.rng
    &&& post.ai_personalities == pre.ai_personalities
    &&& post.galaxy.width == pre.galaxy.width
    &&& post.galaxy.height == pre.galaxy.height
    &&& planets_preserved(pre.galaxy.planets@, post.galaxy.planets@)
    &&& planets_after_decisions(pre.galaxy.planets@, post.galaxy.planets@)
    &&& ships_after_decisions(pre.ships@, post.ships@)
    &&& ai_turns_applied(pre, ai_race_ids(pre.races@), post)
}

/// The production phase: every planet takes exactly one production step;
/// nothing else moves.
pub open spec fn production_phase_rel(pre: GameState, post: GameState) -> bool {
    &&& post.wf()
    &&& post == (GameState { galaxy: post.galaxy, ..pre })
    &&& post.galaxy.width == pre.galaxy.width
    &&& post.galaxy.height == pre.galaxy.height
    &&& post.galaxy.planets@.len() == pre.galaxy.planets@.len()
    &&& forall|j: int|
        0 <= j < pre.galaxy.planets@.len() ==> crate::planet::spec_after_production(
            pre.galaxy.planets@[j],
            #[trigger] post.galaxy.planets@[j],
        )
}

/// The research phase: the factions become exactly the old factions with the
/// turn's collected research contributions applied in planet order; nothing
/// else moves.
pub open spec fn research_phase_rel(pre: GameState, post: GameState) -> bool {
    &&& post.wf()
    &&& post == (GameState { races: post.races, ..pre })
    &&& post.races@ == apply_research(pre.races@, research_entries(pre.galaxy.planets@))
}

/// The movement phase: every ship takes exactly one movement step, and an
/// unowned planet gains an owner exactly when some ship arrives there, the
/// owner of one such ship; nothing else moves.
pub open spec fn movement_phase_rel(pre: GameState, post: GameState) -> bool {
    &&& post.wf()
    &&& post.races == pre.races
    &&& post.diplomacy == pre.diplomacy
    &&& post.turn == pre.turn
    &&& post.next_ship_id == pre.next_ship_id
    &&& post.rng == pre.rng
    &&& post.ai_personalities == pre.ai_personalities
    &&& post.galaxy.width == pre.galaxy.width
    &&& post.galaxy.height == pre.galaxy.height
    &&& post.ships@.len() == pre.ships@.len()
    &&& forall|i: int|
        0 <= i < pre.ships@.len() ==> spec_after_movement(
            pre.ships@[i],
            #[trigger] post.ships@[i],
            pre.galaxy,
            pre.races@,
        )
    &&& post.galaxy.planets@.len() == pre.galaxy.planets@.len()
    &&& planets_preserved(pre.galaxy.planets@, post.galaxy.planets@)
    &&& forall|j: int|
        0 <= j < pre.galaxy.planets@.len() ==> {
            let q = #[trigger] post.galaxy.planets@[j];
            let s = pre.galaxy.planets@[j];
            q == (Planet { owner: q.owner, ..s }) && (s.owner is Some ==> q.owner == s.owner)
        }
    &&& forall|j: int|
        0 <= j < pre.galaxy.planets@.len() && pre.galaxy.planets@[j].owner is None ==> {
            let q = #[trigger] post.galaxy.planets@[j];
            let pid = pre.galaxy.planets@[j].id;
            &&& (q.owner is None ==> forall|k: int|
                0 <= k < pre.ships@.len() ==> !spec_arrives_at(
                    #[trigger] pre.ships@[k],
                    pre.galaxy,
                    pre.races@,
                    pid,
                ))
            &&& (q.owner matches Some(o) ==> exists|k: int|
                0 <= k < pre.ships@.len() && spec_arrives_at(
                    #[trigger] pre.ships@[k],
                    pre.galaxy,
                    pre.races@,
                    pid,
                ) && pre.ships@[k].owner.0 == o)
        }
}

/// The combat phase: ships only lose whole hulls or leave the live set,
/// ships without a co-located hostile counterpart stay untouched, no
/// relationship changes, and without any hostile pair nothing happens at
/// all; only the dice advance besides the ships.
pub open spec fn combat_phase_rel(pre: GameState, post: GameState) -> bool {
    &&& post.wf()
    &&& post.galaxy == pre.galaxy
    &&& post.races == pre.races
    &&& post.turn == pre.turn
    &&& post.next_ship_id == pre.next_ship_id
    &&& post.ai_personalities == pre.ai_personalities
    &&& post.ships@.len() <= pre.ships@.len()
    &&& forall|i: int|
        0 <= i < post.ships@.len() ==> descends_from_some(#[trigger] post.ships@[i], pre.ships@)
    &&& forall|x: RaceId, y: RaceId|
        #![all_triggers]
        post.diplomacy.spec_relationship(x, y) == pre.diplomacy.spec_relationship(x, y)
    &&& noncontact_ships_kept(pre.ships@, pre.diplomacy, post.ships@)
    &&& dead_ships_entered_dead(pre.ships@, post.ships@)
    &&& (!has_any_hostile_pair(pre.ships@, pre.diplomacy) ==> post == pre)
    &&& forall|x: int, y: int|
        #[trigger] sole_certain_kill_pair(pre, x, y) ==> post.ships@ == pre.ships@.remove(y)
}

/// The growth phase: every planet takes exactly one growth step; nothing
/// else moves.
pub open spec fn growth_phase_rel(pre: GameState, post: GameState) -> bool {
    &&& post.wf()
    &&& post == (GameState { galaxy: post.galaxy, ..pre })
    &&& post.galaxy.width == pre.galaxy.width
    &&& post.galaxy.height == pre.galaxy.height
    &&& post.galaxy.planets@.len() == pre.galaxy.planets@.len()
    &&& forall|j: int|
        0 <= j < pre.galaxy.planets@.len() ==> crate::planet::spec_after_growth(
            pre.galaxy.planets@[j],
            #[trigger] post.galaxy.planets@[j],
        )
}


/// One production order applied: the assignment lands only on an existing
/// planet the ordering faction owns.
pub open spec fn spec_order_step(
    planets: Seq<Planet>,
    race_id: u32,
    order: (PlanetId, ProductionType),
) -> Seq<Planet> {
    let pid = order.0;
    if (pid.0 as int) < planets.len() && planets[pid.0 as int].owner == Some(race_id) {
        planets.update(
            pid.0 as int,
            Planet { production_type: order.1, ..planets[pid.0 as int] },
        )
    } else {
        planets
    }
}

/// A list of production orders applied in order.
pub open spec fn spec_apply_orders(
    planets: Seq<Planet>,
    race_id: u32,
    orders: Seq<(PlanetId, ProductionType)>,
) -> Seq<Planet>
    decreases orders.len(),
{
    if orders.len() == 0 {
        planets
    } else {
        spec_order_step(spec_apply_orders(planets, race_id, orders.drop_last()), race_id, orders.last())
    }
}

/// One build order applied: exactly when the planet exists, someone owns it,
/// its materials cover the design's mass and a ship identity is free, the
/// materials are debited and a fresh ship with the next identity docks there.
pub open spec fn spec_build_step(
    planets: Seq<Planet>,
    ships: Seq<Ship>,
    next_id: int,
    build: crate::racebot::ShipBuild,
) -> (Seq<Planet>, Seq<Ship>, int) {
    let pid = build.planet_id;
    if (pid.0 as int) < planets.len() && planets[pid.0 as int].owner is Some
        && planets[pid.0 as int].materials >= build.design.spec_ship_mass() && next_id < u32::MAX {
        let planet = planets[pid.0 as int];
        let ship = Ship {
            id: ShipId(next_id as u32),
            owner: RaceId(planet.owner->0),
            design: build.design,
            current_hull: build.design.shields_mass,
            location: ShipLocation::AtPlanet(pid),
            cargo_colonists: 0u64,
            cargo_materials: 0u64,
            cargo_capital: 0u64,
        };
        (
            planets.update(
                pid.0 as int,
                Planet {
                    materials: (planet.materials - build.design.spec_ship_mass()) as u64,
                    ..planet
                },
            ),
            ships.push(ship),
            next_id + 1,
        )
    } else {
        (planets, ships, next_id)
    }
}

/// A list of build orders applied in order.
pub open spec fn spec_apply_builds(
    planets: Seq<Planet>,
    ships: Seq<Ship>,
    next_id: int,
    builds: Seq<crate::racebot::ShipBuild>,
) -> (Seq<Planet>, Seq<Ship>, int)
    decreases builds.len(),
{
    if builds.len() == 0 {
        (planets, ships, next_id)
    } else {
        let prev = spec_apply_builds(planets, ships, next_id, builds.drop_last());
        spec_build_step(prev.0, prev.1, prev.2, builds.last())
    }
}

/// One travel order applied: exactly when valid, the named ship starts its
/// trip at zero progress.
pub open spec fn spec_travel_order_step(
    ships: Seq<Ship>,
    movement: crate::racebot::ShipMovement,
    n_planets: int,
) -> Seq<Ship> {
    if travel_order_valid(ships, movement.ship_id, movement.destination, n_planets) {
        let k = choose|k: int|
            0 <= k < ships.len() && (#[trigger] ships[k]).id == movement.ship_id && match ships[k].location {
                ShipLocation::AtPlanet(origin) => origin != movement.destination && (
                movement.destination.0 as int) < n_planets,
                ShipLocation::Traveling { .. } => false,
            };
        match ships[k].location {
            ShipLocation::AtPlanet(origin) => ships.update(
                k,
                Ship {
                    location: ShipLocation::Traveling {
                        from: origin,
                        to: movement.destination,
                        progress: 0u64,
                    },
                    ..ships[k]
                },
            ),
            ShipLocation::Traveling { .. } => ships,
        }
    } else {
        ships
    }
}

/// A list of travel orders applied in order.
pub open spec fn spec_apply_travels(
    ships: Seq<Ship>,
    movements: Seq<crate::racebot::ShipMovement>,
    n_planets: int,
) -> Seq<Ship>
    decreases movements.len(),
{
    if movements.len() == 0 {
        ships
    } else {
        spec_travel_order_step(
            spec_apply_travels(ships, movements.drop_last(), n_planets),
            movements.last(),
            n_planets,
        )
    }
}

/// A whole decision batch applied in the pipeline's order: production
/// assignments, then ship builds, then travel orders; everything else stays.
pub open spec fn decisions_applied(
    pre: GameState,
    race_id: RaceId,
    production_orders: Seq<(PlanetId, ProductionType)>,
    ship_builds: Seq<crate::racebot::ShipBuild>,
    ship_movements: Seq<crate::racebot::ShipMovement>,
    post: GameState,
) -> bool {
    let planets_after_orders = spec_apply_orders(pre.galaxy.planets@, race_id.0, production_orders);
    let after_builds = spec_apply_builds(
        planets_after_orders,
        pre.ships@,
        pre.next_ship_id as int,
        ship_builds,
    );
    &&& post.galaxy.planets@ == after_builds.0
    &&& post.next_ship_id == after_builds.2
    &&& post.ships@ == spec_apply_travels(
        after_builds.1,
        ship_movements,
        pre.galaxy.planets@.len() as int,
    )
    &&& post.races == pre.races
    &&& post.turn == pre.turn
    &&& post.diplomacy == pre.diplomacy
    &&& post.rng == pre.rng
    &&& post.ai_personalities == pre.ai_personalities
    &&& post.galaxy.width == pre.galaxy.width
    &&& post.galaxy.height == pre.galaxy.height
}


/// The personality a faction's bot plays: the latest registration for the
/// identity, or the balanced default.
pub open spec fn spec_personality_of(list: Seq<(u32, Personality)>, rid: u32) -> Personality
    decreases list.len(),
{
    if list.len() == 0 {
        Personality::Balanced
    } else if list.last().0 == rid {
        list.last().1
    } else {
        spec_personality_of(list.drop_last(), rid)
    }
}

/// Running one faction's bot: an unknown faction changes nothing; a known
/// one has some decision batch of its registered personality both produced
/// by the decision rules and applied to the state.
pub open spec fn racebot_run_rel(pre: GameState, rid: RaceId, post: GameState) -> bool {
    &&& post.wf()
    &&& ((rid.0 as int) >= pre.races@.len() ==> post == pre)
    &&& ((rid.0 as int) < pre.races@.len() ==> exists|
        po: Seq<(PlanetId, ProductionType)>,
        bu: Seq<crate::racebot::ShipBuild>,
        mv: Seq<crate::racebot::ShipMovement>,
    |
        #![trigger decisions_applied(pre, rid, po, bu, mv, post)]
        crate::racebot::decisions_match(
            pre.galaxy,
            rid,
            spec_personality_of(pre.ai_personalities@, rid.0),
            pre.ships@,
            po,
            bu,
            mv,
        ) && decisions_applied(pre, rid, po, bu, mv, post))
}

/// Identities of the AI-controlled factions, in identity order.
pub open spec fn ai_race_ids(races: Seq<Race>) -> Seq<RaceId>
    decreases races.len(),
{
    if races.len() == 0 {
        Seq::empty()
    } else {
        let rest = ai_race_ids(races.drop_last());
        if races.last().ai_controlled {
            rest.push(races.last().id)
        } else {
            rest
        }
    }
}

/// The bots of the listed factions ran once each, in order.
pub open spec fn ai_turns_applied(pre: GameState, ids: Seq<RaceId>, post: GameState) -> bool
    decreases ids.len(),
{
    if ids.len() == 0 {
        post == pre
    } else {
        exists|mid: GameState|
            #![trigger racebot_run_rel(mid, ids.last(), post)]
            ai_turns_applied(pre, ids.drop_last(), mid) && racebot_run_rel(mid, ids.last(), post)
    }
}


/// One whole turn: the counter rises by one, nothing is created or
/// destroyed among planets and factions, technology never falls, and the new
/// state is reached from the old through the six phases in order.
pub open spec fn advance_rel(pre: GameState, post: GameState) -> bool {
    &&& post.wf()
    &&& post.turn == pre.turn + 1
    &&& post.galaxy.planets@.len() == pre.galaxy.planets@.len()
    &&& planets_preserved(pre.galaxy.planets@, post.galaxy.planets@)
    &&& post.galaxy.width == pre.galaxy.width
    &&& post.galaxy.height == pre.galaxy.height
    &&& post.races@.len() == pre.races@.len()
    &&& forall|i: int|
        0 <= i < pre.races@.len() ==> {
            let q = #[trigger] post.races@[i];
            let s = pre.races@[i];
            q.id == s.id && q.name == s.name && q.ai_controlled == s.ai_controlled
                && q.technology.drive_level >= s.technology.drive_level
                && q.technology.weapon_level >= s.technology.weapon_level
                && q.technology.shield_level >= s.technology.shield_level
        }
    &&& exists|g1: GameState, g2: GameState, g3: GameState, g4: GameState, g5: GameState|
        #![trigger production_phase_rel(g1, g2), movement_phase_rel(g3, g4), combat_phase_rel(g4, g5)]
        ai_phase_rel((GameState { turn: (pre.turn + 1) as u32, ..pre }), g1)
            && production_phase_rel(g1, g2) && research_phase_rel(g2, g3) && movement_phase_rel(
            g3,
            g4,
        ) && combat_phase_rel(g4, g5) && growth_phase_rel(g5, post)
}

/// The post state is reached from the pre state by the given number of whole
/// turns.
pub open spec fn simulation_steps(pre: GameState, steps: nat, post: GameState) -> bool
    decreases steps,
{
    if steps == 0 {
        post == pre
    } else {
        exists|mid: GameState|
            #![trigger advance_rel(mid, post)]
            simulation_steps(pre, (steps - 1) as nat, mid) && advance_rel(mid, post)
    }
}


/// After one resolved pair is written back and its fallen participants are
/// dropped, every zero hull left in the list traces back, unchanged, to the
/// set the phase started from.
proof fn lemma_dead_after_pair(
    base: Seq<Ship>,
    s0: Seq<Ship>,
    t: Seq<Ship>,
    u: Seq<Ship>,
    cur: Seq<Ship>,
    i1: int,
    i2: int,
    lo_idx: int,
    hi_idx: int,
    removed_hi: bool,
    removed_lo: bool,
)
    requires
        dead_ships_entered_dead(base, s0),
        0 <= i1 < s0.len(),
        0 <= i2 < s0.len(),
        i1 != i2,
        t.len() == s0.len(),
        forall|p: int| 0 <= p < s0.len() && p != i1 && p != i2 ==> #[trigger] t[p] == s0[p],
        lo_idx == if i1 < i2 {
            i1
        } else {
            i2
        },
        hi_idx == if i1 < i2 {
            i2
        } else {
            i1
        },
        u == if removed_hi {
            t.remove(hi_idx)
        } else {
            t
        },
        cur == if removed_lo {
            u.remove(lo_idx)
        } else {
            u
        },
        !removed_hi ==> t[hi_idx].current_hull != 0,
        !removed_lo ==> t[lo_idx].current_hull != 0,
    ensures
        dead_ships_entered_dead(base, cur),
{
    assert forall|k2: int|
        0 <= k2 < cur.len() && (#[trigger] cur[k2]).current_hull == 0 implies exists|j: int|
        0 <= j < base.len() && base[j] == cur[k2] by {
        let ku = if removed_lo && k2 >= lo_idx {
            k2 + 1
        } else {
            k2
        };
        assert(cur[k2] == u[ku]);
        let kt = if removed_hi && ku >= hi_idx {
            ku + 1
        } else {
            ku
        };
        assert(u[ku] == t[kt]);
        assert(kt != hi_idx);
        assert(kt != lo_idx);
        assert(t[kt] == s0[kt]);
        assert(s0[kt].current_hull == 0);
    }
}

/// The whole mutable state of one game session.
#[derive(Debug)]
pub struct GameState {
    pub galaxy: Galaxy,
    pub races: Vec<Race>,
    pub ships: Vec<Ship>,
    pub diplomacy: Diplomacy,
    pub ai_personalities: Vec<(u32, Personality)>,
    pub next_ship_id: u32,
    pub turn: u32,
    pub rng: GameRng,
}

impl GameState {
    /// Everything hangs together: the galaxy and ledger are well-formed,
    /// faction identities are dense, ship identities are unique and below
    /// the next free one, and ships only reference existing planets.
    pub open spec fn wf(self) -> bool {
        &&& self.galaxy.wf()
        &&& self.diplomacy.wf()
        &&& self.races@.len() <= u32::MAX
        &&& forall|i: int|
            0 <= i < self.races@.len() ==> (#[trigger] self.races@[i]).id.0 == i
                && self.races@[i].wf()
        &&& forall|i: int|
            0 <= i < self.ships@.len() ==> ship_ok(
                #[trigger] self.ships@[i],
                self.galaxy.planets@.len() as int,
                self.next_ship_id,
            )
        &&& forall|i: int, j: int|
            0 <= i < self.ships@.len() && 0 <= j < self.ships@.len() && i != j ==> (
            #[trigger] self.ships@[i]).id != (#[trigger] self.ships@[j]).id
    }

    /// A fresh game over an empty galaxy, with the combat dice seeded from
    /// the given value.
    pub fn with_seed(galaxy_width: u64, galaxy_height: u64, seed: u64) -> (r: Self)
        ensures
            r.wf(),
            r.galaxy.planets@.len() == 0,
            r.galaxy.width == galaxy_width,
            r.galaxy.height == galaxy_height,
            r.races@.len() == 0,
            r.ships@.len() == 0,
            r.turn == 0,
            r.next_ship_id == 0,
            forall|a: RaceId, b: RaceId|
                a.0 != b.0 ==> #[trigger] r.diplomacy.spec_relationship(a, b)
                    == crate::diplomacy::Relationship::Neutral,
    {
        Self {
            galaxy: Galaxy::new(galaxy_width, galaxy_height),
            races: Vec::new(),
            ships: Vec::new(),
            diplomacy: Diplomacy::new(),
            ai_personalities: Vec::new(),
            next_ship_id: 0,
            turn: 0,
            rng: GameRng::from_seed(seed),
        }
    }

    /// A fresh game over an empty galaxy.
    pub fn new(galaxy_width: u64, galaxy_height: u64) -> (r: Self)
        ensures
            r.wf(),
            r.galaxy.planets@.len() == 0,
            r.galaxy.width == galaxy_width,
            r.galaxy.height == galaxy_height,
            r.races@.len() == 0,
            r.ships@.len() == 0,
            r.turn == 0,
            r.next_ship_id == 0,
            forall|a: RaceId, b: RaceId|
                a.0 != b.0 ==> #[trigger] r.diplomacy.spec_relationship(a, b)
                    == crate::diplomacy::Relationship::Neutral,
    {
        Self::with_seed(galaxy_width, galaxy_height, 0)
    }

    pub fn galaxy(&self) -> (r: &Galaxy)
        ensures
            r == self.galaxy,
    {
        &self.galaxy
    }

    pub fn galaxy_mut(&mut self) -> (r: &mut Galaxy)
        ensures
            *r == old(self).galaxy,
            final(self).galaxy == *final(r),
            final(self).races == old(self).races,
            final(self).ships == old(self).ships,
            final(self).diplomacy == old(self).diplomacy,
            final(self).ai_personalities == old(self).ai_personalities,
            final(self).next_ship_id == old(self).next_ship_id,
            final(self).turn == old(self).turn,
            final(self).rng == old(self).rng,
    {
        &mut self.galaxy
    }

    pub fn turn(&self) -> (r: u32)
        ensures
            r == self.turn,
    {
        self.turn
    }

    pub fn diplomacy(&self) -> (r: &Diplomacy)
        ensures
            r == self.diplomacy,
    {
        &self.diplomacy
    }

    pub fn diplomacy_mut(&mut self) -> (r: &mut Diplomacy)
        ensures
            *r == old(self).diplomacy,
            final(self).diplomacy == *final(r),
            final(self).galaxy == old(self).galaxy,
            final(self).races == old(self).races,
            final(self).ships == old(self).ships,
            final(self).ai_personalities == old(self).ai_personalities,
            final(self).next_ship_id == old(self).next_ship_id,
            final(self).turn == old(self).turn,
            final(self).rng == old(self).rng,
    {
        &mut self.diplomacy
    }

    /// Register a player-controlled faction with the next identity.
    pub fn add_race(&mut self, name: String, home_planet_id: u32) -> (r: RaceId)
        requires
            old(self).wf(),
            old(self).races@.len() < u32::MAX,
        ensures
            final(self).wf(),
            r.0 == old(self).races@.len(),
            final(self).races@.len() == old(self).races@.len() + 1,
            forall|i: int|
                0 <= i < old(self).races@.len() ==> final(self).races@[i] == old(self).races@[i],
            final(self).races@.last().id == r,
            final(self).races@.last().name == name,
            final(self).races@.last().home_planet_id == home_planet_id,
            !final(self).races@.last().ai_controlled,
            final(self).races@.last().technology.drive_level == 1,
            final(self).races@.last().technology.weapon_level == 1,
            final(self).races@.last().technology.shield_level == 1,
            final(self).galaxy == old(self).galaxy,
            final(self).ships == old(self).ships,
            final(self).diplomacy == old(self).diplomacy,
            final(self).turn == old(self).turn,
            final(self).next_ship_id == old(self).next_ship_id,
    {
        let id = RaceId(self.races.len() as u32);
        let race = Race::new(id, name, home_planet_id);
        self.races.push(race);
        id
    }

    /// Register an AI-controlled faction with the next identity and the
    /// personality its bot will play.
    pub fn add_ai_race(&mut self, name: String, home_planet_id: u32, personality: Personality) -> (r:
        RaceId)
        requires
            old(self).wf(),
            old(self).races@.len() < u32::MAX,
        ensures
            final(self).wf(),
            r.0 == old(self).races@.len(),
            final(self).races@.len() == old(self).races@.len() + 1,
            forall|i: int|
                0 <= i < old(self).races@.len() ==> final(self).races@[i] == old(self).races@[i],
            final(self).races@.last().id == r,
            final(self).races@.last().name == name,
            final(self).races@.last().home_planet_id == home_planet_id,
            final(self).races@.last().ai_controlled,
            final(self).galaxy == old(self).galaxy,
            final(self).ships == old(self).ships,
            final(self).diplomacy == old(self).diplomacy,
            final(self).turn == old(self).turn,
            final(self).next_ship_id == old(self).next_ship_id,
    {
        let id = RaceId(self.races.len() as u32);
        let race = Race::new_ai(id, name, home_planet_id);
        self.races.push(race);
        self.ai_personalities.push((id.0, personality));
        id
    }

    /// Look a faction up by identity.
    pub fn get_race(&self, id: RaceId) -> (r: Option<&Race>)
        requires
            self.wf(),
        ensures
            ((id.0 as int) < self.races@.len()) == (r is Some),
            r matches Some(race) ==> *race == self.races@[id.0 as int],
    {
        if (id.0 as usize) < self.races.len() {
            Some(&self.races[id.0 as usize])
        } else {
            None
        }
    }

    /// Borrow a faction mutably by identity; the identity must exist.
    pub fn get_race_mut(&mut self, id: RaceId) -> (r: &mut Race)
        requires
            (id.0 as int) < old(self).races@.len(),
        ensures
            *r == old(self).races@[id.0 as int],
            final(self).races@ == old(self).races@.update(id.0 as int, *final(r)),
            final(self).galaxy == old(self).galaxy,
            final(self).ships == old(self).ships,
            final(self).diplomacy == old(self).diplomacy,
            final(self).ai_personalities == old(self).ai_personalities,
            final(self).next_ship_id == old(self).next_ship_id,
            final(self).turn == old(self).turn,
            final(self).rng == old(self).rng,
    {
        &mut self.races[id.0 as usize]
    }

    /// All factions, in identity order.
    pub fn races(&self) -> (r: &Vec<Race>)
        ensures
            r == self.races,
    {
        &self.races
    }

    /// Build a ship of the given design at a planet. Succeeds only when the
    /// planet exists, someone owns it, its materials cover the design's
    /// cost, and a ship identity is still free; the materials are debited
    /// and the ship starts docked there with a full hull.
    pub fn build_ship(&mut self, planet_id: PlanetId, design: ShipDesign) -> (r: Option<ShipId>)
        requires
            old(self).wf(),
        ensures
            final(self).wf(),
            ({
                let valid = (planet_id.0 as int) < old(self).galaxy.planets@.len();
                let can = valid && old(self).galaxy.planets@[planet_id.0 as int].owner is Some
                    && old(self).galaxy.planets@[planet_id.0 as int].materials
                    >= design.spec_ship_mass() && old(self).next_ship_id < u32::MAX;
                if can {
                    let planet = old(self).galaxy.planets@[planet_id.0 as int];
                    let ship = Ship {
                        id: ShipId(old(self).next_ship_id),
                        owner: RaceId(planet.owner->0),
                        design,
                        current_hull: design.shields_mass,
                        location: ShipLocation::AtPlanet(planet_id),
                        cargo_colonists: 0u64,
                        cargo_materials: 0u64,
                        cargo_capital: 0u64,
                    };
                    &&& r == Some(ShipId(old(self).next_ship_id))
                    &&& final(self).ships@ == old(self).ships@.push(ship)
                    &&& final(self).galaxy.planets@ == old(self).galaxy.planets@.update(
                        planet_id.0 as int,
                        Planet {
                            materials: (planet.materials - design.spec_ship_mass()) as u64,
                            ..planet
                        },
                    )
                    &&& final(self).next_ship_id == old(self).next_ship_id + 1
                } else {
                    r is None && *final(self) == *old(self)
                }
            }),
            planets_preserved(old(self).galaxy.planets@, final(self).galaxy.planets@),
            final(self).races == old(self).races,
            final(self).diplomacy == old(self).diplomacy,
            final(self).turn == old(self).turn,
            final(self).rng == old(self).rng,
            final(self).ai_personalities == old(self).ai_personalities,
            final(self).galaxy.width == old(self).galaxy.width,
            final(self).galaxy.height == old(self).galaxy.height,
    {
        if !self.galaxy.has_planet(planet_id) {
            return None;
        }
        if self.next_ship_id == u32::MAX {
            return None;
        }
        let cost = design.material_cost();
        let owner_opt: Option<u32>;
        let enough: bool;
        match self.galaxy.get_planet(planet_id) {
            Some(p) => {
                owner_opt = p.owner;
                enough = p.materials >= cost;
            },
            None => {
                proof {
                    assert(false);
                }
                owner_opt = None;
                enough = false;
            },
        }
        let owner_id: u32 = match owner_opt {
            Some(o) => o,
            None => {
                return None;
            },
        };
        if !enough {
            return None;
        }
        {
            let planet = self.galaxy.get_planet_mut(planet_id);
            let debited = planet.consume_materials(cost);
            proof {
                assert(debited);
            }
        }
        let ship_id = ShipId(self.next_ship_id);
        self.next_ship_id = self.next_ship_id + 1;
        let ship = Ship::new(ship_id, RaceId(owner_id), design, planet_id);
        self.ships.push(ship);
        proof {
            assert forall|i: int, j: int|
                0 <= i < self.ships@.len() && 0 <= j < self.ships@.len() && i != j implies (
            #[trigger] self.ships@[i]).id != (#[trigger] self.ships@[j]).id by {
                if i < old(self).ships@.len() && j < old(self).ships@.len() {
                    assert(old(self).ships@[i].id != old(self).ships@[j].id);
                }
            }
        }
        Some(ship_id)
    }

    /// Look a ship up by identity.
    pub fn get_ship(&self, id: ShipId) -> (r: Option<&Ship>)
        ensures
            r matches Some(s) ==> exists|k: int|
                0 <= k < self.ships@.len() && *s == self.ships@[k] && (#[trigger] self.ships@[k]).id
                    == id,
            r is None ==> forall|k: int|
                0 <= k < self.ships@.len() ==> (#[trigger] self.ships@[k]).id != id,
    {
        let n = self.ships.len();
        let mut i: usize = 0;
        while i < n
            invariant
                i <= n,
                n == self.ships@.len(),
                forall|k: int| 0 <= k < i ==> (#[trigger] self.ships@[k]).id != id,
            decreases n - i,
        {
            if self.ships[i].id.0 == id.0 {
                proof {
                    assert(self.ships@[i as int].id == id);
                }
                return Some(&self.ships[i]);
            }
            i = i + 1;
        }
        None
    }

    /// All live ships.
    pub fn ships(&self) -> (r: &Vec<Ship>)
        ensures
            r == self.ships,
    {
        &self.ships
    }

    /// Send a docked ship towards another planet. Rejected without any state
    /// change when the ship is unknown, already traveling, asked to fly to
    /// its own planet, or the destination does not exist.
    pub fn order_ship_travel(&mut self, ship_id: ShipId, destination: PlanetId) -> (r: bool)
        requires
            old(self).wf(),
        ensures
            final(self).wf(),
            r == travel_order_valid(
                old(self).ships@,
                ship_id,
                destination,
                old(self).galaxy.planets@.len() as int,
            ),
            !r ==> *final(self) == *old(self),
            r ==> exists|k: int|
                0 <= k < old(self).ships@.len() && (#[trigger] old(self).ships@[k]).id == ship_id
                    && (old(self).ships@[k].location matches ShipLocation::AtPlanet(origin)
                    && final(self).ships@ == old(self).ships@.update(
                    k,
                    Ship {
                        location: ShipLocation::Traveling {
                            from: origin,
                            to: destination,
                            progress: 0u64,
                        },
                        ..old(self).ships@[k]
                    },
                )),
            final(self).galaxy == old(self).galaxy,
            final(self).races == old(self).races,
            final(self).diplomacy == old(self).diplomacy,
            final(self).turn == old(self).turn,
            final(self).next_ship_id == old(self).next_ship_id,
            final(self).rng == old(self).rng,
            final(self).ai_personalities == old(self).ai_personalities,
    {
        let n = self.ships.len();
        let mut i: usize = 0;
        while i < n
            invariant
                i <= n,
                n == self.ships@.len(),
                self == old(self),
                self.wf(),
                forall|k: int| 0 <= k < i ==> (#[trigger] self.ships@[k]).id != ship_id,
            decreases n - i,
        {
            if self.ships[i].id.0 == ship_id.0 {
                proof {
                    assert(self.ships@[i as int].id == ship_id);
                }
                let origin: PlanetId;
                match self.ships[i].location {
                    ShipLocation::AtPlanet(p) => {
                        origin = p;
                    },
                    ShipLocation::Traveling { .. } => {
                        proof {
                            assert(!travel_order_valid(
                                self.ships@,
                                ship_id,
                                destination,
                                self.galaxy.planets@.len() as int,
                            )) by {
                                assert forall|k: int|
                                    0 <= k < self.ships@.len() && (#[trigger] self.ships@[k]).id
                                        == ship_id implies self.ships@[k].location matches ShipLocation::Traveling {
                                    ..
                                } by {
                                    if k != i {
                                        assert(self.ships@[k].id != self.ships@[i as int].id);
                                    }
                                }
                            }
                        }
                        return false;
                    },
                }
                if origin.0 == destination.0 || !self.galaxy.has_planet(destination) {
                    proof {
                        assert(!travel_order_valid(
                            self.ships@,
                            ship_id,
                            destination,
                            self.galaxy.planets@.len() as int,
                        )) by {
                            assert forall|k: int|
                                0 <= k < self.ships@.len() && (#[trigger] self.ships@[k]).id
                                    == ship_id implies !(match self.ships@[k].location {
                                ShipLocation::AtPlanet(o) => o != destination && (destination.0
                                    as int) < self.galaxy.planets@.len(),
                                ShipLocation::Traveling { .. } => false,
                            }) by {
                                if k != i {
                                    assert(self.ships@[k].id != self.ships@[i as int].id);
                                }
                            }
                        }
                    }
                    return false;
                }
                let mut s = self.ships[i];
                s.set_location(
                    ShipLocation::Traveling { from: origin, to: destination, progress: 0 },
                );
                self.ships.set(i, s);
                proof {
                    assert(travel_order_valid(
                        old(self).ships@,
                        ship_id,
                        destination,
                        old(self).galaxy.planets@.len() as int,
                    )) by {
                        assert(old(self).ships@[i as int].id == ship_id);
                    }
                    assert forall|a: int, b: int|
                        0 <= a < self.ships@.len() && 0 <= b < self.ships@.len() && a != b implies (
                    #[trigger] self.ships@[a]).id != (#[trigger] self.ships@[b]).id by {
                        assert(old(self).ships@[a].id != old(self).ships@[b].id);
                    }
                }
                return true;
            }
            i = i + 1;
        }
        false
    }

    /// Assign a planet's research focus; unknown planets are ignored.
    pub fn set_planet_tech_focus(&mut self, planet_id: PlanetId, focus: TechFocus)
        requires
            old(self).wf(),
        ensures
            final(self).wf(),
            (planet_id.0 as int) < old(self).galaxy.planets@.len() ==> final(self).galaxy.planets@
                == old(self).galaxy.planets@.update(
                planet_id.0 as int,
                Planet { tech_focus: focus, ..old(self).galaxy.planets@[planet_id.0 as int] },
            ),
            (planet_id.0 as int) >= old(self).galaxy.planets@.len() ==> *final(self) == *old(self),
            final(self).races == old(self).races,
            final(self).ships == old(self).ships,
            final(self).diplomacy == old(self).diplomacy,
            final(self).turn == old(self).turn,
            final(self).next_ship_id == old(self).next_ship_id,
            final(self).rng == old(self).rng,
            final(self).ai_personalities == old(self).ai_personalities,
            final(self).galaxy.planets@.len() == old(self).galaxy.planets@.len(),
            planets_preserved(old(self).galaxy.planets@, final(self).galaxy.planets@),
    {
        if self.galaxy.has_planet(planet_id) {
            let planet = self.galaxy.get_planet_mut(planet_id);
            planet.set_tech_focus(focus);
        }
    }

    /// The faction owning the most planets, if any faction owns one at all;
    /// earlier factions win ties.
    pub fn check_victory(&self) -> (r: Option<RaceId>)
        requires
            self.wf(),
        ensures
            r is None ==> forall|j: int|
                0 <= j < self.races@.len() ==> owned_ids(
                    self.galaxy.planets@,
                    (#[trigger] self.races@[j]).id.0,
                ).len() == 0,
            r matches Some(w) ==> owned_ids(self.galaxy.planets@, w.0).len() > 0 && forall|j: int|
                0 <= j < self.races@.len() ==> owned_ids(
                    self.galaxy.planets@,
                    (#[trigger] self.races@[j]).id.0,
                ).len() <= owned_ids(self.galaxy.planets@, w.0).len(),
    {
        let mut max_planets: usize = 0;
        let mut winner: Option<RaceId> = None;
        let n = self.races.len();
        let mut i: usize = 0;
        while i < n
            invariant
                i <= n,
                self.wf(),
                n == self.races@.len(),
                winner is None ==> max_planets == 0,
                winner is None ==> forall|j: int|
                    0 <= j < i ==> owned_ids(
                        self.galaxy.planets@,
                        (#[trigger] self.races@[j]).id.0,
                    ).len() == 0,
                winner matches Some(w) ==> max_planets > 0 && owned_ids(
                    self.galaxy.planets@,
                    w.0,
                ).len() == max_planets && forall|j: int|
                    0 <= j < i ==> owned_ids(
                        self.galaxy.planets@,
                        (#[trigger] self.races@[j]).id.0,
                    ).len() <= max_planets,
            decreases n - i,
        {
            let count = self.galaxy.count_planets_owned_by(self.races[i].id.0);
            if count > max_planets {
                max_planets = count;
                winner = Some(self.races[i].id);
            }
            i = i + 1;
        }
        winner
    }

    /// Grow population on every planet.
    fn process_population_growth(&mut self)
        requires
            old(self).wf(),
        ensures
            final(self).wf(),
            final(self).galaxy.planets@.len() == old(self).galaxy.planets@.len(),
            forall|i: int|
                0 <= i < old(self).galaxy.planets@.len() ==> crate::planet::spec_after_growth(
                    old(self).galaxy.planets@[i],
                    #[trigger] final(self).galaxy.planets@[i],
                ),
            planets_preserved(old(self).galaxy.planets@, final(self).galaxy.planets@),
            final(self).races == old(self).races,
            final(self).ships == old(self).ships,
            final(self).diplomacy == old(self).diplomacy,
            final(self).turn == old(self).turn,
            final(self).next_ship_id == old(self).next_ship_id,
            final(self).rng == old(self).rng,
            final(self).ai_personalities == old(self).ai_personalities,
            final(self).galaxy.width == old(self).galaxy.width,
            final(self).galaxy.height == old(self).galaxy.height,
    {
        let n = self.galaxy.planets.len();
        let mut i: usize = 0;
        while i < n
            invariant
                i <= n,
                old(self).wf(),
                n == self.galaxy.planets@.len(),
                n == old(self).galaxy.planets@.len(),
                *self == (GameState { galaxy: self.galaxy, ..*old(self) }),
                self.galaxy == (Galaxy { planets: self.galaxy.planets, ..old(self).galaxy }),
                forall|j: int|
                    i <= j < n ==> #[trigger] self.galaxy.planets@[j] == old(
                        self,
                    ).galaxy.planets@[j],
                forall|j: int|
                    0 <= j < i ==> crate::planet::spec_after_growth(
                        old(self).galaxy.planets@[j],
                        #[trigger] self.galaxy.planets@[j],
                    ),
                forall|j: int|
                    0 <= j < i ==> (#[trigger] self.galaxy.planets@[j]).wf()
                        && self.galaxy.planets@[j].id == old(self).galaxy.planets@[j].id,
            decreases n - i,
        {
            let mut p = self.galaxy.planets[i];
            p.grow_population();
            self.galaxy.planets.set(i, p);
            i = i + 1;
        }
    }

    /// Contribute each researching planet's size as effort to its owner's
    /// focused technology track and apply any level-ups.
    fn process_technology_advancement(&mut self)
        requires
            old(self).wf(),
        ensures
            final(self).wf(),
            final(self).galaxy == old(self).galaxy,
            final(self).ships == old(self).ships,
            final(self).diplomacy == old(self).diplomacy,
            final(self).turn == old(self).turn,
            final(self).next_ship_id == old(self).next_ship_id,
            final(self).rng == old(self).rng,
            final(self).ai_personalities == old(self).ai_personalities,
            final(self).races@.len() == old(self).races@.len(),
            final(self).races@ == apply_research(
                old(self).races@,
                research_entries(old(self).galaxy.planets@),
            ),
            forall|i: int|
                0 <= i < old(self).races@.len() ==> {
                    let q = #[trigger] final(self).races@[i];
                    let s = old(self).races@[i];
                    q.id == s.id && q.name == s.name && q.home_planet_id == s.home_planet_id
                        && q.ai_controlled == s.ai_controlled
                        && q.technology.drive_level >= s.technology.drive_level
                        && q.technology.weapon_level >= s.technology.weapon_level
                        && q.technology.shield_level >= s.technology.shield_level
                },
    {
        // Gather (owner, track, size) for every researching, owned planet.
        let n = self.galaxy.planets.len();
        let mut research: Vec<(u32, TechnologyType, u32)> = Vec::new();
        let mut i: usize = 0;
        while i < n
            invariant
                i <= n,
                self == old(self),
                n == self.galaxy.planets@.len(),
                research@ == research_entries(self.galaxy.planets@.subrange(0, i as int)),
            decreases n - i,
        {
            let ghost prefix = self.galaxy.planets@.subrange(0, i as int);
            let ghost prefix1 = self.galaxy.planets@.subrange(0, i as int + 1);
            proof {
                assert(prefix1.drop_last() =~= prefix);
                assert(prefix1.last() == self.galaxy.planets@[i as int]);
            }
            let p = &self.galaxy.planets[i];
            match (p.owner, p.tech_focus) {
                (Some(owner), TechFocus::Research(tech_type)) => {
                    research.push((owner, tech_type, p.size));
                },
                _ => {},
            }
            i = i + 1;
        }
        proof {
            assert(self.galaxy.planets@.subrange(0, n as int) =~= self.galaxy.planets@);
        }
        // Apply the efforts to the owning factions.
        let m = research.len();
        let mut k: usize = 0;
        while k < m
            invariant
                k <= m,
                m == research@.len(),
                old(self).wf(),
                *self == (GameState { races: self.races, ..*old(self) }),
                self.races@.len() == old(self).races@.len(),
                research@ == research_entries(old(self).galaxy.planets@),
                self.races@ == apply_research(old(self).races@, research@.subrange(0, k as int)),
                forall|i2: int|
                    0 <= i2 < old(self).races@.len() ==> {
                        let q = #[trigger] self.races@[i2];
                        let s = old(self).races@[i2];
                        q.id == s.id && q.name == s.name && q.home_planet_id == s.home_planet_id
                            && q.ai_controlled == s.ai_controlled && q.wf()
                            && q.technology.drive_level >= s.technology.drive_level
                            && q.technology.weapon_level >= s.technology.weapon_level
                            && q.technology.shield_level >= s.technology.shield_level
                    },
            decreases m - k,
        {
            let ghost entries_prefix = research@.subrange(0, k as int);
            let ghost entries_prefix1 = research@.subrange(0, k as int + 1);
            proof {
                assert(entries_prefix1.drop_last() =~= entries_prefix);
                assert(entries_prefix1.last() == research@[k as int]);
            }
            let (owner, tech_type, size) = research[k];
            if (owner as usize) < self.races.len() {
                let effort: u64 = size as u64;
                let ghost prev_races = self.races@;
                let race = self.get_race_mut(RaceId(owner));
                race.add_research(tech_type, effort);
                proof {
                    let q = self.races@[owner as int].technology;
                    let p = prev_races[owner as int].technology;
                    assert(q.spec_level(TechnologyType::Drive) >= p.spec_level(
                        TechnologyType::Drive,
                    ));
                    assert(q.spec_level(TechnologyType::Weapon) >= p.spec_level(
                        TechnologyType::Weapon,
                    ));
                    assert(q.spec_level(TechnologyType::Shield) >= p.spec_level(
                        TechnologyType::Shield,
                    ));
                }
            }
            k = k + 1;
        }
        proof {
            assert(research@.subrange(0, m as int) =~= research@);
        }
    }

    /// Advance every traveling ship; a ship that completes its trip docks at
    /// the destination and colonises it for its owner if nobody owned it.
    fn process_ship_movement(&mut self)
        requires
            old(self).wf(),
        ensures
            final(self).wf(),
            final(self).ships@.len() == old(self).ships@.len(),
            forall|i: int|
                0 <= i < old(self).ships@.len() ==> spec_after_movement(
                    old(self).ships@[i],
                    #[trigger] final(self).ships@[i],
                    old(self).galaxy,
                    old(self).races@,
                ),
            final(self).galaxy.planets@.len() == old(self).galaxy.planets@.len(),
            forall|j: int|
                0 <= j < old(self).galaxy.planets@.len() ==> {
                    let q = #[trigger] final(self).galaxy.planets@[j];
                    let s = old(self).galaxy.planets@[j];
                    q == (Planet { owner: q.owner, ..s }) && (s.owner is Some ==> q.owner
                        == s.owner)
                },
            forall|j: int|
                0 <= j < old(self).galaxy.planets@.len() && old(self).galaxy.planets@[j].owner
                    is None ==> {
                    let q = #[trigger] final(self).galaxy.planets@[j];
                    let pid = old(self).galaxy.planets@[j].id;
                    &&& (q.owner is None ==> forall|k: int|
                        0 <= k < old(self).ships@.len() ==> !spec_arrives_at(
                            #[trigger] old(self).ships@[k],
                            old(self).galaxy,
                            old(self).races@,
                            pid,
                        ))
                    &&& (q.owner matches Some(o) ==> exists|k: int|
                        0 <= k < old(self).ships@.len() && spec_arrives_at(
                            #[trigger] old(self).ships@[k],
                            old(self).galaxy,
                            old(self).races@,
                            pid,
                        ) && old(self).ships@[k].owner.0 == o)
                },
            planets_preserved(old(self).galaxy.planets@, final(self).galaxy.planets@),
            final(self).races == old(self).races,
            final(self).diplomacy == old(self).diplomacy,
            final(self).turn == old(self).turn,
            final(self).next_ship_id == old(self).next_ship_id,
            final(self).rng == old(self).rng,
            final(self).ai_personalities == old(self).ai_personalities,
            final(self).galaxy.width == old(self).galaxy.width,
            final(self).galaxy.height == old(self).galaxy.height,
    {
        let n = self.ships.len();
        let mut i: usize = 0;
        while i < n
            invariant
                i <= n,
                old(self).wf(),
                n == self.ships@.len(),
                n == old(self).ships@.len(),
                *self == (GameState { galaxy: self.galaxy, ships: self.ships, ..*old(self) }),
                self.galaxy == (Galaxy { planets: self.galaxy.planets, ..old(self).galaxy }),
                self.galaxy.planets@.len() == old(self).galaxy.planets@.len(),
                forall|j: int|
                    0 <= j < old(self).galaxy.planets@.len() ==> {
                        let q = #[trigger] self.galaxy.planets@[j];
                        let s = old(self).galaxy.planets@[j];
                        q == (Planet { owner: q.owner, ..s }) && (s.owner is Some ==> q.owner
                            == s.owner)
                    },
                forall|j: int|
                    0 <= j < old(self).galaxy.planets@.len() && old(self).galaxy.planets@[j].owner
                        is None ==> {
                        let q = #[trigger] self.galaxy.planets@[j];
                        let pid = old(self).galaxy.planets@[j].id;
                        &&& (q.owner is None ==> forall|k: int|
                            0 <= k < i ==> !spec_arrives_at(
                                #[trigger] old(self).ships@[k],
                                old(self).galaxy,
                                old(self).races@,
                                pid,
                            ))
                        &&& (q.owner matches Some(o) ==> exists|k: int|
                            0 <= k < i && spec_arrives_at(
                                #[trigger] old(self).ships@[k],
                                old(self).galaxy,
                                old(self).races@,
                                pid,
                            ) && old(self).ships@[k].owner.0 == o)
                    },
                forall|j: int| i <= j < n ==> #[trigger] self.ships@[j] == old(self).ships@[j],
                forall|j: int|
                    0 <= j < i ==> spec_after_movement(
                        old(self).ships@[j],
                        #[trigger] self.ships@[j],
                        old(self).galaxy,
                        old(self).races@,
                    ),
                self.galaxy.wf(),
                forall|j: int|
                    0 <= j < i ==> ship_ok(
                        #[trigger] self.ships@[j],
                        self.galaxy.planets@.len() as int,
                        self.next_ship_id,
                    ),
            decreases n - i,
        {
            let mut s = self.ships[i];
            match s.location {
                ShipLocation::AtPlanet(_) => {},
                ShipLocation::Traveling { from, to, progress } => {
                    let from_pos = self.galaxy.planets[from.0 as usize].position;
                    let to_pos = self.galaxy.planets[to.0 as usize].position;
                    proof {
                        assert(old(self).galaxy.planets@[from.0 as int].wf());
                        assert(old(self).galaxy.planets@[to.0 as int].wf());
                        assert(from_pos == old(self).galaxy.planets@[from.0 as int].position);
                        assert(to_pos == old(self).galaxy.planets@[to.0 as int].position);
                    }
                    let dist = from_pos.distance_to(&to_pos);
                    let denom: u64 = if dist >= 1000 {
                        dist
                    } else {
                        1000
                    };
                    let drive_tech: u32 = if (s.owner.0 as usize) < self.races.len() {
                        self.races[s.owner.0 as usize].technology.drive_level
                    } else {
                        1
                    };
                    let speed = s.travel_speed(drive_tech);
                    let step = crate::num::mul_div_sat(speed, PROGRESS_ONE, denom);
                    let np = crate::num::sat_add(progress, step);
                    if np >= PROGRESS_ONE {
                        s.set_location(ShipLocation::AtPlanet(to));
                        self.ships.set(i, s);
                        let arrived_owner = self.galaxy.planets[to.0 as usize].owner;
                        if arrived_owner.is_none() {
                            let planet = self.galaxy.get_planet_mut(to);
                            planet.set_owner(Some(s.owner.0));
                        }
                    } else {
                        s.set_location(ShipLocation::Traveling { from, to, progress: np });
                        self.ships.set(i, s);
                    }
                },
            }
            i = i + 1;
        }
    }

    /// Resolve combat among co-located hostile ships: every hostile pair at
    /// a shared planet fights once; ships destroyed in a fight leave the
    /// live set immediately.
    #[verifier::rlimit(100)]
    fn process_combat(&mut self)
        requires
            old(self).wf(),
        ensures
            final(self).wf(),
            final(self).ships@.len() <= old(self).ships@.len(),
            forall|i: int|
                0 <= i < final(self).ships@.len() ==> descends_from_some(
                    #[trigger] final(self).ships@[i],
                    old(self).ships@,
                ),
            final(self).galaxy == old(self).galaxy,
            final(self).races == old(self).races,
            final(self).turn == old(self).turn,
            final(self).next_ship_id == old(self).next_ship_id,
            final(self).ai_personalities == old(self).ai_personalities,
            forall|x: RaceId, y: RaceId|
                #![all_triggers]
                final(self).diplomacy.spec_relationship(x, y) == old(
                    self,
                ).diplomacy.spec_relationship(x, y),
            !has_any_hostile_pair(old(self).ships@, old(self).diplomacy) ==> *final(self) == *old(
                self,
            ),
            noncontact_ships_kept(old(self).ships@, old(self).diplomacy, final(self).ships@),
            dead_ships_entered_dead(old(self).ships@, final(self).ships@),
            forall|x: int, y: int|
                #[trigger] sole_certain_kill_pair(*old(self), x, y) ==> final(self).ships@ == old(
                    self,
                ).ships@.remove(y),
    {
        // Find the hostile pairs sharing a planet; when enemies meet, the
        // ledger is marked hostile, which is a no-op on pairs that are
        // already hostile -- the only ones that fight.
        let n = self.ships.len();
        let mut pairs: Vec<(ShipId, ShipId)> = Vec::new();
        let mut i: usize = 0;
        proof {
            assert forall|x: int, y: int|
                #[trigger] sole_certain_kill_pair(*old(self), x, y) implies 0 <= x && x < y && y
                    < n as int by {
                reveal(sole_certain_kill_pair);
                assert(ships_hostile_pair(old(self).ships@, old(self).diplomacy, x, y));
            }
        }
        while i < n
            invariant
                i <= n,
                old(self).wf(),
                n == self.ships@.len(),
                *self == (GameState { diplomacy: self.diplomacy, ..*old(self) }),
                self.diplomacy.wf(),
                forall|x: RaceId, y: RaceId|
                    #![all_triggers]
                    self.diplomacy.spec_relationship(x, y) == old(self).diplomacy.spec_relationship(
                        x,
                        y,
                    ),
                !has_any_hostile_pair(old(self).ships@, old(self).diplomacy) ==> pairs@.len() == 0
                    && self.diplomacy == old(self).diplomacy,
                forall|idx: int|
                    0 <= idx < pairs@.len() ==> is_contact_id(
                        old(self).ships@,
                        old(self).diplomacy,
                        (#[trigger] pairs@[idx]).0,
                    ) && is_contact_id(old(self).ships@, old(self).diplomacy, pairs@[idx].1),
                forall|x: int, y: int|
                    #[trigger] sole_certain_kill_pair(*old(self), x, y) ==> pairs@ == (if x < i
                        as int {
                        seq![(old(self).ships@[x].id, old(self).ships@[y].id)]
                    } else {
                        Seq::<(ShipId, ShipId)>::empty()
                    }),
            decreases n - i,
        {
            let pid_i = match self.ships[i].location {
                ShipLocation::AtPlanet(p) => Some(p),
                ShipLocation::Traveling { .. } => None,
            };
            match pid_i {
                Some(pid) => {
                    let mut j: usize = i + 1;
                    proof {
                        assert forall|x: int, y: int|
                            #[trigger] sole_certain_kill_pair(*old(self), x, y) implies 0 <= x && x
                                < y && y < n as int by {
                            reveal(sole_certain_kill_pair);
                            assert(ships_hostile_pair(old(self).ships@, old(self).diplomacy, x, y));
                        }
                    }
                    while j < n
                        invariant
                            i < j <= n,
                            old(self).wf(),
                            n == self.ships@.len(),
                            *self == (GameState { diplomacy: self.diplomacy, ..*old(self) }),
                            self.diplomacy.wf(),
                            self.ships@[i as int].location matches ShipLocation::AtPlanet(p) && p
                                == pid,
                            forall|x: RaceId, y: RaceId|
                                #![all_triggers]
                                self.diplomacy.spec_relationship(x, y) == old(
                                    self,
                                ).diplomacy.spec_relationship(x, y),
                            !has_any_hostile_pair(old(self).ships@, old(self).diplomacy)
                                ==> pairs@.len() == 0 && self.diplomacy == old(self).diplomacy,
                            forall|idx: int|
                                0 <= idx < pairs@.len() ==> is_contact_id(
                                    old(self).ships@,
                                    old(self).diplomacy,
                                    (#[trigger] pairs@[idx]).0,
                                ) && is_contact_id(
                                    old(self).ships@,
                                    old(self).diplomacy,
                                    pairs@[idx].1,
                                ),
                            forall|x: int, y: int|
                                #[trigger] sole_certain_kill_pair(*old(self), x, y) ==> pairs@ == (
                                if x < i as int || (x == i as int && y < j as int) {
                                    seq![(old(self).ships@[x].id, old(self).ships@[y].id)]
                                } else {
                                    Seq::<(ShipId, ShipId)>::empty()
                                }),
                        decreases n - j,
                    {
                        let same_planet = match self.ships[j].location {
                            ShipLocation::AtPlanet(p) => p.0 == pid.0,
                            ShipLocation::Traveling { .. } => false,
                        };
                        if same_planet {
                            let race1 = self.ships[i].owner;
                            let race2 = self.ships[j].owner;
                            if self.diplomacy.should_attack(race1, race2) {
                                proof {
                                    let base = old(self).ships@;
                                    let dip0 = old(self).diplomacy;
                                    assert(ships_hostile_pair(base, dip0, i as int, j as int));
                                    assert(ships_hostile_pair(base, dip0, j as int, i as int)) by {
                                        crate::diplomacy::lemma_relationship_symmetric(
                                            dip0,
                                            race2,
                                            race1,
                                        );
                                    }
                                    assert(has_hostile_contact(base, dip0, i as int));
                                    assert(has_hostile_contact(base, dip0, j as int));
                                    assert(is_contact_id(base, dip0, self.ships@[i as int].id));
                                    assert(is_contact_id(base, dip0, self.ships@[j as int].id));
                                    assert(has_any_hostile_pair(base, dip0));
                                }
                                pairs.push((self.ships[i].id, self.ships[j].id));
                                let ghost dip_before = self.diplomacy;
                                self.diplomacy.make_hostile(race1, race2);
                                proof {
                                    assert(race1.0 != race2.0);
                                    assert forall|x: RaceId, y: RaceId|
                                        #![all_triggers]
                                        self.diplomacy.spec_relationship(x, y)
                                            == dip_before.spec_relationship(x, y) by {
                                        if x.0 != y.0 && crate::diplomacy::pair_low(x.0, y.0)
                                            == crate::diplomacy::pair_low(race1.0, race2.0)
                                            && crate::diplomacy::pair_high(x.0, y.0)
                                            == crate::diplomacy::pair_high(race1.0, race2.0) {
                                            assert(self.diplomacy.spec_relationship(x, y)
                                                == self.diplomacy.spec_relationship(race1, race2));
                                            assert(dip_before.spec_relationship(x, y)
                                                == dip_before.spec_relationship(race1, race2));
                                        }
                                    }
                                }
                            }
                        }
                        proof {
                            assert forall|x: int, y: int|
                                #[trigger] sole_certain_kill_pair(*old(self), x, y) implies pairs@
                                == (if x < i as int || (x == i as int && y < j as int + 1) {
                                seq![(old(self).ships@[x].id, old(self).ships@[y].id)]
                            } else {
                                Seq::<(ShipId, ShipId)>::empty()
                            }) by {
                                reveal(sole_certain_kill_pair);
                                if x == i as int && y == j as int {
                                    assert(ships_hostile_pair(
                                        old(self).ships@,
                                        old(self).diplomacy,
                                        x,
                                        y,
                                    ));
                                }
                            }
                        }
                        j = j + 1;
                    }
                },
                None => {
                    proof {
                        assert forall|x: int, y: int|
                            #[trigger] sole_certain_kill_pair(*old(self), x, y) implies x != i
                            as int by {
                            reveal(sole_certain_kill_pair);
                            if x == i as int {
                                assert(ships_hostile_pair(
                                    old(self).ships@,
                                    old(self).diplomacy,
                                    x,
                                    y,
                                ));
                            }
                        }
                    }
                },
            }
            proof {
                assert forall|x: int, y: int|
                    #[trigger] sole_certain_kill_pair(*old(self), x, y) implies 0 <= x && x < n
                        as int && 0 <= y && y < n as int by {
                    reveal(sole_certain_kill_pair);
                    assert(ships_hostile_pair(old(self).ships@, old(self).diplomacy, x, y));
                }
            }
            i = i + 1;
        }
        proof {
            assert forall|x: int, y: int|
                #[trigger] sole_certain_kill_pair(*old(self), x, y) implies pairs@ == seq![
                    (old(self).ships@[x].id, old(self).ships@[y].id),
                ] by {
                reveal(sole_certain_kill_pair);
                assert(ships_hostile_pair(old(self).ships@, old(self).diplomacy, x, y));
            }
        }
        // Fight each pair whose two ships are both still live.
        proof {
            assert forall|a: int| 0 <= a < self.ships@.len() implies descends_from_some(
                #[trigger] self.ships@[a],
                old(self).ships@,
            ) by {
                assert(ship_descends(self.ships@[a], old(self).ships@[a]));
            }
            assert(dead_ships_entered_dead(old(self).ships@, self.ships@)) by {
                assert forall|k: int|
                    0 <= k < self.ships@.len() && (#[trigger] self.ships@[k]).current_hull
                        == 0 implies exists|j: int|
                    0 <= j < old(self).ships@.len() && old(self).ships@[j] == self.ships@[k] by {
                    assert(old(self).ships@[k] == self.ships@[k]);
                }
            }
            assert(noncontact_ships_kept(old(self).ships@, old(self).diplomacy, self.ships@))
                by {
                assert forall|a: int|
                    0 <= a < old(self).ships@.len() && !has_hostile_contact(
                        old(self).ships@,
                        old(self).diplomacy,
                        a,
                    ) implies exists|k: int|
                    0 <= k < self.ships@.len() && self.ships@[k] == #[trigger] old(
                        self,
                    ).ships@[a] by {
                    assert(self.ships@[a] == old(self).ships@[a]);
                }
            }
        }
        let m = pairs.len();
        let mut k: usize = 0;
        while k < m
            invariant
                k <= m,
                m == pairs@.len(),
                old(self).wf(),
                *self == (GameState { ships: self.ships, diplomacy: self.diplomacy, rng: self.rng, ..*old(self) }),
                self.diplomacy.wf(),
                forall|x: RaceId, y: RaceId|
                    #![all_triggers]
                    self.diplomacy.spec_relationship(x, y) == old(self).diplomacy.spec_relationship(
                        x,
                        y,
                    ),
                !has_any_hostile_pair(old(self).ships@, old(self).diplomacy) ==> pairs@.len() == 0
                    && self.diplomacy == old(self).diplomacy && self.ships == old(self).ships
                    && self.rng == old(self).rng,
                forall|idx: int|
                    0 <= idx < pairs@.len() ==> is_contact_id(
                        old(self).ships@,
                        old(self).diplomacy,
                        (#[trigger] pairs@[idx]).0,
                    ) && is_contact_id(old(self).ships@, old(self).diplomacy, pairs@[idx].1),
                noncontact_ships_kept(old(self).ships@, old(self).diplomacy, self.ships@),
                dead_ships_entered_dead(old(self).ships@, self.ships@),
                forall|x: int, y: int|
                    #[trigger] sole_certain_kill_pair(*old(self), x, y) ==> pairs@ == seq![
                        (old(self).ships@[x].id, old(self).ships@[y].id),
                    ] && ((k == 0 && self.ships@ == old(self).ships@) || (k >= 1 && self.ships@
                        == old(self).ships@.remove(y))),
                ships_evolved(
                    self.ships@,
                    old(self).ships@,
                    self.galaxy.planets@.len() as int,
                    self.next_ship_id,
                ),
            decreases m - k,
        {
            let (id1, id2) = pairs[k];
            let idx1 = self.find_ship_index(id1);
            let idx2 = self.find_ship_index(id2);
            match (idx1, idx2) {
                (Some(i1), Some(i2)) => {
                    if i1 == i2 {
                        proof {
                            assert forall|x: int, y: int|
                                #[trigger] sole_certain_kill_pair(*old(self), x, y) implies false
                                by {
                                reveal(sole_certain_kill_pair);
                                assert(pairs@[k as int] == (old(self).ships@[x].id, old(
                                    self,
                                ).ships@[y].id));
                                assert(self.ships@ == old(self).ships@);
                                assert(self.ships@[i1 as int].id == old(self).ships@[x].id);
                                assert(self.ships@[i2 as int].id == old(self).ships@[y].id);
                            }
                        }
                    }
                    if i1 != i2 {
                        let mut ship1 = self.ships[i1];
                        let mut ship2 = self.ships[i2];
                        let tech1 = self.race_technology(ship1.owner);
                        let tech2 = self.race_technology(ship2.owner);
                        let result = crate::combat::CombatSystem::resolve_combat(
                            &mut ship1,
                            &tech1,
                            &mut ship2,
                            &tech2,
                            &mut self.rng,
                        );
                        let ghost planets_len = self.galaxy.planets@.len() as int;
                        let ghost next_id = self.next_ship_id;
                        let ghost s0 = self.ships@;
                        proof {
                            assert(pairs@[k as int].0 == id1 && pairs@[k as int].1 == id2);
                            assert(is_contact_id(old(self).ships@, old(self).diplomacy, id1));
                            assert(is_contact_id(old(self).ships@, old(self).diplomacy, id2));
                        }
                        self.ships.set(i1, ship1);
                        proof {
                            lemma_evolved_update(
                                s0,
                                old(self).ships@,
                                planets_len,
                                next_id,
                                i1 as int,
                                ship1,
                            );
                            lemma_noncontact_kept_update(
                                old(self).ships@,
                                old(self).diplomacy,
                                s0,
                                i1 as int,
                                ship1,
                                id1,
                            );
                        }
                        let ghost s1 = self.ships@;
                        self.ships.set(i2, ship2);
                        proof {
                            lemma_evolved_update(
                                s1,
                                old(self).ships@,
                                planets_len,
                                next_id,
                                i2 as int,
                                ship2,
                            );
                            assert(s1[i2 as int] == s0[i2 as int]);
                            lemma_noncontact_kept_update(
                                old(self).ships@,
                                old(self).diplomacy,
                                s1,
                                i2 as int,
                                ship2,
                                id2,
                            );
                        }
                        let ghost t = self.ships@;
                        proof {
                            assert(t[i1 as int].id == id1 && t[i2 as int].id == id2);
                        }
                        // Remove the fallen, larger index first so the
                        // smaller one stays valid.
                        let lo_idx = if i1 < i2 {
                            i1
                        } else {
                            i2
                        };
                        let hi_idx = if i1 < i2 {
                            i2
                        } else {
                            i1
                        };
                        let ghost mut removed_hi: bool = false;
                        if self.ships[hi_idx].current_hull == 0 {
                            let ghost removed_id = self.ships@[hi_idx as int].id;
                            proof {
                                removed_hi = true;
                                assert(removed_id == id1 || removed_id == id2);
                                assert(is_contact_id(
                                    old(self).ships@,
                                    old(self).diplomacy,
                                    removed_id,
                                ));
                            }
                            let _ = self.ships.remove(hi_idx);
                            proof {
                                lemma_evolved_remove(
                                    t,
                                    old(self).ships@,
                                    planets_len,
                                    next_id,
                                    hi_idx as int,
                                );
                                lemma_noncontact_kept_remove(
                                    old(self).ships@,
                                    old(self).diplomacy,
                                    t,
                                    hi_idx as int,
                                    removed_id,
                                );
                            }
                        }
                        let ghost u = self.ships@;
                        let ghost mut removed_lo: bool = false;
                        if lo_idx < self.ships.len() && self.ships[lo_idx].current_hull == 0 {
                            let ghost s3 = self.ships@;
                            let ghost removed_id = self.ships@[lo_idx as int].id;
                            proof {
                                removed_lo = true;
                                assert(s3[lo_idx as int] == t[lo_idx as int]);
                                assert(removed_id == id1 || removed_id == id2);
                                assert(is_contact_id(
                                    old(self).ships@,
                                    old(self).diplomacy,
                                    removed_id,
                                ));
                            }
                            let _ = self.ships.remove(lo_idx);
                            proof {
                                lemma_evolved_remove(
                                    s3,
                                    old(self).ships@,
                                    planets_len,
                                    next_id,
                                    lo_idx as int,
                                );
                                lemma_noncontact_kept_remove(
                                    old(self).ships@,
                                    old(self).diplomacy,
                                    s3,
                                    lo_idx as int,
                                    removed_id,
                                );
                            }
                        }
                        proof {
                            // Dead ships never linger: both fighter slots hold
                            // positive hulls wherever they were not removed,
                            // so any zero hull left traces back, unchanged,
                            // to the set this phase started from.
                            assert(!removed_lo ==> t[lo_idx as int].current_hull != 0) by {
                                if !removed_lo {
                                    assert(u[lo_idx as int] == t[lo_idx as int]);
                                }
                            }
                            lemma_dead_after_pair(
                                old(self).ships@,
                                s0,
                                t,
                                u,
                                self.ships@,
                                i1 as int,
                                i2 as int,
                                lo_idx as int,
                                hi_idx as int,
                                removed_hi,
                                removed_lo,
                            );
                            assert forall|x: int, y: int|
                                #[trigger] sole_certain_kill_pair(
                                    *old(self),
                                    x,
                                    y,
                                ) implies self.ships@ == old(self).ships@.remove(y) by {
                                reveal(sole_certain_kill_pair);
                                let shx = old(self).ships@[x];
                                let shy = old(self).ships@[y];
                                assert(pairs@[k as int] == (shx.id, shy.id));
                                assert(s0 == old(self).ships@);
                                assert(s0[i1 as int].id == id1 && id1 == shx.id);
                                assert(i1 as int == x);
                                assert(i2 as int == y);
                                assert(tech1 == spec_tech_of(old(self).races@, shx.owner));
                                assert(tech2 == spec_tech_of(old(self).races@, shy.owner));
                                assert(ship1 == shx);
                                assert(ship2.current_hull == 0);
                                assert(lo_idx == i1 && hi_idx == i2);
                                assert(t =~= s0.update(y, ship2));
                                assert(removed_hi);
                                assert(!removed_lo);
                                assert(self.ships@ =~= old(self).ships@.remove(y));
                            }
                        }
                    }
                },
                _ => {
                    proof {
                        assert forall|x: int, y: int|
                            #[trigger] sole_certain_kill_pair(*old(self), x, y) implies false by {
                            reveal(sole_certain_kill_pair);
                            assert(pairs@[k as int] == (old(self).ships@[x].id, old(
                                self,
                            ).ships@[y].id));
                            assert(self.ships@ == old(self).ships@);
                        }
                    }
                },
            }
            k = k + 1;
        }
    }

    /// Index of the live ship with the given identity, if any.
    fn find_ship_index(&self, id: ShipId) -> (r: Option<usize>)
        ensures
            r matches Some(i) ==> i < self.ships@.len() && self.ships@[i as int].id == id,
            r is None ==> forall|k: int|
                0 <= k < self.ships@.len() ==> (#[trigger] self.ships@[k]).id != id,
    {
        let n = self.ships.len();
        let mut i: usize = 0;
        while i < n
            invariant
                i <= n,
                n == self.ships@.len(),
                forall|k: int| 0 <= k < i ==> (#[trigger] self.ships@[k]).id != id,
            decreases n - i,
        {
            if self.ships[i].id.0 == id.0 {
                proof {
                    assert(self.ships@[i as int].id == id);
                }
                return Some(i);
            }
            i = i + 1;
        }
        None
    }

    /// The technology of a faction, or the starting technology for an
    /// unknown identity.
    fn race_technology(&self, id: RaceId) -> (r: crate::race::Technology)
        ensures
            (id.0 as int) < self.races@.len() ==> r == self.races@[id.0 as int].technology,
            (id.0 as int) >= self.races@.len() ==> r == (crate::race::Technology {
                drive_level: 1u32,
                weapon_level: 1u32,
                shield_level: 1u32,
            }),
    {
        if (id.0 as usize) < self.races.len() {
            self.races[id.0 as usize].technology
        } else {
            crate::race::Technology::new()
        }
    }

    /// Apply a decision batch for a faction: production assignments on
    /// planets it still owns, then ship builds, then travel orders; each
    /// order that no longer applies is skipped without effect.
    pub fn execute_racebot_decisions(&mut self, race_id: RaceId, decisions: RacebotDecisions)
        requires
            old(self).wf(),
        ensures
            final(self).wf(),
            final(self).races == old(self).races,
            final(self).turn == old(self).turn,
            final(self).diplomacy == old(self).diplomacy,
            final(self).next_ship_id >= old(self).next_ship_id,
            final(self).rng == old(self).rng,
            final(self).ai_personalities == old(self).ai_personalities,
            final(self).galaxy.planets@.len() == old(self).galaxy.planets@.len(),
            planets_preserved(old(self).galaxy.planets@, final(self).galaxy.planets@),
            final(self).galaxy.width == old(self).galaxy.width,
            final(self).galaxy.height == old(self).galaxy.height,
            planets_after_decisions(old(self).galaxy.planets@, final(self).galaxy.planets@),
            forall|j: int|
                0 <= j < old(self).galaxy.planets@.len() ==> {
                    let p0 = old(self).galaxy.planets@[j];
                    (#[trigger] final(self).galaxy.planets@[j]).production_type == (if p0.owner
                        == Some(race_id.0) && last_production_order(
                        decisions.production_orders@,
                        p0.id,
                    ) is Some {
                        last_production_order(decisions.production_orders@, p0.id)->0
                    } else {
                        p0.production_type
                    })
                },
            ships_after_decisions(old(self).ships@, final(self).ships@),
            forall|i: int|
                old(self).ships@.len() <= i < final(self).ships@.len() ==> built_from_some(
                    #[trigger] final(self).ships@[i],
                    decisions.ship_builds@,
                ),
            decisions_applied(
                *old(self),
                race_id,
                decisions.production_orders@,
                decisions.ship_builds@,
                decisions.ship_movements@,
                *final(self),
            ),
    {
        let n_orders = decisions.production_orders.len();
        let mut i: usize = 0;
        while i < n_orders
            invariant
                i <= n_orders,
                n_orders == decisions.production_orders@.len(),
                self.wf(),
                old(self).wf(),
                self.races == old(self).races,
                self.turn == old(self).turn,
                self.galaxy.planets@.len() == old(self).galaxy.planets@.len(),
                planets_preserved(old(self).galaxy.planets@, self.galaxy.planets@),
                self.galaxy.width == old(self).galaxy.width,
                self.galaxy.height == old(self).galaxy.height,
                self.ships == old(self).ships,
                self.diplomacy == old(self).diplomacy,
                self.next_ship_id == old(self).next_ship_id,
                self.rng == old(self).rng,
                self.ai_personalities == old(self).ai_personalities,
                self.galaxy.planets@ == spec_apply_orders(
                    old(self).galaxy.planets@,
                    race_id.0,
                    decisions.production_orders@.subrange(0, i as int),
                ),
                forall|j: int|
                    0 <= j < old(self).galaxy.planets@.len() ==> {
                        let p0 = old(self).galaxy.planets@[j];
                        let q = #[trigger] self.galaxy.planets@[j];
                        q == (Planet { production_type: q.production_type, ..p0 })
                            && q.production_type == (if p0.owner == Some(race_id.0)
                            && last_production_order(
                            decisions.production_orders@.subrange(0, i as int),
                            p0.id,
                        ) is Some {
                            last_production_order(
                                decisions.production_orders@.subrange(0, i as int),
                                p0.id,
                            )->0
                        } else {
                            p0.production_type
                        })
                    },
            decreases n_orders - i,
        {
            let ghost orders_prefix = decisions.production_orders@.subrange(0, i as int);
            let ghost orders_prefix1 = decisions.production_orders@.subrange(0, i as int + 1);
            proof {
                assert(orders_prefix1.drop_last() =~= orders_prefix);
                assert(orders_prefix1.last() == decisions.production_orders@[i as int]);
            }
            let (planet_id, production_type) = decisions.production_orders[i];
            if self.galaxy.has_planet(planet_id) {
                let owned = match self.galaxy.get_planet(planet_id) {
                    Some(p) => p.owner == Some(race_id.0),
                    None => false,
                };
                if owned {
                    let planet = self.galaxy.get_planet_mut(planet_id);
                    planet.set_production_type(production_type);
                }
            }
            i = i + 1;
        }
        let ghost planets1 = self.galaxy.planets@;
        let ghost ships1 = self.ships@;
        let ghost next1 = self.next_ship_id as int;
        proof {
            assert(decisions.production_orders@.subrange(0, n_orders as int)
                =~= decisions.production_orders@);
        }
        let n_builds = decisions.ship_builds.len();
        let mut j: usize = 0;
        while j < n_builds
            invariant
                j <= n_builds,
                n_builds == decisions.ship_builds@.len(),
                self.wf(),
                self.races == old(self).races,
                self.turn == old(self).turn,
                self.diplomacy == old(self).diplomacy,
                self.next_ship_id >= old(self).next_ship_id,
                self.rng == old(self).rng,
                self.ai_personalities == old(self).ai_personalities,
                self.galaxy.planets@.len() == old(self).galaxy.planets@.len(),
                planets_preserved(old(self).galaxy.planets@, self.galaxy.planets@),
                self.galaxy.width == old(self).galaxy.width,
                self.galaxy.height == old(self).galaxy.height,
                planets1 == spec_apply_orders(
                    old(self).galaxy.planets@,
                    race_id.0,
                    decisions.production_orders@,
                ),
                ships1 == old(self).ships@,
                next1 == old(self).next_ship_id as int,
                planets1.len() == self.galaxy.planets@.len(),
                ({
                    let folded = spec_apply_builds(
                        planets1,
                        ships1,
                        next1,
                        decisions.ship_builds@.subrange(0, j as int),
                    );
                    self.galaxy.planets@ == folded.0 && self.ships@ == folded.1
                        && self.next_ship_id as int == folded.2
                }),
                forall|j2: int|
                    0 <= j2 < planets1.len() ==> {
                        let q = #[trigger] self.galaxy.planets@[j2];
                        q == (Planet { materials: q.materials, ..planets1[j2] }) && q.materials
                            <= planets1[j2].materials
                    },
                self.ships@.len() >= ships1.len(),
                forall|i2: int| 0 <= i2 < ships1.len() ==> #[trigger] self.ships@[i2] == ships1[i2],
                forall|i2: int|
                    ships1.len() <= i2 < self.ships@.len() ==> built_from_some(
                        #[trigger] self.ships@[i2],
                        decisions.ship_builds@,
                    ),
            decreases n_builds - j,
        {
            let ghost builds_prefix = decisions.ship_builds@.subrange(0, j as int);
            let ghost builds_prefix1 = decisions.ship_builds@.subrange(0, j as int + 1);
            proof {
                assert(builds_prefix1.drop_last() =~= builds_prefix);
                assert(builds_prefix1.last() == decisions.ship_builds@[j as int]);
            }
            let build = decisions.ship_builds[j];
            let _ = self.build_ship(build.planet_id, build.design);
            j = j + 1;
        }
        let ghost ships2 = self.ships@;
        proof {
            assert(decisions.ship_builds@.subrange(0, n_builds as int) =~= decisions.ship_builds@);
        }
        let ghost planets2 = self.galaxy.planets@;
        let n_moves = decisions.ship_movements.len();
        let mut k: usize = 0;
        while k < n_moves
            invariant
                k <= n_moves,
                n_moves == decisions.ship_movements@.len(),
                self.wf(),
                self.races == old(self).races,
                self.turn == old(self).turn,
                self.diplomacy == old(self).diplomacy,
                self.next_ship_id >= old(self).next_ship_id,
                self.rng == old(self).rng,
                self.ai_personalities == old(self).ai_personalities,
                self.galaxy.planets@ == planets2,
                planets1 == spec_apply_orders(
                    old(self).galaxy.planets@,
                    race_id.0,
                    decisions.production_orders@,
                ),
                ships1 == old(self).ships@,
                next1 == old(self).next_ship_id as int,
                ({
                    let folded = spec_apply_builds(
                        planets1,
                        ships1,
                        next1,
                        decisions.ship_builds@,
                    );
                    planets2 == folded.0 && ships2 == folded.1 && self.next_ship_id as int
                        == folded.2
                }),
                planets_preserved(old(self).galaxy.planets@, self.galaxy.planets@),
                self.galaxy.width == old(self).galaxy.width,
                self.galaxy.height == old(self).galaxy.height,
                self.ships@ == spec_apply_travels(
                    ships2,
                    decisions.ship_movements@.subrange(0, k as int),
                    old(self).galaxy.planets@.len() as int,
                ),
                self.ships@.len() == ships2.len(),
                forall|i2: int|
                    0 <= i2 < ships2.len() ==> #[trigger] self.ships@[i2] == (Ship {
                        location: self.ships@[i2].location,
                        ..ships2[i2]
                    }),
            decreases n_moves - k,
        {
            let ghost moves_prefix = decisions.ship_movements@.subrange(0, k as int);
            let ghost moves_prefix1 = decisions.ship_movements@.subrange(0, k as int + 1);
            let ghost ships_before = self.ships@;
            proof {
                assert(moves_prefix1.drop_last() =~= moves_prefix);
                assert(moves_prefix1.last() == decisions.ship_movements@[k as int]);
            }
            let movement = decisions.ship_movements[k];
            let sent = self.order_ship_travel(movement.ship_id, movement.destination);
            proof {
                if sent {
                    let kw = choose|kw: int|
                        0 <= kw < ships_before.len() && (#[trigger] ships_before[kw]).id
                            == movement.ship_id && (ships_before[kw].location matches
                        ShipLocation::AtPlanet(origin) && self.ships@ == ships_before.update(
                            kw,
                            Ship {
                                location: ShipLocation::Traveling {
                                    from: origin,
                                    to: movement.destination,
                                    progress: 0u64,
                                },
                                ..ships_before[kw]
                            },
                        ));
                    let kc = choose|kc: int|
                        0 <= kc < ships_before.len() && (#[trigger] ships_before[kc]).id
                            == movement.ship_id && match ships_before[kc].location {
                            ShipLocation::AtPlanet(origin) => origin != movement.destination && (
                            movement.destination.0 as int) < old(self).galaxy.planets@.len(),
                            ShipLocation::Traveling { .. } => false,
                        };
                    assert(kw == kc);
                } else {
                    assert(!travel_order_valid(
                        ships_before,
                        movement.ship_id,
                        movement.destination,
                        old(self).galaxy.planets@.len() as int,
                    ));
                }
            }
            k = k + 1;
        }
        proof {
            assert(decisions.ship_movements@.subrange(0, n_moves as int)
                =~= decisions.ship_movements@);
        }
    }

    /// Run the AI policy for one faction and apply its decisions; unknown
    /// factions are ignored.
    pub fn run_racebot(&mut self, race_id: RaceId)
        requires
            old(self).wf(),
        ensures
            final(self).wf(),
            final(self).races == old(self).races,
            final(self).turn == old(self).turn,
            final(self).diplomacy == old(self).diplomacy,
            final(self).rng == old(self).rng,
            final(self).ai_personalities == old(self).ai_personalities,
            final(self).galaxy.planets@.len() == old(self).galaxy.planets@.len(),
            planets_preserved(old(self).galaxy.planets@, final(self).galaxy.planets@),
            final(self).galaxy.width == old(self).galaxy.width,
            final(self).galaxy.height == old(self).galaxy.height,
            planets_after_decisions(old(self).galaxy.planets@, final(self).galaxy.planets@),
            ships_after_decisions(old(self).ships@, final(self).ships@),
            racebot_run_rel(*old(self), race_id, *final(self)),
    {
        let mut personality = Personality::Balanced;
        let n_ai = self.ai_personalities.len();
        let mut i: usize = 0;
        while i < n_ai
            invariant
                i <= n_ai,
                *self == *old(self),
                n_ai == self.ai_personalities@.len(),
                personality == spec_personality_of(
                    self.ai_personalities@.subrange(0, i as int),
                    race_id.0,
                ),
            decreases n_ai - i,
        {
            let ghost prefix = self.ai_personalities@.subrange(0, i as int);
            let ghost prefix1 = self.ai_personalities@.subrange(0, i as int + 1);
            proof {
                assert(prefix1.drop_last() =~= prefix);
                assert(prefix1.last() == self.ai_personalities@[i as int]);
            }
            let (rid, p) = self.ai_personalities[i];
            if rid == race_id.0 {
                personality = p;
            }
            i = i + 1;
        }
        proof {
            assert(self.ai_personalities@.subrange(0, n_ai as int) =~= self.ai_personalities@);
        }
        let racebot = Racebot::with_personality(race_id, personality);
        if (race_id.0 as usize) >= self.races.len() {
            return;
        }
        let decisions = {
            let race = &self.races[race_id.0 as usize];
            racebot.make_decisions(&self.galaxy, race, &self.ships)
        };
        let ghost dpo = decisions.production_orders@;
        let ghost dbu = decisions.ship_builds@;
        let ghost dmv = decisions.ship_movements@;
        let ghost pre = *self;
        proof {
            assert(crate::racebot::decisions_match(
                pre.galaxy,
                race_id,
                spec_personality_of(pre.ai_personalities@, race_id.0),
                pre.ships@,
                dpo,
                dbu,
                dmv,
            ));
        }
        self.execute_racebot_decisions(race_id, decisions);
        proof {
            assert(decisions_applied(pre, race_id, dpo, dbu, dmv, *self));
        }
    }

    /// Run the AI policy for every AI-controlled faction, in identity order.
    fn process_ai_turns(&mut self)
        requires
            old(self).wf(),
        ensures
            final(self).wf(),
            final(self).races == old(self).races,
            final(self).turn == old(self).turn,
            final(self).diplomacy == old(self).diplomacy,
            final(self).rng == old(self).rng,
            final(self).ai_personalities == old(self).ai_personalities,
            final(self).galaxy.planets@.len() == old(self).galaxy.planets@.len(),
            planets_preserved(old(self).galaxy.planets@, final(self).galaxy.planets@),
            final(self).galaxy.width == old(self).galaxy.width,
            final(self).galaxy.height == old(self).galaxy.height,
            planets_after_decisions(old(self).galaxy.planets@, final(self).galaxy.planets@),
            ships_after_decisions(old(self).ships@, final(self).ships@),
            ai_turns_applied(*old(self), ai_race_ids(old(self).races@), *final(self)),
    {
        let n = self.races.len();
        let mut ai_races: Vec<RaceId> = Vec::new();
        let mut i: usize = 0;
        while i < n
            invariant
                i <= n,
                self == old(self),
                n == self.races@.len(),
                ai_races@ == ai_race_ids(self.races@.subrange(0, i as int)),
            decreases n - i,
        {
            let ghost prefix = self.races@.subrange(0, i as int);
            let ghost prefix1 = self.races@.subrange(0, i as int + 1);
            proof {
                assert(prefix1.drop_last() =~= prefix);
                assert(prefix1.last() == self.races@[i as int]);
            }
            if self.races[i].is_ai_controlled() {
                ai_races.push(self.races[i].id);
            }
            i = i + 1;
        }
        proof {
            assert(self.races@.subrange(0, n as int) =~= self.races@);
        }
        let m = ai_races.len();
        let mut k: usize = 0;
        while k < m
            invariant
                k <= m,
                self.wf(),
                self.races == old(self).races,
                self.turn == old(self).turn,
                self.diplomacy == old(self).diplomacy,
                self.rng == old(self).rng,
                self.ai_personalities == old(self).ai_personalities,
                self.galaxy.planets@.len() == old(self).galaxy.planets@.len(),
                planets_preserved(old(self).galaxy.planets@, self.galaxy.planets@),
                self.galaxy.width == old(self).galaxy.width,
                self.galaxy.height == old(self).galaxy.height,
                planets_after_decisions(old(self).galaxy.planets@, self.galaxy.planets@),
                ships_after_decisions(old(self).ships@, self.ships@),
                m == ai_races@.len(),
                ai_races@ == ai_race_ids(old(self).races@),
                ai_turns_applied(*old(self), ai_races@.subrange(0, k as int), *self),
            decreases m - k,
        {
            let ghost prefix = ai_races@.subrange(0, k as int);
            let ghost prefix1 = ai_races@.subrange(0, k as int + 1);
            let ghost planets_mid = self.galaxy.planets@;
            let ghost ships_mid = self.ships@;
            let ghost mid = *self;
            let race_id = ai_races[k];
            self.run_racebot(race_id);
            proof {
                lemma_planets_after_decisions_trans(
                    old(self).galaxy.planets@,
                    planets_mid,
                    self.galaxy.planets@,
                );
                lemma_ships_after_decisions_trans(old(self).ships@, ships_mid, self.ships@);
                assert(prefix1.drop_last() =~= prefix);
                assert(prefix1.last() == ai_races@[k as int]);
                assert(racebot_run_rel(mid, prefix1.last(), *self));
                assert(ai_turns_applied(*old(self), prefix1.drop_last(), mid));
                assert(ai_turns_applied(*old(self), prefix1, *self));
            }
            k = k + 1;
        }
        proof {
            assert(ai_races@.subrange(0, m as int) =~= ai_races@);
        }
    }

    /// Advance the game one turn: AI decisions, production, research, ship
    /// movement with colonisation, combat, and population growth, strictly
    /// in that order. The turn counter rises by exactly one; no planet or
    /// faction is created or destroyed, and technology levels never fall.
    pub fn advance_turn(&mut self)
        requires
            old(self).wf(),
            old(self).turn < u32::MAX,
        ensures
            final(self).wf(),
            advance_rel(*old(self), *final(self)),
    {
        self.turn = self.turn + 1;
        let ghost g0 = *self;
        self.process_ai_turns();
        let ghost g1 = *self;
        self.galaxy.execute_production();
        let ghost g2 = *self;
        self.process_technology_advancement();
        let ghost g3 = *self;
        self.process_ship_movement();
        let ghost g4 = *self;
        self.process_combat();
        let ghost g5 = *self;
        self.process_population_growth();
        proof {
            assert(g0 == (GameState { turn: (old(self).turn + 1) as u32, ..*old(self) }));
            assert(ai_phase_rel(g0, g1));
            assert(production_phase_rel(g1, g2));
            assert(research_phase_rel(g2, g3));
            assert(movement_phase_rel(g3, g4));
            assert(combat_phase_rel(g4, g5));
            assert(growth_phase_rel(g5, *self));
        }
    }

    /// Advance up to `max_turns` turns, stopping early with the winner if
    /// some faction comes to own more than half of all planets.
    pub fn run_simulation(&mut self, max_turns: u32) -> (r: Option<RaceId>)
        requires
            old(self).wf(),
            old(self).turn + max_turns <= u32::MAX,
        ensures
            final(self).wf(),
            final(self).turn <= old(self).turn + max_turns,
            r is None ==> final(self).turn == old(self).turn + max_turns,
            r matches Some(w) ==> owned_ids(final(self).galaxy.planets@, w.0).len()
                > final(self).galaxy.planets@.len() / 2,
            exists|steps: nat|
                steps <= max_turns && #[trigger] simulation_steps(*old(self), steps, *final(self))
                    && (r is None ==> steps == max_turns),
    {
        let mut t: u32 = 0;
        while t < max_turns
            invariant
                t <= max_turns,
                self.wf(),
                old(self).turn + max_turns <= u32::MAX,
                self.turn == old(self).turn + t,
                simulation_steps(*old(self), t as nat, *self),
            decreases max_turns - t,
        {
            let ghost mid = *self;
            self.advance_turn();
            proof {
                assert(advance_rel(mid, *self));
                assert(simulation_steps(*old(self), (t + 1) as nat, *self));
            }
            match self.check_victory() {
                Some(winner) => {
                    let winner_planets = self.galaxy.count_planets_owned_by(winner.0);
                    let total_planets = self.galaxy.planets.len();
                    if winner_planets > total_planets / 2 {
                        return Some(winner);
                    }
                },
                None => {},
            }
            t = t + 1;
        }
        proof {
            assert(simulation_steps(*old(self), max_turns as nat, *self));
        }
        None
    }
}

} // verus!
