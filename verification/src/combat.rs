//! Probabilistic ship-to-ship combat.
//!
//! Combat proceeds in rounds while both ships live. Each round every side
//! whose attack and the opponent's defence are both positive makes one kill
//! attempt: with probability `clamp((log4(attack / defence) + 1) / 2, 0, 1)`
//! the target's whole remaining hull is removed at once. The defender only
//! answers if it survived the attacker's attempt. A hard cap of 100 rounds
//! ends encounters that neither side can decide.

use crate::num::log2_milli;
use crate::race::{RaceId, Technology};
use crate::rng::GameRng;
use crate::ship::Ship;
use vstd::prelude::*;

verus! {

/// Hard safety cap on combat rounds.
pub const MAX_COMBAT_ROUNDS: u32 = 100;

/// Outcome of one combat encounter: who lived, the hull each side removed,
/// and how many rounds were fought.
#[derive(Debug, Clone, Copy, PartialEq, Eq, Structural)]
pub struct CombatResult {
    pub attacker_survived: bool,
    pub defender_survived: bool,
    pub attacker_damage_dealt: u64,
    pub defender_damage_dealt: u64,
    pub rounds: u32,
}

/// Stateless resolver for ship-to-ship battles.
#[derive(Debug)]
pub struct CombatSystem;

impl Default for CombatSystem {
    fn default() -> (r: Self) {
        CombatSystem
    }
}

impl CombatSystem {
    pub fn new() -> (r: Self) {
        CombatSystem
    }

    /// Probability, in milli units, that one kill attempt succeeds:
    /// `(log4(attack / defence) + 1) / 2`, clamped into [0, 1]. Equal
    /// strengths give one half; four times the defence gives certainty; a
    /// quarter of the defence, or a zero on either side, gives zero.
    pub fn calculate_kill_probability(attack: u64, defence: u64) -> (p: u64)
        ensures
            p <= 1000,
            attack == 0 || defence == 0 ==> p == 0,
            attack > 0 && attack == defence ==> p == 500,
            defence > 0 && attack >= 4 * defence ==> p == 1000,
            attack > 0 && defence >= 4 * attack ==> p == 0,
            attack >= defence && defence > 0 ==> p >= 500,
            attack <= defence && attack > 0 ==> p <= 500,
    {
        if attack == 0 || defence == 0 {
            return 0;
        }
        if attack >= defence {
            let u = log2_milli(attack, defence);
            let q = u / 4;
            if q >= 500 {
                1000
            } else {
                500 + q
            }
        } else {
            let u = log2_milli(defence, attack);
            let q = u / 4;
            if q >= 500 {
                0
            } else {
                500 - q
            }
        }
    }

    /// Resolve combat between two ships.
    ///
    /// Rounds repeat while both ships live, up to the cap. Per round the
    /// attacker attempts a kill if its attack and the defender's defence are
    /// positive; on success the defender's entire remaining hull is removed.
    /// The defender attempts its counter-attack only if it survived. Both
    /// ships keep identity, design, cargo and location; only hulls fall.
    pub fn resolve_combat(
        attacker: &mut Ship,
        attacker_tech: &Technology,
        defender: &mut Ship,
        defender_tech: &Technology,
        rng: &mut GameRng,
    ) -> (result: CombatResult)
        ensures
            result.rounds <= MAX_COMBAT_ROUNDS,
            result.attacker_survived == (final(attacker).current_hull > 0),
            result.defender_survived == (final(defender).current_hull > 0),
            final(attacker).current_hull <= old(attacker).current_hull,
            final(defender).current_hull <= old(defender).current_hull,
            *final(attacker) == (Ship {
                current_hull: final(attacker).current_hull,
                ..*old(attacker)
            }),
            *final(defender) == (Ship {
                current_hull: final(defender).current_hull,
                ..*old(defender)
            }),
            result.attacker_damage_dealt == old(defender).current_hull - final(defender)
                .current_hull,
            result.defender_damage_dealt == old(attacker).current_hull - final(attacker)
                .current_hull,
            final(attacker).current_hull == old(attacker).current_hull
                || final(attacker).current_hull == 0,
            final(defender).current_hull == old(defender).current_hull
                || final(defender).current_hull == 0,
            result.attacker_survived && result.defender_survived ==> result.rounds
                == MAX_COMBAT_ROUNDS || (old(attacker).current_hull == 0
                && old(defender).current_hull == 0),
            old(attacker).current_hull > 0 && old(defender).current_hull > 0
                ==> result.attacker_survived || result.defender_survived,
            result.attacker_damage_dealt == if result.defender_survived {
                0int
            } else {
                old(defender).current_hull as int
            },
            result.defender_damage_dealt == if result.attacker_survived {
                0int
            } else {
                old(attacker).current_hull as int
            },
            ({
                let att_a = old(attacker).design.spec_attack_strength(attacker_tech.weapon_level);
                let def_d = old(defender).design.spec_defence_strength(
                    defender_tech.shield_level,
                    0,
                );
                old(attacker).current_hull > 0 && old(defender).current_hull > 0 && att_a > 0
                    && def_d > 0 && att_a >= 4 * def_d ==> result.rounds == 1
                    && final(defender).current_hull == 0 && final(attacker).current_hull
                    == old(attacker).current_hull
            }),
            ({
                let att_a = old(attacker).design.spec_attack_strength(attacker_tech.weapon_level);
                let def_d = old(defender).design.spec_defence_strength(
                    defender_tech.shield_level,
                    0,
                );
                let att_d = old(defender).design.spec_attack_strength(defender_tech.weapon_level);
                let def_a = old(attacker).design.spec_defence_strength(
                    attacker_tech.shield_level,
                    0,
                );
                old(attacker).current_hull > 0 && old(defender).current_hull > 0 && (att_a == 0
                    || def_d == 0 || def_d >= 4 * att_a) && (att_d == 0 || def_a == 0 || def_a >= 4
                    * att_d) ==> result.rounds == MAX_COMBAT_ROUNDS
                    && final(attacker).current_hull == old(attacker).current_hull
                    && final(defender).current_hull == old(defender).current_hull
            }),
    {
        let mut rounds: u32 = 0;
        let mut attacker_total_damage: u64 = 0;
        let mut defender_total_damage: u64 = 0;
        while attacker.current_hull > 0 && defender.current_hull > 0 && rounds < MAX_COMBAT_ROUNDS
            invariant
                rounds <= MAX_COMBAT_ROUNDS,
                attacker.current_hull <= old(attacker).current_hull,
                defender.current_hull <= old(defender).current_hull,
                *attacker == (Ship { current_hull: attacker.current_hull, ..*old(attacker) }),
                *defender == (Ship { current_hull: defender.current_hull, ..*old(defender) }),
                attacker_total_damage == old(defender).current_hull - defender.current_hull,
                defender_total_damage == old(attacker).current_hull - attacker.current_hull,
                attacker.current_hull == old(attacker).current_hull || attacker.current_hull == 0,
                defender.current_hull == old(defender).current_hull || defender.current_hull == 0,
                old(attacker).current_hull > 0 && old(defender).current_hull > 0
                    ==> attacker.current_hull > 0 || defender.current_hull > 0,
                ({
                    let att_a = old(attacker).design.spec_attack_strength(
                        attacker_tech.weapon_level,
                    );
                    let def_d = old(defender).design.spec_defence_strength(
                        defender_tech.shield_level,
                        0,
                    );
                    old(attacker).current_hull > 0 && old(defender).current_hull > 0 && att_a > 0
                        && def_d > 0 && att_a >= 4 * def_d ==> (rounds == 0 && attacker.current_hull
                        == old(attacker).current_hull && defender.current_hull == old(
                        defender,
                    ).current_hull) || (rounds == 1 && defender.current_hull == 0
                        && attacker.current_hull == old(attacker).current_hull)
                }),
                ({
                    let att_a = old(attacker).design.spec_attack_strength(
                        attacker_tech.weapon_level,
                    );
                    let def_d = old(defender).design.spec_defence_strength(
                        defender_tech.shield_level,
                        0,
                    );
                    let att_d = old(defender).design.spec_attack_strength(
                        defender_tech.weapon_level,
                    );
                    let def_a = old(attacker).design.spec_defence_strength(
                        attacker_tech.shield_level,
                        0,
                    );
                    old(attacker).current_hull > 0 && old(defender).current_hull > 0 && (att_a == 0
                        || def_d == 0 || def_d >= 4 * att_a) && (att_d == 0 || def_a == 0 || def_a
                        >= 4 * att_d) ==> attacker.current_hull == old(attacker).current_hull
                        && defender.current_hull == old(defender).current_hull
                }),
            decreases MAX_COMBAT_ROUNDS - rounds,
        {
            rounds = rounds + 1;

            let attacker_attack = attacker.attack_strength(attacker_tech.weapon_level());
            let attacker_defence = attacker.defence_strength(attacker_tech.shield_level());
            let defender_attack = defender.attack_strength(defender_tech.weapon_level());
            let defender_defence = defender.defence_strength(defender_tech.shield_level());

            // Attacker tries to kill the defender.
            if attacker_attack > 0 && defender_defence > 0 {
                let p = Self::calculate_kill_probability(attacker_attack, defender_defence);
                if rng.roll_milli() < p {
                    let damage = defender.current_hull();
                    defender.take_damage(damage);
                    attacker_total_damage = attacker_total_damage + damage;
                }
            }

            // The defender counter-attacks only if it is still alive.
            if defender.current_hull > 0 && defender_attack > 0 && attacker_defence > 0 {
                let p = Self::calculate_kill_probability(defender_attack, attacker_defence);
                if rng.roll_milli() < p {
                    let damage = attacker.current_hull();
                    attacker.take_damage(damage);
                    defender_total_damage = defender_total_damage + damage;
                }
            }
        }
        CombatResult {
            attacker_survived: attacker.current_hull > 0,
            defender_survived: defender.current_hull > 0,
            attacker_damage_dealt: attacker_total_damage,
            defender_damage_dealt: defender_total_damage,
            rounds,
        }
    }

    /// Two ships may engage only when their owners differ.
    pub fn should_engage(ship1_owner: RaceId, ship2_owner: RaceId) -> (r: bool)
        ensures
            r == (ship1_owner.0 != ship2_owner.0),
    {
        ship1_owner.0 != ship2_owner.0
    }
}

} // verus!
