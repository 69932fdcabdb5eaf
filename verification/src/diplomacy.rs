//! Diplomatic relationships between factions.
//!
//! The ledger stores one entry per unordered pair of distinct factions,
//! normalised so the smaller identity comes first; lookups are therefore
//! symmetric by construction. Any pair without an entry is neutral, and a
//! faction is always friendly to itself (never stored).

use crate::race::RaceId;
use vstd::prelude::*;

verus! {

/// Relationship between two factions.
#[derive(Debug, Clone, Copy, PartialEq, Eq, Structural)]
pub enum Relationship {
    /// Allies: ships will not attack.
    Friendly,
    /// At war: ships attack on sight.
    Hostile,
    /// Neither: ships will not attack unless provoked.
    Neutral,
}

impl Default for Relationship {
    fn default() -> (r: Self)
        ensures
            r == Relationship::Neutral,
    {
        Relationship::Neutral
    }
}

/// One stored pair: `low < high` are the two faction identities.
#[derive(Debug, Clone, Copy, PartialEq, Eq, Structural)]
pub struct RelationEntry {
    pub low: u32,
    pub high: u32,
    pub relationship: Relationship,
}

/// Smaller identity of an unordered pair.
pub open spec fn pair_low(a: u32, b: u32) -> u32 {
    if a < b {
        a
    } else {
        b
    }
}

/// Larger identity of an unordered pair.
pub open spec fn pair_high(a: u32, b: u32) -> u32 {
    if a < b {
        b
    } else {
        a
    }
}

/// Some entry carries the given normalised pair.
pub open spec fn has_entry(s: Seq<RelationEntry>, lo: u32, hi: u32) -> bool {
    exists|i: int| 0 <= i < s.len() && s[i].low == lo && (#[trigger] s[i]).high == hi
}

/// The relationship stored for the given normalised pair.
pub open spec fn entry_rel(s: Seq<RelationEntry>, lo: u32, hi: u32) -> Relationship {
    let i = choose|i: int| 0 <= i < s.len() && s[i].low == lo && (#[trigger] s[i]).high == hi;
    s[i].relationship
}

/// Entries are normalised and no pair is stored twice.
pub open spec fn entries_wf(s: Seq<RelationEntry>) -> bool {
    &&& forall|i: int| 0 <= i < s.len() ==> (#[trigger] s[i]).low < s[i].high
    &&& forall|i: int, j: int|
        0 <= i < s.len() && 0 <= j < s.len() && i != j ==> !((#[trigger] s[i]).low == (
        #[trigger] s[j]).low && s[i].high == s[j].high)
}

/// The relationship ledger.
#[derive(Debug, Clone)]
pub struct Diplomacy {
    pub entries: Vec<RelationEntry>,
}

impl Diplomacy {
    pub open spec fn wf(self) -> bool {
        entries_wf(self.entries@)
    }

    /// The relationship the ledger answers for two factions: friendly to
    /// self, the stored entry for a stored pair, neutral otherwise.
    pub open spec fn spec_relationship(self, a: RaceId, b: RaceId) -> Relationship {
        if a.0 == b.0 {
            Relationship::Friendly
        } else if has_entry(self.entries@, pair_low(a.0, b.0), pair_high(a.0, b.0)) {
            entry_rel(self.entries@, pair_low(a.0, b.0), pair_high(a.0, b.0))
        } else {
            Relationship::Neutral
        }
    }

    pub fn new() -> (r: Self)
        ensures
            r.wf(),
            forall|a: RaceId, b: RaceId|
                a.0 != b.0 ==> #[trigger] r.spec_relationship(a, b) == Relationship::Neutral,
            forall|a: RaceId| #[trigger] r.spec_relationship(a, a) == Relationship::Friendly,
    {
        let r = Self { entries: Vec::new() };
        proof {
            assert(forall|a: RaceId, b: RaceId|
                a.0 != b.0 ==> #[trigger] r.spec_relationship(a, b) == Relationship::Neutral) by {
                assert(r.entries@.len() == 0);
            }
        }
        r
    }

    /// Look up the relationship between two factions.
    pub fn get_relationship(&self, race1: RaceId, race2: RaceId) -> (r: Relationship)
        requires
            self.wf(),
        ensures
            r == self.spec_relationship(race1, race2),
    {
        if race1.0 == race2.0 {
            return Relationship::Friendly;
        }
        let lo: u32 = if race1.0 < race2.0 {
            race1.0
        } else {
            race2.0
        };
        let hi: u32 = if race1.0 < race2.0 {
            race2.0
        } else {
            race1.0
        };
        let n: usize = self.entries.len();
        let mut i: usize = 0;
        while i < n
            invariant
                n == self.entries@.len(),
                i <= n,
                self.wf(),
                lo == pair_low(race1.0, race2.0),
                hi == pair_high(race1.0, race2.0),
                forall|j: int| 0 <= j < i ==> !((#[trigger] self.entries@[j]).low == lo
                    && self.entries@[j].high == hi),
            decreases n - i,
        {
            let e = self.entries[i];
            if e.low == lo && e.high == hi {
                proof {
                    let k = choose|k: int|
                        0 <= k < self.entries@.len() && self.entries@[k].low == lo && (
                        #[trigger] self.entries@[k]).high == hi;
                    assert(k == i);
                }
                return e.relationship;
            }
            i = i + 1;
        }
        Relationship::Neutral
    }

    /// Record the relationship between two distinct factions; setting a
    /// faction's relationship to itself is a no-op.
    pub fn set_relationship(&mut self, race1: RaceId, race2: RaceId, relationship: Relationship)
        requires
            old(self).wf(),
        ensures
            final(self).wf(),
            race1.0 == race2.0 ==> *final(self) == *old(self),
            race1.0 != race2.0 ==> final(self).spec_relationship(race1, race2) == relationship,
            forall|x: RaceId, y: RaceId|
                !(pair_low(x.0, y.0) == pair_low(race1.0, race2.0) && pair_high(x.0, y.0)
                    == pair_high(race1.0, race2.0)) ==> #[trigger] final(self).spec_relationship(
                    x,
                    y,
                ) == old(self).spec_relationship(x, y),
    {
        if race1.0 == race2.0 {
            return;
        }
        let lo: u32 = if race1.0 < race2.0 {
            race1.0
        } else {
            race2.0
        };
        let hi: u32 = if race1.0 < race2.0 {
            race2.0
        } else {
            race1.0
        };
        let n: usize = self.entries.len();
        let mut i: usize = 0;
        while i < n
            invariant
                n == self.entries@.len(),
                i <= n,
                self.wf(),
                self == old(self),
                lo < hi,
                lo == pair_low(race1.0, race2.0),
                hi == pair_high(race1.0, race2.0),
                forall|j: int| 0 <= j < i ==> !((#[trigger] self.entries@[j]).low == lo
                    && self.entries@[j].high == hi),
            decreases n - i,
        {
            let e = self.entries[i];
            if e.low == lo && e.high == hi {
                let ghost s_old = self.entries@;
                self.entries.set(i, RelationEntry { low: lo, high: hi, relationship });
                proof {
                    let s_new = self.entries@;
                    assert(entries_wf(s_new)) by {
                        assert(forall|j: int| 0 <= j < s_new.len() ==> (#[trigger] s_new[j]).low
                            == s_old[j].low && s_new[j].high == s_old[j].high);
                    }
                    lemma_same_keys_same_lookup(s_old, s_new, i as int);
                    assert(s_new[i as int].low == lo && s_new[i as int].high == hi);
                    assert(has_entry(s_new, lo, hi));
                    let k = choose|k: int|
                        0 <= k < s_new.len() && s_new[k].low == lo && (#[trigger] s_new[k]).high
                            == hi;
                    assert(k == i);
                }
                return;
            }
            i = i + 1;
        }
        let ghost s_old = self.entries@;
        self.entries.push(RelationEntry { low: lo, high: hi, relationship });
        proof {
            let s_new = self.entries@;
            assert(!has_entry(s_old, lo, hi));
            assert(entries_wf(s_new)) by {
                assert(forall|j: int| 0 <= j < s_old.len() ==> #[trigger] s_new[j] == s_old[j]);
            }
            assert(has_entry(s_new, lo, hi)) by {
                assert(s_new[s_new.len() - 1].low == lo && s_new[s_new.len() - 1].high == hi);
            }
            let k = choose|k: int|
                0 <= k < s_new.len() && s_new[k].low == lo && (#[trigger] s_new[k]).high == hi;
            assert(k == s_new.len() - 1);
            assert(forall|l2: u32, h2: u32|
                !(l2 == lo && h2 == hi) ==> (has_entry(s_new, l2, h2) == has_entry(s_old, l2, h2)
                    && (has_entry(s_old, l2, h2) ==> #[trigger] entry_rel(s_new, l2, h2)
                    == entry_rel(s_old, l2, h2)))) by {
                lemma_push_other_keys(s_old, RelationEntry { low: lo, high: hi, relationship });
            }
        }
    }

    /// Make two factions hostile to each other; idempotent.
    pub fn make_hostile(&mut self, attacker: RaceId, defender: RaceId)
        requires
            old(self).wf(),
        ensures
            final(self).wf(),
            attacker.0 == defender.0 ==> *final(self) == *old(self),
            attacker.0 != defender.0 ==> final(self).spec_relationship(attacker, defender)
                == Relationship::Hostile,
            forall|x: RaceId, y: RaceId|
                !(pair_low(x.0, y.0) == pair_low(attacker.0, defender.0) && pair_high(x.0, y.0)
                    == pair_high(attacker.0, defender.0)) ==> #[trigger] final(self)
                    .spec_relationship(x, y) == old(self).spec_relationship(x, y),
    {
        self.set_relationship(attacker, defender, Relationship::Hostile);
    }

    /// Two factions are hostile.
    pub fn are_hostile(&self, race1: RaceId, race2: RaceId) -> (r: bool)
        requires
            self.wf(),
        ensures
            r == (self.spec_relationship(race1, race2) == Relationship::Hostile),
    {
        let rel = self.get_relationship(race1, race2);
        rel == Relationship::Hostile
    }

    /// Two factions are friendly.
    pub fn are_friendly(&self, race1: RaceId, race2: RaceId) -> (r: bool)
        requires
            self.wf(),
        ensures
            r == (self.spec_relationship(race1, race2) == Relationship::Friendly),
    {
        let rel = self.get_relationship(race1, race2);
        rel == Relationship::Friendly
    }

    /// Ships of the two factions attack each other exactly when the factions
    /// are hostile.
    pub fn should_attack(&self, race1: RaceId, race2: RaceId) -> (r: bool)
        requires
            self.wf(),
        ensures
            r == (self.spec_relationship(race1, race2) == Relationship::Hostile),
    {
        self.are_hostile(race1, race2)
    }
}

/// The ledger is symmetric: the relationship between two factions does not
/// depend on the order they are asked in.
pub proof fn lemma_relationship_symmetric(d: Diplomacy, a: RaceId, b: RaceId)
    ensures
        d.spec_relationship(a, b) == d.spec_relationship(b, a),
{
}

/// Replacing the relationship of the entry at `i` (same pair) leaves every
/// other pair's lookup unchanged.
proof fn lemma_same_keys_same_lookup(s_old: Seq<RelationEntry>, s_new: Seq<RelationEntry>, i: int)
    requires
        s_old.len() == s_new.len(),
        0 <= i < s_old.len(),
        entries_wf(s_old),
        entries_wf(s_new),
        forall|j: int| 0 <= j < s_old.len() ==> (#[trigger] s_new[j]).low == s_old[j].low
            && s_new[j].high == s_old[j].high,
        forall|j: int| 0 <= j < s_old.len() && j != i ==> #[trigger] s_new[j] == s_old[j],
    ensures
        forall|l2: u32, h2: u32|
            #![all_triggers]
            !(l2 == s_old[i].low && h2 == s_old[i].high) ==> (has_entry(s_new, l2, h2) == has_entry(
                s_old,
                l2,
                h2,
            ) && (has_entry(s_old, l2, h2) ==> entry_rel(s_new, l2, h2) == entry_rel(
                s_old,
                l2,
                h2,
            ))),
{
    assert forall|l2: u32, h2: u32|
        !(l2 == s_old[i].low && h2 == s_old[i].high) implies (has_entry(s_new, l2, h2)
        == has_entry(s_old, l2, h2) && (has_entry(s_old, l2, h2) ==> entry_rel(s_new, l2, h2)
        == entry_rel(s_old, l2, h2))) by {
        if has_entry(s_old, l2, h2) {
            let j = choose|j: int|
                0 <= j < s_old.len() && s_old[j].low == l2 && (#[trigger] s_old[j]).high == h2;
            assert(s_new[j].low == l2 && s_new[j].high == h2);
            assert(has_entry(s_new, l2, h2));
            let k = choose|k: int|
                0 <= k < s_new.len() && s_new[k].low == l2 && (#[trigger] s_new[k]).high == h2;
            assert(k == j);
            assert(j != i);
        }
        if has_entry(s_new, l2, h2) {
            let j = choose|j: int|
                0 <= j < s_new.len() && s_new[j].low == l2 && (#[trigger] s_new[j]).high == h2;
            assert(s_old[j].low == l2 && s_old[j].high == h2);
            assert(has_entry(s_old, l2, h2));
        }
    }
}

/// Appending an entry for a pair that is not yet stored leaves every other
/// pair's lookup unchanged.
proof fn lemma_push_other_keys(s_old: Seq<RelationEntry>, e: RelationEntry)
    requires
        entries_wf(s_old),
        !has_entry(s_old, e.low, e.high),
    ensures
        forall|l2: u32, h2: u32|
            #![all_triggers]
            !(l2 == e.low && h2 == e.high) ==> (has_entry(s_old.push(e), l2, h2) == has_entry(
                s_old,
                l2,
                h2,
            ) && (has_entry(s_old, l2, h2) ==> entry_rel(s_old.push(e), l2, h2) == entry_rel(
                s_old,
                l2,
                h2,
            ))),
{
    let s_new = s_old.push(e);
    assert forall|l2: u32, h2: u32|
        !(l2 == e.low && h2 == e.high) implies (has_entry(s_new, l2, h2) == has_entry(s_old, l2, h2)
        && (has_entry(s_old, l2, h2) ==> entry_rel(s_new, l2, h2) == entry_rel(s_old, l2, h2)))
        by {
        if has_entry(s_old, l2, h2) {
            let j = choose|j: int|
                0 <= j < s_old.len() && s_old[j].low == l2 && (#[trigger] s_old[j]).high == h2;
            assert(s_new[j].low == l2 && s_new[j].high == h2);
            assert(has_entry(s_new, l2, h2));
            let k = choose|k: int|
                0 <= k < s_new.len() && s_new[k].low == l2 && (#[trigger] s_new[k]).high == h2;
            assert(k != s_new.len() - 1);
            assert(s_new[k] == s_old[k]);
            assert(k == j);
        }
        if has_entry(s_new, l2, h2) {
            let j = choose|j: int|
                0 <= j < s_new.len() && s_new[j].low == l2 && (#[trigger] s_new[j]).high == h2;
            assert(j != s_new.len() - 1);
            assert(s_old[j].low == l2 && s_old[j].high == h2);
            assert(has_entry(s_old, l2, h2));
        }
    }
}

} // verus!
