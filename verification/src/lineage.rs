//! The account that a run keeps of every lineage: how many of its creatures
//! lived and what they ate.

use crate::creature::Creature;
use crate::genes::Genome;
use std::collections::HashMap;
use vstd::prelude::*;

verus! {

broadcast use vstd::std_specs::hash::group_hash_axioms;

/// What became of one lineage in a run.
#[derive(Debug, Clone, Copy, PartialEq, Eq, Structural)]
pub struct SurvivalStats {
    pub genome_id: u128,
    /// The creatures of the lineage that were alive at the end.
    pub survived: u32,
    /// The creatures of the lineage that ever lived, the seed included.
    pub total_spawned: u32,
    /// The food eaten by the creatures of the lineage that were removed.
    pub total_food_eaten: u32,
}

/// The running account of one lineage.
#[derive(Debug, Clone, Copy, PartialEq, Eq, Structural)]
pub struct LineageRecord {
    pub genome_id: u128,
    pub total_spawned: u32,
    pub total_food_eaten: u32,
}

/// `a + b`, or `u32::MAX` where the sum is larger.
pub open spec fn spec_capped_sum(a: u32, b: u32) -> u32 {
    if a + b > u32::MAX {
        u32::MAX
    } else {
        (a + b) as u32
    }
}

impl LineageRecord {
    /// The record after a creature of lineage `id` that ate `amount` was
    /// removed: the food is credited to its own lineage only.
    pub open spec fn spec_credited(self, id: u128, amount: u32) -> LineageRecord {
        if self.genome_id == id {
            LineageRecord {
                total_food_eaten: spec_capped_sum(self.total_food_eaten, amount),
                ..self
            }
        } else {
            self
        }
    }

    /// The record after a creature of lineage `id` was born.
    pub open spec fn spec_spawned(self, id: u128) -> LineageRecord {
        if self.genome_id == id {
            LineageRecord { total_spawned: spec_capped_sum(self.total_spawned, 1), ..self }
        } else {
            self
        }
    }
}

/// The records of the lineages, in the order of `order`.
pub open spec fn spec_records(stats: Map<u128, LineageRecord>, order: Seq<u128>) -> Seq<
    LineageRecord,
> {
    Seq::new(order.len(), |k: int| stats[order[k]])
}

/// Every lineage of `order` has its record, filed under its identifier.
pub open spec fn spec_filed(stats: Map<u128, LineageRecord>, order: Seq<u128>) -> bool {
    forall|k: int|
        0 <= k < order.len() ==>
            stats.contains_key(#[trigger] order[k]) && stats[order[k]].genome_id
            == order[k]
}

/// Whether the records track lineage `id`.
pub open spec fn spec_tracks(stats: Seq<LineageRecord>, id: u128) -> bool {
    exists|k: int| 0 <= k < stats.len() && (#[trigger] stats[k]).genome_id == id
}

/// No two records are of the same lineage.
pub open spec fn spec_distinct_lineages(stats: Seq<LineageRecord>) -> bool {
    forall|j: int, k: int|
        0 <= j < k < stats.len() ==>
            (#[trigger] stats[j]).genome_id != (#[trigger] stats[k]).genome_id
}

/// Whether the results hold an entry for lineage `id`.
pub open spec fn spec_reports(results: Seq<SurvivalStats>, id: u128) -> bool {
    exists|k: int| 0 <= k < results.len() && (#[trigger] results[k]).genome_id == id
}

/// Whether a seed is of lineage `id`.
pub open spec fn spec_sown(seeds: Seq<(u128, Genome)>, id: u128) -> bool {
    exists|i: int| 0 <= i < seeds.len() && (#[trigger] seeds[i]).0 == id
}

/// The creatures of lineage `id` among `creatures`, counted.
pub open spec fn spec_count_lineage(creatures: Seq<Creature>, id: u128) -> nat
    decreases creatures.len(),
{
    if creatures.len() == 0 {
        0
    } else {
        spec_count_lineage(creatures.drop_last(), id) + (if creatures.last().genome_id == id {
            1nat
        } else {
            0nat
        })
    }
}

/// A count of creatures as a report holds it: it stops at `u32::MAX`.
pub open spec fn spec_capped_count(count: nat) -> u32 {
    if count > u32::MAX as nat {
        u32::MAX
    } else {
        count as u32
    }
}

/// What a tally says of lineage `id`: its entry, or zero where it has none.
pub open spec fn spec_counted(tally: Map<u128, u32>, id: u128) -> u32 {
    if tally.contains_key(id) {
        tally[id]
    } else {
        0
    }
}

/// Whether some creature is of lineage `id`.
pub open spec fn spec_lineage_present(creatures: Seq<Creature>, id: u128) -> bool {
    exists|i: int| 0 <= i < creatures.len() && (#[trigger] creatures[i]).genome_id == id
}

/// Every lineage among `later` is one among `earlier`.
pub open spec fn spec_lineages_within(later: Seq<Creature>, earlier: Seq<Creature>) -> bool {
    forall|j: int|
        0 <= j < later.len() ==> spec_lineage_present(earlier, (#[trigger] later[j]).genome_id)
}

/// At most one lineage is left among the creatures.
pub open spec fn spec_single_lineage(creatures: Seq<Creature>) -> bool {
    forall|i: int, j: int|
        0 <= i < creatures.len() && 0 <= j < creatures.len() ==> (#[trigger] creatures[i]).genome_id
            == (#[trigger] creatures[j]).genome_id
}

/// Every creature is alive.
pub open spec fn spec_all_alive(creatures: Seq<Creature>) -> bool {
    forall|i: int| 0 <= i < creatures.len() ==> (#[trigger] creatures[i]).health > 0
}

/// The records are of the same lineages as before, in the same order, and
/// no counter has gone down.
pub open spec fn spec_records_grown(before: Seq<LineageRecord>, after: Seq<LineageRecord>) -> bool {
    &&& after.len() == before.len()
    &&& forall|k: int|
        0 <= k < before.len() ==> {
            &&& (#[trigger] after[k]).genome_id == before[k].genome_id
            &&& after[k].total_spawned >= before[k].total_spawned
            &&& after[k].total_food_eaten >= before[k].total_food_eaten
        }
}

/// Lineages that are within lineages that are within a third set are
/// within that set.
pub proof fn lemma_lineages_within_transitive(a: Seq<Creature>, b: Seq<Creature>, c: Seq<Creature>)
    requires
        spec_lineages_within(c, b),
        spec_lineages_within(b, a),
    ensures
        spec_lineages_within(c, a),
{
    assert forall|j: int| 0 <= j < c.len() implies
        spec_lineage_present(a, (#[trigger] c[j]).genome_id) by {
        let id = c[j].genome_id;
        let i = choose|i: int| 0 <= i < b.len() && (#[trigger] b[i]).genome_id == id;
        assert(spec_lineage_present(a, b[i].genome_id));
    }
}

/// Where only one lineage is left, no other comes back.
pub proof fn lemma_single_lineage_stays(earlier: Seq<Creature>, later: Seq<Creature>)
    requires
        spec_single_lineage(earlier),
        spec_lineages_within(later, earlier),
    ensures
        spec_single_lineage(later),
{
    assert forall|i: int, j: int| 0 <= i < later.len() && 0 <= j < later.len() implies (
    #[trigger] later[i]).genome_id == (#[trigger] later[j]).genome_id by {
        assert(spec_lineage_present(earlier, later[i].genome_id));
        assert(spec_lineage_present(earlier, later[j].genome_id));
        let a = choose|a: int| 0 <= a < earlier.len()
            && (#[trigger] earlier[a]).genome_id == later[i].genome_id;
        let b = choose|b: int| 0 <= b < earlier.len()
            && (#[trigger] earlier[b]).genome_id == later[j].genome_id;
        assert(earlier[a].genome_id == earlier[b].genome_id);
    }
}

/// Creatures that kept their lineages, index by index, are within the
/// lineages they had.
pub proof fn lemma_same_lineages_within(earlier: Seq<Creature>, later: Seq<Creature>)
    requires
        later.len() == earlier.len(),
        forall|i: int| 0 <= i < earlier.len() ==>
            (#[trigger] later[i]).genome_id == earlier[i].genome_id,
    ensures
        spec_lineages_within(later, earlier),
{
    assert forall|j: int| 0 <= j < later.len() implies spec_lineage_present(
        earlier,
        (#[trigger] later[j]).genome_id,
    ) by {
        assert(earlier[j].genome_id == later[j].genome_id);
    }
}

/// Records that have grown from records that have grown have grown.
pub proof fn lemma_records_grown_transitive(
    a: Seq<LineageRecord>,
    b: Seq<LineageRecord>,
    c: Seq<LineageRecord>,
)
    requires
        spec_records_grown(a, b),
        spec_records_grown(b, c),
    ensures
        spec_records_grown(a, c),
{
    assert forall|k: int| 0 <= k < a.len() implies (#[trigger] c[k]).genome_id == a[k].genome_id
        && c[k].total_spawned >= a[k].total_spawned && c[k].total_food_eaten
        >= a[k].total_food_eaten by {
        assert(b[k].genome_id == a[k].genome_id);
    }
}

/// Adds to a counter; the counter stops at `u32::MAX`.
pub(crate) fn capped_sum(a: u32, b: u32) -> (r: u32)
    ensures
        r == spec_capped_sum(a, b),
{
    a.saturating_add(b)
}

/// Credits the food that a removed creature of lineage `id` had eaten.
pub(crate) fn credit_food(
    stats: &mut HashMap<u128, LineageRecord>,
    order: &Vec<u128>,
    id: u128,
    amount: u32,
)
    requires
        spec_filed(old(stats)@, order@),
    ensures
        spec_filed(final(stats)@, order@),
        forall|k: int|
            0 <= k < order@.len() ==> #[trigger] spec_records(final(stats)@, order@)[k]
                == spec_records(old(stats)@, order@)[k].spec_credited(id, amount),
{
    let found = match stats.get(&id) {
        Some(record) => Some(*record),
        None => None,
    };
    match found {
        Some(record) => {
            stats.insert(
                id,
                LineageRecord {
                    total_food_eaten: capped_sum(record.total_food_eaten, amount),
                    ..record
                },
            );
        },
        None => {},
    }
}

/// Counts a newborn of lineage `id`.
pub(crate) fn count_spawn(stats: &mut HashMap<u128, LineageRecord>, order: &Vec<u128>, id: u128)
    requires
        spec_filed(old(stats)@, order@),
    ensures
        spec_filed(final(stats)@, order@),
        forall|k: int|
            0 <= k < order@.len() ==> #[trigger] spec_records(final(stats)@, order@)[k]
                == spec_records(old(stats)@, order@)[k].spec_spawned(id),
{
    let found = match stats.get(&id) {
        Some(record) => Some(*record),
        None => None,
    };
    match found {
        Some(record) => {
            stats.insert(
                id,
                LineageRecord { total_spawned: capped_sum(record.total_spawned, 1), ..record },
            );
        },
        None => {},
    }
}

} // verus!
