//! The coordinator's gene pool: the registry of lineages and their
//! populations. It hands out seed sets and takes in survival results.

use crate::chance::{choose_multiple, random_id, thread_seeded_rng};
use crate::genes::{Genome, TraitNoise};
use crate::protocol::{GenomeWithFitness, GenomeWithId, GlobalStats, SurvivalResult};
use crate::ranking::{holds_position, is_top, ranks_before, top_positions};
use rand::rngs::StdRng;
use std::collections::{HashMap, HashSet};
use vstd::prelude::*;
use vstd::set_lib::{lemma_int_range, lemma_len_subset, set_int_range};

verus! {

broadcast use vstd::std_specs::hash::group_hash_axioms;

/// The lineages a new pool starts with.
pub const INITIAL_LINEAGES: usize = 10;

/// The population each of them starts with.
pub const INITIAL_POPULATION: u32 = 100;

/// The most a population grows to.
pub const POPULATION_CAP: u32 = 10_000;

/// The seeds of one unit of work.
pub const SEED_COUNT: usize = 10;

/// How many seeds at most come from living lineages, and how many from
/// extinct ones.
pub const SEED_SHARE: usize = 5;

/// The mutation rate that the pool applies to every seed: 0.05.
pub const SERVER_MUTATION_RATE: i64 = 50_000;

/// What each survivor of a run adds to the population of its lineage.
pub const SURVIVOR_BONUS: u32 = 10;

/// What a run without survivors takes from the population of a lineage.
pub const EXTINCTION_PENALTY: u32 = 20;

/// How many lineages the statistics list.
pub const LISTED_LINEAGES: usize = 10;

/// A genome registered under a stable identifier, with its population. A
/// population of zero marks an extinct lineage, which stays registered.
#[derive(Debug, Clone, Copy, PartialEq, Eq, Structural)]
pub struct Lineage {
    pub id: u128,
    pub genome: Genome,
    pub population: u32,
}

/// The population of a lineage after a run in which `survived` of its
/// creatures were left: ten more for each survivor, up to the cap, or
/// twenty fewer where there was none, down to zero.
pub open spec fn spec_population_after(population: u32, survived: u32) -> u32 {
    if survived > 0 {
        if population + survived * SURVIVOR_BONUS > POPULATION_CAP {
            POPULATION_CAP
        } else {
            (population + survived * SURVIVOR_BONUS) as u32
        }
    } else {
        if population < EXTINCTION_PENALTY {
            0
        } else {
            (population - EXTINCTION_PENALTY) as u32
        }
    }
}

impl Lineage {
    /// The lineage after one result was taken in: only a result for this
    /// lineage changes it.
    pub open spec fn spec_reported(self, result: SurvivalResult) -> Lineage {
        if self.id == result.genome_id {
            Lineage { population: spec_population_after(self.population, result.survived), ..self }
        } else {
            self
        }
    }

    /// The lineage after the results were taken in, one after the other.
    pub open spec fn spec_after_results(self, results: Seq<SurvivalResult>) -> Lineage
        decreases results.len(),
    {
        if results.len() == 0 {
            self
        } else {
            self.spec_after_results(results.drop_last()).spec_reported(results.last())
        }
    }
}

/// Whether a lineage is registered under `id`.
pub open spec fn spec_registered(lineages: Seq<Lineage>, id: u128) -> bool {
    exists|i: int| 0 <= i < lineages.len() && (#[trigger] lineages[i]).id == id
}

/// No identifier is registered twice, no population exceeds the cap, and
/// every genome keeps to the trait budget.
pub open spec fn spec_registry_ok(lineages: Seq<Lineage>) -> bool {
    &&& forall|i: int, j: int|
        0 <= i < j < lineages.len() ==> (#[trigger] lineages[i]).id != (#[trigger] lineages[j]).id
    &&& forall|i: int|
        0 <= i < lineages.len() ==> (#[trigger] lineages[i]).population <= POPULATION_CAP
            && lineages[i].genome.within_budget()
}

/// The populations of the lineages, in their order.
pub open spec fn spec_populations(lineages: Seq<Lineage>) -> Seq<u64> {
    Seq::new(lineages.len(), |i: int| lineages[i].population as u64)
}

/// `picks` lists the most populous living lineages, at most `limit` of
/// them, most populous first; of two lineages of the same population the
/// one registered earlier comes first.
pub open spec fn spec_leading(lineages: Seq<Lineage>, limit: int, picks: Seq<usize>) -> bool {
    &&& picks.len() <= limit
    &&& forall|i: int|
        0 <= i < picks.len() ==> (#[trigger] picks[i]) < lineages.len()
            && lineages[picks[i] as int].population > 0
    &&& forall|i: int, j: int|
        0 <= i < j < picks.len() ==> ranks_before(
            spec_populations(lineages),
            #[trigger] picks[i] as int,
            #[trigger] picks[j] as int,
        )
    &&& forall|p: int|
        0 <= p < lineages.len() && lineages[p].population > 0 ==>
            #[trigger] holds_position(picks, p)
            || (picks.len() == limit && (limit == 0 || ranks_before(
            spec_populations(lineages),
            picks[limit - 1] as int,
            p,
        )))
}

/// `positions` lists the extinct lineages, all of them, in the order in
/// which they are registered.
pub open spec fn spec_extinct(lineages: Seq<Lineage>, positions: Seq<usize>) -> bool {
    &&& forall|i: int|
        0 <= i < positions.len() ==> (#[trigger] positions[i]) < lineages.len()
            && lineages[positions[i] as int].population == 0
    &&& forall|i: int, j: int|
        0 <= i < j < positions.len() ==> (#[trigger] positions[i]) < (#[trigger] positions[j])
    &&& forall|p: int|
        0 <= p < lineages.len() && lineages[p].population == 0 ==> #[trigger] holds_position(
            positions,
            p,
        )
}

/// `base` is a selection that a seed set may be made from: first the
/// genomes of the up to five most populous living lineages, then those of
/// up to five extinct lineages, no lineage twice and five wherever there
/// are as many, and then, up to ten in all, genomes that keep to the trait
/// budget.
pub open spec fn spec_seed_base(lineages: Seq<Lineage>, base: Seq<Genome>) -> bool {
    exists|leading: Seq<usize>, extinct: Seq<usize>, sample: Seq<usize>|
        {
            &&& spec_leading(lineages, SEED_SHARE as int, leading)
            &&& spec_extinct(lineages, extinct)
            &&& sample.to_multiset().subset_of(extinct.to_multiset())
            &&& sample.len() == (if extinct.len() < SEED_SHARE {
                extinct.len()
            } else {
                SEED_SHARE as nat
            })
            &&& base.len() == SEED_COUNT
            &&& forall|k: int|
                0 <= k < leading.len() ==> #[trigger] base[k] == lineages[leading[k] as int].genome
            &&& forall|j: int|
                0 <= j < sample.len() ==>
                    (#[trigger] sample[j]) < lineages.len() && base[leading.len()
                    + j] == lineages[sample[j] as int].genome
            &&& forall|k: int| 0 <= k < base.len() ==> (#[trigger] base[k]).within_budget()
        }
}

/// Every seed holds a mutation of the genome at its place in `base`.
pub open spec fn spec_mutations_of(base: Seq<Genome>, seeds: Seq<GenomeWithId>) -> bool {
    forall|k: int|
        0 <= k < seeds.len() ==> exists|noise: TraitNoise|
            noise.in_span() && (#[trigger] seeds[k]).genome == base[k].spec_mutated(noise)
}

/// The seeds hold mutations of a selection that a seed set may be made
/// from.
pub open spec fn spec_seeded_from(lineages: Seq<Lineage>, seeds: Seq<GenomeWithId>) -> bool {
    exists|base: Seq<Genome>| #[trigger]
        spec_seed_base(lineages, base) && spec_mutations_of(base, seeds)
}

/// The lineage that a seed is registered as: extinct until a run says
/// otherwise.
pub open spec fn spec_minted(seed: GenomeWithId) -> Lineage {
    Lineage { id: seed.genome_id, genome: seed.genome, population: 0 }
}

/// The registry of lineages, with the workers that have been in touch and
/// the totals of the work done. The lineages are looked up by identifier;
/// beside them the pool keeps the order in which they were registered, by
/// which ties between equal populations are settled.
pub struct GenePool {
    /// Every lineage, by its identifier.
    entries: HashMap<u128, Lineage>,
    /// The identifiers, in the order in which the lineages were registered.
    order: Vec<u128>,
    active_clients: HashSet<u128>,
    total_work_units: u64,
    total_simulations: u64,
}

/// Of more values than a list is long, one is not in the list.
proof fn lemma_some_id_is_free(ids: Seq<int>, bound: int)
    requires
        0 <= ids.len() < bound,
    ensures
        exists|v: int| 0 <= v < bound && !ids.contains(v),
{
    if forall|v: int| 0 <= v < bound ==> ids.contains(v) {
        let taken = ids.to_set();
        let range = set_int_range(0, bound);
        vstd::seq_lib::seq_to_set_is_finite(ids);
        ids.lemma_cardinality_of_set();
        lemma_int_range(0, bound);
        assert(range.subset_of(taken)) by {
            assert forall|v: int| range.contains(v) implies taken.contains(v) by {
                assert(ids.contains(v));
            }
        }
        lemma_len_subset(range, taken);
    }
}

/// An item of a sample is an item of what the sample was taken from.
proof fn lemma_sample_is_within(sample: Seq<usize>, all: Seq<usize>, j: int)
    requires
        sample.to_multiset().subset_of(all.to_multiset()),
        0 <= j < sample.len(),
    ensures
        all.contains(sample[j]),
{
    sample.to_multiset_ensures();
    all.to_multiset_ensures();
    assert(sample.contains(sample[j]));
    assert(sample.to_multiset().count(sample[j]) > 0);
    assert(all.to_multiset().count(sample[j]) > 0);
}

/// The population of a lineage after a run in which `survived` of its
/// creatures were left.
pub fn population_after(population: u32, survived: u32) -> (next: u32)
    ensures
        next == spec_population_after(population, survived),
        population <= POPULATION_CAP ==> next <= POPULATION_CAP,
{
    if survived > 0 {
        let bonus: u64 = SURVIVOR_BONUS as u64;
        let grown: u64 = population as u64 + survived as u64 * bonus;
        if grown > POPULATION_CAP as u64 {
            POPULATION_CAP
        } else {
            grown as u32
        }
    } else {
        population.saturating_sub(EXTINCTION_PENALTY)
    }
}

impl GenePool {
    /// The registered lineages, in the order in which they were registered.
    pub closed spec fn lineages(&self) -> Seq<Lineage> {
        Seq::new(self.order@.len(), |i: int| self.entries@[self.order@[i]])
    }

    /// The workers that have been in touch.
    pub closed spec fn clients(&self) -> Set<u128> {
        self.active_clients@
    }

    /// The work units that have been reported.
    pub closed spec fn work_units(&self) -> u64 {
        self.total_work_units
    }

    /// The simulation steps of all reported work units together.
    pub closed spec fn simulations(&self) -> u64 {
        self.total_simulations
    }

    #[verifier::type_invariant]
    spec fn registry_ok(&self) -> bool {
        &&& spec_registry_ok(self.lineages())
        &&& forall|i: int|
            0 <= i < self.order@.len() ==> self.entries@.contains_key(#[trigger] self.order@[i])
                && self.entries@[self.order@[i]].id == self.order@[i]
        &&& forall|id: u128| #[trigger]
            self.entries@.contains_key(id) ==> spec_registered(self.lineages(), id)
    }

    /// A pool without lineages, workers or work done.
    fn empty() -> (pool: GenePool)
        ensures
            pool.lineages() == Seq::<Lineage>::empty(),
            pool.entries@ == Map::<u128, Lineage>::empty(),
            pool.order@ == Seq::<u128>::empty(),
            pool.clients() == Set::<u128>::empty(),
            pool.work_units() == 0,
            pool.simulations() == 0,
    {
        let pool = GenePool {
            entries: HashMap::new(),
            order: Vec::new(),
            active_clients: HashSet::new(),
            total_work_units: 0,
            total_simulations: 0,
        };
        assert(pool.lineages() =~= Seq::<Lineage>::empty());
        pool
    }

    /// The lineage at a position of the registry.
    fn at(&self, position: usize) -> (lineage: Lineage)
        requires
            position < self.lineages().len(),
        ensures
            lineage == self.lineages()[position as int],
            lineage.id == self.order@[position as int],
    {
        proof {
            use_type_invariant(self);
        }
        let id = self.order[position];
        match self.entries.get(&id) {
            Some(lineage) => *lineage,
            None => Lineage { id, genome: Genome::default(), population: 0 },
        }
    }

    /// The lineage that is registered under `id`, if there is one.
    fn find(&self, id: u128) -> (found: Option<Lineage>)
        ensures
            match found {
                Some(lineage) => lineage.id == id && exists|i: int|
                    0 <= i < self.lineages().len() && #[trigger] self.lineages()[i] == lineage,
                None => !spec_registered(self.lineages(), id),
            },
    {
        proof {
            use_type_invariant(self);
        }
        match self.entries.get(&id) {
            Some(lineage) => {
                proof {
                    assert(spec_registered(self.lineages(), id));
                    let i = choose|i: int|
                        0 <= i < self.lineages().len() && (#[trigger] self.lineages()[i]).id == id;
                    assert(self.order@[i] == id);
                    assert(self.lineages()[i] == *lineage);
                }
                Some(*lineage)
            },
            None => {
                proof {
                    if spec_registered(self.lineages(), id) {
                        let i = choose|i: int|
                            0 <= i < self.lineages().len() && (#[trigger] self.lineages()[i]).id
                                == id;
                        assert(self.entries@.contains_key(self.order@[i]));
                    }
                }
                None
            },
        }
    }

    /// A pool of ten random lineages with a population of 100 each. The
    /// genome of each is what five draws give, under its own identifier.
    pub fn new() -> (pool: GenePool)
        ensures
            spec_registry_ok(pool.lineages()),
            pool.lineages().len() == INITIAL_LINEAGES,
            forall|i: int|
                0 <= i < pool.lineages().len() ==> (#[trigger] pool.lineages()[i]).population
                    == INITIAL_POPULATION && pool.lineages()[i].genome.spec_is_drawn(),
            pool.clients() == Set::<u128>::empty(),
            pool.work_units() == 0,
            pool.simulations() == 0,
    {
        let mut rng = thread_seeded_rng();
        GenePool::new_from(&mut rng)
    }

    /// A pool as `new` makes it, with the genomes drawn from `rng`.
    pub fn new_from(rng: &mut StdRng) -> (pool: GenePool)
        ensures
            spec_registry_ok(pool.lineages()),
            pool.lineages().len() == INITIAL_LINEAGES,
            forall|i: int|
                0 <= i < pool.lineages().len() ==> (#[trigger] pool.lineages()[i]).population
                    == INITIAL_POPULATION && pool.lineages()[i].genome.spec_is_drawn(),
            pool.clients() == Set::<u128>::empty(),
            pool.work_units() == 0,
            pool.simulations() == 0,
    {
        let mut pool = GenePool::empty();
        let mut n: usize = 0;
        while n < INITIAL_LINEAGES
            invariant
                n <= INITIAL_LINEAGES,
                pool.lineages().len() == n,
                forall|i: int|
                    0 <= i < pool.lineages().len() ==> (#[trigger] pool.lineages()[i]).population
                        == INITIAL_POPULATION && pool.lineages()[i].genome.spec_is_drawn(),
                pool.clients() == Set::<u128>::empty(),
                pool.work_units() == 0,
                pool.simulations() == 0,
            decreases INITIAL_LINEAGES - n,
        {
            let genome = Genome::random_from(rng);
            pool.register(genome, INITIAL_POPULATION);
            n += 1;
        }
        proof {
            use_type_invariant(&pool);
        }
        pool
    }

    /// The number of registered lineages.
    pub fn len(&self) -> (n: usize)
        ensures
            n == self.lineages().len(),
    {
        self.order.len()
    }

    /// The lineage at a position of the registry, or `None` past its end.
    pub fn lineage_at(&self, position: usize) -> (lineage: Option<Lineage>)
        ensures
            lineage == (if position < self.lineages().len() {
                Some(self.lineages()[position as int])
            } else {
                None
            }),
    {
        if position < self.order.len() {
            Some(self.at(position))
        } else {
            None
        }
    }

    /// Whether a lineage is registered under `id`.
    pub fn contains(&self, id: u128) -> (known: bool)
        ensures
            known == spec_registered(self.lineages(), id),
    {
        self.find(id).is_some()
    }

    /// The population of the lineage `id`, or `None` where no such lineage
    /// is registered.
    pub fn population_of(&self, id: u128) -> (population: Option<u32>)
        ensures
            spec_registry_ok(self.lineages()),
            match population {
                Some(n) => exists|i: int|
                    0 <= i < self.lineages().len() && (#[trigger] self.lineages()[i]).id == id
                        && self.lineages()[i].population == n,
                None => !spec_registered(self.lineages(), id),
            },
    {
        proof {
            use_type_invariant(self);
        }
        match self.find(id) {
            Some(lineage) => Some(lineage.population),
            None => None,
        }
    }

    /// The genome of the lineage `id`, or `None` where no such lineage is
    /// registered.
    pub fn genome_of(&self, id: u128) -> (genome: Option<Genome>)
        ensures
            spec_registry_ok(self.lineages()),
            match genome {
                Some(g) => exists|i: int|
                    0 <= i < self.lineages().len() && (#[trigger] self.lineages()[i]).id == id
                        && self.lineages()[i].genome == g,
                None => !spec_registered(self.lineages(), id),
            },
    {
        proof {
            use_type_invariant(self);
        }
        match self.find(id) {
            Some(lineage) => Some(lineage.genome),
            None => None,
        }
    }

    /// An identifier under which no lineage is registered: a random one,
    /// or, should that one be taken, the smallest that is free.
    fn fresh_id(&self) -> (id: u128)
        ensures
            !spec_registered(self.lineages(), id),
    {
        let drawn = random_id();
        if self.find(drawn).is_none() {
            return drawn;
        }
        let count: usize = self.order.len();
        let mut candidate: u128 = 0;
        while candidate <= count as u128
            invariant
                count == self.lineages().len(),
                candidate <= count + 1,
                forall|v: u128| v < candidate ==> #[trigger] spec_registered(self.lineages(), v),
            decreases count + 1 - candidate,
        {
            if self.find(candidate).is_none() {
                return candidate;
            }
            candidate += 1;
        }
        proof {
            let ids = Seq::new(self.lineages().len(), |i: int| self.lineages()[i].id as int);
            lemma_some_id_is_free(ids, count + 1);
            let free = choose|v: int| 0 <= v < count + 1 && !ids.contains(v);
            assert(spec_registered(self.lineages(), free as u128));
            let i = choose|i: int|
                0 <= i < self.lineages().len()
                    && (#[trigger] self.lineages()[i]).id == free as u128;
            assert(ids[i] == free);
        }
        0
    }

    /// Registers a genome as a new lineage under a fresh identifier, which
    /// is handed back.
    fn register(&mut self, genome: Genome, population: u32) -> (id: u128)
        requires
            genome.within_budget(),
            population <= POPULATION_CAP,
        ensures
            !spec_registered(old(self).lineages(), id),
            final(self).lineages() == old(self).lineages().push(Lineage { id, genome, population }),
            final(self).clients() == old(self).clients(),
            final(self).work_units() == old(self).work_units(),
            final(self).simulations() == old(self).simulations(),
    {
        proof {
            use_type_invariant(&*self);
        }
        let id = self.fresh_id();
        let ghost before = self.lineages();
        let mut taken = GenePool::empty();
        core::mem::swap(self, &mut taken);
        proof {
            use_type_invariant(&taken);
        }
        let GenePool { entries, order, active_clients, total_work_units,
            total_simulations } = taken;
        let mut entries = entries;
        let mut order = order;
        let ghost old_order = order@;
        entries.insert(id, Lineage { id, genome, population });
        order.push(id);
        let ghost after = Seq::new(order@.len(), |i: int| entries@[order@[i]]);
        proof {
            assert forall|i: int| 0 <= i < old_order.len() implies old_order[i] != id by {
                assert(before[i].id == old_order[i]);
            }
            assert(after =~= before.push(Lineage { id, genome, population }));
            assert forall|k: u128| #[trigger] entries@.contains_key(k) implies spec_registered(
                after,
                k,
            ) by {
                if k == id {
                    assert(after[old_order.len() as int].id == id);
                } else {
                    assert(spec_registered(before, k));
                    let i = choose|i: int| 0 <= i < before.len() && (#[trigger] before[i]).id == k;
                    assert(after[i].id == k);
                }
            }
        }
        *self = GenePool { entries, order, active_clients, total_work_units, total_simulations };
        id
    }

    /// The populations of the lineages, in their order.
    fn populations(&self) -> (keys: Vec<u64>)
        ensures
            keys@ == spec_populations(self.lineages()),
    {
        let mut keys: Vec<u64> = Vec::new();
        let mut i: usize = 0;
        while i < self.order.len()
            invariant
                i <= self.lineages().len(),
                keys@.len() == i,
                forall|j: int| 0 <= j < i ==>
                    #[trigger] keys@[j] == self.lineages()[j].population as u64,
            decreases self.lineages().len() - i,
        {
            keys.push(self.at(i).population as u64);
            i += 1;
        }
        assert(keys@ =~= spec_populations(self.lineages()));
        keys
    }

    /// The positions of the most populous living lineages, at most `limit`
    /// of them, most populous first.
    pub fn leading(&self, limit: usize) -> (picks: Vec<usize>)
        ensures
            spec_leading(self.lineages(), limit as int, picks@),
    {
        let keys = self.populations();
        let top = top_positions(&keys, limit);
        let mut picks: Vec<usize> = Vec::new();
        let mut k: usize = 0;
        let mut done = false;
        while k < top.len() && !done
            invariant
                k <= top@.len(),
                keys@ == spec_populations(self.lineages()),
                is_top(keys@, limit as int, top@),
                picks@.len() <= k,
                !done ==> picks@ == top@.take(k as int),
                done ==> k > 0 && picks@ == top@.take(k - 1) && keys@[top@[k - 1] as int] == 0,
                forall|i: int| 0 <= i < picks@.len() ==> keys@[(#[trigger] picks@[i]) as int] > 0,
            decreases top@.len() - k + (if done { 0int } else { 1int }),
        {
            let p = top[k];
            if self.at(p).population > 0 {
                picks.push(p);
                assert(picks@ =~= top@.take(k + 1));
            } else {
                done = true;
            }
            k += 1;
        }
        proof {
            let pops = spec_populations(self.lineages());
            let cut = picks@.len() as int;
            assert forall|p: int|
                0 <= p < self.lineages().len() && self.lineages()[p].population > 0 implies
                    #[trigger] holds_position(
                picks@,
                p,
            ) || (picks@.len() == limit && (limit == 0 || ranks_before(
                pops,
                picks@[limit - 1] as int,
                p,
            ))) by {
                if holds_position(top@, p) {
                    let i = choose|i: int| 0 <= i < top@.len() && #[trigger] top@[i] == p;
                    if i < cut {
                        assert(picks@[i] == p);
                    } else {
                        assert(done);
                        if i > cut {
                            assert(ranks_before(keys@, top@[cut] as int, top@[i] as int));
                        }
                    }
                } else {
                    assert(top@.len() == limit);
                    if cut < limit {
                        assert(done);
                        if cut < limit - 1 {
                            assert(ranks_before(keys@, top@[cut] as int, top@[limit - 1] as int));
                        }
                    }
                }
            }
        }
        picks
    }

    /// The positions of the extinct lineages, in their order.
    pub fn extinct(&self) -> (positions: Vec<usize>)
        ensures
            spec_extinct(self.lineages(), positions@),
    {
        let mut positions: Vec<usize> = Vec::new();
        let mut i: usize = 0;
        while i < self.order.len()
            invariant
                i <= self.lineages().len(),
                forall|k: int|
                    0 <= k < positions@.len() ==> (#[trigger] positions@[k]) < i
                        && self.lineages()[positions@[k] as int].population == 0,
                forall|j: int, k: int|
                    0 <= j < k < positions@.len() ==> (#[trigger] positions@[j]) < (
                    #[trigger] positions@[k]),
                forall|p: int|
                    0 <= p < i && self.lineages()[p].population == 0 ==> #[trigger] holds_position(
                        positions@,
                        p,
                    ),
            decreases self.lineages().len() - i,
        {
            let ghost before = positions@;
            if self.at(i).population == 0 {
                positions.push(i);
            }
            proof {
                assert forall|p: int|
                    0 <= p < i + 1 && self.lineages()[p].population == 0 implies
                        #[trigger] holds_position(
                    positions@,
                    p,
                ) by {
                    if p < i {
                        assert(holds_position(before, p));
                        let k = choose|k: int| 0 <= k < before.len() && #[trigger] before[k] == p;
                        assert(positions@[k] == p);
                    } else {
                        assert(positions@[before.len() as int] == p);
                    }
                }
            }
            i += 1;
        }
        positions
    }

    /// The genomes that the next seed set is made from: those of the five
    /// most populous living lineages, those of five extinct lineages picked
    /// at random, and random genomes to make up ten.
    pub fn select_base(&self, rng: &mut StdRng) -> (base: Vec<Genome>)
        ensures
            spec_seed_base(self.lineages(), base@),
    {
        proof {
            use_type_invariant(self);
        }
        let leading = self.leading(SEED_SHARE);
        let extinct = self.extinct();
        let sample = choose_multiple(rng, &extinct, SEED_SHARE);
        let mut base: Vec<Genome> = Vec::new();
        let mut k: usize = 0;
        while k < leading.len()
            invariant
                k <= leading@.len(),
                spec_registry_ok(self.lineages()),
                spec_leading(self.lineages(), SEED_SHARE as int, leading@),
                base@.len() == k,
                forall|i: int| 0 <= i < k ==>
                    #[trigger] base@[i] == self.lineages()[leading@[i] as int].genome,
                forall|i: int| 0 <= i < k ==> (#[trigger] base@[i]).within_budget(),
            decreases leading@.len() - k,
        {
            base.push(self.at(leading[k]).genome);
            k += 1;
        }
        let mut j: usize = 0;
        while j < sample.len()
            invariant
                j <= sample@.len(),
                spec_registry_ok(self.lineages()),
                spec_extinct(self.lineages(), extinct@),
                sample@.to_multiset().subset_of(extinct@.to_multiset()),
                base@.len() == leading@.len() + j,
                forall|i: int|
                    0 <= i < leading@.len() ==>
                        #[trigger] base@[i] == self.lineages()[leading@[i] as int].genome,
                forall|i: int|
                    0 <= i < j ==>
                        (#[trigger] sample@[i]) < self.lineages().len() && base@[leading@.len()
                        + i] == self.lineages()[sample@[i] as int].genome,
                forall|i: int| 0 <= i < base@.len() ==> (#[trigger] base@[i]).within_budget(),
            decreases sample@.len() - j,
        {
            proof {
                lemma_sample_is_within(sample@, extinct@, j as int);
                let at = choose|at: int| 0 <= at < extinct@.len()
                    && extinct@[at] == sample@[j as int];
                assert(extinct@[at] < self.lineages().len());
            }
            base.push(self.at(sample[j]).genome);
            j += 1;
        }
        while base.len() < SEED_COUNT
            invariant
                base@.len() >= leading@.len() + sample@.len(),
                forall|i: int|
                    0 <= i < leading@.len() ==>
                        #[trigger] base@[i] == self.lineages()[leading@[i] as int].genome,
                forall|i: int|
                    0 <= i < sample@.len() ==>
                        (#[trigger] sample@[i]) < self.lineages().len() && base@[leading@.len()
                        + i] == self.lineages()[sample@[i] as int].genome,
                forall|i: int| 0 <= i < base@.len() ==> (#[trigger] base@[i]).within_budget(),
            decreases SEED_COUNT - base@.len(),
        {
            base.push(Genome::random_from(rng));
        }
        base.truncate(SEED_COUNT);
        base
    }

    /// Makes the seed set of one unit of work. Every genome of
    /// `select_base` is mutated at the server's rate and registered as a
    /// new, extinct lineage under a fresh identifier; the ten new lineages
    /// are what the worker gets.
    pub fn get_seed_genomes_spatial(&mut self) -> (seeds: Vec<GenomeWithId>)
        ensures
            spec_registry_ok(final(self).lineages()),
            seeds@.len() == SEED_COUNT,
            final(self).lineages() == old(self).lineages() + seeds@.map_values(
                |s: GenomeWithId| spec_minted(s),
            ),
            forall|k: int|
                0 <= k < seeds@.len() ==> !spec_registered(
                    old(self).lineages(),
                    (#[trigger] seeds@[k]).genome_id,
                ),
            forall|j: int, k: int|
                0 <= j < k < seeds@.len() ==> (#[trigger] seeds@[j]).genome_id != (
                #[trigger] seeds@[k]).genome_id,
            spec_seeded_from(old(self).lineages(), seeds@),
            final(self).clients() == old(self).clients(),
            final(self).work_units() == old(self).work_units(),
            final(self).simulations() == old(self).simulations(),
    {
        let mut rng = thread_seeded_rng();
        self.get_seed_genomes_spatial_from(&mut rng)
    }

    /// Makes a seed set as `get_seed_genomes_spatial` does, with every draw
    /// but that of the identifiers taken from `rng`.
    pub fn get_seed_genomes_spatial_from(&mut self, rng: &mut StdRng) -> (seeds: Vec<GenomeWithId>)
        ensures
            spec_registry_ok(final(self).lineages()),
            seeds@.len() == SEED_COUNT,
            final(self).lineages() == old(self).lineages() + seeds@.map_values(
                |s: GenomeWithId| spec_minted(s),
            ),
            forall|k: int|
                0 <= k < seeds@.len() ==> !spec_registered(
                    old(self).lineages(),
                    (#[trigger] seeds@[k]).genome_id,
                ),
            forall|j: int, k: int|
                0 <= j < k < seeds@.len() ==> (#[trigger] seeds@[j]).genome_id != (
                #[trigger] seeds@[k]).genome_id,
            spec_seeded_from(old(self).lineages(), seeds@),
            final(self).clients() == old(self).clients(),
            final(self).work_units() == old(self).work_units(),
            final(self).simulations() == old(self).simulations(),
    {
        let base = self.select_base(rng);
        let mut seeds: Vec<GenomeWithId> = Vec::new();
        let mut k: usize = 0;
        while k < base.len()
            invariant
                k <= base@.len(),
                base@.len() == SEED_COUNT,
                forall|i: int| 0 <= i < base@.len() ==> (#[trigger] base@[i]).within_budget(),
                seeds@.len() == k,
                self.lineages() == old(self).lineages() + seeds@.map_values(
                    |s: GenomeWithId| spec_minted(s),
                ),
                forall|i: int|
                    0 <= i < k ==>
                        !spec_registered(old(self).lineages(), (#[trigger] seeds@[i]).genome_id),
                forall|i: int, j: int|
                    0 <= i < j < k ==>
                        (#[trigger] seeds@[i]).genome_id != (#[trigger] seeds@[j]).genome_id,
                spec_seed_base(old(self).lineages(), base@),
                spec_mutations_of(base@, seeds@),
                self.clients() == old(self).clients(),
                self.work_units() == old(self).work_units(),
                self.simulations() == old(self).simulations(),
            decreases base@.len() - k,
        {
            let mut genome = base[k];
            genome.mutate_from(rng, SERVER_MUTATION_RATE);
            let ghost registry = self.lineages();
            let ghost minted = seeds@;
            let id = self.register(genome, 0);
            let seed = GenomeWithId { genome_id: id, genome };
            seeds.push(seed);
            proof {
                assert forall|i: int| 0 <= i < seeds@.len() implies exists|noise: TraitNoise|
                    noise.in_span() && (#[trigger] seeds@[i]).genome == base@[i].spec_mutated(
                        noise,
                    ) by {
                    if i < k {
                        assert(seeds@[i] == minted[i]);
                    }
                }
                assert(seeds@.map_values(|s: GenomeWithId| spec_minted(s)) =~= minted.map_values(
                    |s: GenomeWithId| spec_minted(s),
                ).push(spec_minted(seed)));
                assert(self.lineages() =~= old(self).lineages() + seeds@.map_values(
                    |s: GenomeWithId| spec_minted(s),
                ));
                assert forall|i: int| 0 <= i < k implies (#[trigger] seeds@[i]).genome_id != id by {
                    let at = old(self).lineages().len() + i;
                    assert(registry[at].id == seeds@[i].genome_id);
                }
                assert(!spec_registered(old(self).lineages(), id)) by {
                    if spec_registered(old(self).lineages(), id) {
                        let at = choose|at: int|
                            0 <= at < old(self).lineages().len()
                                && (#[trigger] old(self).lineages()[at]).id
                                == id;
                        assert(registry[at].id == id);
                    }
                }
            }
            k += 1;
        }
        proof {
            use_type_invariant(&*self);
        }
        seeds
    }

    /// Seeds for a run of the old kind: the genomes of the `count` most
    /// populous living lineages, and random genomes where there are fewer.
    /// The registry is left as it is.
    pub fn get_seed_genomes(&self, count: usize) -> (seeds: Vec<Genome>)
        ensures
            seeds@.len() == count,
            exists|leading: Seq<usize>|
                {
                    &&& spec_leading(self.lineages(), count as int, leading)
                    &&& forall|k: int|
                        0 <= k < leading.len() ==>
                            #[trigger] seeds@[k] == self.lineages()[leading[k] as int].genome
                },
            forall|k: int| 0 <= k < seeds@.len() ==> (#[trigger] seeds@[k]).within_budget(),
    {
        let mut rng = thread_seeded_rng();
        proof {
            use_type_invariant(self);
        }
        let leading = self.leading(count);
        let mut seeds: Vec<Genome> = Vec::new();
        let mut k: usize = 0;
        while k < leading.len()
            invariant
                k <= leading@.len(),
                leading@.len() <= count,
                spec_registry_ok(self.lineages()),
                spec_leading(self.lineages(), count as int, leading@),
                seeds@.len() == k,
                forall|i: int| 0 <= i < k ==>
                    #[trigger] seeds@[i] == self.lineages()[leading@[i] as int].genome,
                forall|i: int| 0 <= i < k ==> (#[trigger] seeds@[i]).within_budget(),
            decreases leading@.len() - k,
        {
            seeds.push(self.at(leading[k]).genome);
            k += 1;
        }
        while seeds.len() < count
            invariant
                leading@.len() <= seeds@.len() <= count,
                forall|i: int|
                    0 <= i < leading@.len() ==>
                        #[trigger] seeds@[i] == self.lineages()[leading@[i] as int].genome,
                forall|i: int| 0 <= i < seeds@.len() ==> (#[trigger] seeds@[i]).within_budget(),
            decreases count - seeds@.len(),
        {
            seeds.push(Genome::random_from(&mut rng));
        }
        seeds
    }

    /// Takes in the results of a spatial run. The population of every
    /// lineage that a result names grows by ten for each survivor, up to
    /// the cap, or shrinks by twenty where there was none, down to zero; a
    /// result for an unknown lineage is passed over. The work unit and its
    /// steps are counted and the worker is noted.
    pub fn submit_survival_results(
        &mut self,
        client_id: u128,
        survival_results: Vec<SurvivalResult>,
        steps_completed: u32,
    )
        ensures
            spec_registry_ok(final(self).lineages()),
            final(self).lineages().len() == old(self).lineages().len(),
            forall|i: int|
                0 <= i < old(self).lineages().len() ==> #[trigger] final(self).lineages()[i] == old(
                    self,
                ).lineages()[i].spec_after_results(survival_results@),
            forall|i: int|
                0 <= i < final(self).lineages().len() ==>
                    (#[trigger] final(self).lineages()[i]).population
                    <= POPULATION_CAP,
            final(self).clients() == old(self).clients().insert(client_id),
            final(self).work_units() == (if old(self).work_units() < u64::MAX {
                (old(self).work_units() + 1) as u64
            } else {
                u64::MAX
            }),
            final(self).simulations() == (if old(self).simulations() + steps_completed > u64::MAX {
                u64::MAX
            } else {
                (old(self).simulations() + steps_completed) as u64
            }),
    {
        self.note_work(client_id, steps_completed);
        let mut j: usize = 0;
        while j < survival_results.len()
            invariant
                j <= survival_results@.len(),
                self.lineages().len() == old(self).lineages().len(),
                forall|i: int|
                    0 <= i < old(self).lineages().len() ==> #[trigger] self.lineages()[i] == old(
                        self,
                    ).lineages()[i].spec_after_results(survival_results@.take(j as int)),
                self.clients() == old(self).clients().insert(client_id),
                self.work_units() == (if old(self).work_units() < u64::MAX {
                    (old(self).work_units() + 1) as u64
                } else {
                    u64::MAX
                }),
                self.simulations() == (if old(self).simulations() + steps_completed > u64::MAX {
                    u64::MAX
                } else {
                    (old(self).simulations() + steps_completed) as u64
                }),
            decreases survival_results@.len() - j,
        {
            proof {
                assert(survival_results@.take(j
                    + 1).drop_last() =~= survival_results@.take(j as int));
            }
            self.report(survival_results[j]);
            j += 1;
        }
        proof {
            use_type_invariant(&*self);
            assert(survival_results@.take(survival_results@.len() as int) =~= survival_results@);
        }
    }

    /// Takes in one result.
    fn report(&mut self, result: SurvivalResult)
        ensures
            final(self).lineages().len() == old(self).lineages().len(),
            forall|i: int|
                0 <= i < old(self).lineages().len() ==> #[trigger] final(self).lineages()[i] == old(
                    self,
                ).lineages()[i].spec_reported(result),
            final(self).clients() == old(self).clients(),
            final(self).work_units() == old(self).work_units(),
            final(self).simulations() == old(self).simulations(),
    {
        proof {
            use_type_invariant(&*self);
        }
        match self.find(result.genome_id) {
            Some(lineage) => {
                let ghost before = self.lineages();
                let mut taken = GenePool::empty();
                core::mem::swap(self, &mut taken);
                proof {
                    use_type_invariant(&taken);
                }
                let GenePool { entries, order, active_clients, total_work_units,
                    total_simulations } =
                    taken;
                let mut entries = entries;
                let ghost old_entries = entries@;
                let updated = Lineage {
                    population: population_after(lineage.population, result.survived),
                    ..lineage
                };
                entries.insert(result.genome_id, updated);
                let ghost after = Seq::new(order@.len(), |i: int| entries@[order@[i]]);
                proof {
                    assert(after.len() == before.len());
                    assert forall|i: int| 0 <= i < before.len() implies #[trigger] after[i]
                        == before[i].spec_reported(result) by {
                        assert(before[i].id == order@[i]);
                        if order@[i] == result.genome_id {
                            assert(before[i] == old_entries[result.genome_id]);
                            let at = choose|at: int|
                                0 <= at < before.len() && #[trigger] before[at] == lineage;
                            assert(before[at].id == order@[at]);
                        }
                    }
                    assert forall|k: u128| #[trigger] entries@.contains_key(k) implies
                        spec_registered(after, k) by {
                        assert(old_entries.contains_key(k));
                        assert(spec_registered(before, k));
                        let i = choose|i: int|
                            0 <= i < before.len() && (#[trigger] before[i]).id == k;
                        assert(after[i].id == k);
                    }
                }
                *self = GenePool { entries, order, active_clients, total_work_units,
                    total_simulations };
            },
            None => {},
        }
    }

    /// Counts a work unit with its steps and notes the worker.
    fn note_work(&mut self, client_id: u128, steps: u32)
        ensures
            final(self).lineages() == old(self).lineages(),
            final(self).clients() == old(self).clients().insert(client_id),
            final(self).work_units() == (if old(self).work_units() < u64::MAX {
                (old(self).work_units() + 1) as u64
            } else {
                u64::MAX
            }),
            final(self).simulations() == (if old(self).simulations() + steps > u64::MAX {
                u64::MAX
            } else {
                (old(self).simulations() + steps) as u64
            }),
    {
        proof {
            use_type_invariant(&*self);
        }
        self.total_work_units = self.total_work_units.saturating_add(1);
        self.total_simulations = self.total_simulations.saturating_add(steps as u64);
        self.note_client(client_id);
    }

    /// Notes a worker.
    fn note_client(&mut self, client_id: u128)
        ensures
            final(self).lineages() == old(self).lineages(),
            final(self).clients() == old(self).clients().insert(client_id),
            final(self).work_units() == old(self).work_units(),
            final(self).simulations() == old(self).simulations(),
    {
        proof {
            use_type_invariant(&*self);
        }
        let mut clients: HashSet<u128> = HashSet::new();
        core::mem::swap(&mut clients, &mut self.active_clients);
        clients.insert(client_id);
        core::mem::swap(&mut clients, &mut self.active_clients);
    }

    /// Takes in a report of the old kind: the work unit and its generations
    /// are counted and the worker is noted. No population changes.
    pub fn submit_results(
        &mut self,
        client_id: u128,
        _best_genomes: Vec<GenomeWithFitness>,
        generations_completed: u32,
    )
        ensures
            spec_registry_ok(final(self).lineages()),
            final(self).lineages() == old(self).lineages(),
            final(self).clients() == old(self).clients().insert(client_id),
            final(self).work_units() == (if old(self).work_units() < u64::MAX {
                (old(self).work_units() + 1) as u64
            } else {
                u64::MAX
            }),
            final(self).simulations()
                == (if old(self).simulations() + generations_completed > u64::MAX {
                u64::MAX
            } else {
                (old(self).simulations() + generations_completed) as u64
            }),
    {
        self.note_work(client_id, generations_completed);
        proof {
            use_type_invariant(&*self);
        }
    }

    /// The state of the evolution: the totals, the size of the registry,
    /// and the genomes of the ten most populous lineages with their
    /// fitness scores. The uptime is what the caller says it is.
    pub fn get_stats(&self, uptime_seconds: u64) -> (stats: GlobalStats)
        ensures
            stats.active_clients == self.clients().len(),
            stats.total_work_units == self.work_units(),
            stats.total_generations == self.simulations(),
            stats.gene_pool_size == self.lineages().len(),
            stats.uptime_seconds == uptime_seconds,
            stats.best_genomes@.len() == (if self.lineages().len() < LISTED_LINEAGES {
                self.lineages().len()
            } else {
                LISTED_LINEAGES as nat
            }),
            exists|top: Seq<usize>|
                {
                    &&& is_top(spec_populations(self.lineages()), LISTED_LINEAGES as int, top)
                    &&& stats.best_genomes@.len() == top.len()
                    &&& forall|k: int|
                        0 <= k < top.len() ==>
                            #[trigger] stats.best_genomes@[k] == (GenomeWithFitness {
                            genome: self.lineages()[top[k] as int].genome,
                            fitness: self.lineages()[top[k] as int].genome.spec_fitness_score() as
                                i64,
                        })
                },
    {
        proof {
            use_type_invariant(self);
        }
        let keys = self.populations();
        let top = top_positions(&keys, LISTED_LINEAGES);
        let mut best_genomes: Vec<GenomeWithFitness> = Vec::new();
        let mut k: usize = 0;
        while k < top.len()
            invariant
                k <= top@.len(),
                spec_registry_ok(self.lineages()),
                keys@ == spec_populations(self.lineages()),
                is_top(keys@, LISTED_LINEAGES as int, top@),
                best_genomes@.len() == k,
                forall|i: int|
                    0 <= i < k ==> #[trigger] best_genomes@[i] == (GenomeWithFitness {
                        genome: self.lineages()[top@[i] as int].genome,
                        fitness: self.lineages()[top@[i] as int].genome.spec_fitness_score() as i64,
                    }),
            decreases top@.len() - k,
        {
            let genome = self.at(top[k]).genome;
            best_genomes.push(GenomeWithFitness { genome, fitness: genome.fitness_score() });
            k += 1;
        }
        GlobalStats {
            active_clients: self.active_clients.len(),
            total_work_units: self.total_work_units,
            total_generations: self.total_simulations,
            best_genomes,
            gene_pool_size: self.order.len(),
            uptime_seconds,
        }
    }

    /// Notes that a worker has been in touch.
    pub fn register_client(&mut self, client_id: u128)
        ensures
            final(self).lineages() == old(self).lineages(),
            final(self).clients() == old(self).clients().insert(client_id),
            final(self).work_units() == old(self).work_units(),
            final(self).simulations() == old(self).simulations(),
    {
        self.note_client(client_id);
    }
}

} // verus!
