//! An open-ended evolution platform: a gene pool that hands out seed genomes
//! and a grid world in which their lineages compete for food.
//!
//! Real quantities are fixed-point numbers (see `fixed`), identifiers are
//! 128-bit numbers, and every random draw is made in `chance`. A contract
//! of a function that draws says what holds of every outcome; beside it
//! stands a function that takes the draw as an argument and says exactly
//! what becomes of it.

use crate::chance::{random_id, thread_seeded_rng};
use crate::genes::Genome;
use crate::island::{spec_finished, spec_simulated, spec_started, Island, IslandConfig};
use crate::lineage::{spec_reports, spec_sown, SurvivalStats};
use crate::phases::{spec_bound, spec_population_cap};
use crate::protocol::{spec_fittest_first, GenomeWithFitness, SimulationStats};
use crate::ranking::{is_top, ranks_before, top_positions};
use vstd::prelude::*;

pub mod chance;
pub mod creature;
pub mod fixed;
pub mod gene_pool;
pub mod genes;
pub mod harvest;
pub mod island;
pub mod lineage;
pub mod phases;
pub mod protocol;
pub mod ranking;
pub mod server;
pub mod worker;
pub mod world;

verus! {

/// Version of the request/response contract; a worker must match it exactly.
pub const PROTOCOL_VERSION: u32 = 2;

/// How many genomes a run of the old kind reports at most.
pub const REPORTED_GENOMES: usize = 10;

/// How many ticks lie between two fitness samples of a run of the old kind.
pub const SAMPLE_INTERVAL: u32 = 10;

/// The set-up of a run of the old kind: a world of 80 by 80 tiles run for
/// 200 ticks, with plants on 10% and food on 5% of the tiles, and breeding
/// from an energy of 100.
pub fn plain_run_config(mutation_rate: i64) -> (config: IslandConfig)
    ensures
        config == (IslandConfig {
            world_width: 80,
            world_height: 80,
            max_steps: 200,
            mutation_rate,
            plant_density: 100_000,
            food_density: 50_000,
            reproduction_threshold: 100_000_000,
        }),
{
    IslandConfig {
        world_width: 80,
        world_height: 80,
        max_steps: 200,
        mutation_rate,
        plant_density: 100_000,
        food_density: 50_000,
        reproduction_threshold: 100_000_000,
    }
}

/// Runs a spatial simulation from the given seeds and reports what became
/// of every seeded lineage: one entry for each lineage, whether or not any
/// of its creatures survived.
pub fn run_spatial_simulation(
    seed_genomes: Vec<(u128, Genome)>,
    config: IslandConfig,
) -> (results: Vec<SurvivalStats>)
    requires
        config.world_width > 0,
        config.world_height > 0,
        forall|i: int| 0 <= i < seed_genomes@.len() ==>
            (#[trigger] seed_genomes@[i]).1.in_unit_range(),
    ensures
        spec_simulated(config, seed_genomes@, results@),
        forall|i: int|
            0 <= i < seed_genomes@.len() ==>
                spec_reports(results@, (#[trigger] seed_genomes@[i]).0),
        forall|k: int|
            0 <= k < results@.len() ==> (#[trigger] results@[k]).total_spawned >= 1 && spec_sown(
                seed_genomes@,
                results@[k].genome_id,
            ),
        forall|j: int, k: int|
            0 <= j < k < results@.len() ==> (#[trigger] results@[j]).genome_id != (
            #[trigger] results@[k]).genome_id,
{
    let mut island = Island::new(config, seed_genomes);
    let ghost seeded = island.records();
    let ghost start = island;
    let results = island.run_simulation();
    proof {
        assert(spec_started(config, seed_genomes@, &start));
        assert(spec_finished(&start, &island, results@));
        let records = island.records();
        assert forall|i: int| 0 <= i < seed_genomes@.len() implies spec_reports(
            results@,
            (#[trigger] seed_genomes@[i]).0,
        ) by {
            let id = seed_genomes@[i].0;
            let k = choose|k: int| 0 <= k < seeded.len() && (#[trigger] seeded[k]).genome_id == id;
            assert(records[k].genome_id == id);
            assert(results@[k] == island.spec_survival(records[k]));
        }
        assert forall|k: int| 0 <= k < results@.len() implies (#[trigger] results@[k]).total_spawned
            >= 1 && spec_sown(seed_genomes@, results@[k].genome_id) by {
            assert(results@[k] == island.spec_survival(records[k]));
            assert(records[k].genome_id == seeded[k].genome_id);
        }
        assert forall|j: int, k: int| 0 <= j < k < results@.len() implies (
        #[trigger] results@[j]).genome_id != (#[trigger] results@[k]).genome_id by {
            assert(results@[j] == island.spec_survival(records[j]));
            assert(results@[k] == island.spec_survival(records[k]));
        }
    }
    results
}

/// The fitness scores of the genomes, in their order.
pub open spec fn spec_genome_keys(genomes: Seq<Genome>) -> Seq<u64> {
    Seq::new(genomes.len(), |i: int| genomes[i].spec_fitness_score() as u64)
}

/// The genomes of `seed_genomes` with their fitness scores, the ten fittest
/// of them, fittest first; of two genomes of the same fitness the earlier
/// one comes first.
pub fn fittest_seeds(seed_genomes: &Vec<Genome>) -> (best: Vec<GenomeWithFitness>)
    requires
        forall|i: int| 0 <= i < seed_genomes@.len() ==>
            (#[trigger] seed_genomes@[i]).in_unit_range(),
    ensures
        exists|top: Seq<usize>|
            {
                &&& is_top(spec_genome_keys(seed_genomes@), REPORTED_GENOMES as int, top)
                &&& best@.len() == top.len()
                &&& forall|k: int|
                    0 <= k < top.len() ==> #[trigger] best@[k] == (GenomeWithFitness {
                        genome: seed_genomes@[top[k] as int],
                        fitness: seed_genomes@[top[k] as int].spec_fitness_score() as i64,
                    })
            },
        best@.len() == (if seed_genomes@.len() < REPORTED_GENOMES {
            seed_genomes@.len()
        } else {
            REPORTED_GENOMES as nat
        }),
        forall|k: int|
            0 <= k < best@.len() ==>
                (#[trigger] best@[k]).genome.in_unit_range() && best@[k].fitness
                == best@[k].genome.spec_fitness_score(),
        spec_fittest_first(best@),
{
    let mut keys: Vec<u64> = Vec::new();
    let mut i: usize = 0;
    while i < seed_genomes.len()
        invariant
            i <= seed_genomes@.len(),
            keys@.len() == i,
            forall|j: int| 0 <= j < seed_genomes@.len() ==>
                (#[trigger] seed_genomes@[j]).in_unit_range(),
            forall|j: int|
                0 <= j < i ==> #[trigger] keys@[j] == seed_genomes@[j].spec_fitness_score() as u64,
            forall|j: int|
                0 <= j < i ==>
                    (#[trigger] keys@[j]) as int == seed_genomes@[j].spec_fitness_score(),
        decreases seed_genomes@.len() - i,
    {
        keys.push(seed_genomes[i].fitness_score() as u64);
        i += 1;
    }
    assert(keys@ =~= spec_genome_keys(seed_genomes@));
    let top = top_positions(&keys, REPORTED_GENOMES);
    let mut best: Vec<GenomeWithFitness> = Vec::new();
    let mut k: usize = 0;
    while k < top.len()
        invariant
            k <= top@.len(),
            keys@ == spec_genome_keys(seed_genomes@),
            is_top(keys@, REPORTED_GENOMES as int, top@),
            forall|j: int| 0 <= j < seed_genomes@.len() ==>
                (#[trigger] seed_genomes@[j]).in_unit_range(),
            forall|j: int|
                0 <= j < keys@.len() ==>
                    (#[trigger] keys@[j]) as int == seed_genomes@[j].spec_fitness_score(),
            best@.len() == k,
            forall|j: int|
                0 <= j < k ==> #[trigger] best@[j] == (GenomeWithFitness {
                    genome: seed_genomes@[top@[j] as int],
                    fitness: seed_genomes@[top@[j] as int].spec_fitness_score() as i64,
                }),
            forall|j: int|
                0 <= j < k ==> (#[trigger] best@[j]).genome.in_unit_range() && best@[j].fitness
                    == best@[j].genome.spec_fitness_score(),
            forall|j: int| 0 <= j < k ==> (#[trigger] best@[j]).fitness == keys@[top@[j] as int],
        decreases top@.len() - k,
    {
        let genome = seed_genomes[top[k]];
        best.push(GenomeWithFitness { genome, fitness: genome.fitness_score() });
        k += 1;
    }
    proof {
        assert forall|i: int, j: int| 0 <= i < j < best@.len() implies (
        #[trigger] best@[i]).fitness >= (#[trigger] best@[j]).fitness by {
            assert(ranks_before(keys@, top@[i] as int, top@[j] as int));
        }
    }
    best
}

/// Runs a simulation of the old kind: a spatial run of `plain_run_config`
/// from the given seeds, each under a random lineage, for its full 200
/// ticks. It reports the genomes of the ten fittest creatures alive at the
/// end, or, where none is left, those of the last fitness sample that had
/// any, or else the fittest seeds. The mean fitness is sampled every ten
/// ticks; the figures hold the mean and the largest of the samples. The
/// second and third argument are not used.
pub fn run_simulation(
    seed_genomes: Vec<Genome>,
    _generations: u32,
    _population_size: usize,
    mutation_rate: i64,
) -> (outcome: (Vec<GenomeWithFitness>, SimulationStats))
    requires
        forall|i: int| 0 <= i < seed_genomes@.len() ==>
            (#[trigger] seed_genomes@[i]).in_unit_range(),
    ensures
        outcome.0@.len() <= REPORTED_GENOMES,
        seed_genomes@.len() > 0 ==> outcome.0@.len() > 0,
        forall|k: int|
            0 <= k < outcome.0@.len() ==> (#[trigger] outcome.0@[k]).genome.in_unit_range()
                && outcome.0@[k].fitness == outcome.0@[k].genome.spec_fitness_score(),
        spec_fittest_first(outcome.0@),
        0 <= outcome.1.avg_fitness <= outcome.1.best_fitness <= 2_642_245,
        outcome.1.final_population <= spec_bound(
            seed_genomes@.len() as int,
            spec_population_cap(80, 80),
        ),
        outcome.1.total_creatures == (if seed_genomes@.len() + outcome.1.final_population
            > usize::MAX {
            usize::MAX
        } else {
            (seed_genomes@.len() + outcome.1.final_population) as usize
        }),
{
    let seed_fallback = fittest_seeds(&seed_genomes);
    let mut seeds: Vec<(u128, Genome)> = Vec::new();
    let mut i: usize = 0;
    while i < seed_genomes.len()
        invariant
            i <= seed_genomes@.len(),
            seeds@.len() == i,
            forall|j: int| 0 <= j < seed_genomes@.len() ==>
                (#[trigger] seed_genomes@[j]).in_unit_range(),
            forall|j: int| 0 <= j < i ==> (#[trigger] seeds@[j]).1.in_unit_range(),
        decreases seed_genomes@.len() - i,
    {
        seeds.push((random_id(), seed_genomes[i]));
        i += 1;
    }
    let config = plain_run_config(mutation_rate);
    let mut island = Island::new(config, seeds);
    let mut rng = thread_seeded_rng();
    let initial_count: usize = island.creatures.len();
    let ghost limit = spec_bound(initial_count as int, spec_population_cap(80, 80));
    let mut total_fitness: u128 = 0;
    let mut fitness_samples: u64 = 0;
    let mut best_fitness: i64 = 0;
    let mut last_nonempty_best: Vec<GenomeWithFitness> = Vec::new();
    while island.step < island.config.max_steps
        invariant
            island.wf(),
            island.config == config,
            config.max_steps == 200,
            config.world_width == 80 && config.world_height == 80,
            island.step <= 200,
            fitness_samples <= island.step,
            0 <= best_fitness <= 2_642_245,
            total_fitness <= fitness_samples * best_fitness,
            limit == spec_bound(initial_count as int, spec_population_cap(80, 80)),
            island.creatures@.len() <= limit,
            last_nonempty_best@.len() <= REPORTED_GENOMES,
            spec_fittest_first(last_nonempty_best@),
            forall|k: int|
                0 <= k < last_nonempty_best@.len() ==> (
                #[trigger] last_nonempty_best@[k]).genome.in_unit_range()
                    && last_nonempty_best@[k].fitness
                    == last_nonempty_best@[k].genome.spec_fitness_score(),
        decreases island.config.max_steps - island.step,
    {
        island.tick(&mut rng);
        if island.step % SAMPLE_INTERVAL == 0 {
            let mean = island.average_fitness();
            let ghost earlier_best = best_fitness;
            if mean > best_fitness {
                best_fitness = mean;
            }
            assert(total_fitness + mean
                <= (fitness_samples + 1) * best_fitness) by (nonlinear_arith)
                requires
                    total_fitness <= fitness_samples * earlier_best,
                    0 <= earlier_best <= best_fitness,
                    0 <= mean <= best_fitness,
                    0 <= fitness_samples,
            ;
            assert((fitness_samples + 1) * best_fitness <= 201 * 2_642_245) by (nonlinear_arith)
                requires
                    0 <= fitness_samples <= 200,
                    0 <= best_fitness <= 2_642_245,
            ;
            total_fitness = total_fitness + mean as u128;
            fitness_samples = fitness_samples + 1;
            let current_best = island.get_best_genomes(REPORTED_GENOMES);
            if current_best.len() > 0 {
                last_nonempty_best = current_best;
            }
        }
    }
    let avg_fitness: i64 = if fitness_samples > 0 {
        assert(total_fitness / (fitness_samples as u128) <= best_fitness) by (nonlinear_arith)
            requires
                total_fitness <= fitness_samples * best_fitness,
                fitness_samples > 0,
                best_fitness >= 0,
        ;
        (total_fitness / fitness_samples as u128) as i64
    } else {
        0
    };
    let mut best_genomes = island.get_best_genomes(REPORTED_GENOMES);
    if best_genomes.len() == 0 {
        if last_nonempty_best.len() > 0 {
            best_genomes = last_nonempty_best;
        } else if seed_fallback.len() > 0 {
            best_genomes = seed_fallback;
        }
    }
    let final_population: usize = island.creatures.len();
    let stats = SimulationStats::new(
        avg_fitness,
        best_fitness,
        final_population,
        initial_count.saturating_add(final_population),
    );
    (best_genomes, stats)
}

} // verus!
