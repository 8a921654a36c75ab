//! What a worker does with a unit of work.

use crate::genes::Genome;
use crate::island::{spec_simulated, IslandConfig};
use crate::lineage::{spec_reports, spec_sown, SurvivalStats};
use crate::protocol::{
    spec_fittest_first, GenomeWithId, ServerError, SurvivalResult, WorkAssignment, WorkResult,
};
use crate::{run_simulation, run_spatial_simulation, REPORTED_GENOMES};
use vstd::prelude::*;

verus! {

/// The share of tiles that a worker places plants on: 5%.
pub const WORKER_PLANT_DENSITY: i64 = 50_000;

/// The share of tiles that a worker drops food on: 2%.
pub const WORKER_FOOD_DENSITY: i64 = 20_000;

/// The energy from which a worker pairs creatures for breeding: 100.
pub const WORKER_REPRODUCTION_THRESHOLD: i64 = 100_000_000;

/// Why a unit of work cannot be done.
#[derive(Debug, Clone, Copy, PartialEq, Eq, Structural)]
pub enum WorkError {
    /// The assignment asks for a grid without tiles.
    EmptyGrid,
    /// A seed has a trait below zero or above one.
    TraitOutOfRange,
}

/// The seconds a worker waits after a request for work has failed.
pub const REQUEST_BACKOFF_SECONDS: u64 = 10;

/// The seconds a worker waits after a report could not be delivered.
pub const SUBMIT_BACKOFF_SECONDS: u64 = 5;

/// What can go wrong in one round of a worker.
#[derive(Debug, Clone, Copy, PartialEq, Eq, Structural)]
pub enum Setback {
    /// The coordinator speaks another protocol version.
    VersionMismatch,
    /// The request for work failed otherwise.
    RequestFailed,
    /// The assignment could not be run.
    WorkRefused,
    /// The report could not be delivered.
    SubmitFailed,
}

/// What a worker does after a setback.
#[derive(Debug, Clone, Copy, PartialEq, Eq, Structural)]
pub enum Recovery {
    /// Give up for good.
    Stop,
    /// Start the next round after so many seconds.
    RetryAfter(u64),
    /// Start the next round at once.
    Proceed,
}

/// The setback that an answer of the coordinator amounts to. Only a
/// mismatch of versions is told apart from the rest.
pub fn setback_of(error: &ServerError) -> (setback: Setback)
    ensures
        setback == (if error is VersionMismatch {
            Setback::VersionMismatch
        } else {
            Setback::RequestFailed
        }),
{
    match error {
        ServerError::VersionMismatch { .. } => Setback::VersionMismatch,
        _ => Setback::RequestFailed,
    }
}

/// What a worker does after a setback: a mismatch of versions ends it, a
/// failed request or a report that was not delivered is followed by a
/// pause, and an assignment that could not be run is passed over. A report
/// that is lost is not sent again.
pub fn recover(setback: Setback) -> (recovery: Recovery)
    ensures
        recovery == (match setback {
            Setback::VersionMismatch => Recovery::Stop,
            Setback::RequestFailed => Recovery::RetryAfter(REQUEST_BACKOFF_SECONDS),
            Setback::WorkRefused => Recovery::Proceed,
            Setback::SubmitFailed => Recovery::RetryAfter(SUBMIT_BACKOFF_SECONDS),
        }),
{
    match setback {
        Setback::VersionMismatch => Recovery::Stop,
        Setback::RequestFailed => Recovery::RetryAfter(REQUEST_BACKOFF_SECONDS),
        Setback::WorkRefused => Recovery::Proceed,
        Setback::SubmitFailed => Recovery::RetryAfter(SUBMIT_BACKOFF_SECONDS),
    }
}

/// Every seed has its traits between zero and one.
pub open spec fn spec_sound_seeds(seeds: Seq<GenomeWithId>) -> bool {
    forall|i: int| 0 <= i < seeds.len() ==> (#[trigger] seeds[i]).genome.in_unit_range()
}

/// Every genome has its traits between zero and one.
pub open spec fn spec_sound_genomes(genomes: Seq<Genome>) -> bool {
    forall|i: int| 0 <= i < genomes.len() ==> (#[trigger] genomes[i]).in_unit_range()
}

/// What stands in the way of an assignment, if anything. A spatial
/// assignment needs a grid with tiles and sound seeds, one of the old kind
/// sound seeds.
pub open spec fn spec_obstacle(assignment: &WorkAssignment) -> Option<WorkError> {
    if assignment.spec_is_spatial() {
        if assignment.grid_width == 0 || assignment.grid_height == 0 {
            Some(WorkError::EmptyGrid)
        } else if !spec_sound_seeds(assignment.seed_genomes_v2@) {
            Some(WorkError::TraitOutOfRange)
        } else {
            None
        }
    } else if !spec_sound_genomes(assignment.seed_genomes@) {
        Some(WorkError::TraitOutOfRange)
    } else {
        None
    }
}

/// The set-up of the spatial run that an assignment asks for.
pub open spec fn spec_worker_config(assignment: &WorkAssignment) -> IslandConfig {
    IslandConfig {
        world_width: assignment.grid_width,
        world_height: assignment.grid_height,
        max_steps: assignment.max_steps,
        mutation_rate: assignment.mutation_rate,
        plant_density: WORKER_PLANT_DENSITY,
        food_density: WORKER_FOOD_DENSITY,
        reproduction_threshold: WORKER_REPRODUCTION_THRESHOLD,
    }
}

/// The seeds of an assignment, each as a lineage and a genome.
pub open spec fn spec_seed_pairs(seeds: Seq<GenomeWithId>) -> Seq<(u128, Genome)> {
    Seq::new(seeds.len(), |i: int| (seeds[i].genome_id, seeds[i].genome))
}

/// What a worker reports for a lineage: the outcome of the run, with no
/// lifespan.
pub open spec fn spec_reported(stats: SurvivalStats) -> SurvivalResult {
    SurvivalResult {
        genome_id: stats.genome_id,
        survived: stats.survived,
        total_spawned: stats.total_spawned,
        avg_lifespan: 0,
        total_food_eaten: stats.total_food_eaten,
    }
}

/// Whether the results hold an entry for lineage `id`.
pub open spec fn spec_answers(results: Seq<SurvivalResult>, id: u128) -> bool {
    exists|k: int| 0 <= k < results.len() && (#[trigger] results[k]).genome_id == id
}

/// Whether a seed of the assignment is of lineage `id`.
pub open spec fn spec_assigned(seeds: Seq<GenomeWithId>, id: u128) -> bool {
    exists|i: int| 0 <= i < seeds.len() && (#[trigger] seeds[i]).genome_id == id
}

/// Whether every seed has its traits between zero and one.
fn sound_seeds(seeds: &Vec<GenomeWithId>) -> (sound: bool)
    ensures
        sound == spec_sound_seeds(seeds@),
{
    let mut i: usize = 0;
    while i < seeds.len()
        invariant
            i <= seeds@.len(),
            forall|j: int| 0 <= j < i ==> (#[trigger] seeds@[j]).genome.in_unit_range(),
        decreases seeds@.len() - i,
    {
        if !seeds[i].genome.is_in_unit_range() {
            return false;
        }
        i += 1;
    }
    true
}

/// Whether every genome has its traits between zero and one.
fn sound_genomes(genomes: &Vec<Genome>) -> (sound: bool)
    ensures
        sound == spec_sound_genomes(genomes@),
{
    let mut i: usize = 0;
    while i < genomes.len()
        invariant
            i <= genomes@.len(),
            forall|j: int| 0 <= j < i ==> (#[trigger] genomes@[j]).in_unit_range(),
        decreases genomes@.len() - i,
    {
        if !genomes[i].is_in_unit_range() {
            return false;
        }
        i += 1;
    }
    true
}

/// What a worker reports for each lineage of a run.
pub fn report_survival(stats: &Vec<SurvivalStats>) -> (results: Vec<SurvivalResult>)
    ensures
        results@.len() == stats@.len(),
        forall|k: int| 0 <= k < stats@.len() ==> #[trigger] results@[k] == spec_reported(stats@[k]),
{
    let mut results: Vec<SurvivalResult> = Vec::new();
    let mut k: usize = 0;
    while k < stats.len()
        invariant
            k <= stats@.len(),
            results@.len() == k,
            forall|j: int| 0 <= j < k ==> #[trigger] results@[j] == spec_reported(stats@[j]),
        decreases stats@.len() - k,
    {
        let entry = stats[k];
        results.push(
            SurvivalResult {
                genome_id: entry.genome_id,
                survived: entry.survived,
                total_spawned: entry.total_spawned,
                avg_lifespan: 0,
                total_food_eaten: entry.total_food_eaten,
            },
        );
        k += 1;
    }
    results
}

/// Does a unit of work for the worker `client_id`. An assignment with
/// seeds that carry lineages and with a positive number of steps is run as
/// a spatial simulation, and the report holds what became of every seeded
/// lineage; any other assignment is run as a simulation of the old kind,
/// and the report holds its best genomes and its figures. An assignment
/// that cannot be run is refused, as `spec_obstacle` says.
pub fn process_work(client_id: u128, assignment: WorkAssignment) -> (outcome: Result<
    WorkResult,
    WorkError,
>)
    ensures
        match outcome {
            Ok(report) => {
                &&& spec_obstacle(&assignment).is_none()
                &&& report.work_id == assignment.work_id
                &&& report.client_id == client_id
                &&& assignment.spec_is_spatial() ==> {
                    &&& report.steps_completed == assignment.max_steps
                    &&& report.best_genomes@.len() == 0
                    &&& report.generations_completed == 0
                    &&& report.stats.is_none()
                    &&& report.survival_results@.len() > 0
                    &&& exists|stats: Seq<SurvivalStats>|
                        {
                            &&& #[trigger] spec_simulated(
                                spec_worker_config(&assignment),
                                spec_seed_pairs(assignment.seed_genomes_v2@),
                                stats,
                            )
                            &&& report.survival_results@.len() == stats.len()
                            &&& forall|k: int|
                                0 <= k < stats.len() ==> #[trigger] report.survival_results@[k]
                                    == spec_reported(stats[k])
                        }
                    &&& forall|i: int|
                        0 <= i < assignment.seed_genomes_v2@.len() ==> spec_answers(
                            report.survival_results@,
                            (#[trigger] assignment.seed_genomes_v2@[i]).genome_id,
                        )
                    &&& forall|k: int|
                        0 <= k < report.survival_results@.len() ==> {
                            &&& (#[trigger] report.survival_results@[k]).total_spawned >= 1
                            &&& report.survival_results@[k].avg_lifespan == 0
                            &&& spec_assigned(
                                assignment.seed_genomes_v2@,
                                report.survival_results@[k].genome_id,
                            )
                        }
                    &&& forall|j: int, k: int|
                        0 <= j < k < report.survival_results@.len() ==> (
                        #[trigger] report.survival_results@[j]).genome_id != (
                        #[trigger] report.survival_results@[k]).genome_id
                }
                &&& !assignment.spec_is_spatial() ==> {
                    &&& report.survival_results@.len() == 0
                    &&& report.steps_completed == 0
                    &&& report.generations_completed == assignment.generations
                    &&& report.stats.is_some()
                    &&& report.best_genomes@.len() <= REPORTED_GENOMES
                    &&& assignment.seed_genomes@.len() > 0 ==> report.best_genomes@.len() > 0
                    &&& spec_fittest_first(report.best_genomes@)
                    &&& forall|k: int|
                        0 <= k < report.best_genomes@.len() ==> (
                        #[trigger] report.best_genomes@[k]).fitness
                            == report.best_genomes@[k].genome.spec_fitness_score()
                }
            },
            Err(error) => spec_obstacle(&assignment) == Some(error),
        },
{
    if assignment.seed_genomes_v2.len() > 0 && assignment.max_steps > 0 {
        if assignment.grid_width == 0 || assignment.grid_height == 0 {
            return Err(WorkError::EmptyGrid);
        }
        if !sound_seeds(&assignment.seed_genomes_v2) {
            return Err(WorkError::TraitOutOfRange);
        }
        let config = IslandConfig {
            world_width: assignment.grid_width,
            world_height: assignment.grid_height,
            max_steps: assignment.max_steps,
            mutation_rate: assignment.mutation_rate,
            plant_density: WORKER_PLANT_DENSITY,
            food_density: WORKER_FOOD_DENSITY,
            reproduction_threshold: WORKER_REPRODUCTION_THRESHOLD,
        };
        let mut seeds: Vec<(u128, Genome)> = Vec::new();
        let mut i: usize = 0;
        while i < assignment.seed_genomes_v2.len()
            invariant
                i <= assignment.seed_genomes_v2@.len(),
                spec_sound_seeds(assignment.seed_genomes_v2@),
                seeds@.len() == i,
                forall|j: int|
                    0 <= j < i ==> #[trigger] seeds@[j] == (
                        assignment.seed_genomes_v2@[j].genome_id,
                        assignment.seed_genomes_v2@[j].genome,
                    ),
            decreases assignment.seed_genomes_v2@.len() - i,
        {
            let seed = assignment.seed_genomes_v2[i];
            seeds.push((seed.genome_id, seed.genome));
            i += 1;
        }
        let ghost sown = seeds@;
        let survival_stats = run_spatial_simulation(seeds, config);
        let survival_results = report_survival(&survival_stats);
        proof {
            assert(sown =~= spec_seed_pairs(assignment.seed_genomes_v2@));
            assert(config == spec_worker_config(&assignment));
            assert(spec_simulated(
                spec_worker_config(&assignment),
                spec_seed_pairs(assignment.seed_genomes_v2@),
                survival_stats@,
            ));
            assert forall|i: int| 0 <= i < assignment.seed_genomes_v2@.len() implies spec_answers(
                survival_results@,
                (#[trigger] assignment.seed_genomes_v2@[i]).genome_id,
            ) by {
                assert(sown[i].0 == assignment.seed_genomes_v2@[i].genome_id);
                assert(spec_reports(survival_stats@, sown[i].0));
                let k = choose|k: int|
                    0 <= k < survival_stats@.len() && (#[trigger] survival_stats@[k]).genome_id
                        == sown[i].0;
                assert(survival_results@[k] == spec_reported(survival_stats@[k]));
            }
            assert forall|k: int| 0 <= k < survival_results@.len() implies (
            #[trigger] survival_results@[k]).total_spawned >= 1 && survival_results@[k].avg_lifespan
                == 0 && spec_assigned(
                assignment.seed_genomes_v2@,
                survival_results@[k].genome_id,
            ) by {
                assert(survival_results@[k] == spec_reported(survival_stats@[k]));
                assert(spec_sown(sown, survival_stats@[k].genome_id));
                let i = choose|i: int|
                    0 <= i < sown.len() && (#[trigger] sown[i]).0 == survival_stats@[k].genome_id;
                assert(assignment.seed_genomes_v2@[i].genome_id == survival_results@[k].genome_id);
            }
            assert forall|j: int, k: int| 0 <= j < k < survival_results@.len() implies (
            #[trigger] survival_results@[j]).genome_id != (
            #[trigger] survival_results@[k]).genome_id by {
                assert(survival_results@[j] == spec_reported(survival_stats@[j]));
                assert(survival_results@[k] == spec_reported(survival_stats@[k]));
            }
            assert(spec_answers(survival_results@, assignment.seed_genomes_v2@[0].genome_id));
        }
        Ok(
            WorkResult {
                work_id: assignment.work_id,
                client_id,
                survival_results,
                steps_completed: assignment.max_steps,
                best_genomes: Vec::new(),
                generations_completed: 0,
                stats: None,
            },
        )
    } else {
        if !sound_genomes(&assignment.seed_genomes) {
            return Err(WorkError::TraitOutOfRange);
        }
        let work_id = assignment.work_id;
        let generations = assignment.generations;
        let (best_genomes, stats) = run_simulation(
            assignment.seed_genomes,
            assignment.generations,
            assignment.population_size,
            assignment.mutation_rate,
        );
        Ok(
            WorkResult {
                work_id,
                client_id,
                survival_results: Vec::new(),
                steps_completed: 0,
                best_genomes,
                generations_completed: generations,
                stats: Some(stats),
            },
        )
    }
}

} // verus!
