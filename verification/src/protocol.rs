//! What workers and the coordinator say to each other. Identifiers are
//! 128-bit numbers and real quantities are fixed-point.

use crate::chance::random_id;
use crate::genes::Genome;
use vstd::prelude::*;

verus! {

/// The version string a worker of this crate reports.
pub const CLIENT_VERSION: &'static str = "0.1.0";

/// A worker asks for work.
#[derive(Debug, Clone)]
pub struct WorkRequest {
    /// The worker, by an identifier that it keeps.
    pub client_id: u128,
    /// The protocol version the worker speaks.
    pub protocol_version: u32,
    pub client_version: String,
}

/// A genome with the lineage it is registered under.
#[derive(Debug, Clone, Copy, PartialEq, Eq, Structural)]
pub struct GenomeWithId {
    pub genome_id: u128,
    pub genome: Genome,
}

/// The coordinator hands out a unit of work.
#[derive(Debug, Clone)]
pub struct WorkAssignment {
    pub work_id: u128,
    /// The seeds of a spatial run, each with its lineage.
    pub seed_genomes_v2: Vec<GenomeWithId>,
    pub grid_width: usize,
    pub grid_height: usize,
    pub max_steps: u32,
    /// The mutation rate the worker applies.
    pub mutation_rate: i64,
    /// The seeds of a run of the old kind; empty in a spatial assignment.
    pub seed_genomes: Vec<Genome>,
    /// Zero in a spatial assignment.
    pub generations: u32,
    /// Zero in a spatial assignment.
    pub population_size: usize,
}

/// What became of one lineage in a run, as a worker reports it.
#[derive(Debug, Clone, Copy, PartialEq, Eq, Structural)]
pub struct SurvivalResult {
    pub genome_id: u128,
    pub survived: u32,
    pub total_spawned: u32,
    /// Carried for compatibility; a worker of this crate reports zero.
    pub avg_lifespan: i64,
    pub total_food_eaten: u32,
}

/// A genome with its fitness score.
#[derive(Debug, Clone, Copy, PartialEq, Eq, Structural)]
pub struct GenomeWithFitness {
    pub genome: Genome,
    pub fitness: i64,
}

/// Figures of a run of the old kind.
#[derive(Debug, Clone, Copy, PartialEq, Eq, Structural)]
pub struct SimulationStats {
    /// The mean of the fitness samples taken during the run.
    pub avg_fitness: i64,
    /// The largest of the fitness samples.
    pub best_fitness: i64,
    /// The creatures alive at the end.
    pub final_population: usize,
    /// The creatures that lived during the run.
    pub total_creatures: usize,
}

/// A worker reports on a unit of work.
#[derive(Debug, Clone)]
pub struct WorkResult {
    pub work_id: u128,
    pub client_id: u128,
    /// The outcome of a spatial run; empty in a report of the old kind.
    pub survival_results: Vec<SurvivalResult>,
    pub steps_completed: u32,
    pub best_genomes: Vec<GenomeWithFitness>,
    pub generations_completed: u32,
    pub stats: Option<SimulationStats>,
}

/// What the coordinator answers where it cannot serve a request.
#[derive(Debug, Clone)]
pub enum ServerError {
    /// The worker speaks another protocol version than the coordinator.
    VersionMismatch { server_version: u32, client_version: u32 },
    /// The coordinator is overloaded; the worker may try again later.
    ServerOverloaded,
    /// The request was malformed.
    InvalidRequest(String),
    /// The coordinator failed.
    InternalError(String),
}

/// The state of the evolution as a whole.
#[derive(Debug, Clone)]
pub struct GlobalStats {
    /// The workers that have been in touch.
    pub active_clients: usize,
    pub total_work_units: u64,
    /// The simulation steps of all work units together.
    pub total_generations: u64,
    /// The genomes of the most populous lineages, most populous first.
    pub best_genomes: Vec<GenomeWithFitness>,
    /// The number of registered lineages.
    pub gene_pool_size: usize,
    pub uptime_seconds: u64,
}

/// The list is in the order of fitness, the fittest first.
pub open spec fn spec_fittest_first(list: Seq<GenomeWithFitness>) -> bool {
    forall|j: int, k: int|
        0 <= j < k < list.len() ==> (#[trigger] list[j]).fitness >= (#[trigger] list[k]).fitness
}

impl WorkRequest {
    /// A request of the worker `client_id`, which reports `CLIENT_VERSION`.
    pub fn new(client_id: u128, protocol_version: u32) -> (request: WorkRequest)
        ensures
            request.client_id == client_id,
            request.protocol_version == protocol_version,
            request.client_version@ == CLIENT_VERSION@,
    {
        WorkRequest { client_id, protocol_version, client_version: CLIENT_VERSION.to_owned() }
    }
}

impl WorkAssignment {
    /// Whether the assignment asks for a spatial run: it has seeds with
    /// lineages and a positive number of steps.
    pub open spec fn spec_is_spatial(&self) -> bool {
        self.seed_genomes_v2@.len() > 0 && self.max_steps > 0
    }

    /// An assignment for a spatial run, under a random identifier.
    pub fn new_spatial(
        seed_genomes_v2: Vec<GenomeWithId>,
        grid_width: usize,
        grid_height: usize,
        max_steps: u32,
        mutation_rate: i64,
    ) -> (assignment: WorkAssignment)
        ensures
            assignment.seed_genomes_v2 == seed_genomes_v2,
            assignment.grid_width == grid_width,
            assignment.grid_height == grid_height,
            assignment.max_steps == max_steps,
            assignment.mutation_rate == mutation_rate,
            assignment.seed_genomes@.len() == 0,
            assignment.generations == 0,
            assignment.population_size == 0,
    {
        WorkAssignment {
            work_id: random_id(),
            seed_genomes_v2,
            grid_width,
            grid_height,
            max_steps,
            mutation_rate,
            seed_genomes: Vec::new(),
            generations: 0,
            population_size: 0,
        }
    }

    /// An assignment for a run of the old kind, under a random identifier.
    pub fn new(
        seed_genomes: Vec<Genome>,
        generations: u32,
        population_size: usize,
        mutation_rate: i64,
    ) -> (assignment: WorkAssignment)
        ensures
            assignment.seed_genomes == seed_genomes,
            assignment.generations == generations,
            assignment.population_size == population_size,
            assignment.mutation_rate == mutation_rate,
            assignment.seed_genomes_v2@.len() == 0,
            assignment.grid_width == 0,
            assignment.grid_height == 0,
            assignment.max_steps == 0,
            !assignment.spec_is_spatial(),
    {
        WorkAssignment {
            work_id: random_id(),
            seed_genomes_v2: Vec::new(),
            grid_width: 0,
            grid_height: 0,
            max_steps: 0,
            mutation_rate,
            seed_genomes,
            generations,
            population_size,
        }
    }
}

impl SimulationStats {
    /// The figures of a run, put together.
    pub fn new(
        avg_fitness: i64,
        best_fitness: i64,
        final_population: usize,
        total_creatures: usize,
    ) -> (stats: SimulationStats)
        ensures
            stats == (SimulationStats { avg_fitness, best_fitness, final_population,
                total_creatures }),
    {
        SimulationStats { avg_fitness, best_fitness, final_population, total_creatures }
    }
}

} // verus!
