//! What the coordinator decides when a worker calls: whether to serve it,
//! what to hand out, and where a report goes.

use crate::gene_pool::{spec_registered, spec_registry_ok, spec_seeded_from, GenePool, SEED_COUNT,
    spec_minted};
use crate::protocol::{GenomeWithId, ServerError, WorkAssignment, WorkRequest, WorkResult};
use crate::PROTOCOL_VERSION;
use vstd::prelude::*;

verus! {

/// The width of the grid that every assignment asks for.
pub const GRID_WIDTH: usize = 300;

/// The height of the grid that every assignment asks for.
pub const GRID_HEIGHT: usize = 300;

/// The ticks that every assignment asks for at most.
pub const MAX_STEPS: u32 = 3000;

/// The mutation rate that workers are told to apply: none, because the
/// seeds have been mutated before they leave the coordinator.
pub const WORKER_MUTATION_RATE: i64 = 0;

/// The status a request is answered with where it was served.
pub const STATUS_OK: u16 = 200;

/// The status a request is answered with where the worker is at fault.
pub const STATUS_BAD_REQUEST: u16 = 400;

/// Why a request is not served.
#[derive(Debug, Clone, Copy, PartialEq, Eq, Structural)]
pub enum ApiError {
    /// The worker speaks another protocol version than the coordinator.
    VersionMismatch { server_version: u32, client_version: u32 },
}

impl ApiError {
    /// The status that the error is answered with.
    pub fn status_code(&self) -> (status: u16)
        ensures
            status == STATUS_BAD_REQUEST,
    {
        match self {
            ApiError::VersionMismatch { .. } => STATUS_BAD_REQUEST,
        }
    }

    /// The error as the worker is told of it.
    pub fn to_server_error(&self) -> (error: ServerError)
        ensures
            match *self {
                ApiError::VersionMismatch { server_version, client_version } => error
                    matches ServerError::VersionMismatch { server_version: s, client_version: c }
                    && s == server_version && c == client_version,
            },
    {
        match *self {
            ApiError::VersionMismatch { server_version, client_version } => {
                ServerError::VersionMismatch { server_version, client_version }
            },
        }
    }
}

/// Whether a worker that speaks `client_version` is served.
pub fn check_version(client_version: u32) -> (outcome: Result<(), ApiError>)
    ensures
        outcome.is_ok() == (client_version == PROTOCOL_VERSION),
        outcome.is_err() ==> outcome.unwrap_err() == (ApiError::VersionMismatch {
            server_version: PROTOCOL_VERSION,
            client_version,
        }),
{
    if client_version == PROTOCOL_VERSION {
        Ok(())
    } else {
        Err(ApiError::VersionMismatch { server_version: PROTOCOL_VERSION, client_version })
    }
}

/// Answers a worker that asks for work. A worker of another protocol
/// version is turned away and the pool stays as it is. Any other worker
/// gets a fresh seed set of the pool, to be run on a grid of 300 by 300
/// tiles for 3000 ticks without further mutation.
pub fn handle_work_request(pool: &mut GenePool, request: &WorkRequest) -> (outcome: Result<
    WorkAssignment,
    ApiError,
>)
    ensures
        outcome.is_ok() == (request.protocol_version == PROTOCOL_VERSION),
        match outcome {
            Ok(assignment) => {
                &&& assignment.grid_width == GRID_WIDTH
                &&& assignment.grid_height == GRID_HEIGHT
                &&& assignment.max_steps == MAX_STEPS
                &&& assignment.mutation_rate == WORKER_MUTATION_RATE
                &&& assignment.seed_genomes@.len() == 0
                &&& assignment.generations == 0
                &&& assignment.population_size == 0
                &&& assignment.spec_is_spatial()
                &&& assignment.seed_genomes_v2@.len() == SEED_COUNT
                &&& spec_registry_ok(final(pool).lineages())
                &&& final(pool).lineages() == old(pool).lineages()
                    + assignment.seed_genomes_v2@.map_values(|s: GenomeWithId| spec_minted(s))
                &&& forall|k: int|
                    0 <= k < assignment.seed_genomes_v2@.len() ==> !spec_registered(
                        old(pool).lineages(),
                        (#[trigger] assignment.seed_genomes_v2@[k]).genome_id,
                    )
                &&& spec_seeded_from(old(pool).lineages(), assignment.seed_genomes_v2@)
            },
            Err(error) => {
                &&& error == (ApiError::VersionMismatch {
                    server_version: PROTOCOL_VERSION,
                    client_version: request.protocol_version,
                })
                &&& final(pool).lineages() == old(pool).lineages()
            },
        },
        final(pool).clients() == old(pool).clients(),
        final(pool).work_units() == old(pool).work_units(),
        final(pool).simulations() == old(pool).simulations(),
{
    match check_version(request.protocol_version) {
        Err(error) => Err(error),
        Ok(()) => {
            let seeds = pool.get_seed_genomes_spatial();
            Ok(WorkAssignment::new_spatial(seeds, GRID_WIDTH, GRID_HEIGHT, MAX_STEPS,
                WORKER_MUTATION_RATE))
        },
    }
}

/// Takes in a report of a worker and says what status it is answered with.
/// A report that holds survival results is that of a spatial run and
/// changes the populations; any other is a report of the old kind and is
/// only counted.
pub fn handle_work_submit(pool: &mut GenePool, result: WorkResult) -> (status: u16)
    ensures
        status == STATUS_OK,
        spec_registry_ok(final(pool).lineages()),
        final(pool).lineages().len() == old(pool).lineages().len(),
        forall|i: int|
            0 <= i < old(pool).lineages().len() ==> #[trigger] final(pool).lineages()[i] == old(
                pool,
            ).lineages()[i].spec_after_results(result.survival_results@),
        final(pool).clients() == old(pool).clients().insert(result.client_id),
        final(pool).work_units() == (if old(pool).work_units() < u64::MAX {
            (old(pool).work_units() + 1) as u64
        } else {
            u64::MAX
        }),
        final(pool).simulations() == (if result.survival_results@.len() > 0 {
            if old(pool).simulations() + result.steps_completed > u64::MAX {
                u64::MAX
            } else {
                (old(pool).simulations() + result.steps_completed) as u64
            }
        } else {
            if old(pool).simulations() + result.generations_completed > u64::MAX {
                u64::MAX
            } else {
                (old(pool).simulations() + result.generations_completed) as u64
            }
        }),
{
    if result.survival_results.len() > 0 {
        pool.submit_survival_results(result.client_id, result.survival_results,
            result.steps_completed);
    } else {
        pool.submit_results(result.client_id, result.best_genomes, result.generations_completed);
        proof {
            assert(result.survival_results@ =~= Seq::empty());
        }
    }
    STATUS_OK
}

} // verus!
