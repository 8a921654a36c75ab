use evo_islands::genes::Genome;
use evo_islands::island::IslandConfig;
use evo_islands::protocol::{SimulationStats, WorkAssignment, WorkRequest, WorkResult, GenomeWithId, CLIENT_VERSION};
use evo_islands::server::{check_version, handle_work_request, handle_work_submit, ApiError};
use evo_islands::protocol::ServerError;
use evo_islands::gene_pool::GenePool;
use evo_islands::worker::{process_work, recover, report_survival, setback_of, Recovery, Setback, WorkError};
use evo_islands::lineage::SurvivalStats;
use evo_islands::protocol::SurvivalResult;
use evo_islands::{run_simulation, run_spatial_simulation, PROTOCOL_VERSION};

/// A real number as the library holds it: in millionths.
fn fx(value: f64) -> i64 {
    (value * 1_000_000.0).round() as i64
}

#[test]
fn lib_test_simulation_runs() {
    let seeds = vec![Genome::random(), Genome::random()];
    let (best_genomes, stats) = run_simulation(seeds, 10, 20, fx(0.1));

    assert!(!best_genomes.is_empty());
    assert!(stats.avg_fitness >= 0);
    assert!(stats.best_fitness >= 0);
}

#[test]
fn test_simulation_produces_results() {
    let seeds = vec![Genome::default()];
    let (best_genomes, _) = run_simulation(seeds, 50, 30, fx(0.05));

    assert!(best_genomes.len() <= 10);
    assert!(!best_genomes.is_empty());
}

#[test]
fn test_simulation_of_the_old_kind_without_seeds() {
    let (best_genomes, stats) = run_simulation(vec![], 1, 1, 0);
    assert!(best_genomes.is_empty());
    assert_eq!(stats, SimulationStats { avg_fitness: 0, best_fitness: 0, final_population: 0, total_creatures: 0 });
}

#[test]
fn test_simulation_of_the_old_kind_figures() {
    let seeds: Vec<Genome> = (0..12).map(|_| Genome::default()).collect();
    let (best_genomes, stats) = run_simulation(seeds, 1, 1, 0);
    assert_eq!(best_genomes.len(), 10);
    for entry in best_genomes.iter() {
        assert_eq!(entry.fitness, entry.genome.fitness_score());
    }
    for pair in best_genomes.windows(2) {
        assert!(pair[0].fitness >= pair[1].fitness);
    }
    assert!(stats.avg_fitness <= stats.best_fitness);
    assert!(stats.final_population <= 3200);
    assert_eq!(stats.total_creatures, 12 + stats.final_population);
}

#[test]
fn test_extinction_on_starvation_setup() {
    let config = IslandConfig {
        world_width: 20,
        world_height: 20,
        plant_density: 0,
        food_density: 0,
        max_steps: 500,
        ..Default::default()
    };
    let results = run_spatial_simulation(vec![(1, Genome::random()), (2, Genome::random())], config);
    assert_eq!(results.len(), 2);
    assert_eq!((results[0].genome_id, results[1].genome_id), (1, 2));
    for entry in results.iter() {
        assert_eq!(entry.total_food_eaten, 0);
        assert!(entry.total_spawned >= 1);
        // Without food nobody fights, so nobody is hurt and nobody dies.
        assert!(entry.survived >= 1);
    }
    let alive: u32 = results.iter().map(|entry| entry.survived).sum();
    assert!(alive <= 200);
}

#[test]
fn test_spatial_simulation_reports_every_seeded_lineage() {
    let config = IslandConfig { world_width: 30, world_height: 30, max_steps: 40, ..Default::default() };
    let seeds = vec![(5, Genome::random()), (3, Genome::random()), (5, Genome::random()), (8, Genome::random())];
    let results = run_spatial_simulation(seeds, config);
    let ids: Vec<u128> = results.iter().map(|entry| entry.genome_id).collect();
    assert_eq!(ids, vec![5, 3, 8]);
    assert!(results.iter().all(|entry| entry.total_spawned >= 1));
}

#[test]
fn test_version_check() {
    assert_eq!(PROTOCOL_VERSION, 2);
    assert_eq!(check_version(2), Ok(()));
    assert_eq!(check_version(1), Err(ApiError::VersionMismatch { server_version: 2, client_version: 1 }));
    let error = ApiError::VersionMismatch { server_version: 2, client_version: 7 };
    assert_eq!(error.status_code(), 400);
    assert!(matches!(
        error.to_server_error(),
        ServerError::VersionMismatch { server_version: 2, client_version: 7 }
    ));
}

#[test]
fn test_work_request_is_answered_with_ten_seeds() {
    let mut pool = GenePool::new();
    let request = WorkRequest::new(11, PROTOCOL_VERSION);
    assert_eq!(request.client_id, 11);
    assert_eq!(request.client_version, CLIENT_VERSION);
    let assignment = handle_work_request(&mut pool, &request).expect("the versions match");
    assert_eq!(assignment.seed_genomes_v2.len(), 10);
    assert_eq!((assignment.grid_width, assignment.grid_height, assignment.max_steps), (300, 300, 3000));
    assert_eq!(assignment.mutation_rate, 0);
    assert!(assignment.seed_genomes.is_empty());
    assert_eq!((assignment.generations, assignment.population_size), (0, 0));
    assert_eq!(pool.len(), 20);
    for seed in assignment.seed_genomes_v2.iter() {
        assert_eq!(pool.population_of(seed.genome_id), Some(0));
    }
    let other = handle_work_request(&mut pool, &request).expect("the versions match");
    assert_ne!(other.work_id, assignment.work_id);
}

#[test]
fn test_work_request_of_another_version_is_turned_away() {
    let mut pool = GenePool::new();
    let request = WorkRequest::new(11, 1);
    let outcome = handle_work_request(&mut pool, &request);
    assert_eq!(outcome.err(), Some(ApiError::VersionMismatch { server_version: 2, client_version: 1 }));
    assert_eq!(pool.len(), 10);
    assert_eq!(pool.get_stats(0).active_clients, 0);
}

#[test]
fn test_work_submit_tells_spatial_from_old() {
    let mut pool = GenePool::new();
    let id = pool.lineage_at(0).unwrap().id;
    let spatial = WorkResult {
        work_id: 1,
        client_id: 21,
        survival_results: vec![SurvivalResult { genome_id: id, survived: 2, total_spawned: 3, avg_lifespan: 0, total_food_eaten: 0 }],
        steps_completed: 3000,
        best_genomes: vec![],
        generations_completed: 77,
        stats: None,
    };
    assert_eq!(handle_work_submit(&mut pool, spatial), 200);
    assert_eq!(pool.population_of(id), Some(120));
    assert_eq!(pool.get_stats(0).total_generations, 3000);
    let old = WorkResult {
        work_id: 2,
        client_id: 22,
        survival_results: vec![],
        steps_completed: 3000,
        best_genomes: vec![],
        generations_completed: 77,
        stats: None,
    };
    assert_eq!(handle_work_submit(&mut pool, old), 200);
    assert_eq!(pool.population_of(id), Some(120));
    let stats = pool.get_stats(0);
    assert_eq!((stats.total_work_units, stats.total_generations, stats.active_clients), (2, 3077, 2));
}

#[test]
fn test_assignments() {
    let seeds = vec![GenomeWithId { genome_id: 4, genome: Genome::default() }];
    let spatial = WorkAssignment::new_spatial(seeds.clone(), 30, 20, 50, fx(0.05));
    assert_eq!(spatial.seed_genomes_v2, seeds);
    assert_eq!((spatial.grid_width, spatial.grid_height, spatial.max_steps), (30, 20, 50));
    assert_eq!(spatial.mutation_rate, fx(0.05));
    assert!(spatial.seed_genomes.is_empty());
    let old = WorkAssignment::new(vec![Genome::default()], 100, 50, fx(0.05));
    assert!(old.seed_genomes_v2.is_empty());
    assert_eq!((old.generations, old.population_size, old.max_steps), (100, 50, 0));
    assert_ne!(old.work_id, spatial.work_id);
    assert_eq!(
        SimulationStats::new(1, 2, 3, 4),
        SimulationStats { avg_fitness: 1, best_fitness: 2, final_population: 3, total_creatures: 4 }
    );
}

#[test]
fn test_process_spatial_work() {
    let seeds = vec![
        GenomeWithId { genome_id: 4, genome: Genome::default() },
        GenomeWithId { genome_id: 6, genome: Genome::random() },
    ];
    let assignment = WorkAssignment::new_spatial(seeds, 30, 20, 50, 0);
    let work_id = assignment.work_id;
    let report = process_work(99, assignment).expect("an assignment that can be run");
    assert_eq!((report.work_id, report.client_id), (work_id, 99));
    assert_eq!(report.steps_completed, 50);
    assert!(report.best_genomes.is_empty());
    assert_eq!(report.generations_completed, 0);
    assert_eq!(report.stats, None);
    let ids: Vec<u128> = report.survival_results.iter().map(|r| r.genome_id).collect();
    assert_eq!(ids, vec![4, 6]);
    assert!(report.survival_results.iter().all(|r| r.avg_lifespan == 0 && r.total_spawned >= 1));
}

#[test]
fn test_process_work_of_the_old_kind() {
    let assignment = WorkAssignment::new(vec![Genome::default()], 10, 20, fx(0.1));
    let work_id = assignment.work_id;
    let report = process_work(5, assignment).expect("an assignment that can be run");
    assert_eq!((report.work_id, report.client_id), (work_id, 5));
    assert!(report.survival_results.is_empty());
    assert_eq!(report.steps_completed, 0);
    assert_eq!(report.generations_completed, 10);
    assert!(report.stats.is_some());
    assert!(!report.best_genomes.is_empty() && report.best_genomes.len() <= 10);
}

#[test]
fn test_process_work_refuses_what_cannot_be_run() {
    let sound = vec![GenomeWithId { genome_id: 4, genome: Genome::default() }];
    let no_grid = WorkAssignment::new_spatial(sound.clone(), 0, 20, 50, 0);
    assert_eq!(process_work(1, no_grid).err(), Some(WorkError::EmptyGrid));
    let no_rows = WorkAssignment::new_spatial(sound, 20, 0, 50, 0);
    assert_eq!(process_work(1, no_rows).err(), Some(WorkError::EmptyGrid));
    let wild = Genome { strength: fx(1.5), ..Default::default() };
    let unsound = WorkAssignment::new_spatial(vec![GenomeWithId { genome_id: 4, genome: wild }], 20, 20, 50, 0);
    assert_eq!(process_work(1, unsound).err(), Some(WorkError::TraitOutOfRange));
    let old = WorkAssignment::new(vec![Genome::default(), Genome { size: -1, ..Default::default() }], 1, 1, 0);
    assert_eq!(process_work(1, old).err(), Some(WorkError::TraitOutOfRange));
    // Without steps the seeds with lineages do not count: the run is of the old kind.
    let idle = WorkAssignment::new_spatial(vec![GenomeWithId { genome_id: 4, genome: wild }], 0, 0, 0, 0);
    let report = process_work(1, idle).expect("a run of the old kind without seeds");
    assert!(report.stats.is_some());
    assert!(report.best_genomes.is_empty());
}

#[test]
fn test_report_survival() {
    let stats = vec![
        SurvivalStats { genome_id: 3, survived: 0, total_spawned: 1, total_food_eaten: 12 },
        SurvivalStats { genome_id: 9, survived: 7, total_spawned: 9, total_food_eaten: 130 },
    ];
    assert_eq!(
        report_survival(&stats),
        vec![
            SurvivalResult { genome_id: 3, survived: 0, total_spawned: 1, avg_lifespan: 0, total_food_eaten: 12 },
            SurvivalResult { genome_id: 9, survived: 7, total_spawned: 9, avg_lifespan: 0, total_food_eaten: 130 },
        ]
    );
}

#[test]
fn test_worker_recovery() {
    let mismatch = ServerError::VersionMismatch { server_version: 2, client_version: 1 };
    assert_eq!(setback_of(&mismatch), Setback::VersionMismatch);
    assert_eq!(setback_of(&ServerError::ServerOverloaded), Setback::RequestFailed);
    assert_eq!(setback_of(&ServerError::InvalidRequest("no body".to_string())), Setback::RequestFailed);
    assert_eq!(setback_of(&ServerError::InternalError("out of memory".to_string())), Setback::RequestFailed);
    assert_eq!(recover(Setback::VersionMismatch), Recovery::Stop);
    assert_eq!(recover(Setback::RequestFailed), Recovery::RetryAfter(10));
    assert_eq!(recover(Setback::WorkRefused), Recovery::Proceed);
    assert_eq!(recover(Setback::SubmitFailed), Recovery::RetryAfter(5));
}

#[test]
fn test_fittest_seeds_are_in_order() {
    let weak = Genome { strength: 0, speed: 0, size: 0, efficiency: 0, reproduction: 0 };
    let strong = Genome { strength: fx(1.0), speed: fx(1.0), size: fx(1.0), efficiency: fx(1.0), reproduction: fx(1.0) };
    let mut seeds = vec![weak, Genome::default(), strong, Genome::default()];
    let best = evo_islands::fittest_seeds(&seeds);
    let listed: Vec<(Genome, i64)> = best.iter().map(|g| (g.genome, g.fitness)).collect();
    assert_eq!(
        listed,
        vec![(strong, 1_442_249), (Genome::default(), 721_124), (Genome::default(), 721_124), (weak, 0)]
    );
    for _ in 0..10 {
        seeds.push(Genome::random());
    }
    let best = evo_islands::fittest_seeds(&seeds);
    assert_eq!(best.len(), 10);
    assert_eq!(best[0].genome, strong);
    for pair in best.windows(2) {
        assert!(pair[0].fitness >= pair[1].fitness);
    }
    assert!(evo_islands::fittest_seeds(&vec![]).is_empty());
}

#[test]
fn test_simulation_lists_the_fittest_first() {
    let seeds: Vec<Genome> = (0..6).map(|_| Genome::random()).collect();
    let (best_genomes, _) = run_simulation(seeds, 50, 30, fx(0.05));
    assert!(!best_genomes.is_empty() && best_genomes.len() <= 10);
    for pair in best_genomes.windows(2) {
        assert!(pair[0].fitness >= pair[1].fitness);
    }
}
