use evo_islands::gene_pool::{population_after, GenePool, Lineage};
use evo_islands::genes::Genome;
use evo_islands::protocol::SurvivalResult;
use rand::rngs::StdRng;
use rand::SeedableRng;
use uuid::Uuid;

/// A real number as the library holds it: in millionths.
fn fx(value: f64) -> i64 {
    (value * 1_000_000.0).round() as i64
}

fn lineages(pool: &GenePool) -> Vec<Lineage> {
    (0..pool.len()).map(|i| pool.lineage_at(i).expect("a position of the registry")).collect()
}

fn result(genome_id: u128, survived: u32) -> SurvivalResult {
    SurvivalResult { genome_id, survived, total_spawned: survived + 1, avg_lifespan: 0, total_food_eaten: 0 }
}

#[test]
fn test_gene_pool_creation() {
    let pool = GenePool::new();
    let stats = pool.get_stats(0);

    assert!(stats.gene_pool_size > 0);
    assert!(!stats.best_genomes.is_empty());
}

#[test]
fn test_gene_pool() {
    let pool = GenePool::new();
    let stats = pool.get_stats(0);
    assert!(stats.gene_pool_size > 0);
}

#[test]
fn test_get_seed_genomes_spatial() {
    let mut pool = GenePool::new();
    let seeds = pool.get_seed_genomes_spatial();

    assert_eq!(seeds.len(), 10);
}

#[test]
fn test_submit_survival_results() {
    let mut pool = GenePool::new();
    let client_id = Uuid::new_v4().as_u128();

    // Get a genome ID from the pool
    let seeds = pool.get_seed_genomes_spatial();
    let genome_id = seeds[0].genome_id;

    let results = vec![SurvivalResult {
        genome_id,
        survived: 5,
        total_spawned: 10,
        avg_lifespan: fx(100.0),
        total_food_eaten: 500,
    }];

    pool.submit_survival_results(client_id, results, 3000);

    let stats = pool.get_stats(0);
    assert_eq!(stats.total_work_units, 1);
}

#[test]
fn test_population_updates() {
    let mut pool = GenePool::new();
    let client_id = Uuid::new_v4().as_u128();

    let seeds = pool.get_seed_genomes_spatial();
    let genome_id = seeds[0].genome_id;

    // Initial population
    let _initial_stats = pool.get_stats(0);
    let initial_pop = pool.population_of(genome_id).unwrap();

    // Simulate survival
    let results = vec![SurvivalResult {
        genome_id,
        survived: 3,
        total_spawned: 5,
        avg_lifespan: fx(200.0),
        total_food_eaten: 300,
    }];

    pool.submit_survival_results(client_id, results, 3000);

    // Check population increased
    let new_pop = pool.population_of(genome_id).unwrap();

    assert!(new_pop > initial_pop);
}

#[test]
fn test_extinction() {
    let mut pool = GenePool::new();
    let client_id = Uuid::new_v4().as_u128();

    let seeds = pool.get_seed_genomes_spatial();
    let genome_id = seeds[0].genome_id;

    // Simulate extinction (no survivors)
    let results = vec![SurvivalResult {
        genome_id,
        survived: 0,
        total_spawned: 1,
        avg_lifespan: fx(10.0),
        total_food_eaten: 0,
    }];

    pool.submit_survival_results(client_id, results, 3000);

    // Check population decreased
    let new_pop = pool.population_of(genome_id).unwrap();

    // Population should have decreased by 20
    assert!(new_pop < 100);
}

#[test]
fn test_new_pool_holds_ten_lineages_of_a_hundred() {
    let pool = GenePool::new();
    let all = lineages(&pool);
    assert_eq!(all.len(), 10);
    assert_eq!(pool.lineage_at(10), None);
    for lineage in all.iter() {
        assert_eq!(lineage.population, 100);
        assert!(lineage.genome.is_in_unit_range());
        assert!(pool.contains(lineage.id));
        assert_eq!(pool.genome_of(lineage.id), Some(lineage.genome));
    }
    let mut ids: Vec<u128> = all.iter().map(|l| l.id).collect();
    ids.sort();
    ids.dedup();
    assert_eq!(ids.len(), 10);
    let stats = pool.get_stats(42);
    assert_eq!((stats.active_clients, stats.total_work_units, stats.total_generations), (0, 0, 0));
    assert_eq!((stats.gene_pool_size, stats.uptime_seconds), (10, 42));
    assert_eq!(stats.best_genomes.len(), 10);
}

#[test]
fn test_pool_seeding_partition() {
    let mut pool = GenePool::new();
    let original = lineages(&pool);
    let mut minted: Vec<u128> = Vec::new();
    for round in 0..5 {
        let seeds = pool.get_seed_genomes_spatial();
        assert_eq!(seeds.len(), 10);
        assert_eq!(pool.len(), 10 + 10 * (round + 1));
        for (k, seed) in seeds.iter().enumerate() {
            assert!(!minted.contains(&seed.genome_id));
            assert!(original.iter().all(|l| l.id != seed.genome_id));
            assert_eq!(pool.population_of(seed.genome_id), Some(0));
            assert_eq!(pool.genome_of(seed.genome_id), Some(seed.genome));
            assert_eq!(
                pool.lineage_at(10 + 10 * round + k),
                Some(Lineage { id: seed.genome_id, genome: seed.genome, population: 0 })
            );
            assert!(seed.genome.is_in_unit_range());
            minted.push(seed.genome_id);
        }
        assert_eq!(lineages(&pool)[..10], original[..]);
    }
    assert_eq!(minted.len(), 50);
}

#[test]
fn test_submission_survival_update() {
    let mut pool = GenePool::new();
    let seeds = pool.get_seed_genomes_spatial();
    let (first, second) = (seeds[0].genome_id, seeds[1].genome_id);
    let before = lineages(&pool);
    pool.submit_survival_results(9, vec![result(first, 3), result(second, 0)], 3000);
    assert_eq!(pool.population_of(first), Some(30));
    assert_eq!(pool.population_of(second), Some(0));
    let stats = pool.get_stats(0);
    assert_eq!(stats.total_work_units, 1);
    assert_eq!(stats.total_generations, 3000);
    assert_eq!(stats.active_clients, 1);
    for (old, new) in before.iter().zip(lineages(&pool).iter()) {
        if old.id != first {
            assert_eq!(old, new);
        }
    }
}

#[test]
fn test_population_after() {
    assert_eq!(population_after(0, 3), 30);
    assert_eq!(population_after(100, 1), 110);
    assert_eq!(population_after(9_995, 1), 10_000);
    assert_eq!(population_after(10_000, 7), 10_000);
    assert_eq!(population_after(0, u32::MAX), 10_000);
    assert_eq!(population_after(100, 0), 80);
    assert_eq!(population_after(20, 0), 0);
    assert_eq!(population_after(19, 0), 0);
    assert_eq!(population_after(0, 0), 0);
}

#[test]
fn test_populations_stay_within_the_cap() {
    let mut pool = GenePool::new();
    let ids: Vec<u128> = lineages(&pool).iter().map(|l| l.id).collect();
    for round in 0..30u32 {
        let results: Vec<SurvivalResult> = ids
            .iter()
            .enumerate()
            .map(|(i, id)| result(*id, if i % 2 == 0 { round * 1000 + 1 } else { 0 }))
            .collect();
        pool.submit_survival_results(1, results, u32::MAX);
        for lineage in lineages(&pool) {
            assert!(lineage.population <= 10_000);
        }
    }
    let all = lineages(&pool);
    assert!(all.iter().step_by(2).all(|l| l.population == 10_000));
    assert!(all.iter().skip(1).step_by(2).all(|l| l.population == 0));
    assert_eq!(pool.get_stats(0).total_generations, 30 * u32::MAX as u64);
}

#[test]
fn test_results_apply_in_order() {
    let mut pool = GenePool::new();
    let id = lineages(&pool)[4].id;
    pool.submit_survival_results(1, vec![result(id, 0), result(id, 0), result(id, 2), result(id, 0)], 1);
    // 100 - 20 - 20 + 20 - 20
    assert_eq!(pool.population_of(id), Some(60));
}

#[test]
fn test_unknown_lineage_is_passed_over() {
    let mut pool = GenePool::new();
    let before = lineages(&pool);
    let mut unknown = 5;
    while pool.contains(unknown) {
        unknown += 1;
    }
    assert_eq!(pool.population_of(unknown), None);
    assert_eq!(pool.genome_of(unknown), None);
    pool.submit_survival_results(1, vec![result(unknown, 9)], 10);
    assert_eq!(lineages(&pool), before);
    assert_eq!(pool.get_stats(0).total_work_units, 1);
}

#[test]
fn test_clients_are_counted_once() {
    let mut pool = GenePool::new();
    pool.register_client(3);
    pool.register_client(3);
    pool.register_client(4);
    pool.submit_survival_results(3, vec![], 0);
    pool.submit_results(5, vec![], 12);
    let stats = pool.get_stats(0);
    assert_eq!(stats.active_clients, 3);
    assert_eq!(stats.total_work_units, 2);
    assert_eq!(stats.total_generations, 12);
    assert_eq!(pool.len(), 10);
}

#[test]
fn test_leading_and_extinct() {
    let mut pool = GenePool::new();
    let ids: Vec<u128> = lineages(&pool).iter().map(|l| l.id).collect();
    // Populations: 100 100 130 0 110 100 0 130 100 100
    let mut results = vec![result(ids[2], 3), result(ids[4], 1), result(ids[7], 3)];
    for _ in 0..5 {
        results.push(result(ids[3], 0));
        results.push(result(ids[6], 0));
    }
    pool.submit_survival_results(1, results, 0);
    assert_eq!(pool.leading(5), vec![2, 7, 4, 0, 1]);
    assert_eq!(pool.leading(3), vec![2, 7, 4]);
    assert_eq!(pool.leading(0), vec![]);
    assert_eq!(pool.leading(100), vec![2, 7, 4, 0, 1, 5, 8, 9]);
    assert_eq!(pool.extinct(), vec![3, 6]);
    let all = lineages(&pool);
    let stats = pool.get_stats(0);
    let listed: Vec<Genome> = stats.best_genomes.iter().map(|g| g.genome).collect();
    let expected: Vec<Genome> = [2, 7, 4, 0, 1, 5, 8, 9, 3, 6].iter().map(|p: &usize| all[*p].genome).collect();
    assert_eq!(listed, expected);
    for entry in stats.best_genomes.iter() {
        assert_eq!(entry.fitness, entry.genome.fitness_score());
    }
    let plain = pool.get_seed_genomes(3);
    assert_eq!(plain, vec![all[2].genome, all[7].genome, all[4].genome]);
    let padded = pool.get_seed_genomes(12);
    assert_eq!(padded.len(), 12);
    assert_eq!(padded[..8], [2, 7, 4, 0, 1, 5, 8, 9].map(|p: usize| all[p].genome));
    assert_eq!(pool.len(), 10);
}

#[test]
fn test_base_of_a_seed_set() {
    let mut pool = GenePool::new();
    let ids: Vec<u128> = lineages(&pool).iter().map(|l| l.id).collect();
    let mut results = vec![];
    for _ in 0..5 {
        for id in ids[..8].iter() {
            results.push(result(*id, 0));
        }
    }
    results.push(result(ids[9], 1));
    pool.submit_survival_results(1, results, 0);
    let all = lineages(&pool);
    let extinct: Vec<Genome> = all[..8].iter().map(|l| l.genome).collect();
    let mut rng = StdRng::seed_from_u64(12);
    let mut samples = std::collections::HashSet::new();
    for _ in 0..40 {
        let base = pool.select_base(&mut rng);
        assert_eq!(base.len(), 10);
        assert_eq!(base[0], all[9].genome);
        assert_eq!(base[1], all[8].genome);
        let mut sample: Vec<usize> = base[2..7]
            .iter()
            .map(|g| extinct.iter().position(|e| e == g).expect("the genome of an extinct lineage"))
            .collect();
        samples.insert(sample.clone());
        sample.sort();
        sample.dedup();
        assert_eq!(sample.len(), 5);
        for genome in base[7..].iter() {
            assert!(genome.is_in_unit_range());
        }
    }
    assert!(samples.len() > 20);
    assert_eq!(pool.len(), 10);
}

#[test]
fn test_seeds_are_mutations_of_the_base() {
    let mut pool = GenePool::new();
    let all = lineages(&pool);
    let mut rng = StdRng::seed_from_u64(13);
    let seeds = pool.get_seed_genomes_spatial_from(&mut rng);
    // All ten lineages are alive and of one population: the first five lead, and the rest
    // of the base is random.
    let mut untouched = 0;
    for (k, seed) in seeds.iter().take(5).enumerate() {
        let base = all[k].genome;
        if seed.genome == base {
            untouched += 1;
        }
        let total = seed.genome.strength + seed.genome.speed + seed.genome.size
            + seed.genome.efficiency + seed.genome.reproduction;
        assert!(total <= fx(2.5));
        assert!(seed.genome.is_in_unit_range());
    }
    assert!(untouched >= 1);
}

#[test]
fn test_new_pool_draws_from_its_generator() {
    let genomes = |seed: u64| -> Vec<Genome> {
        let mut rng = StdRng::seed_from_u64(seed);
        let pool = GenePool::new_from(&mut rng);
        assert_eq!(pool.len(), 10);
        lineages(&pool).iter().map(|l| l.genome).collect()
    };
    assert_eq!(genomes(5), genomes(5));
    assert_ne!(genomes(5), genomes(6));
    for genome in genomes(5) {
        let total = genome.strength + genome.speed + genome.size + genome.efficiency
            + genome.reproduction;
        assert!(genome.is_in_unit_range());
        assert!(total <= fx(2.5));
    }
}
