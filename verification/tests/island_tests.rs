use evo_islands::creature::{Creature, Direction};
use evo_islands::genes::Genome;
use evo_islands::island::{Action, Island, IslandConfig};
use evo_islands::lineage::{LineageRecord, SurvivalStats};
use evo_islands::world::{Tile, World};
use rand::rngs::StdRng;
use rand::SeedableRng;
use std::collections::HashMap;
use uuid::Uuid;

/// A real number as the library holds it: in millionths.
fn fx(value: f64) -> i64 {
    (value * 1_000_000.0).round() as i64
}

/// An island without food on which nothing has happened yet.
fn bare_island(width: usize, height: usize, creatures: Vec<Creature>) -> Island {
    let mut genome_stats: HashMap<u128, LineageRecord> = HashMap::new();
    let mut lineage_order: Vec<u128> = Vec::new();
    for creature in creatures.iter() {
        if !genome_stats.contains_key(&creature.genome_id) {
            genome_stats.insert(
                creature.genome_id,
                LineageRecord {
                    genome_id: creature.genome_id,
                    total_spawned: 1,
                    total_food_eaten: 0,
                },
            );
            lineage_order.push(creature.genome_id);
        }
    }
    Island {
        config: IslandConfig {
            world_width: width,
            world_height: height,
            plant_density: 0,
            food_density: 0,
            ..Default::default()
        },
        world: World::new(width, height),
        creatures,
        step: 0,
        genome_stats,
        lineage_order,
    }
}

fn fighter(strength: f64, size: f64, lineage: u128, x: usize, y: usize) -> Creature {
    let genome = Genome { strength: fx(strength), size: fx(size), ..Default::default() };
    Creature::new(genome, lineage, x, y)
}

#[test]
fn test_spatial_island_creation() {
    let config = IslandConfig::default();
    let genome_id = Uuid::new_v4().as_u128();
    let seeds = vec![
        (genome_id, Genome::random()),
        (Uuid::new_v4().as_u128(), Genome::random()),
    ];
    let island = Island::new(config, seeds);

    assert_eq!(island.creatures.len(), 2);
    assert_eq!(island.step, 0);
    assert_eq!(island.world.width, 300);
    assert_eq!(island.world.height, 300);
}

#[test]
fn test_spatial_island_tick() {
    let config = IslandConfig {
        max_steps: 10,
        ..Default::default()
    };

    let genome_id = Uuid::new_v4().as_u128();
    let seeds = vec![
        (genome_id, Genome::random()),
        (Uuid::new_v4().as_u128(), Genome::random()),
    ];
    let mut island = Island::new(config, seeds);
    let mut rng = StdRng::from_entropy();

    island.tick(&mut rng);

    assert_eq!(island.step, 1);
}

#[test]
fn island_test_simulation_runs() {
    let config = IslandConfig {
        world_width: 50,
        world_height: 50,
        max_steps: 100,
        plant_density: fx(0.1),
        food_density: fx(0.05),
        ..Default::default()
    };

    let genome_id = Uuid::new_v4().as_u128();
    let seeds = vec![
        (genome_id, Genome::random()),
        (Uuid::new_v4().as_u128(), Genome::random()),
    ];
    let mut island = Island::new(config, seeds);

    let results = island.run_simulation();

    assert!(!results.is_empty());
    assert!(island.step <= 100);
}

#[test]
fn test_survival_stats_tracking() {
    let config = IslandConfig {
        world_width: 50,
        world_height: 50,
        max_steps: 50,
        ..Default::default()
    };

    let genome_id = Uuid::new_v4().as_u128();
    let genome = Genome {
        efficiency: fx(1.0),
        ..Default::default()
    }; // High efficiency for survival

    let seeds = vec![(genome_id, genome)];
    let mut island = Island::new(config, seeds);

    let results = island.run_simulation();

    assert_eq!(results.len(), 1);
    assert!(results[0].total_spawned > 0);
}

#[test]
fn test_default_config() {
    let config = IslandConfig::default();
    assert_eq!((config.world_width, config.world_height, config.max_steps), (300, 300, 3000));
    assert_eq!(config.mutation_rate, fx(0.05));
    assert_eq!(config.plant_density, fx(0.08));
    assert_eq!(config.food_density, fx(0.04));
    assert_eq!(config.reproduction_threshold, fx(60.0));
}

#[test]
fn test_new_island_places_seeds_on_the_grid() {
    let config = IslandConfig { world_width: 5, world_height: 3, ..Default::default() };
    let mut rng = StdRng::seed_from_u64(17);
    let seeds: Vec<(u128, Genome)> = (0..200).map(|i| (i % 7, Genome::default())).collect();
    let island = Island::new_from(config, seeds, &mut rng);
    assert_eq!(island.creatures.len(), 200);
    let mut columns = std::collections::HashSet::new();
    let mut rows = std::collections::HashSet::new();
    for (i, creature) in island.creatures.iter().enumerate() {
        assert!(creature.x < 5 && creature.y < 3);
        assert_eq!(creature.genome_id, i as u128 % 7);
        assert_eq!((creature.energy, creature.health, creature.food_eaten), (fx(100.0), fx(100.0), 0));
        columns.insert(creature.x);
        rows.insert(creature.y);
    }
    assert_eq!((columns.len(), rows.len()), (5, 3));
    let records: Vec<(u128, u32, u32)> = island
        .lineage_records()
        .iter()
        .map(|r| (r.genome_id, r.total_spawned, r.total_food_eaten))
        .collect();
    assert_eq!(records, (0..7).map(|id| (id, 1, 0)).collect::<Vec<_>>());
}

#[test]
fn test_single_creature_eats_in_peace() {
    let mut island = bare_island(10, 10, vec![fighter(0.5, 0.5, 1, 3, 4)]);
    island.world.set_tile(3, 4, Tile::Food { amount: 12 });
    island.execute_eating();
    assert_eq!(island.creatures[0].energy, fx(110.0));
    assert_eq!(island.creatures[0].health, fx(100.0));
    assert_eq!(island.creatures[0].food_eaten, 10);
    assert_eq!(island.world.get_tile(3, 4), Some(&Tile::Food { amount: 2 }));
    island.execute_eating();
    assert_eq!(island.creatures[0].energy, fx(112.0));
    assert_eq!(island.creatures[0].food_eaten, 12);
    assert_eq!(island.world.get_tile(3, 4), Some(&Tile::Empty));
    island.execute_eating();
    assert_eq!(island.creatures[0].energy, fx(112.0));
}

#[test]
fn test_combat_over_food() {
    let creatures = vec![
        fighter(0.5, 0.5, 1, 2, 2),
        fighter(1.0, 0.0, 2, 2, 2),
        fighter(0.2, 0.2, 3, 2, 2),
        fighter(1.0, 1.0, 4, 7, 7),
    ];
    let mut island = bare_island(10, 10, creatures);
    island.world.set_tile(2, 2, Tile::Plant { current_food: 7, max_food: 10, regrowth_timer: 0 });
    island.execute_eating();
    // The second creature has the most combat power, 1.0; the others lose a quarter of that.
    assert_eq!(island.creatures[1].energy, fx(107.0));
    assert_eq!(island.creatures[1].health, fx(100.0));
    assert_eq!(island.creatures[1].food_eaten, 7);
    assert_eq!(island.creatures[0].health, fx(99.75));
    assert_eq!(island.creatures[0].energy, fx(100.0));
    assert_eq!(island.creatures[2].health, fx(99.75));
    assert_eq!(island.creatures[2].food_eaten, 0);
    assert_eq!(island.creatures[3].health, fx(100.0));
    assert_eq!(island.creatures[3].energy, fx(100.0));
    assert_eq!(
        island.world.get_tile(2, 2),
        Some(&Tile::Plant { current_food: 0, max_food: 10, regrowth_timer: 10 })
    );
}

#[test]
fn test_combat_ties_go_to_the_earlier_creature() {
    let creatures = vec![
        fighter(0.1, 0.0, 1, 0, 0),
        fighter(0.6, 0.4, 2, 0, 0),
        fighter(0.8, 0.0, 3, 0, 0),
    ];
    let mut island = bare_island(4, 4, creatures);
    island.world.set_tile(0, 0, Tile::Food { amount: 30 });
    island.execute_eating();
    assert_eq!(island.creatures[1].food_eaten, 10);
    assert_eq!(island.creatures[2].food_eaten, 0);
    assert_eq!(island.creatures[2].health, fx(99.8));
    assert_eq!(island.creatures[0].health, fx(99.8));
    assert_eq!(island.world.get_available_food(0, 0), 20);
}

#[test]
fn test_no_food_no_combat() {
    let creatures = vec![fighter(1.0, 1.0, 1, 1, 1), fighter(0.1, 0.1, 2, 1, 1)];
    let mut island = bare_island(4, 4, creatures.clone());
    island.world.set_tile(1, 1, Tile::Plant { current_food: 0, max_food: 10, regrowth_timer: 4 });
    island.execute_eating();
    assert_eq!(island.creatures, creatures);
    assert_eq!(
        island.world.get_tile(1, 1),
        Some(&Tile::Plant { current_food: 0, max_food: 10, regrowth_timer: 4 })
    );
}

#[test]
fn test_collect_dead_credits_the_lineage() {
    let mut creatures = vec![
        fighter(0.5, 0.5, 1, 0, 0),
        fighter(0.5, 0.5, 2, 1, 0),
        fighter(0.5, 0.5, 1, 2, 0),
        fighter(0.5, 0.5, 2, 3, 0),
    ];
    creatures[0].health = 0;
    creatures[0].food_eaten = 30;
    creatures[2].health = -5;
    creatures[2].food_eaten = 12;
    creatures[3].food_eaten = 99;
    let survivors = vec![creatures[1], creatures[3]];
    let mut island = bare_island(4, 4, creatures);
    island.collect_dead();
    assert_eq!(island.creatures, survivors);
    assert_eq!(
        island.lineage_records(),
        vec![
            LineageRecord { genome_id: 1, total_spawned: 1, total_food_eaten: 42 },
            LineageRecord { genome_id: 2, total_spawned: 1, total_food_eaten: 0 },
        ]
    );
    assert_eq!(
        island.collect_survival_stats(),
        vec![
            SurvivalStats { genome_id: 1, survived: 0, total_spawned: 1, total_food_eaten: 42 },
            SurvivalStats { genome_id: 2, survived: 2, total_spawned: 1, total_food_eaten: 0 },
        ]
    );
}

#[test]
fn test_counters_stop_at_the_largest_number() {
    let mut creatures = vec![fighter(0.5, 0.5, 1, 0, 0)];
    creatures[0].health = 0;
    creatures[0].food_eaten = 10;
    let mut island = bare_island(4, 4, creatures);
    island.genome_stats.get_mut(&1).unwrap().total_food_eaten = u32::MAX - 3;
    island.collect_dead();
    assert_eq!(island.lineage_records()[0].total_food_eaten, u32::MAX);
}

#[test]
fn test_find_weakest_creature() {
    let mut creatures: Vec<Creature> = (0..5).map(|i| fighter(0.5, 0.5, 1, i, 0)).collect();
    let island = bare_island(8, 8, creatures.clone());
    assert_eq!(island.find_weakest_creature(), None);
    creatures[0].health = 1;
    creatures[1].energy = 0;
    creatures[1].health = fx(50.0);
    creatures[3].energy = -7;
    creatures[3].health = fx(20.0);
    creatures[4].energy = 0;
    creatures[4].health = fx(20.0);
    let island = bare_island(8, 8, creatures);
    assert_eq!(island.find_weakest_creature(), Some(3));
}

#[test]
fn test_welcome_below_the_cap() {
    let creatures: Vec<Creature> = (0..3).map(|i| fighter(0.5, 0.5, 1, i, 0)).collect();
    let mut island = bare_island(4, 2, creatures.clone());
    let mut newborn = Vec::new();
    let child = fighter(0.5, 0.5, 1, 1, 1);
    assert!(island.welcome(&mut newborn, child));
    assert_eq!(island.creatures, creatures);
    assert_eq!(newborn, vec![child]);
    assert_eq!(island.lineage_records()[0].total_spawned, 2);
    // Three creatures and one newborn are the four that eight tiles hold.
    assert!(!island.welcome(&mut newborn, child));
    assert_eq!(newborn.len(), 1);
    assert_eq!(island.lineage_records()[0].total_spawned, 2);
}

#[test]
fn test_welcome_evicts_the_weakest() {
    let mut creatures = vec![
        fighter(0.5, 0.5, 1, 0, 0),
        fighter(0.5, 0.5, 2, 1, 0),
        fighter(0.5, 0.5, 2, 2, 0),
        fighter(0.5, 0.5, 1, 3, 0),
    ];
    creatures[1].energy = 0;
    creatures[1].health = fx(30.0);
    creatures[1].food_eaten = 5;
    creatures[2].energy = 0;
    creatures[2].health = fx(10.0);
    creatures[2].food_eaten = 8;
    creatures[3].health = 1;
    let mut island = bare_island(4, 2, creatures.clone());
    let mut newborn = Vec::new();
    let child = fighter(0.5, 0.5, 1, 1, 1);
    assert!(island.welcome(&mut newborn, child));
    assert_eq!(island.creatures, vec![creatures[0], creatures[1], creatures[3]]);
    assert_eq!(newborn, vec![child]);
    assert_eq!(
        island.lineage_records(),
        vec![
            LineageRecord { genome_id: 1, total_spawned: 2, total_food_eaten: 0 },
            LineageRecord { genome_id: 2, total_spawned: 1, total_food_eaten: 8 },
        ]
    );
}

#[test]
fn test_should_stop() {
    assert!(bare_island(4, 4, vec![]).should_stop());
    assert!(bare_island(4, 4, vec![fighter(0.5, 0.5, 1, 0, 0)]).should_stop());
    assert!(bare_island(4, 4, vec![fighter(0.5, 0.5, 1, 0, 0), fighter(0.1, 0.5, 1, 2, 0)]).should_stop());
    assert!(!bare_island(4, 4, vec![fighter(0.5, 0.5, 1, 0, 0), fighter(0.5, 0.5, 2, 0, 0)]).should_stop());
    assert!(!bare_island(
        4,
        4,
        vec![fighter(0.5, 0.5, 2, 0, 0), fighter(0.5, 0.5, 2, 0, 0), fighter(0.5, 0.5, 1, 0, 0)]
    )
    .should_stop());
}

#[test]
fn test_creatures_head_for_the_first_food_in_view() {
    let mut island = bare_island(30, 30, vec![fighter(0.5, 0.0, 1, 10, 10), fighter(0.5, 0.0, 1, 25, 25)]);
    island.world.set_tile(12, 13, Tile::Food { amount: 5 });
    island.world.set_tile(7, 10, Tile::Food { amount: 5 });
    island.world.set_tile(10, 11, Tile::Food { amount: 5 });
    // The vision radius is 5; a scan by rows meets (7, 10) first, though (10, 11) is nearer.
    assert_eq!(island.seek_food(0), Some(Direction::West));
    assert_eq!(island.seek_food(1), None);
    let mut rng = StdRng::seed_from_u64(2);
    let mut seen = std::collections::HashSet::new();
    for _ in 0..200 {
        let actions = island.decide_actions(&mut rng);
        assert_eq!(actions.len(), 2);
        assert_eq!(actions[0], (0, Action::Move(Direction::West)));
        assert_eq!(actions[1].0, 1);
        let Action::Move(direction) = actions[1].1;
        seen.insert(format!("{:?}", direction));
    }
    assert_eq!(seen.len(), 8);
}

#[test]
fn test_movements_take_one_step_at_most() {
    let swift = Genome { speed: fx(1.0), ..Default::default() };
    let creatures = vec![
        Creature::new(swift, 1, 0, 0),
        Creature::new(swift, 1, 5, 5),
        Creature::new(Genome { speed: 0, ..Default::default() }, 2, 3, 3),
    ];
    let mut island = bare_island(10, 10, creatures.clone());
    let mut rng = StdRng::seed_from_u64(8);
    let actions = vec![
        (0, Action::Move(Direction::NorthWest)),
        (1, Action::Move(Direction::SouthEast)),
        (2, Action::Move(Direction::East)),
        (9, Action::Move(Direction::East)),
    ];
    island.execute_movements(actions, &mut rng);
    assert_eq!((island.creatures[0].x, island.creatures[0].y), (0, 0));
    assert_eq!((island.creatures[1].x, island.creatures[1].y), (6, 6));
    let third = (island.creatures[2].x, island.creatures[2].y);
    assert!(third == (3, 3) || third == (4, 3));
    for (before, after) in creatures.iter().zip(island.creatures.iter()) {
        assert_eq!(Creature { x: before.x, y: before.y, ..*after }, *before);
    }
}

#[test]
fn test_pairs_are_drawn_at_random() {
    let mut with_child = 0;
    let mut rng = StdRng::seed_from_u64(4);
    for _ in 0..300 {
        let mut creatures: Vec<Creature> = (0..4).map(|i| fighter(0.5, 0.5, i as u128, i, 0)).collect();
        creatures[2].energy = fx(10.0);
        creatures[3].energy = fx(10.0);
        let mut island = bare_island(10, 10, creatures);
        island.reproduce(&mut rng);
        match island.creatures.len() {
            4 => {}
            5 => {
                with_child += 1;
                assert_eq!(island.creatures[0].energy, fx(80.0));
                assert_eq!(island.creatures[1].energy, fx(80.0));
                assert_eq!(island.creatures[4].energy, fx(100.0));
                assert!(island.creatures[4].genome_id < 2);
                assert_eq!((island.creatures[4].x, island.creatures[4].y), (0, 0));
            }
            other => panic!("{} creatures", other),
        }
    }
    // The two that can breed meet in one of three pairings.
    assert!(with_child > 50 && with_child < 150, "{}", with_child);
}

#[test]
fn test_threshold_of_the_island_counts_too() {
    let mut rng = StdRng::seed_from_u64(4);
    let creatures: Vec<Creature> = (0..2).map(|i| fighter(0.5, 0.5, i as u128, i, 0)).collect();
    let mut island = bare_island(10, 10, creatures.clone());
    island.config.reproduction_threshold = fx(100.0) + 1;
    island.reproduce(&mut rng);
    assert_eq!(island.creatures, creatures);
    island.config.reproduction_threshold = fx(100.0);
    island.reproduce(&mut rng);
    assert_eq!(island.creatures.len(), 3);
    assert_eq!(island.lineage_records().iter().map(|r| r.total_spawned).sum::<u32>(), 3);
}

#[test]
fn test_population_cap() {
    let mut rng = StdRng::seed_from_u64(33);
    let creatures: Vec<Creature> = (0..40)
        .map(|i| {
            let mut creature = fighter(0.5, 0.5, i % 4, i as usize % 10, i as usize / 10);
            creature.energy = fx(200.0);
            creature
        })
        .collect();
    let mut island = bare_island(10, 10, creatures);
    island.config.reproduction_threshold = fx(60.0);
    let mut reached = false;
    for _ in 0..60 {
        let starved: Vec<u128> = island.creatures.iter().filter(|c| c.energy <= 0).map(|c| c.id).collect();
        let before: Vec<u128> = island.creatures.iter().map(|c| c.id).collect();
        island.tick(&mut rng);
        assert!(island.creatures.len() <= 50);
        reached = reached || island.creatures.len() == 50;
        for id in before {
            if !island.creatures.iter().any(|c| c.id == id) {
                assert!(starved.contains(&id), "a creature with energy was evicted");
            }
        }
    }
    assert!(reached);
    assert_eq!(island.step, 60);
}

#[test]
fn test_crowded_start_does_not_grow() {
    let mut rng = StdRng::seed_from_u64(35);
    let creatures: Vec<Creature> = (0..30).map(|i| fighter(0.5, 0.5, i % 3, 0, 0)).collect();
    let mut island = bare_island(4, 4, creatures);
    for _ in 0..10 {
        island.tick(&mut rng);
        assert_eq!(island.creatures.len(), 30);
    }
}

#[test]
fn test_monoculture_stops_after_one_tick() {
    let config = IslandConfig { world_width: 20, world_height: 20, max_steps: 500, ..Default::default() };
    let seeds = vec![(77, Genome::random()), (77, Genome::random())];
    let mut island = Island::new(config, seeds);
    let results = island.run_simulation();
    assert_eq!(island.step, 1);
    assert_eq!(results.len(), 1);
    assert_eq!(results[0].genome_id, 77);
    assert!(results[0].survived >= 2);
    let again = island.run_simulation();
    assert_eq!(island.step, 2);
    assert_eq!(again.len(), 1);
}

#[test]
fn test_run_ends_at_max_steps() {
    let config = IslandConfig {
        world_width: 20,
        world_height: 20,
        max_steps: 25,
        plant_density: 0,
        food_density: 0,
        ..Default::default()
    };
    let mut island = Island::new(config, vec![(1, Genome::default()), (2, Genome::default())]);
    let mut rng = StdRng::seed_from_u64(5);
    let results = island.run_from(&mut rng);
    assert_eq!(island.step, 25);
    assert_eq!(results.len(), 2);
    let more = island.run_from(&mut rng);
    assert_eq!(island.step, 25);
    assert_eq!(more.len(), 2);
    let mut idle = Island::new(IslandConfig { max_steps: 0, ..config }, vec![(1, Genome::default())]);
    idle.run_simulation();
    assert_eq!(idle.step, 0);
}

#[test]
fn test_tick_keeps_the_world_well_formed() {
    let config = IslandConfig { world_width: 15, world_height: 15, plant_density: fx(0.3), food_density: fx(0.2), ..Default::default() };
    let mut rng = StdRng::seed_from_u64(6);
    let seeds: Vec<(u128, Genome)> = (0..20).map(|i| (i, Genome::random_from(&mut rng))).collect();
    let mut island = Island::new_from(config, seeds, &mut rng);
    for _ in 0..100 {
        let before = island.world.clone();
        island.tick(&mut rng);
        for y in 0..15 {
            for x in 0..15 {
                match island.world.get_tile(x, y) {
                    Some(Tile::Plant { current_food, max_food, .. }) => assert!(current_food <= max_food),
                    Some(Tile::Food { amount }) => assert!(*amount > 0),
                    _ => {}
                }
                assert!(island.world.get_available_food(x, y) <= before.get_available_food(x, y) + 1);
            }
        }
        for creature in island.creatures.iter() {
            assert!(creature.health > 0);
            assert!(creature.x < 15 && creature.y < 15);
        }
    }
}

#[test]
fn test_fitness_summaries() {
    let weak = Genome { strength: 0, speed: 0, size: 0, efficiency: 0, reproduction: 0 };
    let strong = Genome { strength: fx(1.0), speed: fx(1.0), size: fx(1.0), efficiency: fx(1.0), reproduction: fx(1.0) };
    let creatures = vec![
        Creature::new(weak, 1, 0, 0),
        Creature::new(Genome::default(), 2, 0, 0),
        Creature::new(strong, 3, 0, 0),
        Creature::new(Genome::default(), 4, 0, 0),
    ];
    let island = bare_island(4, 4, creatures);
    assert_eq!(island.average_fitness(), (0 + 721_124 + 1_442_249 + 721_124) / 4);
    let best = island.get_best_genomes(3);
    assert_eq!(best.len(), 3);
    assert_eq!((best[0].genome, best[0].fitness), (strong, 1_442_249));
    assert_eq!((best[1].genome, best[1].fitness), (Genome::default(), 721_124));
    assert_eq!((best[2].genome, best[2].fitness), (Genome::default(), 721_124));
    assert_eq!(island.get_best_genomes(10).len(), 4);
    assert_eq!(island.get_best_genomes(0).len(), 0);
    let nobody = bare_island(4, 4, vec![]);
    assert_eq!(nobody.average_fitness(), 0);
    assert_eq!(nobody.get_best_genomes(10).len(), 0);
}

#[test]
fn test_breed_only_pairs_that_can() {
    let mut rng = StdRng::seed_from_u64(41);
    let mut creatures: Vec<Creature> = (0..3).map(|i| fighter(0.5, 0.5, i as u128, 2 * i, 4)).collect();
    creatures[2].energy = fx(59.0);
    let mut island = bare_island(10, 10, creatures.clone());
    let mut newborn = Vec::new();
    island.breed(0, 0, &mut newborn, &mut rng);
    island.breed(0, 3, &mut newborn, &mut rng);
    island.breed(7, 1, &mut newborn, &mut rng);
    island.breed(0, 2, &mut newborn, &mut rng);
    island.breed(2, 1, &mut newborn, &mut rng);
    assert_eq!(island.creatures, creatures);
    assert!(newborn.is_empty());
    island.breed(1, 0, &mut newborn, &mut rng);
    assert_eq!(island.creatures[0].energy, fx(80.0));
    assert_eq!(island.creatures[1].energy, fx(80.0));
    assert_eq!(island.creatures[2], creatures[2]);
    assert_eq!(newborn.len(), 1);
    assert_eq!(newborn[0].genome_id, 1);
    assert_eq!((newborn[0].x, newborn[0].y), (1, 4));
    assert_eq!(island.lineage_records()[1].total_spawned, 2);
    assert_eq!(island.creatures.len(), 3);
}

#[test]
fn test_parents_pay_though_the_child_is_not_born() {
    let mut rng = StdRng::seed_from_u64(43);
    let creatures: Vec<Creature> = (0..2).map(|i| fighter(0.5, 0.5, i as u128, i, 0)).collect();
    let mut island = bare_island(2, 2, creatures);
    let mut newborn = Vec::new();
    // Four tiles hold two creatures, and nobody is out of energy.
    island.breed(0, 1, &mut newborn, &mut rng);
    assert!(newborn.is_empty());
    assert_eq!(island.creatures[0].energy, fx(80.0));
    assert_eq!(island.creatures[1].energy, fx(80.0));
    assert_eq!(island.lineage_records().iter().map(|r| r.total_spawned).sum::<u32>(), 2);
}
