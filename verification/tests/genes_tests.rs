use evo_islands::fixed::UNIT;
use evo_islands::genes::{draw_noise, Genome, TraitNoise, TraitPicks, TRAIT_BUDGET};
use rand::rngs::StdRng;
use rand::SeedableRng;

/// A real number as the library holds it: in millionths.
fn fx(value: f64) -> i64 {
    (value * 1_000_000.0).round() as i64
}

fn sum(genome: &Genome) -> i64 {
    genome.strength + genome.speed + genome.size + genome.efficiency + genome.reproduction
}

fn in_unit_range(genome: &Genome) -> bool {
    [genome.strength, genome.speed, genome.size, genome.efficiency, genome.reproduction]
        .iter()
        .all(|value| (0..=UNIT).contains(value))
}

#[test]
fn test_genome_creation() {
    let genome = Genome::new(fx(0.8), fx(0.6), fx(0.7), fx(0.5), fx(0.4));
    // After normalization, traits should sum close to TRAIT_BUDGET (or less if clamped)
    let sum = genome.strength + genome.speed + genome.size + genome.efficiency + genome.reproduction;
    assert!(sum <= TRAIT_BUDGET + fx(0.001), "Traits sum should not exceed TRAIT_BUDGET");
    assert!(sum >= TRAIT_BUDGET * 8 / 10, "Traits sum should be reasonably close to TRAIT_BUDGET");
    // Traits should maintain their relative proportions
    assert!(genome.strength > genome.speed);
    assert!(genome.size > genome.efficiency);
}

#[test]
fn test_genome_clamping() {
    let genome = Genome::new(fx(1.5), fx(-0.5), fx(0.5), fx(0.5), fx(0.5));
    // Values should be clamped and normalized
    assert!(genome.strength >= 0 && genome.strength <= fx(1.0));
    assert!(genome.speed >= 0 && genome.speed <= fx(1.0));
    let sum = genome.strength + genome.speed + genome.size + genome.efficiency + genome.reproduction;
    assert!(sum <= TRAIT_BUDGET + fx(0.001), "Traits sum should not exceed TRAIT_BUDGET");
    assert!(sum >= TRAIT_BUDGET * 8 / 10, "Traits sum should be reasonably close to TRAIT_BUDGET");
}

#[test]
fn test_energy_cost() {
    let high_cost = Genome::new(fx(1.0), fx(1.0), fx(1.0), fx(0.0), fx(1.0));
    let low_cost = Genome::new(fx(0.0), fx(0.0), fx(0.0), fx(1.0), fx(0.0));

    assert!(high_cost.energy_cost() > low_cost.energy_cost());
}

#[test]
fn test_crossover() {
    let parent1 = Genome::new(fx(1.0), fx(0.0), fx(1.0), fx(0.0), fx(1.0));
    let parent2 = Genome::new(fx(0.0), fx(1.0), fx(0.0), fx(1.0), fx(0.0));

    let child = parent1.crossover(&parent2);

    // Child traits should be within valid bounds
    assert!(child.strength >= 0 && child.strength <= fx(1.0));
    assert!(child.speed >= 0 && child.speed <= fx(1.0));
    assert!(child.size >= 0 && child.size <= fx(1.0));
    assert!(child.efficiency >= 0 && child.efficiency <= fx(1.0));
    assert!(child.reproduction >= 0 && child.reproduction <= fx(1.0));
    // Child should maintain trait budget constraint (with lower threshold for extreme parents)
    let sum = child.strength + child.speed + child.size + child.efficiency + child.reproduction;
    assert!(sum <= TRAIT_BUDGET + fx(0.001), "Child traits sum should not exceed TRAIT_BUDGET");
    assert!(sum > 0, "Child should have some trait values");
}

#[test]
fn test_mutation_maintains_bounds() {
    let mut genome = Genome::new(fx(0.5), fx(0.5), fx(0.5), fx(0.5), fx(0.5));

    for _ in 0..100 {
        genome.mutate(fx(1.0)); // Always mutate

        assert!(genome.strength >= 0 && genome.strength <= fx(1.0));
        assert!(genome.speed >= 0 && genome.speed <= fx(1.0));
        assert!(genome.size >= 0 && genome.size <= fx(1.0));
        assert!(genome.efficiency >= 0 && genome.efficiency <= fx(1.0));
        assert!(genome.reproduction >= 0 && genome.reproduction <= fx(1.0));

        // Verify trait budget is maintained after mutation
        let sum = genome.strength + genome.speed + genome.size + genome.efficiency + genome.reproduction;
        assert!(sum <= TRAIT_BUDGET + fx(0.001), "Trait sum should not exceed TRAIT_BUDGET after mutation");
        assert!(sum >= TRAIT_BUDGET / 2, "Trait sum should be reasonably close to TRAIT_BUDGET after mutation");
    }
}

#[test]
fn test_new_scales_in_proportion() {
    let genome = Genome::new(fx(0.8), fx(0.6), fx(0.7), fx(0.5), fx(0.4));
    assert_eq!(
        genome,
        Genome { strength: 666_666, speed: 500_000, size: 583_333, efficiency: 416_666, reproduction: 333_333 }
    );
}

#[test]
fn test_new_of_zeros_splits_the_budget() {
    let genome = Genome::new(0, 0, 0, 0, 0);
    assert_eq!(genome, Genome { strength: 500_000, speed: 500_000, size: 500_000, efficiency: 500_000, reproduction: 500_000 });
    assert_eq!(sum(&genome), TRAIT_BUDGET);
    let below = Genome::new(-3, -1, i64::MIN, -7, -9);
    assert_eq!(sum(&below), TRAIT_BUDGET);
}

#[test]
fn test_new_caps_a_dominant_trait() {
    let genome = Genome::new(fx(1.0), 0, 0, 0, 0);
    assert_eq!(genome, Genome { strength: UNIT, speed: 0, size: 0, efficiency: 0, reproduction: 0 });
    let genome = Genome::new(i64::MAX, fx(0.25), 0, 0, 0);
    assert_eq!(genome, Genome { strength: UNIT, speed: 500_000, size: 0, efficiency: 0, reproduction: 0 });
}

#[test]
fn test_balanced_genomes_reach_four_fifths_of_the_budget() {
    for s in [0, 1, 250_000, 600_000, UNIT] {
        for v in [0, 333_333, UNIT] {
            for z in [1, 500_000, UNIT] {
                let genome = Genome::new(s, v, z, 700_000, 123_456);
                let clamped = [s.clamp(0, UNIT), v.clamp(0, UNIT), z.clamp(0, UNIT), 700_000, 123_456];
                let total: i64 = clamped.iter().sum();
                let dominated = clamped.iter().any(|c| 5 * c > 3 * total);
                assert!(in_unit_range(&genome));
                assert!(sum(&genome) <= TRAIT_BUDGET);
                assert_eq!(sum(&genome) >= TRAIT_BUDGET * 4 / 5 - 4, !dominated);
            }
        }
    }
}

#[test]
fn test_default_is_one_half_everywhere() {
    let genome = Genome::default();
    assert_eq!(genome, Genome { strength: fx(0.5), speed: fx(0.5), size: fx(0.5), efficiency: fx(0.5), reproduction: fx(0.5) });
    assert!(genome.is_in_unit_range());
    assert!(!Genome { speed: UNIT + 1, ..genome }.is_in_unit_range());
    assert!(!Genome { size: -1, ..genome }.is_in_unit_range());
}

#[test]
fn test_energy_cost_formula() {
    // 1 + (2*0.5 + 1.5*0.5 + 1.8*0.5 + 0.5*0.5) * (2 - 0.5) = 5.35
    assert_eq!(Genome::default().energy_cost(), fx(5.35));
    let frugal = Genome { strength: 0, speed: 0, size: 0, efficiency: UNIT, reproduction: 0 };
    assert_eq!(frugal.energy_cost(), fx(1.0));
    let costly = Genome { strength: UNIT, speed: UNIT, size: UNIT, efficiency: 0, reproduction: UNIT };
    assert_eq!(costly.energy_cost(), fx(12.6));
}

#[test]
fn test_fitness_score_formula() {
    // The cube root of (0.5 + 0.25) * (0.5 + 0.5) * 0.5 = 0.375 is 0.7211247...
    assert_eq!(Genome::default().fitness_score(), 721_124);
    // The cube root of (1 + 0.5) * (1 + 1) * 1 = 3 is 1.4422495...
    let all = Genome { strength: UNIT, speed: UNIT, size: UNIT, efficiency: UNIT, reproduction: UNIT };
    assert_eq!(all.fitness_score(), 1_442_249);
    let barren = Genome { reproduction: 0, ..all };
    assert_eq!(barren.fitness_score(), 0);
}

#[test]
fn test_mutate_with_shifts_and_normalizes() {
    let mut genome = Genome::default();
    let noise = TraitNoise { strength: Some(fx(0.1) - 1), speed: Some(-fx(0.1)), size: None, efficiency: None, reproduction: None };
    genome.mutate_with(&noise);
    // 0.599999 + 0.4 + 0.5 + 0.5 + 0.5 = 2.499999 is scaled to the budget.
    assert_eq!(genome, Genome { strength: 599_999, speed: 400_000, size: 500_000, efficiency: 500_000, reproduction: 500_000 });
    let mut untouched = Genome { strength: UNIT, speed: UNIT, size: UNIT, efficiency: UNIT, reproduction: UNIT };
    untouched.mutate_with(&TraitNoise { strength: None, speed: None, size: None, efficiency: None, reproduction: None });
    assert_eq!(sum(&untouched), 5 * UNIT);
}

#[test]
fn test_mutate_with_clamps_before_it_scales() {
    let mut genome = Genome { strength: UNIT, speed: 0, size: 500_000, efficiency: 500_000, reproduction: 500_000 };
    let noise = TraitNoise { strength: Some(50_000), speed: Some(-50_000), size: None, efficiency: None, reproduction: None };
    genome.mutate_with(&noise);
    assert_eq!(genome, Genome { strength: UNIT, speed: 0, size: 500_000, efficiency: 500_000, reproduction: 500_000 });
}

#[test]
fn test_mutation_at_rate_zero_changes_nothing() {
    let start = Genome::new(fx(0.3), fx(0.9), fx(0.1), fx(0.5), fx(0.7));
    let mut genome = start;
    for _ in 0..50 {
        genome.mutate(0);
    }
    assert_eq!(genome, start);
    let mut rng = StdRng::seed_from_u64(3);
    genome.mutate_from(&mut rng, -5);
    assert_eq!(genome, start);
}

#[test]
fn test_noise_stays_in_span() {
    let mut rng = StdRng::seed_from_u64(11);
    let mut hit = 0;
    for _ in 0..200 {
        let noise = draw_noise(&mut rng, fx(0.5));
        for shift in [noise.strength, noise.speed, noise.size, noise.efficiency, noise.reproduction] {
            if let Some(d) = shift {
                assert!((-100_000..100_000).contains(&d));
                hit += 1;
            }
        }
    }
    assert!(hit > 300 && hit < 700);
    let always = draw_noise(&mut rng, UNIT);
    assert!(always.strength.is_some() && always.speed.is_some() && always.size.is_some());
    assert!(always.efficiency.is_some() && always.reproduction.is_some());
}

#[test]
fn test_crossover_with_takes_the_picked_traits() {
    let first = Genome { strength: 100_000, speed: 200_000, size: 300_000, efficiency: 900_000, reproduction: UNIT };
    let second = Genome { strength: 900_000, speed: 800_000, size: 700_000, efficiency: 100_000, reproduction: 0 };
    let picks = TraitPicks { strength: true, speed: false, size: true, efficiency: false, reproduction: true };
    // 0.1 + 0.8 + 0.3 + 0.1 + 1.0 = 2.3 is scaled up to the budget, and the last trait capped.
    let child = first.crossover_with(&second, &picks);
    assert_eq!(child, Genome { strength: 108_695, speed: 869_565, size: 326_086, efficiency: 108_695, reproduction: UNIT });
}

#[test]
fn test_crossover_mixes_the_parents() {
    let first = Genome { strength: UNIT, speed: 0, size: 500_000, efficiency: 500_000, reproduction: 500_000 };
    let second = Genome { strength: 0, speed: UNIT, size: 500_000, efficiency: 500_000, reproduction: 500_000 };
    let mut rng = StdRng::seed_from_u64(5);
    let mut seen = std::collections::HashSet::new();
    for _ in 0..100 {
        let child = first.crossover_from(&second, &mut rng);
        assert!(in_unit_range(&child));
        assert!(sum(&child) <= TRAIT_BUDGET);
        seen.insert((child.strength > 0, child.speed > 0));
    }
    assert_eq!(seen.len(), 4);
}

#[test]
fn test_random_genomes_keep_to_the_budget() {
    let mut rng = StdRng::seed_from_u64(9);
    let mut distinct = std::collections::HashSet::new();
    for _ in 0..100 {
        let genome = Genome::random_from(&mut rng);
        assert!(in_unit_range(&genome));
        assert!(sum(&genome) <= TRAIT_BUDGET);
        distinct.insert((genome.strength, genome.speed, genome.size));
    }
    assert!(distinct.len() > 90);
    let genome = Genome::random();
    assert!(in_unit_range(&genome) && sum(&genome) <= TRAIT_BUDGET);
}
