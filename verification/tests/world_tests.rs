use evo_islands::harvest::TileEvent;
use evo_islands::world::{resource_count, Tile, World};
use rand::rngs::StdRng;
use rand::SeedableRng;

/// A real number as the library holds it: in millionths.
fn fx(value: f64) -> i64 {
    (value * 1_000_000.0).round() as i64
}

#[test]
fn test_world_creation() {
    let world = World::new(100, 100);
    assert_eq!(world.width, 100);
    assert_eq!(world.height, 100);
}

#[test]
fn test_initialize_resources() {
    let mut rng = StdRng::seed_from_u64(42);
    let mut world = World::new(100, 100);
    world.initialize_resources(&mut rng, fx(0.05), fx(0.02));

    let total = world.total_food();
    assert!(total > 0, "World should have food after initialization");
}

#[test]
fn test_consume_food() {
    let mut world = World::new(10, 10);
    world.grid[5][5] = Tile::Food { amount: 10 };

    let consumed = world.consume_food(5, 5, 5);
    assert_eq!(consumed, 5);
    assert_eq!(world.get_available_food(5, 5), 5);

    let consumed = world.consume_food(5, 5, 10);
    assert_eq!(consumed, 5);
    assert_eq!(world.get_available_food(5, 5), 0);
    assert!(matches!(world.get_tile(5, 5), Some(Tile::Empty)));
}

#[test]
fn test_plant_regrowth() {
    let mut world = World::new(10, 10);
    world.grid[5][5] = Tile::Plant {
        current_food: 10,
        max_food: 10,
        regrowth_timer: 0,
    };

    // Consume all food
    world.consume_food(5, 5, 10);
    assert_eq!(world.get_available_food(5, 5), 0);

    // Tick 10 times to trigger regrowth
    for _ in 0..10 {
        world.tick_plants();
    }

    assert_eq!(world.get_available_food(5, 5), 1);

    // Continue ticking to regrow more
    for _ in 0..10 {
        world.tick_plants();
    }

    assert_eq!(world.get_available_food(5, 5), 2);
}

#[test]
fn test_find_food_in_radius() {
    let mut world = World::new(20, 20);
    world.grid[10][10] = Tile::Food { amount: 5 };
    world.grid[12][10] = Tile::Food { amount: 3 };
    world.grid[15][15] = Tile::Food { amount: 7 };

    let food = world.find_food_in_radius(10, 10, fx(3.0));
    assert_eq!(food.len(), 2); // Should find (10,10) and (12,10)

    let food = world.find_food_in_radius(10, 10, fx(10.0));
    assert_eq!(food.len(), 3); // Should find all three
}

#[test]
fn test_find_food_lists_by_rows() {
    let mut world = World::new(20, 20);
    world.set_tile(12, 9, Tile::Food { amount: 4 });
    world.set_tile(3, 10, Tile::Food { amount: 6 });
    world.set_tile(10, 10, Tile::Plant { current_food: 2, max_food: 10, regrowth_timer: 5 });
    world.set_tile(11, 10, Tile::Plant { current_food: 0, max_food: 10, regrowth_timer: 5 });
    let food = world.find_food_in_radius(10, 10, fx(7.5));
    assert_eq!(food, vec![(12, 9, 4), (3, 10, 6), (10, 10, 2)]);
}

#[test]
fn test_find_food_radius_is_a_circle() {
    let mut world = World::new(20, 20);
    world.set_tile(13, 14, Tile::Food { amount: 1 });
    // The tile is 5 away: 3 across and 4 down.
    assert_eq!(world.find_food_in_radius(10, 10, fx(5.0)), vec![(13, 14, 1)]);
    assert_eq!(world.find_food_in_radius(10, 10, fx(4.999999)), vec![]);
    assert_eq!(world.find_food_in_radius(10, 10, -1), vec![]);
}

#[test]
fn test_find_food_near_the_edge() {
    let mut world = World::new(4, 3);
    world.set_tile(0, 0, Tile::Food { amount: 9 });
    world.set_tile(3, 2, Tile::Food { amount: 8 });
    assert_eq!(world.find_food_in_radius(0, 0, fx(100.0)), vec![(0, 0, 9), (3, 2, 8)]);
    assert_eq!(world.find_food_in_radius(50, 50, fx(1.0)), vec![]);
    let nothing = World::new(0, 0);
    assert_eq!(nothing.find_food_in_radius(0, 0, fx(5.0)), vec![]);
}

#[test]
fn test_regrowth_saturates_at_max() {
    let mut world = World::new(3, 3);
    world.set_tile(1, 1, Tile::Plant { current_food: 10, max_food: 10, regrowth_timer: 0 });
    assert_eq!(world.consume_food(1, 1, 10), 10);
    for _ in 0..105 {
        world.tick_plants();
    }
    assert_eq!(world.get_available_food(1, 1), 10);
    assert_eq!(
        world.get_tile(1, 1),
        Some(&Tile::Plant { current_food: 10, max_food: 10, regrowth_timer: 0 })
    );
}

#[test]
fn test_partly_eaten_plant_regrows_at_once() {
    let mut world = World::new(3, 3);
    world.set_tile(1, 1, Tile::Plant { current_food: 10, max_food: 10, regrowth_timer: 0 });
    assert_eq!(world.consume_food(1, 1, 4), 4);
    world.tick_plants();
    assert_eq!(
        world.get_tile(1, 1),
        Some(&Tile::Plant { current_food: 7, max_food: 10, regrowth_timer: 10 })
    );
    world.tick_plants();
    assert_eq!(
        world.get_tile(1, 1),
        Some(&Tile::Plant { current_food: 7, max_food: 10, regrowth_timer: 9 })
    );
}

#[test]
fn test_depleted_plant_starts_timer() {
    let mut world = World::new(2, 2);
    world.set_tile(0, 1, Tile::Plant { current_food: 3, max_food: 10, regrowth_timer: 0 });
    assert_eq!(world.consume_food(0, 1, 10), 3);
    assert_eq!(
        world.get_tile(0, 1),
        Some(&Tile::Plant { current_food: 0, max_food: 10, regrowth_timer: 10 })
    );
}

#[test]
fn test_off_grid_positions() {
    let mut world = World::new(4, 4);
    assert!(world.is_valid_position(3, 3));
    assert!(!world.is_valid_position(4, 0));
    assert!(!world.is_valid_position(0, 4));
    assert_eq!(world.get_tile(4, 0), None);
    assert!(world.get_tile_mut(0, 4).is_none());
    assert_eq!(world.get_available_food(9, 9), 0);
    assert_eq!(world.consume_food(9, 9, 10), 0);
}

#[test]
fn test_get_tile_mut_changes_one_tile() {
    let mut world = World::new(4, 4);
    if let Some(tile) = world.get_tile_mut(2, 1) {
        *tile = Tile::Food { amount: 12 };
    }
    assert_eq!(world.get_available_food(2, 1), 12);
    assert_eq!(world.total_food(), 12);
}

#[test]
fn test_total_food_adds_plants_and_food() {
    let mut world = World::new(5, 5);
    world.set_tile(0, 0, Tile::Food { amount: 7 });
    world.set_tile(4, 4, Tile::Plant { current_food: 3, max_food: 10, regrowth_timer: 2 });
    world.set_tile(2, 2, Tile::Plant { current_food: 10, max_food: 10, regrowth_timer: 0 });
    assert_eq!(world.total_food(), 20);
}

#[test]
fn test_total_food_stops_at_the_largest_number() {
    let mut world = World::new(2, 1);
    world.set_tile(0, 0, Tile::Food { amount: u32::MAX });
    world.set_tile(1, 0, Tile::Food { amount: 5 });
    assert_eq!(world.total_food(), u32::MAX);
}

#[test]
fn test_place_only_on_empty_tiles() {
    let mut world = World::new(3, 3);
    assert!(world.place_plant(1, 1));
    assert_eq!(
        world.get_tile(1, 1),
        Some(&Tile::Plant { current_food: 10, max_food: 10, regrowth_timer: 0 })
    );
    assert!(!world.place_food(1, 1, 9));
    assert!(!world.place_plant(1, 1));
    assert!(world.place_food(0, 2, 9));
    assert_eq!(world.get_tile(0, 2), Some(&Tile::Food { amount: 9 }));
}

#[test]
fn test_resource_count_rounds_down() {
    assert_eq!(resource_count(300, 300, fx(0.08)), 7200);
    assert_eq!(resource_count(300, 300, fx(0.04)), 3600);
    assert_eq!(resource_count(10, 10, fx(0.055)), 5);
    assert_eq!(resource_count(10, 10, 0), 0);
    assert_eq!(resource_count(10, 10, -5), 0);
    assert_eq!(resource_count(0, 10, fx(0.5)), 0);
    assert_eq!(resource_count(usize::MAX, usize::MAX, i64::MAX), usize::MAX);
}

#[test]
fn test_seeded_world_holds_plants_and_food_only_in_range() {
    let mut rng = StdRng::seed_from_u64(7);
    let mut world = World::new(30, 20);
    world.initialize_resources(&mut rng, fx(0.08), fx(0.04));
    let mut plants = 0;
    let mut food = 0;
    for y in 0..20 {
        for x in 0..30 {
            match world.get_tile(x, y) {
                Some(Tile::Plant { current_food, max_food, regrowth_timer }) => {
                    assert_eq!((*current_food, *max_food, *regrowth_timer), (10, 10, 0));
                    plants += 1;
                }
                Some(Tile::Food { amount }) => {
                    assert!((5..=15).contains(amount));
                    food += 1;
                }
                Some(Tile::Empty) => {}
                None => panic!("a position of the grid"),
            }
        }
    }
    assert!(plants > 0 && plants <= 48);
    assert!(food > 0 && food <= 24);
}

#[test]
fn test_no_density_leaves_the_world_empty() {
    let mut rng = StdRng::seed_from_u64(1);
    let mut world = World::new(20, 20);
    world.initialize_resources(&mut rng, 0, 0);
    assert_eq!(world.total_food(), 0);
}

#[test]
fn test_tile_eat_and_regrow() {
    let mut tile = Tile::Food { amount: 3 };
    assert_eq!(tile.available(), 3);
    assert_eq!(tile.eat(2), 2);
    assert_eq!(tile, Tile::Food { amount: 1 });
    assert_eq!(tile.eat(2), 1);
    assert_eq!(tile, Tile::Empty);
    assert_eq!(tile.eat(2), 0);
    let plant = Tile::Plant { current_food: 9, max_food: 10, regrowth_timer: 1 };
    assert_eq!(plant.regrown(), Tile::Plant { current_food: 10, max_food: 10, regrowth_timer: 0 });
    assert_eq!(plant.regrown().regrown(), plant.regrown());
    assert_eq!(Tile::Empty.regrown(), Tile::Empty);
}

#[test]
fn test_eating_never_overdraws_a_plant() {
    let mut world = World::new(1, 1);
    world.set_tile(0, 0, Tile::Plant { current_food: 10, max_food: 10, regrowth_timer: 0 });
    let mut events = vec![TileEvent::Eat(10)];
    for _ in 0..100 {
        for _ in 0..10 {
            events.push(TileEvent::Tick);
        }
        events.push(TileEvent::Eat(10));
    }
    let mut eaten = 0;
    let mut ticks = 0;
    for event in events.iter() {
        match event {
            TileEvent::Eat(requested) => eaten += world.consume_food(0, 0, *requested),
            TileEvent::Tick => {
                world.tick_plants();
                ticks += 1;
            }
        }
        assert!(eaten <= 10 + ticks / 10);
    }
    assert_eq!(ticks, 1000);
    assert_eq!(eaten, 10 + 1000 / 10);
}

#[test]
fn test_a_meal_from_a_bare_plant_restarts_its_timer() {
    let mut world = World::new(1, 1);
    world.set_tile(0, 0, Tile::Plant { current_food: 0, max_food: 10, regrowth_timer: 1 });
    assert_eq!(world.consume_food(0, 0, 10), 0);
    assert_eq!(
        world.get_tile(0, 0),
        Some(&Tile::Plant { current_food: 0, max_food: 10, regrowth_timer: 10 })
    );
}

#[test]
fn test_sowing_an_empty_world_places_something() {
    for seed in 0..50 {
        let mut rng = StdRng::seed_from_u64(seed);
        let mut world = World::new(10, 10);
        // One plant and one food tile are asked for.
        world.initialize_resources(&mut rng, fx(0.01), fx(0.01));
        let mut plants = 0;
        let mut food = 0;
        for y in 0..10 {
            for x in 0..10 {
                match world.get_tile(x, y) {
                    Some(Tile::Plant { .. }) => plants += 1,
                    Some(Tile::Food { .. }) => food += 1,
                    _ => {}
                }
            }
        }
        assert_eq!(plants, 1);
        assert!(food <= 1);
        let mut only_food = World::new(10, 10);
        only_food.initialize_resources(&mut rng, fx(0.009), fx(0.02));
        let total = only_food.total_food();
        assert!((5..=30).contains(&total));
        assert!((0..10).all(|y| (0..10).all(|x| !matches!(
            only_food.get_tile(x, y),
            Some(Tile::Plant { .. })
        ))));
    }
}
