//! One simulation run: creatures of several lineages compete for food on a
//! grid, tick by tick.

use crate::chance::{choose_direction, shuffle, thread_seeded_rng, uniform_below};
use crate::creature::{Creature, Direction};
use crate::fixed::UNIT;
use crate::genes::Genome;
use crate::lineage::{
    capped_sum, count_spawn, credit_food, lemma_lineages_within_transitive,
    lemma_records_grown_transitive, lemma_same_lineages_within, lemma_single_lineage_stays,
    spec_all_alive, spec_capped_count, spec_count_lineage, spec_counted, spec_distinct_lineages,
    spec_filed, spec_lineage_present, spec_lineages_within, spec_records, spec_records_grown,
    spec_single_lineage, spec_sown, spec_tracks, LineageRecord, SurvivalStats,
};
use crate::phases::{
    lemma_winner_is_strongest, spec_after_meal, spec_bound, spec_bred_pair, spec_dead_food,
    spec_fitness_keys, spec_fitness_total, spec_herd_fed, spec_herd_moved, spec_indices,
    spec_living, spec_moved, spec_moved_by, spec_offspring, spec_paid, spec_pairs_bred,
    spec_population_cap, spec_records_after_deaths, spec_reproduced, spec_same_but_position,
    spec_sound_offspring, spec_tile_after_meals, spec_tile_key, spec_weakest, spec_welcomed,
    spec_winner, spec_winner_noted, spec_world_fed, spec_world_regrown, Breeding, MEAL,
};
use crate::protocol::{spec_fittest_first, GenomeWithFitness};
use crate::ranking::{is_top, ranks_before, top_positions};
use crate::world::{
    lists_position, row_major_before, spec_freshly_sown, spec_holds_only, spec_resource_count,
    spec_sown_at, Tile, World, FOOD_MAX, FOOD_MIN, PLANT_CAPACITY,
};
use rand::rngs::StdRng;
use std::collections::{HashMap, HashSet};
use vstd::prelude::*;

verus! {

broadcast use vstd::std_specs::hash::group_hash_axioms;

/// How a run is set up.
#[derive(Debug, Clone, Copy, PartialEq, Eq, Structural)]
pub struct IslandConfig {
    pub world_width: usize,
    pub world_height: usize,
    /// The tick after which the run ends at the latest.
    pub max_steps: u32,
    /// The chance that a trait of a newborn mutates.
    pub mutation_rate: i64,
    /// The share of tiles that plants are placed on.
    pub plant_density: i64,
    /// The share of tiles that food is dropped on.
    pub food_density: i64,
    /// The energy that a creature needs before it is paired for breeding.
    pub reproduction_threshold: i64,
}

impl Default for IslandConfig {
    /// A world of 300 by 300 tiles run for 3000 ticks, with a mutation rate
    /// of 0.05, plants on 8% and food on 4% of the tiles, and breeding from
    /// an energy of 60.
    fn default() -> (config: IslandConfig)
        ensures
            config == (IslandConfig {
                world_width: 300,
                world_height: 300,
                max_steps: 3000,
                mutation_rate: 50_000,
                plant_density: 80_000,
                food_density: 40_000,
                reproduction_threshold: 60_000_000,
            }),
    {
        IslandConfig {
            world_width: 300,
            world_height: 300,
            max_steps: 3000,
            mutation_rate: 50_000,
            plant_density: 80_000,
            food_density: 40_000,
            reproduction_threshold: 60_000_000,
        }
    }
}

/// What a creature has decided to do in a tick.
#[derive(Debug, Clone, Copy, PartialEq, Eq, Structural)]
pub enum Action {
    Move(Direction),
}

/// What one tick makes of an island. The plants regrow; every creature
/// stays or takes one step; on every tile with food the winner eats and
/// the others are hurt; the dead are removed and what they had eaten is
/// credited; the living reproduce; and the tick is counted.
pub open spec fn spec_ticked(before: &Island, after: &Island) -> bool {
    exists|regrown: World, moved: Seq<Creature>, fed: Seq<Creature>, credited: Seq<LineageRecord>|
        {
            &&& #[trigger] spec_world_regrown(&before.world, &regrown)
            &&& #[trigger] spec_herd_moved(
                before.creatures@,
                moved,
                before.world.width,
                before.world.height,
            )
            &&& #[trigger] spec_herd_fed(moved, &regrown, fed)
            &&& spec_world_fed(moved, &regrown, &after.world)
            &&& #[trigger] spec_records_after_deaths(before.records(), fed, credited)
            &&& spec_reproduced(
                spec_living(fed),
                credited,
                before.config,
                before.spec_cap(),
                after.creatures@,
                after.records(),
            )
            &&& after.config == before.config
            &&& after.step == (if before.step < u32::MAX {
                (before.step + 1) as u32
            } else {
                u32::MAX
            })
        }
}

/// Both islands are in the same state.
pub open spec fn spec_same_state(a: &Island, b: &Island) -> bool {
    &&& a.config == b.config
    &&& a.step == b.step
    &&& a.world.same_tiles(&b.world)
    &&& a.creatures@ == b.creatures@
    &&& a.records() == b.records()
}

/// `after` is what a run makes of `before` in `ticks` ticks: one tick
/// follows the other while the configured number of steps has not been
/// reached and, from the second tick on, more than one lineage is left.
pub open spec fn spec_ran(before: &Island, ticks: nat, after: &Island) -> bool
    decreases ticks,
{
    if ticks == 0 {
        spec_same_state(before, after)
    } else {
        exists|mid: Island|
            {
                &&& spec_ran(before, (ticks - 1) as nat, &mid)
                &&& mid.step < mid.config.max_steps
                &&& ticks >= 2 ==> !spec_single_lineage(mid.creatures@)
                &&& #[trigger] spec_ticked(&mid, after)
            }
    }
}

/// `island` is a new island of the given set-up and seeds: a freshly sown
/// world of the configured size, one newborn creature for each seed, in the
/// order of the seeds, and one record for each seeded lineage, as spawned
/// once.
pub open spec fn spec_started(config: IslandConfig, seeds: Seq<(u128, Genome)>,
    island: &Island) -> bool {
    &&& island.wf()
    &&& island.config == config
    &&& island.step == 0
    &&& spec_freshly_sown(
        &island.world,
        spec_resource_count(config.world_width, config.world_height, config.plant_density),
        spec_resource_count(config.world_width, config.world_height, config.food_density),
    )
    &&& island.creatures@.len() == seeds.len()
    &&& forall|i: int|
        0 <= i < seeds.len() ==> #[trigger] island.creatures@[i] == Creature::spec_newborn(
            island.creatures@[i].id,
            seeds[i].1,
            seeds[i].0,
            island.creatures@[i].x,
            island.creatures@[i].y,
        )
    &&& forall|i: int|
        0 <= i < seeds.len() ==> spec_tracks(island.records(), (#[trigger] seeds[i]).0)
    &&& forall|k: int|
        0 <= k < island.records().len() ==> {
            &&& (#[trigger] island.records()[k]).total_spawned == 1
            &&& island.records()[k].total_food_eaten == 0
            &&& spec_sown(seeds, island.records()[k].genome_id)
        }
}

/// `end` is where a run from `start` ends, and `results` is its report: the
/// run has gone on, tick by tick, until the configured number of steps was
/// reached or, after a tick, at most one lineage was left; and the report
/// holds, for every record, the survivors of its lineage and its counters.
pub open spec fn spec_finished(start: &Island, end: &Island, results: Seq<SurvivalStats>) -> bool {
    &&& end.step >= start.step
    &&& spec_ran(start, (end.step - start.step) as nat, end)
    &&& end.step >= start.config.max_steps || (end.step > start.step && spec_single_lineage(
        end.creatures@,
    ))
    &&& results.len() == end.records().len()
    &&& forall|k: int|
        0 <= k < results.len() ==> #[trigger] results[k] == end.spec_survival(end.records()[k])
}

/// `results` is the report of some run of the given set-up from the given
/// seeds.
pub open spec fn spec_simulated(
    config: IslandConfig,
    seeds: Seq<(u128, Genome)>,
    results: Seq<SurvivalStats>,
) -> bool {
    exists|start: Island, end: Island|
        #[trigger] spec_started(config, seeds, &start) && #[trigger] spec_finished(
            &start,
            &end,
            results,
        )
}

/// A run of the simulation: a world, the creatures on it, and the account
/// of every lineage that was seeded.
#[derive(Debug, Clone)]
pub struct Island {
    pub config: IslandConfig,
    pub world: World,
    pub creatures: Vec<Creature>,
    /// The ticks that have passed.
    pub step: u32,
    /// The record of every lineage that was seeded, by its identifier.
    pub genome_stats: HashMap<u128, LineageRecord>,
    /// The seeded lineages, in the order of the seeds.
    pub lineage_order: Vec<u128>,
}

/// The number that stands for the tile at (`x`, `y`) where tiles are looked
/// up.
fn tile_key(x: usize, y: usize) -> (key: u128)
    ensures
        key == spec_tile_key(x, y),
{
    (y as u128) * 0x1_0000_0000_0000_0000 + (x as u128)
}

impl Island {
    /// The world has the configured size and is well formed, every creature
    /// is well formed and stands on the grid, and every lineage of
    /// `lineage_order` has its record and stands there once.
    pub open spec fn wf(&self) -> bool {
        &&& self.world.wf()
        &&& self.world.width == self.config.world_width
        &&& self.world.height == self.config.world_height
        &&& forall|i: int|
            0 <= i < self.creatures@.len() ==> (#[trigger] self.creatures@[i]).wf()
                && self.creatures@[i].inside(self.world.width, self.world.height)
        &&& spec_filed(self.genome_stats@, self.lineage_order@)
        &&& spec_distinct_lineages(self.records())
    }

    /// The records of the seeded lineages, in the order of the seeds.
    pub open spec fn records(&self) -> Seq<LineageRecord> {
        spec_records(self.genome_stats@, self.lineage_order@)
    }

    /// The most creatures the island holds.
    pub open spec fn spec_cap(&self) -> int {
        spec_population_cap(self.world.width, self.world.height)
    }

    /// What the run reports for the lineage of `record`.
    pub open spec fn spec_survival(&self, record: LineageRecord) -> SurvivalStats {
        let alive = spec_count_lineage(self.creatures@, record.genome_id);
        SurvivalStats {
            genome_id: record.genome_id,
            survived: if alive > u32::MAX as nat {
                u32::MAX
            } else {
                alive as u32
            },
            total_spawned: record.total_spawned,
            total_food_eaten: record.total_food_eaten,
        }
    }

    /// A new island: a freshly seeded world of the configured size and one
    /// creature for each seed, at a random position, with full energy and
    /// health. Every seeded lineage is tracked once, as spawned once.
    pub fn new(config: IslandConfig, seed_genomes: Vec<(u128, Genome)>) -> (island: Island)
        requires
            config.world_width > 0,
            config.world_height > 0,
            forall|i: int| 0 <= i < seed_genomes@.len() ==>
                (#[trigger] seed_genomes@[i]).1.in_unit_range(),
        ensures
            spec_started(config, seed_genomes@, &island),
    {
        let mut rng = thread_seeded_rng();
        Island::new_from(config, seed_genomes, &mut rng)
    }

    /// A new island as `new` makes it, with every draw taken from `rng`.
    pub fn new_from(
        config: IslandConfig,
        seed_genomes: Vec<(u128, Genome)>,
        rng: &mut StdRng,
    ) -> (island: Island)
        requires
            config.world_width > 0,
            config.world_height > 0,
            forall|i: int| 0 <= i < seed_genomes@.len() ==>
                (#[trigger] seed_genomes@[i]).1.in_unit_range(),
        ensures
            spec_started(config, seed_genomes@, &island),
    {
        let mut world = World::new(config.world_width, config.world_height);
        let ghost blank = world;
        world.initialize_resources(rng, config.plant_density, config.food_density);
        proof {
            let (plants, food) = choose|plants: Set<(int, int)>, food: Set<(int, int)>|
                {
                    &&& plants.finite() && plants.len() <= spec_resource_count(
                        config.world_width,
                        config.world_height,
                        config.plant_density,
                    )
                    &&& food.finite() && food.len() <= spec_resource_count(
                        config.world_width,
                        config.world_height,
                        config.food_density,
                    )
                    &&& #[trigger] spec_sown_at(&blank, &world, plants, food)
                };
            assert(spec_holds_only(&world, plants, food)) by {
                assert forall|x: int, y: int| world.in_bounds(x, y) implies {
                    ||| #[trigger] world.tile_at(x, y) == Tile::Empty
                    ||| (plants.contains((x, y)) && world.tile_at(x, y) == Tile::Plant {
                        current_food: PLANT_CAPACITY,
                        max_food: PLANT_CAPACITY,
                        regrowth_timer: 0,
                    })
                    ||| (food.contains((x, y)) && exists|amount: u32|
                        FOOD_MIN <= amount <= FOOD_MAX && world.tile_at(x, y)
                            == (Tile::Food { amount }))
                } by {
                    assert(blank.tile_at(x, y) == Tile::Empty);
                }
            }
        }
        let mut creatures: Vec<Creature> = Vec::new();
        let mut genome_stats: HashMap<u128, LineageRecord> = HashMap::new();
        let mut lineage_order: Vec<u128> = Vec::new();
        let mut i: usize = 0;
        while i < seed_genomes.len()
            invariant
                i <= seed_genomes@.len(),
                world.wf(),
                spec_freshly_sown(
                    &world,
                    spec_resource_count(
                        config.world_width,
                        config.world_height,
                        config.plant_density,
                    ),
                    spec_resource_count(config.world_width, config.world_height,
                        config.food_density),
                ),
                world.width == config.world_width && world.height == config.world_height,
                config.world_width > 0 && config.world_height > 0,
                forall|j: int|
                    0 <= j < seed_genomes@.len() ==>
                        (#[trigger] seed_genomes@[j]).1.in_unit_range(),
                creatures@.len() == i,
                forall|j: int|
                    0 <= j < i ==> {
                        &&& #[trigger] creatures@[j] == Creature::spec_newborn(
                            creatures@[j].id,
                            seed_genomes@[j].1,
                            seed_genomes@[j].0,
                            creatures@[j].x,
                            creatures@[j].y,
                        )
                        &&& creatures@[j].inside(world.width, world.height)
                    },
                spec_distinct_lineages(spec_records(genome_stats@, lineage_order@)),
                spec_filed(genome_stats@, lineage_order@),
                forall|id: u128| #[trigger]
                    genome_stats@.contains_key(id) ==> spec_tracks(
                        spec_records(genome_stats@, lineage_order@),
                        id,
                    ),
                forall|j: int| 0 <= j < i ==>
                    spec_tracks(spec_records(genome_stats@, lineage_order@),
                        (#[trigger] seed_genomes@[j]).0),
                forall|k: int|
                    0 <= k < spec_records(genome_stats@, lineage_order@).len() ==> {
                        &&& (#[trigger] spec_records(genome_stats@,
                            lineage_order@)[k]).total_spawned == 1
                        &&& spec_records(genome_stats@, lineage_order@)[k].total_food_eaten == 0
                        &&& exists|j: int|
                            0 <= j < i
                                && (#[trigger] seed_genomes@[j]).0 == spec_records(genome_stats@,
                                    lineage_order@)[k].genome_id
                    },
            decreases seed_genomes@.len() - i,
        {
            let (genome_id, genome) = seed_genomes[i];
            let x = uniform_below(rng, config.world_width as u64) as usize;
            let y = uniform_below(rng, config.world_height as u64) as usize;
            creatures.push(Creature::new(genome, genome_id, x, y));
            let ghost before = spec_records(genome_stats@, lineage_order@);
            let ghost filed = genome_stats@;
            if !genome_stats.contains_key(&genome_id) {
                genome_stats.insert(
                    genome_id,
                    LineageRecord { genome_id, total_spawned: 1, total_food_eaten: 0 },
                );
                lineage_order.push(genome_id);
                proof {
                    assert forall|k: int| 0 <= k < before.len() implies lineage_order@[k]
                        != genome_id by {
                        assert(filed.contains_key(lineage_order@[k]));
                    }
                    assert(spec_records(genome_stats@, lineage_order@) =~= before.push(
                        LineageRecord { genome_id, total_spawned: 1, total_food_eaten: 0 },
                    ));
                }
            } else {
                proof {
                    assert(spec_tracks(before, genome_id));
                }
            }
            proof {
                assert forall|id: u128| #[trigger] genome_stats@.contains_key(id) implies
                    spec_tracks(
                    spec_records(genome_stats@, lineage_order@),
                    id,
                ) by {
                    if filed.contains_key(id) {
                        assert(spec_tracks(before, id));
                        let k = choose|k: int| 0 <= k < before.len()
                            && (#[trigger] before[k]).genome_id == id;
                        assert(spec_records(genome_stats@, lineage_order@)[k].genome_id == id);
                    } else {
                        assert(spec_records(genome_stats@,
                            lineage_order@)[before.len() as int].genome_id
                            == id);
                    }
                }
                assert forall|j: int| 0 <= j < i + 1 implies spec_tracks(
                    spec_records(genome_stats@, lineage_order@),
                    (#[trigger] seed_genomes@[j]).0,
                ) by {
                    let id = seed_genomes@[j].0;
                    if spec_tracks(before, id) {
                        let k = choose|k: int| 0 <= k < before.len()
                            && (#[trigger] before[k]).genome_id == id;
                        assert(spec_records(genome_stats@, lineage_order@)[k].genome_id == id);
                    } else {
                        assert(j == i);
                        assert(spec_records(genome_stats@,
                            lineage_order@)[before.len() as int].genome_id == id);
                    }
                }
                assert forall|k: int| 0 <= k < spec_records(genome_stats@,
                    lineage_order@).len() implies (exists|j: int|
                    0 <= j < i + 1 && (#[trigger] seed_genomes@[j]).0 == (
                    #[trigger] spec_records(genome_stats@, lineage_order@)[k]).genome_id) by {
                    if k < before.len() {
                        let j = choose|j: int|
                            0 <= j < i && (#[trigger] seed_genomes@[j]).0 == before[k].genome_id;
                        assert(seed_genomes@[j].0 == spec_records(genome_stats@,
                            lineage_order@)[k].genome_id);
                    } else {
                        assert(seed_genomes@[i as int].0 == spec_records(genome_stats@,
                            lineage_order@)[k].genome_id);
                    }
                }
            }
            i += 1;
        }
        let island = Island { config, world, creatures, step: 0, genome_stats, lineage_order };
        proof {
            assert forall|k: int| 0 <= k < island.records().len() implies spec_sown(
                seed_genomes@,
                (#[trigger] island.records()[k]).genome_id,
            ) by {
                let j = choose|j: int|
                    0 <= j < seed_genomes@.len() && (#[trigger] seed_genomes@[j]).0
                        == island.records()[k].genome_id;
                assert(seed_genomes@[j].0 == island.records()[k].genome_id);
            }
        }
        island
    }

    /// Whether the run is over because at most one lineage is left.
    pub fn should_stop(&self) -> (stop: bool)
        ensures
            stop == spec_single_lineage(self.creatures@),
    {
        let mut unique: HashSet<u128> = HashSet::new();
        let mut i: usize = 0;
        while i < self.creatures.len()
            invariant
                i <= self.creatures@.len(),
                unique@.finite(),
                forall|id: u128| #[trigger]
                    unique@.contains(id) <==> spec_lineage_present(
                        self.creatures@.take(i as int),
                        id,
                    ),
            decreases self.creatures@.len() - i,
        {
            let ghost before = unique@;
            let ghost herd = self.creatures@.take(i as int);
            let ghost grown = self.creatures@.take(i + 1);
            let genome_id = self.creatures[i].genome_id;
            unique.insert(genome_id);
            proof {
                assert forall|id: u128| #[trigger]
                    unique@.contains(id) <==> spec_lineage_present(grown, id) by {
                    assert(before.contains(id) <==> spec_lineage_present(herd, id));
                    if spec_lineage_present(herd, id) {
                        let j = choose|j: int|
                            0 <= j < herd.len() && (#[trigger] herd[j]).genome_id == id;
                        assert(grown[j].genome_id == id);
                    }
                    if id == genome_id {
                        assert(grown[i as int].genome_id == id);
                    }
                    if spec_lineage_present(grown, id) && id != genome_id {
                        let j = choose|j: int|
                            0 <= j < grown.len() && (#[trigger] grown[j]).genome_id == id;
                        assert(herd[j].genome_id == id);
                    }
                }
            }
            i += 1;
        }
        let stop = unique.len() <= 1;
        proof {
            let herd = self.creatures@;
            assert(herd.take(herd.len() as int) =~= herd);
            if spec_single_lineage(herd) {
                if herd.len() == 0 {
                    assert(unique@ =~= Set::<u128>::empty());
                } else {
                    let first = herd[0].genome_id;
                    assert forall|id: u128| unique@.contains(id) <==> id == first by {
                        if unique@.contains(id) {
                            let j = choose|j: int|
                            0 <= j < herd.len() && (#[trigger] herd[j]).genome_id == id;
                            assert(herd[j].genome_id == herd[0].genome_id);
                        } else if id == first {
                            assert(spec_lineage_present(herd, herd[0].genome_id));
                        }
                    }
                    assert(unique@ =~= Set::<u128>::empty().insert(first));
                }
            } else {
                let (a, b) = choose|a: int, b: int|
                    0 <= a < herd.len() && 0 <= b < herd.len() && (#[trigger] herd[a]).genome_id
                        != (#[trigger] herd[b]).genome_id;
                assert(spec_lineage_present(herd, herd[a].genome_id));
                assert(spec_lineage_present(herd, herd[b].genome_id));
                let one = herd[a].genome_id;
                let other = herd[b].genome_id;
                assert(unique@.remove(one).contains(other));
                assert(unique@.remove(one).remove(other).len() >= 0);
            }
        }
        stop
    }

    /// The creatures that are alive, counted by lineage; a count stops at
    /// `u32::MAX`. A lineage without survivors has no entry.
    fn count_survivors(&self) -> (alive: HashMap<u128, u32>)
        ensures
            forall|id: u128|
                spec_counted(alive@, id) == spec_capped_count(
                    #[trigger] spec_count_lineage(self.creatures@, id),
                ),
    {
        let mut alive: HashMap<u128, u32> = HashMap::new();
        let mut i: usize = 0;
        while i < self.creatures.len()
            invariant
                i <= self.creatures@.len(),
                forall|id: u128|
                    spec_counted(alive@, id) == spec_capped_count(
                        #[trigger] spec_count_lineage(self.creatures@.take(i as int), id),
                    ),
            decreases self.creatures@.len() - i,
        {
            let genome_id = self.creatures[i].genome_id;
            let ghost before = alive@;
            let so_far: u32 = match alive.get(&genome_id) {
                Some(count) => *count,
                None => 0,
            };
            alive.insert(genome_id, so_far.saturating_add(1));
            proof {
                assert(self.creatures@.take(i + 1).drop_last() =~= self.creatures@.take(i as int));
                assert forall|id: u128|
                    spec_counted(alive@, id) == spec_capped_count(
                        #[trigger] spec_count_lineage(self.creatures@.take(i + 1), id),
                    ) by {
                    assert(spec_counted(before, id) == spec_capped_count(
                        spec_count_lineage(self.creatures@.take(i as int), id),
                    ));
                }
            }
            i += 1;
        }
        proof {
            assert(self.creatures@.take(self.creatures@.len() as int) =~= self.creatures@);
        }
        alive
    }

    /// The records of the seeded lineages, in the order of the seeds.
    pub fn lineage_records(&self) -> (records: Vec<LineageRecord>)
        requires
            self.wf(),
        ensures
            records@ == self.records(),
    {
        let mut records: Vec<LineageRecord> = Vec::new();
        let mut k: usize = 0;
        while k < self.lineage_order.len()
            invariant
                self.wf(),
                k <= self.lineage_order@.len(),
                records@.len() == k,
                forall|j: int| 0 <= j < k ==> #[trigger] records@[j] == self.records()[j],
            decreases self.lineage_order@.len() - k,
        {
            let genome_id = self.lineage_order[k];
            let record = match self.genome_stats.get(&genome_id) {
                Some(record) => *record,
                None => LineageRecord { genome_id, total_spawned: 0, total_food_eaten: 0 },
            };
            records.push(record);
            k += 1;
        }
        assert(records@ =~= self.records());
        records
    }

    /// The outcome of the run so far: for every tracked lineage, in the
    /// order of the records, the creatures of it that are alive and what
    /// its record holds. A lineage without survivors is reported too.
    pub fn collect_survival_stats(&self) -> (results: Vec<SurvivalStats>)
        requires
            self.wf(),
        ensures
            results@.len() == self.records().len(),
            forall|k: int|
                0 <= k < results@.len() ==> #[trigger] results@[k] == self.spec_survival(
                    self.records()[k],
                ),
    {
        let survivors = self.count_survivors();
        let mut results: Vec<SurvivalStats> = Vec::new();
        let mut k: usize = 0;
        while k < self.lineage_order.len()
            invariant
                self.wf(),
                forall|id: u128|
                    spec_counted(survivors@, id) == spec_capped_count(
                        #[trigger] spec_count_lineage(self.creatures@, id),
                    ),
                k <= self.records().len(),
                results@.len() == k,
                forall|j: int|
                    0 <= j < k ==>
                        #[trigger] results@[j] == self.spec_survival(self.records()[j]),
            decreases self.records().len() - k,
        {
            let genome_id = self.lineage_order[k];
            let record = match self.genome_stats.get(&genome_id) {
                Some(record) => *record,
                None => LineageRecord { genome_id, total_spawned: 0, total_food_eaten: 0 },
            };
            let survived: u32 = match survivors.get(&genome_id) {
                Some(count) => *count,
                None => 0,
            };
            results.push(
                SurvivalStats {
                    genome_id: record.genome_id,
                    survived,
                    total_spawned: record.total_spawned,
                    total_food_eaten: record.total_food_eaten,
                },
            );
            k += 1;
        }
        results
    }

    /// Whether creature `k` is the one to evict when the island is full.
    pub open spec fn spec_is_weakest(&self, k: int) -> bool {
        spec_weakest(self.creatures@, k)
    }

    /// The creature to evict when the island is full: among those out of
    /// energy the one with the least health, and the first of them where
    /// several have as little. `None` where every creature has energy.
    pub fn find_weakest_creature(&self) -> (weakest: Option<usize>)
        ensures
            match weakest {
                Some(k) => self.spec_is_weakest(k as int),
                None => forall|j: int|
                    0 <= j < self.creatures@.len() ==> (#[trigger] self.creatures@[j]).energy > 0,
            },
    {
        let mut weakest: Option<usize> = None;
        let mut i: usize = 0;
        while i < self.creatures.len()
            invariant
                i <= self.creatures@.len(),
                match weakest {
                    Some(k) => {
                        &&& k < i
                        &&& self.creatures@[k as int].energy <= 0
                        &&& forall|j: int|
                            0 <= j < i && (#[trigger] self.creatures@[j]).energy <= 0
                                ==> self.creatures@[k as int].health <= self.creatures@[j].health
                                    && (j
                                < k ==> self.creatures@[k as int].health <
                                    self.creatures@[j].health)
                    },
                    None => forall|j: int| 0 <= j < i ==>
                        (#[trigger] self.creatures@[j]).energy > 0,
                },
            decreases self.creatures@.len() - i,
        {
            let creature = self.creatures[i];
            if creature.energy <= 0 {
                let lower = match weakest {
                    Some(k) => creature.health < self.creatures[k].health,
                    None => true,
                };
                if lower {
                    weakest = Some(i);
                }
            }
            i += 1;
        }
        weakest
    }
    /// The winner of every tile on which a creature stands, as `spec_winner`
    /// names it, under the key of the tile.
    fn winners(&self) -> (table: HashMap<u128, usize>)
        requires
            self.wf(),
        ensures
            forall|a: usize, b: usize| #[trigger] spec_winner_noted(table@, self.creatures@, a, b),
    {
        let mut table: HashMap<u128, usize> = HashMap::new();
        let mut i: usize = 0;
        while i < self.creatures.len()
            invariant
                self.wf(),
                i <= self.creatures@.len(),
                forall|key: u128| table@.contains_key(key) ==> (#[trigger] table@[key]) < i,
                forall|a: usize, b: usize| #[trigger]
                    spec_winner_noted(table@, self.creatures@.take(i as int), a, b),
            decreases self.creatures@.len() - i,
        {
            let creature = self.creatures[i];
            let ghost shorter = self.creatures@.take(i as int);
            let ghost longer = self.creatures@.take(i + 1);
            let ghost before = table@;
            proof {
                assert(longer.drop_last() =~= shorter);
                assert(longer.last() == creature);
                assert(spec_winner_noted(before, shorter, creature.x, creature.y));
            }
            let key = tile_key(creature.x, creature.y);
            let stronger = match table.get(&key) {
                Some(k) => {
                    proof {
                        assert(longer[*k as int] == self.creatures@[*k as int]);
                    }
                    creature.combat_power() > self.creatures[*k].combat_power()
                },
                None => true,
            };
            if stronger {
                table.insert(key, i);
            }
            proof {
                assert forall|a: usize, b: usize| #[trigger]
                    spec_winner_noted(table@, longer, a, b) by {
                    assert(spec_winner_noted(before, shorter, a, b));
                    if !(a == creature.x && b == creature.y) {
                        assert(spec_tile_key(a, b) != key);
                    }
                }
            }
            i += 1;
        }
        proof {
            assert(self.creatures@.take(self.creatures@.len() as int) =~= self.creatures@);
        }
        table
    }

    /// The eating phase of a tick. On every tile that holds food and on
    /// which creatures stand, the winner of the tile eats a meal and the
    /// others are hurt.
    pub fn execute_eating(&mut self)
        requires
            old(self).wf(),
        ensures
            final(self).wf(),
            final(self).config == old(self).config,
            final(self).step == old(self).step,
            final(self).genome_stats == old(self).genome_stats,
            final(self).lineage_order == old(self).lineage_order,
            final(self).creatures@.len() == old(self).creatures@.len(),
            forall|i: int|
                0 <= i < old(self).creatures@.len() ==> #[trigger] final(self).creatures@[i]
                    == spec_after_meal(old(self).creatures@, &old(self).world, i),
            final(self).world.same_size(&old(self).world),
            forall|x: int, y: int|
                old(self).world.in_bounds(x, y) ==> #[trigger] final(self).world.tile_at(x, y)
                    == spec_tile_after_meals(old(self).creatures@, &old(self).world, x, y),
    {
        let table = self.winners();
        let ghost herd = self.creatures@;
        let mut i: usize = 0;
        while i < self.creatures.len()
            invariant
                i <= self.creatures@.len(),
                herd == old(self).creatures@,
                self.creatures@.len() == herd.len(),
                self.world == old(self).world,
                self.config == old(self).config,
                self.step == old(self).step,
                self.genome_stats == old(self).genome_stats,
                self.lineage_order == old(self).lineage_order,
                old(self).wf(),
                forall|a: usize, b: usize| #[trigger] spec_winner_noted(table@, herd, a, b),
                forall|j: int|
                    0 <= j < i ==>
                        #[trigger] self.creatures@[j] == spec_after_meal(herd, &self.world, j),
                forall|j: int| i <= j < herd.len() ==> #[trigger] self.creatures@[j] == herd[j],
            decreases self.creatures@.len() - i,
        {
            let creature = self.creatures[i];
            assert(creature == herd[i as int]);
            assert(herd[i as int].wf()
                && herd[i as int].inside(self.world.width, self.world.height));
            let food = self.world.get_available_food(creature.x, creature.y);
            if food > 0 {
                proof {
                    lemma_winner_is_strongest(herd, creature.x as int, creature.y as int);
                    assert(spec_winner_noted(table@, herd, creature.x, creature.y));
                }
                let winner_at: usize = match table.get(&tile_key(creature.x, creature.y)) {
                    Some(k) => *k,
                    None => i,
                };
                if winner_at == i {
                    let meal: u32 = if food <= MEAL {
                        food
                    } else {
                        MEAL
                    };
                    let mut fed = creature;
                    fed.add_energy(meal as i64 * UNIT);
                    fed.food_eaten = capped_sum(fed.food_eaten, meal);
                    self.creatures[i] = fed;
                } else {
                    let winner = self.creatures[winner_at];
                    assert(winner.genome == herd[winner_at as int].genome);
                    assert(herd[winner_at as int].wf());
                    let mut hurt = creature;
                    hurt.take_damage(winner.combat_power() / 4);
                    self.creatures[i] = hurt;
                }
            }
            i += 1;
        }
        let ghost fed_herd = self.creatures@;
        let mut i: usize = 0;
        while i < self.creatures.len()
            invariant
                i <= self.creatures@.len(),
                herd == old(self).creatures@,
                self.creatures@ == fed_herd,
                fed_herd.len() == herd.len(),
                forall|j: int|
                    0 <= j < herd.len() ==> #[trigger] fed_herd[j] == spec_after_meal(
                        herd,
                        &old(self).world,
                        j,
                    ),
                self.config == old(self).config,
                self.step == old(self).step,
                self.genome_stats == old(self).genome_stats,
                self.lineage_order == old(self).lineage_order,
                old(self).wf(),
                self.world.wf(),
                self.world.same_size(&old(self).world),
                forall|a: usize, b: usize| #[trigger] spec_winner_noted(table@, herd, a, b),
                forall|a: int, b: int|
                    self.world.in_bounds(a, b) ==>
                        #[trigger] self.world.tile_at(a, b) == (if spec_winner(
                        herd,
                        a,
                        b,
                    ) < i {
                        spec_tile_after_meals(herd, &old(self).world, a, b)
                    } else {
                        old(self).world.tile_at(a, b)
                    }),
            decreases self.creatures@.len() - i,
        {
            let creature = self.creatures[i];
            assert(creature == spec_after_meal(herd, &old(self).world, i as int));
            assert(herd[i as int].wf()
                && herd[i as int].inside(self.world.width, self.world.height));
            proof {
                assert(spec_winner_noted(table@, herd, creature.x, creature.y));
            }
            let is_winner = match table.get(&tile_key(creature.x, creature.y)) {
                Some(k) => *k == i,
                None => false,
            };
            proof {
                assert forall|a: int, b: int|
                    self.world.in_bounds(a, b) && spec_winner(herd, a, b) == i implies a
                    == creature.x && b == creature.y by {
                    lemma_winner_is_strongest(herd, a, b);
                }
            }
            if is_winner && self.world.get_available_food(creature.x, creature.y) > 0 {
                self.world.consume_food(creature.x, creature.y, MEAL);
            }
            i += 1;
        }
        proof {
            assert forall|a: int, b: int| old(self).world.in_bounds(a, b) implies
                #[trigger] self.world.tile_at(
                a,
                b,
            ) == spec_tile_after_meals(herd, &old(self).world, a, b) by {
                lemma_winner_is_strongest(herd, a, b);
            }
        }
    }

    /// The direction toward the first food that creature `i` sees, or
    /// `None` where it sees none.
    pub fn seek_food(&self, i: usize) -> (direction: Option<Direction>)
        requires
            self.wf(),
            i < self.creatures@.len(),
        ensures
            match direction {
                Some(d) => exists|fx: int, fy: int|
                    0 <= fx < self.world.width && 0 <= fy < self.world.height
                        && #[trigger] self.world.spec_first_in_view(
                        self.creatures@[i as int].x as int,
                        self.creatures@[i as int].y as int,
                        self.creatures@[i as int].spec_vision_radius(),
                        fx,
                        fy,
                    ) && d == self.creatures@[i as int].spec_direction_to(fx as usize, fy as usize),
                None => forall|a: int, b: int|
                    !#[trigger] self.world.spec_food_in_view(
                        self.creatures@[i as int].x as int,
                        self.creatures@[i as int].y as int,
                        self.creatures@[i as int].spec_vision_radius(),
                        a,
                        b,
                    ),
            },
    {
        let creature = self.creatures[i];
        let radius = creature.vision_radius();
        let found = self.world.find_food_in_radius(creature.x, creature.y, radius);
        if found.len() > 0 {
            let (fx, fy, _) = found[0];
            proof {
                let cx = creature.x as int;
                let cy = creature.y as int;
                let r = radius as int;
                assert(self.world.spec_food_in_view(cx, cy, r, found@[0].0 as int,
                    found@[0].1 as int));
                assert forall|a: int, b: int| #[trigger]
                    self.world.spec_food_in_view(cx, cy, r, a, b) implies b > fy || (b == fy && a
                    >= fx) by {
                    assert(lists_position(found@, a, b));
                    let k = choose|k: int|
                        0 <= k < found@.len() && (#[trigger] found@[k]).0 == a && found@[k].1 == b;
                    if k > 0 {
                        assert(row_major_before(found@[0], found@[k]));
                    }
                }
                assert(self.world.spec_first_in_view(cx, cy, r, fx as int, fy as int));
            }
            Some(creature.direction_to(fx, fy))
        } else {
            proof {
                assert forall|a: int, b: int|
                    !#[trigger] self.world.spec_food_in_view(
                        creature.x as int,
                        creature.y as int,
                        radius as int,
                        a,
                        b,
                    ) by {
                    if self.world.spec_food_in_view(creature.x as int, creature.y as int,
                        radius as int, a, b) {
                        assert(lists_position(found@, a, b));
                    }
                }
            }
            None
        }
    }

    /// What every creature wants to do in this tick, in the order of the
    /// creatures: a step toward the first food it sees, or a step in a
    /// random direction where it sees none.
    pub fn decide_actions(&self, rng: &mut StdRng) -> (actions: Vec<(usize, Action)>)
        requires
            self.wf(),
        ensures
            actions@.len() == self.creatures@.len(),
            forall|i: int| 0 <= i < actions@.len() ==> (#[trigger] actions@[i]).0 == i,
            forall|i: int, fx: int, fy: int|
                0 <= i < actions@.len() && 0 <= fx < self.world.width && 0 <= fy < self.world.height
                    && #[trigger] self.world.spec_first_in_view(
                    self.creatures@[i].x as int,
                    self.creatures@[i].y as int,
                    self.creatures@[i].spec_vision_radius(),
                    fx,
                    fy,
                ) ==> actions@[i].1 == Action::Move(
                    self.creatures@[i].spec_direction_to(fx as usize, fy as usize),
                ),
    {
        let compass: Vec<Direction> = vec![
            Direction::North,
            Direction::South,
            Direction::East,
            Direction::West,
            Direction::NorthEast,
            Direction::NorthWest,
            Direction::SouthEast,
            Direction::SouthWest,
        ];
        let mut actions: Vec<(usize, Action)> = Vec::new();
        let mut i: usize = 0;
        while i < self.creatures.len()
            invariant
                self.wf(),
                compass@.len() == 8,
                i <= self.creatures@.len(),
                actions@.len() == i,
                forall|j: int| 0 <= j < i ==> (#[trigger] actions@[j]).0 == j,
                forall|j: int, fx: int, fy: int|
                    0 <= j < i && 0 <= fx < self.world.width && 0 <= fy < self.world.height
                        && #[trigger] self.world.spec_first_in_view(
                        self.creatures@[j].x as int,
                        self.creatures@[j].y as int,
                        self.creatures@[j].spec_vision_radius(),
                        fx,
                        fy,
                    ) ==> actions@[j].1 == Action::Move(
                        self.creatures@[j].spec_direction_to(fx as usize, fy as usize),
                    ),
            decreases self.creatures@.len() - i,
        {
            let direction = match self.seek_food(i) {
                Some(d) => d,
                None => choose_direction(rng, &compass),
            };
            actions.push((i, Action::Move(direction)));
            i += 1;
        }
        actions
    }

    /// Lets the creatures take their steps. Each step succeeds or fails as
    /// `Creature::try_move` says; an action for a creature that does not
    /// exist is passed over. Where `actions` holds one action for each
    /// creature, in their order, no creature ends up further than one step
    /// in its direction.
    pub fn execute_movements(&mut self, actions: Vec<(usize, Action)>, rng: &mut StdRng)
        requires
            old(self).wf(),
        ensures
            final(self).wf(),
            final(self).config == old(self).config,
            final(self).step == old(self).step,
            final(self).genome_stats == old(self).genome_stats,
            final(self).lineage_order == old(self).lineage_order,
            final(self).world == old(self).world,
            final(self).creatures@.len() == old(self).creatures@.len(),
            forall|i: int|
                0 <= i < old(self).creatures@.len() ==> spec_same_but_position(
                    old(self).creatures@[i],
                    #[trigger] final(self).creatures@[i],
                ),
            (actions@.len() == old(self).creatures@.len() && forall|i: int|
                0 <= i < actions@.len() ==> (#[trigger] actions@[i]).0 == i) ==> forall|i: int|
                0 <= i < old(self).creatures@.len() ==> spec_moved_by(
                    old(self).creatures@[i],
                    #[trigger] final(self).creatures@[i],
                    actions@[i].1->0,
                    old(self).world.width,
                    old(self).world.height,
                ),
    {
        let ghost in_order = actions@.len() == old(self).creatures@.len() && forall|i: int|
            0 <= i < actions@.len() ==> (#[trigger] actions@[i]).0 == i;
        let mut k: usize = 0;
        while k < actions.len()
            invariant
                k <= actions@.len(),
                self.wf(),
                self.config == old(self).config,
                self.step == old(self).step,
                self.genome_stats == old(self).genome_stats,
                self.lineage_order == old(self).lineage_order,
                self.world == old(self).world,
                self.creatures@.len() == old(self).creatures@.len(),
                in_order == (actions@.len() == old(self).creatures@.len() && forall|i: int|
                    0 <= i < actions@.len() ==> (#[trigger] actions@[i]).0 == i),
                forall|i: int|
                    0 <= i < old(self).creatures@.len() ==> spec_same_but_position(
                        old(self).creatures@[i],
                        #[trigger] self.creatures@[i],
                    ),
                in_order ==> forall|i: int|
                    0 <= i < k ==> spec_moved_by(
                        old(self).creatures@[i],
                        #[trigger] self.creatures@[i],
                        actions@[i].1->0,
                        old(self).world.width,
                        old(self).world.height,
                    ),
                in_order ==> forall|i: int|
                    k <= i < old(self).creatures@.len() ==>
                        #[trigger] self.creatures@[i] == old(self).creatures@[i],
            decreases actions@.len() - k,
        {
            let (idx, action) = actions[k];
            if idx < self.creatures.len() {
                let Action::Move(direction) = action;
                let creature = self.creatures[idx];
                match creature.try_move(direction, self.config.world_width,
                    self.config.world_height, rng) {
                    Some((new_x, new_y)) => {
                        self.creatures[idx] = Creature { x: new_x, y: new_y, ..creature };
                    },
                    None => {},
                }
            }
            k += 1;
        }
    }

    /// Removes the dead. What each of them had eaten is credited to its
    /// lineage first.
    pub fn collect_dead(&mut self)
        requires
            old(self).wf(),
        ensures
            final(self).wf(),
            final(self).config == old(self).config,
            final(self).step == old(self).step,
            final(self).world == old(self).world,
            final(self).creatures@ == spec_living(old(self).creatures@),
            final(self).creatures@.len() <= old(self).creatures@.len(),
            spec_all_alive(final(self).creatures@),
            spec_lineages_within(final(self).creatures@, old(self).creatures@),
            spec_records_after_deaths(
                old(self).records(),
                old(self).creatures@,
                final(self).records(),
            ),
            spec_records_grown(old(self).records(), final(self).records()),
    {
        let mut survivors: Vec<Creature> = Vec::new();
        let mut i: usize = 0;
        while i < self.creatures.len()
            invariant
                i <= self.creatures@.len(),
                self.creatures == old(self).creatures,
                self.config == old(self).config,
                self.step == old(self).step,
                self.world == old(self).world,
                old(self).wf(),
                self.lineage_order == old(self).lineage_order,
                spec_filed(self.genome_stats@, self.lineage_order@),
                survivors@ == spec_living(self.creatures@.take(i as int)),
                survivors@.len() <= i,
                forall|j: int|
                    0 <= j < survivors@.len() ==> {
                        &&& (#[trigger] survivors@[j]).health > 0
                        &&& survivors@[j].wf()
                        &&& survivors@[j].inside(self.world.width, self.world.height)
                        &&& spec_lineage_present(self.creatures@, survivors@[j].genome_id)
                    },
                self.records().len() == old(self).records().len(),
                forall|k: int|
                    0 <= k < old(self).records().len() ==> #[trigger] self.records()[k] == (
                    LineageRecord {
                        total_food_eaten: if old(self).records()[k].total_food_eaten
                            + spec_dead_food(
                            self.creatures@.take(i as int),
                            old(self).records()[k].genome_id,
                        ) > u32::MAX {
                            u32::MAX
                        } else {
                            (old(self).records()[k].total_food_eaten + spec_dead_food(
                                self.creatures@.take(i as int),
                                old(self).records()[k].genome_id,
                            )) as u32
                        },
                        ..old(self).records()[k]
                    }),
            decreases self.creatures@.len() - i,
        {
            let creature = self.creatures[i];
            proof {
                assert(self.creatures@.take(i + 1).drop_last() =~= self.creatures@.take(i as int));
                assert(self.creatures@.take(i + 1).last() == creature);
            }
            if creature.is_dead() {
                credit_food(
                    &mut self.genome_stats,
                    &self.lineage_order,
                    creature.genome_id,
                    creature.food_eaten,
                );
            } else {
                survivors.push(creature);
            }
            i += 1;
        }
        proof {
            assert(self.creatures@.take(self.creatures@.len() as int) =~= self.creatures@);
        }
        self.creatures = survivors;
    }
    /// Whether the island holds as many creatures as it may, counting
    /// `waiting` newborns that have not joined yet.
    fn is_full(&self, waiting: usize) -> (full: bool)
        ensures
            full == (self.creatures@.len() + waiting >= self.spec_cap()),
    {
        assert((self.world.width as int) * (self.world.height as int) <= 0xffff_ffff_ffff_ffff
            * 0xffff_ffff_ffff_ffff) by (nonlinear_arith)
            requires
                0 <= self.world.width <= 0xffff_ffff_ffff_ffff,
                0 <= self.world.height <= 0xffff_ffff_ffff_ffff,
        ;
        let area: u128 = (self.world.width as u128) * (self.world.height as u128);
        self.creatures.len() as u128 + waiting as u128 >= area / 2
    }

    /// Lets a child be born, if the island has room for it or can make
    /// room. Where the island is full, counting the newborns that wait in
    /// `newborn`, the weakest creature is evicted first and what it had
    /// eaten is credited to its lineage; where no creature is out of
    /// energy there is nobody to evict and the child is not born. A child
    /// that is born is counted for its lineage and waits in `newborn`.
    pub fn welcome(&mut self, newborn: &mut Vec<Creature>, child: Creature) -> (born: bool)
        requires
            old(self).wf(),
        ensures
            final(self).wf(),
            final(self).config == old(self).config,
            final(self).step == old(self).step,
            final(self).world == old(self).world,
            spec_welcomed(
                Breeding {
                    creatures: old(self).creatures@,
                    records: old(self).records(),
                    waiting: old(newborn)@,
                },
                child,
                old(self).spec_cap(),
                born,
                Breeding {
                    creatures: final(self).creatures@,
                    records: final(self).records(),
                    waiting: final(newborn)@,
                },
            ),
            final(self).creatures@.len() + final(newborn)@.len() <= spec_bound(
                (old(self).creatures@.len() + old(newborn)@.len()) as int,
                old(self).spec_cap(),
            ),
            spec_records_grown(old(self).records(), final(self).records()),
            spec_lineages_within(final(self).creatures@, old(self).creatures@),
            spec_all_alive(old(self).creatures@) ==> spec_all_alive(final(self).creatures@),
    {
        proof {
            lemma_same_lineages_within(self.creatures@, self.creatures@);
        }
        if self.is_full(newborn.len()) {
            match self.find_weakest_creature() {
                Some(k) => {
                    let removed = self.creatures.remove(k);
                    credit_food(
                        &mut self.genome_stats,
                        &self.lineage_order,
                        removed.genome_id,
                        removed.food_eaten,
                    );
                    proof {
                        assert forall|j: int| 0 <= j < self.creatures@.len() implies
                            spec_lineage_present(
                            old(self).creatures@,
                            (#[trigger] self.creatures@[j]).genome_id,
                        ) by {
                            if j < k {
                                assert(old(self).creatures@[j] == self.creatures@[j]);
                            } else {
                                assert(old(self).creatures@[j + 1] == self.creatures@[j]);
                            }
                        }
                        assert(forall|j: int|
                            0 <= j < self.creatures@.len() ==>
                                #[trigger] self.creatures@[j] == (if j < k {
                                old(self).creatures@[j]
                            } else {
                                old(self).creatures@[j + 1]
                            }));
                    }
                },
                None => {
                    proof {
                        assert forall|k: int| !old(self).spec_is_weakest(k) by {
                            if old(self).spec_is_weakest(k) {
                                assert(old(self).creatures@[k].energy <= 0);
                            }
                        }
                    }
                    return false;
                },
            }
        }
        count_spawn(&mut self.genome_stats, &self.lineage_order, child.genome_id);
        newborn.push(child);
        true
    }

    /// Lets the creatures at two positions of the list breed, if
    /// `spec_pair_breeds` says that they do: both pay for it, and their child
    /// asks to be let in as `welcome` describes. The child, if it is born,
    /// waits in `newborn`. Otherwise nothing changes.
    pub fn breed(
        &mut self,
        first: usize,
        second: usize,
        newborn: &mut Vec<Creature>,
        rng: &mut StdRng,
    )
        requires
            old(self).wf(),
        ensures
            spec_bred_pair(
                Breeding {
                    creatures: old(self).creatures@,
                    records: old(self).records(),
                    waiting: old(newborn)@,
                },
                first as int,
                second as int,
                old(self).config,
                old(self).spec_cap(),
                Breeding {
                    creatures: final(self).creatures@,
                    records: final(self).records(),
                    waiting: final(newborn)@,
                },
            ),
            final(self).wf(),
            final(self).config == old(self).config,
            final(self).step == old(self).step,
            final(self).world == old(self).world,
            spec_records_grown(old(self).records(), final(self).records()),
            spec_lineages_within(final(self).creatures@, old(self).creatures@),
            spec_all_alive(old(self).creatures@) ==> spec_all_alive(final(self).creatures@),
            final(newborn)@ == old(newborn)@ || (final(newborn)@.len() == old(newborn)@.len() + 1
                && final(newborn)@.drop_last() == old(newborn)@ && spec_sound_offspring(
                seq![final(newborn)@.last()],
                old(self).creatures@,
                old(self).world.width,
                old(self).world.height,
            )),
            final(self).creatures@.len() + final(newborn)@.len() <= spec_bound(
                (old(self).creatures@.len() + old(newborn)@.len()) as int,
                old(self).spec_cap(),
            ),
    {
        proof {
            lemma_same_lineages_within(self.creatures@, self.creatures@);
        }
        if first >= self.creatures.len() || second >= self.creatures.len() || first == second {
            return ;
        }
        let threshold = self.config.reproduction_threshold;
        let mut a = self.creatures[first];
        let mut b = self.creatures[second];
        if !a.can_reproduce(threshold) || !b.can_reproduce(threshold) {
            return ;
        }
        let outcome = a.reproduce_from(&mut b, self.config.mutation_rate, rng);
        self.creatures[first] = a;
        self.creatures[second] = b;
        let ghost paid = self.creatures@;
        proof {
            if outcome.is_none() {
                assert(paid =~= old(self).creatures@);
            }
        }
        proof {
            assert forall|j: int| 0 <= j < paid.len() implies
                (#[trigger] paid[j]).genome_id == old(self).creatures@[j].genome_id
                && paid[j].health == old(self).creatures@[j].health by {}
            lemma_same_lineages_within(old(self).creatures@, paid);
        }
        match outcome {
            Some(child) => {
                proof {
                    assert(old(self).creatures@[first as int].inside(self.world.width,
                        self.world.height));
                    assert(old(self).creatures@[second as int].inside(self.world.width,
                        self.world.height));
                    assert(child.inside(self.world.width, self.world.height));
                    assert(spec_lineage_present(old(self).creatures@, child.genome_id)) by {
                        assert(old(self).creatures@[first as int].genome_id == child.genome_id);
                    }
                }
                let ghost waiting = newborn@;
                let born = self.welcome(newborn, child);
                proof {
                    assert(paid =~= spec_paid(old(self).creatures@, first as int, second as int));
                    assert(spec_offspring(
                        old(self).creatures@[first as int],
                        old(self).creatures@[second as int],
                        child,
                        old(self).config.mutation_rate,
                    ));
                    assert(spec_welcomed(
                        Breeding {
                            creatures: spec_paid(old(self).creatures@, first as int, second as int),
                            records: old(self).records(),
                            waiting: old(newborn)@,
                        },
                        child,
                        old(self).spec_cap(),
                        born,
                        Breeding {
                            creatures: self.creatures@,
                            records: self.records(),
                            waiting: newborn@,
                        },
                    ));
                    lemma_lineages_within_transitive(old(self).creatures@, paid, self.creatures@);
                    if born {
                        assert(newborn@.drop_last() =~= waiting);
                        assert(newborn@.last() == child);
                    }
                }
            },
            None => {},
        }
    }

    /// The reproduction phase of a tick. The creatures are paired at
    /// random; a pair breeds where both have the configured energy and the
    /// island has room for the child or can make room. The newborns join
    /// the creatures at the end of the phase.
    pub fn reproduce(&mut self, rng: &mut StdRng)
        requires
            old(self).wf(),
        ensures
            final(self).wf(),
            final(self).config == old(self).config,
            final(self).step == old(self).step,
            final(self).world == old(self).world,
            spec_records_grown(old(self).records(), final(self).records()),
            spec_lineages_within(final(self).creatures@, old(self).creatures@),
            spec_all_alive(old(self).creatures@) ==> spec_all_alive(final(self).creatures@),
            final(self).creatures@.len() <= spec_bound(old(self).creatures@.len() as int,
                old(self).spec_cap()),
            spec_reproduced(
                old(self).creatures@,
                old(self).records(),
                old(self).config,
                old(self).spec_cap(),
                final(self).creatures@,
                final(self).records(),
            ),
    {
        proof {
            lemma_same_lineages_within(self.creatures@, self.creatures@);
        }
        if self.creatures.len() < 2 {
            return ;
        }
        let mut order: Vec<usize> = Vec::new();
        let mut n: usize = 0;
        while n < self.creatures.len()
            invariant
                n <= self.creatures@.len(),
                order@.len() == n,
                forall|k: int| 0 <= k < n ==> #[trigger] order@[k] == k,
            decreases self.creatures@.len() - n,
        {
            order.push(n);
            n += 1;
        }
        assert(order@ =~= spec_indices(self.creatures@.len() as nat));
        shuffle(rng, &mut order);
        proof {
            order@.to_multiset_ensures();
            spec_indices(self.creatures@.len() as nat).to_multiset_ensures();
            assert(order@.len() == self.creatures@.len());
        }
        let ghost start = Breeding {
            creatures: self.creatures@,
            records: self.records(),
            waiting: Seq::empty(),
        };
        let mut newborn: Vec<Creature> = Vec::new();
        let ghost limit = spec_bound(old(self).creatures@.len() as int, old(self).spec_cap());
        let mut i: usize = 0;
        while i < order.len() && i + 1 < order.len()
            invariant
                i % 2 == 0,
                i <= order@.len(),
                order@.len() == old(self).creatures@.len(),
                order@.to_multiset() == spec_indices(old(self).creatures@.len()).to_multiset(),
                start == (Breeding {
                    creatures: old(self).creatures@,
                    records: old(self).records(),
                    waiting: Seq::empty(),
                }),
                spec_pairs_bred(
                    start,
                    order@,
                    (i / 2) as nat,
                    self.config,
                    self.spec_cap(),
                    Breeding {
                        creatures: self.creatures@,
                        records: self.records(),
                        waiting: newborn@,
                    },
                ),
                self.wf(),
                self.config == old(self).config,
                self.step == old(self).step,
                self.world == old(self).world,
                spec_records_grown(old(self).records(), self.records()),
                spec_lineages_within(self.creatures@, old(self).creatures@),
                spec_all_alive(old(self).creatures@) ==> spec_all_alive(self.creatures@),
                spec_sound_offspring(
                    newborn@,
                    old(self).creatures@,
                    self.world.width,
                    self.world.height,
                ),
                limit == spec_bound(old(self).creatures@.len() as int, old(self).spec_cap()),
                self.creatures@.len() + newborn@.len() <= limit,
            decreases order@.len() - i,
        {
            let first = order[i];
            let second = order[i + 1];
            let ghost herd = self.creatures@;
            let ghost records = self.records();
            let ghost waiting = newborn@;
            self.breed(first, second, &mut newborn, rng);
            proof {
                let mid = Breeding { creatures: herd, records, waiting };
                let now = Breeding {
                    creatures: self.creatures@,
                    records: self.records(),
                    waiting: newborn@,
                };
                let pairs = (i / 2 + 1) as nat;
                assert(spec_pairs_bred(start, order@, (pairs - 1) as nat, self.config,
                    self.spec_cap(), mid));
                assert(2 * (pairs - 1) == i);
                assert(order@[2 * (pairs - 1)] == first && order@[2 * (pairs - 1) + 1] == second);
                assert(spec_bred_pair(
                    mid,
                    order@[2 * (pairs - 1)] as int,
                    order@[2 * (pairs - 1) + 1] as int,
                    self.config,
                    self.spec_cap(),
                    now,
                ));
                assert(spec_pairs_bred(start, order@, pairs, self.config, self.spec_cap(), now));
                lemma_records_grown_transitive(old(self).records(), records,
                    self.records());
                lemma_lineages_within_transitive(old(self).creatures@, herd, self.creatures@);
                if newborn@ != waiting {
                    let child = newborn@.last();
                    assert(seq![child][0] == child);
                    let id = child.genome_id;
                    assert(spec_lineage_present(herd, id));
                    let p = choose|p: int| 0 <= p < herd.len()
                        && (#[trigger] herd[p]).genome_id == id;
                    assert(spec_lineage_present(old(self).creatures@, herd[p].genome_id));
                    assert forall|j: int| 0 <= j < newborn@.len() implies
                        (#[trigger] newborn@[j]).wf()
                        && newborn@[j].inside(self.world.width, self.world.height)
                            && newborn@[j].health
                        > 0 && spec_lineage_present(old(self).creatures@,
                            newborn@[j].genome_id) by {
                        if j < waiting.len() {
                            assert(newborn@[j] == newborn@.drop_last()[j]);
                        }
                    }
                }
            }
            i += 2;
        }
        let ghost bred = self.creatures@;
        assert(order@.len() / 2 == i / 2);
        assert(self.creatures@ =~= bred + newborn@.take(0));
        let mut j: usize = 0;
        while j < newborn.len()
            invariant
                j <= newborn@.len(),
                self.creatures@ == bred + newborn@.take(j as int),
                order@.to_multiset() == spec_indices(old(self).creatures@.len()).to_multiset(),
                spec_pairs_bred(
                    start,
                    order@,
                    old(self).creatures@.len() / 2,
                    self.config,
                    self.spec_cap(),
                    Breeding { creatures: bred, records: self.records(), waiting: newborn@ },
                ),
                start == (Breeding {
                    creatures: old(self).creatures@,
                    records: old(self).records(),
                    waiting: Seq::empty(),
                }),
                self.wf(),
                self.config == old(self).config,
                self.step == old(self).step,
                self.world == old(self).world,
                spec_records_grown(old(self).records(), self.records()),
                spec_lineages_within(self.creatures@, old(self).creatures@),
                spec_all_alive(old(self).creatures@) ==> spec_all_alive(self.creatures@),
                spec_sound_offspring(
                    newborn@,
                    old(self).creatures@,
                    self.world.width,
                    self.world.height,
                ),
                self.creatures@.len() + newborn@.len() - j <= limit,
            decreases newborn@.len() - j,
        {
            let ghost herd = self.creatures@;
            let child = newborn[j];
            self.creatures.push(child);
            proof {
                assert(self.creatures@ =~= bred + newborn@.take(j + 1));
                assert forall|q: int| 0 <= q < self.creatures@.len() implies spec_lineage_present(
                    old(self).creatures@,
                    (#[trigger] self.creatures@[q]).genome_id,
                ) by {
                    if q < herd.len() {
                        assert(self.creatures@[q] == herd[q]);
                    }
                }
                assert forall|q: int| 0 <= q < self.creatures@.len() implies (
                #[trigger] self.creatures@[q]).wf() && self.creatures@[q].inside(
                    self.world.width,
                    self.world.height,
                ) by {
                    if q < herd.len() {
                        assert(self.creatures@[q] == herd[q]);
                    }
                }
                if spec_all_alive(old(self).creatures@) {
                    assert forall|q: int| 0 <= q < self.creatures@.len() implies (
                    #[trigger] self.creatures@[q]).health > 0 by {
                        if q < herd.len() {
                            assert(self.creatures@[q] == herd[q]);
                        }
                    }
                }
            }
            j += 1;
        }
        proof {
            assert(newborn@.take(newborn@.len() as int) =~= newborn@);
            let end = Breeding { creatures: bred, records: self.records(), waiting: newborn@ };
            assert(spec_pairs_bred(
                start,
                order@,
                old(self).creatures@.len() / 2,
                old(self).config,
                old(self).spec_cap(),
                end,
            ));
            assert(self.creatures@ == end.creatures + end.waiting);
        }
    }

    /// Advances the simulation by one tick: the plants regrow, every
    /// creature picks an action and takes its step, the creatures eat and
    /// fight over food, the dead are removed, and the living reproduce.
    pub fn tick(&mut self, rng: &mut StdRng)
        requires
            old(self).wf(),
        ensures
            final(self).wf(),
            final(self).config == old(self).config,
            final(self).step == (if old(self).step < u32::MAX {
                (old(self).step + 1) as u32
            } else {
                u32::MAX
            }),
            spec_all_alive(final(self).creatures@),
            spec_lineages_within(final(self).creatures@, old(self).creatures@),
            spec_records_grown(old(self).records(), final(self).records()),
            final(self).creatures@.len() <= spec_bound(old(self).creatures@.len() as int,
                old(self).spec_cap()),
            spec_ticked(old(self), final(self)),
            forall|x: int, y: int|
                old(self).world.in_bounds(x, y) ==> (#[trigger] final(self).world.tile_at(
                    x,
                    y,
                )).spec_available() <= old(self).world.tile_at(x,
                    y).spec_regrown().spec_available(),
    {
        self.world.tick_plants();
        let ghost regrown = self.world;
        let ghost herd = self.creatures@;
        let actions = self.decide_actions(rng);
        let ghost actions_taken = actions@;
        self.execute_movements(actions, rng);
        let ghost moved = self.creatures@;
        proof {
            assert forall|i: int| 0 <= i < herd.len() implies (#[trigger] moved[i]).genome_id
                == herd[i].genome_id by {
                assert(spec_same_but_position(herd[i], moved[i]));
            }
            lemma_same_lineages_within(herd, moved);
            assert forall|i: int| 0 <= i < herd.len() implies #[trigger] spec_moved(
                herd[i],
                moved[i],
                self.world.width,
                self.world.height,
            ) by {
                assert(spec_moved_by(
                    herd[i],
                    moved[i],
                    actions_taken[i].1->0,
                    self.world.width,
                    self.world.height,
                ));
            }
            assert(spec_herd_moved(herd, moved, self.world.width, self.world.height));
        }
        self.execute_eating();
        let ghost fed = self.creatures@;
        proof {
            assert forall|i: int| 0 <= i < moved.len() implies (#[trigger] fed[i]).genome_id
                == moved[i].genome_id by {
                assert(fed[i] == spec_after_meal(moved, &regrown, i));
            }
            lemma_same_lineages_within(moved, fed);
            lemma_lineages_within_transitive(herd, moved, fed);
            assert forall|x: int, y: int| regrown.in_bounds(x, y) implies (
            #[trigger] self.world.tile_at(x, y)).spec_available() <= regrown.tile_at(
                x,
                y,
            ).spec_available() by {
                assert(self.world.tile_at(x, y) == spec_tile_after_meals(moved, &regrown, x, y));
            }
        }
        let ghost records = self.records();
        self.collect_dead();
        let ghost living = self.creatures@;
        let ghost credited = self.records();
        proof {
            lemma_lineages_within_transitive(herd, fed, living);
        }
        self.reproduce(rng);
        proof {
            lemma_lineages_within_transitive(herd, living, self.creatures@);
            lemma_records_grown_transitive(records, credited, self.records());
        }
        if self.step < u32::MAX {
            self.step = self.step + 1;
        }
        proof {
            assert(spec_world_regrown(&old(self).world, &regrown));
            assert(spec_herd_moved(herd, moved, old(self).world.width, old(self).world.height));
            assert(spec_herd_fed(moved, &regrown, fed));
            assert(spec_world_fed(moved, &regrown, &self.world));
            assert(spec_records_after_deaths(records, fed, credited));
            assert(spec_reproduced(
                spec_living(fed),
                credited,
                old(self).config,
                old(self).spec_cap(),
                self.creatures@,
                self.records(),
            ));
            assert(spec_ticked(old(self), self));
        }
    }

    /// Runs the simulation to its end and reports what became of every
    /// lineage. The run ends at the tick after which at most one lineage
    /// is left, and otherwise when `max_steps` ticks have passed.
    pub fn run_simulation(&mut self) -> (results: Vec<SurvivalStats>)
        requires
            old(self).wf(),
        ensures
            final(self).wf(),
            final(self).config == old(self).config,
            results@.len() == final(self).records().len(),
            forall|k: int|
                0 <= k < results@.len() ==> #[trigger] results@[k] == final(self).spec_survival(
                    final(self).records()[k],
                ),
            spec_records_grown(old(self).records(), final(self).records()),
            spec_lineages_within(final(self).creatures@, old(self).creatures@),
            old(self).step >= old(self).config.max_steps ==> final(self).step == old(self).step,
            old(self).step < old(self).config.max_steps ==>
                old(self).step < final(self).step <= old(self).config.max_steps,
            final(self).step >= old(self).config.max_steps
                || spec_single_lineage(final(self).creatures@),
            old(self).step < old(self).config.max_steps && spec_single_lineage(old(self).creatures@)
                ==> final(self).step == old(self).step + 1,
            spec_finished(old(self), final(self), results@),
    {
        let mut rng = thread_seeded_rng();
        self.run_from(&mut rng)
    }

    /// Runs the simulation as `run_simulation` does, with every draw of the
    /// ticks taken from `rng`.
    pub fn run_from(&mut self, rng: &mut StdRng) -> (results: Vec<SurvivalStats>)
        requires
            old(self).wf(),
        ensures
            final(self).wf(),
            final(self).config == old(self).config,
            results@.len() == final(self).records().len(),
            forall|k: int|
                0 <= k < results@.len() ==> #[trigger] results@[k] == final(self).spec_survival(
                    final(self).records()[k],
                ),
            spec_records_grown(old(self).records(), final(self).records()),
            spec_lineages_within(final(self).creatures@, old(self).creatures@),
            old(self).step >= old(self).config.max_steps ==> final(self).step == old(self).step,
            old(self).step < old(self).config.max_steps ==>
                old(self).step < final(self).step <= old(self).config.max_steps,
            final(self).step >= old(self).config.max_steps
                || spec_single_lineage(final(self).creatures@),
            old(self).step < old(self).config.max_steps && spec_single_lineage(old(self).creatures@)
                ==> final(self).step == old(self).step + 1,
            spec_finished(old(self), final(self), results@),
    {
        proof {
            lemma_same_lineages_within(self.creatures@, self.creatures@);
        }
        let mut stopped = false;
        while self.step < self.config.max_steps && !stopped
            invariant
                self.wf(),
                self.config == old(self).config,
                spec_records_grown(old(self).records(), self.records()),
                spec_lineages_within(self.creatures@, old(self).creatures@),
                old(self).step <= self.step,
                old(self).step >= old(self).config.max_steps ==> self.step == old(self).step,
                old(self).step < old(self).config.max_steps ==>
                    self.step <= old(self).config.max_steps,
                stopped ==> spec_single_lineage(self.creatures@) && self.step > old(self).step,
                !stopped && spec_single_lineage(old(self).creatures@) ==>
                    self.step == old(self).step,
                stopped && spec_single_lineage(old(self).creatures@) ==>
                    self.step == old(self).step + 1,
                spec_ran(old(self), (self.step - old(self).step) as nat, self),
                !stopped && self.step > old(self).step ==> !spec_single_lineage(self.creatures@),
            decreases self.config.max_steps - self.step + (if stopped { 0int } else { 1int }),
        {
            let ghost herd = self.creatures@;
            let ghost records = self.records();
            let ghost mid = *self;
            self.tick(rng);
            proof {
                assert(spec_ticked(&mid, self));
                assert(spec_ran(old(self), (mid.step - old(self).step) as nat, &mid));
                assert(spec_ran(old(self), (self.step - old(self).step) as nat, self));
                lemma_lineages_within_transitive(old(self).creatures@, herd, self.creatures@);
                lemma_records_grown_transitive(old(self).records(), records,
                    self.records());
                if spec_single_lineage(old(self).creatures@) {
                    lemma_single_lineage_stays(old(self).creatures@, self.creatures@);
                }
            }
            stopped = self.should_stop();
        }
        self.collect_survival_stats()
    }
    /// The mean fitness score of the creatures, rounded down; zero where
    /// there are none.
    pub fn average_fitness(&self) -> (mean: i64)
        requires
            self.wf(),
        ensures
            mean == (if self.creatures@.len() == 0 {
                0
            } else {
                spec_fitness_total(self.creatures@) / (self.creatures@.len() as int)
            }),
            0 <= mean <= 2_642_245,
    {
        if self.creatures.len() == 0 {
            return 0;
        }
        let mut total: u128 = 0;
        let mut i: usize = 0;
        while i < self.creatures.len()
            invariant
                self.wf(),
                i <= self.creatures@.len(),
                total == spec_fitness_total(self.creatures@.take(i as int)),
                total <= i * 2_642_245,
            decreases self.creatures@.len() - i,
        {
            proof {
                assert(self.creatures@.take(i + 1).drop_last() =~= self.creatures@.take(i as int));
            }
            let score = self.creatures[i].fitness();
            total = total + score as u128;
            i += 1;
        }
        proof {
            assert(self.creatures@.take(self.creatures@.len() as int) =~= self.creatures@);
        }
        let count: u128 = self.creatures.len() as u128;
        assert(total / count <= 2_642_245) by (nonlinear_arith)
            requires
                total <= count * 2_642_245,
                count > 0,
        ;
        (total / count) as i64
    }

    /// The genomes of the `n` fittest creatures with their fitness scores,
    /// fittest first; of two creatures of the same fitness the earlier one
    /// comes first.
    pub fn get_best_genomes(&self, n: usize) -> (best: Vec<GenomeWithFitness>)
        requires
            self.wf(),
        ensures
            exists|top: Seq<usize>|
                {
                    &&& is_top(spec_fitness_keys(self.creatures@), n as int, top)
                    &&& best@.len() == top.len()
                    &&& forall|k: int|
                        0 <= k < top.len() ==> #[trigger] best@[k] == (GenomeWithFitness {
                            genome: self.creatures@[top[k] as int].genome,
                            fitness: self.creatures@[top[k] as int].genome.spec_fitness_score() as
                                i64,
                        })
                },
            best@.len() == (if n <= self.creatures@.len() {
                n as nat
            } else {
                self.creatures@.len()
            }),
            forall|k: int|
                0 <= k < best@.len() ==>
                    (#[trigger] best@[k]).genome.in_unit_range() && best@[k].fitness
                    == best@[k].genome.spec_fitness_score(),
            spec_fittest_first(best@),
    {
        let mut keys: Vec<u64> = Vec::new();
        let mut i: usize = 0;
        while i < self.creatures.len()
            invariant
                self.wf(),
                i <= self.creatures@.len(),
                keys@.len() == i,
                forall|j: int|
                    0 <= j < i ==>
                        #[trigger] keys@[j]
                        == self.creatures@[j].genome.spec_fitness_score() as u64,
                forall|j: int|
                    0 <= j < i ==> (#[trigger] keys@[j]) as int
                        == self.creatures@[j].genome.spec_fitness_score(),
            decreases self.creatures@.len() - i,
        {
            keys.push(self.creatures[i].fitness() as u64);
            i += 1;
        }
        assert(keys@ =~= spec_fitness_keys(self.creatures@));
        let top = top_positions(&keys, n);
        let mut best: Vec<GenomeWithFitness> = Vec::new();
        let mut k: usize = 0;
        while k < top.len()
            invariant
                self.wf(),
                k <= top@.len(),
                keys@ == spec_fitness_keys(self.creatures@),
                is_top(keys@, n as int, top@),
                best@.len() == k,
                forall|j: int|
                    0 <= j < k ==> #[trigger] best@[j] == (GenomeWithFitness {
                        genome: self.creatures@[top@[j] as int].genome,
                        fitness: self.creatures@[top@[j] as int].genome.spec_fitness_score() as i64,
                    }),
                forall|j: int|
                    0 <= j < k ==> (#[trigger] best@[j]).genome.in_unit_range() && best@[j].fitness
                        == best@[j].genome.spec_fitness_score(),
                forall|j: int|
                    0 <= j < keys@.len() ==> (#[trigger] keys@[j]) as int
                        == self.creatures@[j].genome.spec_fitness_score(),
                forall|j: int| 0 <= j < k ==>
                    (#[trigger] best@[j]).fitness == keys@[top@[j] as int],
            decreases top@.len() - k,
        {
            let creature = self.creatures[top[k]];
            best.push(GenomeWithFitness { genome: creature.genome, fitness: creature.fitness() });
            k += 1;
        }
        proof {
            assert forall|i: int, j: int| 0 <= i < j < best@.len() implies (
            #[trigger] best@[i]).fitness >= (#[trigger] best@[j]).fitness by {
                assert(ranks_before(keys@, top@[i] as int, top@[j] as int));
            }
        }
        best
    }
}

} // verus!
