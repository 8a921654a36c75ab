//! What each phase of a tick makes of the creatures, the world and the
//! records, stated over sequences of creatures: movement, eating, death and
//! reproduction.

use crate::creature::{Creature, Direction};
use crate::fixed::{spec_saturate, UNIT};
use crate::genes::{TraitNoise, TraitPicks};
use crate::island::IslandConfig;
use crate::lineage::{spec_capped_sum, spec_lineage_present, LineageRecord};
use crate::world::{Tile, World};
use vstd::prelude::*;

verus! {

/// The most food a creature takes from a tile in one tick.
pub const MEAL: u32 = 10;

/// `after` is `before` at another position, or at the same.
pub open spec fn spec_same_but_position(before: Creature, after: Creature) -> bool {
    after == (Creature { x: after.x, y: after.y, ..before })
}

/// `after` is `before` once it has tried a step in `direction`, which
/// succeeds or fails as `Creature::spec_move_on_roll` says for some draw: it
/// stands on the neighbouring tile or where it stood.
pub open spec fn spec_moved_by(
    before: Creature,
    after: Creature,
    direction: Direction,
    width: usize,
    height: usize,
) -> bool {
    &&& spec_same_but_position(before, after)
    &&& exists|roll: i64|
        0 <= roll < UNIT && (after.x, after.y) == (match #[trigger] before.spec_move_on_roll(
            direction,
            width,
            height,
            roll,
        ) {
            Some(target) => target,
            None => (before.x, before.y),
        })
}

/// `after` is `before` once it has tried a step in some direction.
pub open spec fn spec_moved(
    before: Creature,
    after: Creature,
    width: usize,
    height: usize,
) -> bool {
    exists|direction: Direction| spec_moved_by(before, after, direction, width, height)
}

/// `after` are the creatures `before` once each has tried one step on a grid
/// of the given size.
pub open spec fn spec_herd_moved(
    before: Seq<Creature>,
    after: Seq<Creature>,
    width: usize,
    height: usize,
) -> bool {
    &&& after.len() == before.len()
    &&& forall|i: int|
        0 <= i < before.len() ==> #[trigger] spec_moved(before[i], after[i], width, height)
}

/// `after` is the world `before` one tick later: every plant has regrown.
pub open spec fn spec_world_regrown(before: &World, after: &World) -> bool {
    &&& after.same_size(before)
    &&& forall|x: int, y: int|
        before.in_bounds(x, y) ==> #[trigger] after.tile_at(x, y) == before.tile_at(
            x,
            y,
        ).spec_regrown()
}

/// The creature that gets the food at (`x`, `y`): the one with the most
/// combat power among those that stand there, and the first of them where
/// several have as much. The result is its index, or -1 where nobody
/// stands there.
pub open spec fn spec_winner(creatures: Seq<Creature>, x: int, y: int) -> int
    decreases creatures.len(),
{
    if creatures.len() == 0 {
        -1
    } else {
        let earlier = spec_winner(creatures.drop_last(), x, y);
        let last = creatures.last();
        if last.x == x && last.y == y && (earlier < 0 || last.spec_combat_power()
            > creatures[earlier].spec_combat_power()) {
            creatures.len() - 1
        } else {
            earlier
        }
    }
}

/// The number that stands for the tile at (`x`, `y`) where tiles are looked
/// up: no two tiles have the same.
pub open spec fn spec_tile_key(x: usize, y: usize) -> u128 {
    (y * 0x1_0000_0000_0000_0000 + x) as u128
}

/// Whether the table says of the tile at (`x`, `y`) what `spec_winner` says:
/// it holds the winner's index under the key of the tile, and no entry
/// where nobody stands there.
pub open spec fn spec_winner_noted(
    table: Map<u128, usize>,
    creatures: Seq<Creature>,
    x: usize,
    y: usize,
) -> bool {
    if table.contains_key(spec_tile_key(x, y)) {
        table[spec_tile_key(x, y)] as int == spec_winner(creatures, x as int, y as int)
    } else {
        spec_winner(creatures, x as int, y as int) < 0
    }
}

/// The winner of a tile stands on it, and no creature on the tile has more
/// combat power, nor as much at an earlier index. A tile on which a
/// creature stands has a winner.
pub proof fn lemma_winner_is_strongest(creatures: Seq<Creature>, x: int, y: int)
    ensures
        -1 <= spec_winner(creatures, x, y) < creatures.len(),
        spec_winner(creatures, x, y) >= 0 ==> creatures[spec_winner(creatures, x, y)].x == x
            && creatures[spec_winner(creatures, x, y)].y == y,
        forall|j: int|
            0 <= j < creatures.len() && (#[trigger] creatures[j]).x == x && creatures[j].y == y ==>
                {
                let w = spec_winner(creatures, x, y);
                &&& w >= 0
                &&& creatures[w].spec_combat_power() >= creatures[j].spec_combat_power()
                &&& creatures[w].spec_combat_power() == creatures[j].spec_combat_power() ==> w <= j
            },
    decreases creatures.len(),
{
    if creatures.len() > 0 {
        let shorter = creatures.drop_last();
        lemma_winner_is_strongest(shorter, x, y);
        let earlier = spec_winner(shorter, x, y);
        let w = spec_winner(creatures, x, y);
        assert forall|j: int|
            0 <= j < creatures.len() && (#[trigger] creatures[j]).x == x && creatures[j].y
                == y implies w >= 0 && creatures[w].spec_combat_power()
            >= creatures[j].spec_combat_power() && (creatures[w].spec_combat_power()
            == creatures[j].spec_combat_power() ==> w <= j) by {
            if j < creatures.len() - 1 {
                assert(shorter[j] == creatures[j]);
            }
        }
    }
}

/// What a meal gives: the food on the tile, up to `MEAL`.
pub open spec fn spec_meal(food: u32) -> u32 {
    if food <= MEAL {
        food
    } else {
        MEAL
    }
}

/// Creature `i` after the eating phase. Where its tile holds food, the
/// winner of the tile eats a meal, which adds as much energy, and every
/// other creature on the tile loses a quarter of the winner's combat power
/// in health. Where the tile holds no food nothing happens.
pub open spec fn spec_after_meal(creatures: Seq<Creature>, world: &World, i: int) -> Creature {
    let c = creatures[i];
    let food = world.spec_available_food(c.x as int, c.y as int);
    let winner = spec_winner(creatures, c.x as int, c.y as int);
    if food == 0 {
        c
    } else if winner == i {
        Creature {
            energy: spec_saturate(c.energy + spec_meal(food) * UNIT) as i64,
            food_eaten: spec_capped_sum(c.food_eaten, spec_meal(food)),
            ..c
        }
    } else {
        Creature {
            health: spec_saturate(c.health - creatures[winner].spec_combat_power() / 4) as i64,
            ..c
        }
    }
}

/// A tile after the eating phase: a meal is taken from it where it holds
/// food and a creature stands on it.
pub open spec fn spec_tile_fed(tile: Tile, occupied: bool) -> Tile {
    if tile.spec_available() > 0 && occupied {
        tile.spec_after_eating(MEAL)
    } else {
        tile
    }
}

/// The tile at (`x`, `y`) after the eating phase.
pub open spec fn spec_tile_after_meals(creatures: Seq<Creature>, world: &World, x: int, y: int)
    -> Tile {
    spec_tile_fed(world.tile_at(x, y), spec_winner(creatures, x, y) >= 0)
}

/// `fed` are the creatures `herd` after the eating phase on `world`.
pub open spec fn spec_herd_fed(herd: Seq<Creature>, world: &World, fed: Seq<Creature>) -> bool {
    &&& fed.len() == herd.len()
    &&& forall|i: int| 0 <= i < herd.len() ==> #[trigger] fed[i] == spec_after_meal(herd, world, i)
}

/// `after` is the world `world` after the creatures `herd` have eaten.
pub open spec fn spec_world_fed(herd: Seq<Creature>, world: &World, after: &World) -> bool {
    &&& after.same_size(world)
    &&& forall|x: int, y: int|
        world.in_bounds(x, y) ==> #[trigger] after.tile_at(x, y) == spec_tile_after_meals(
            herd,
            world,
            x,
            y,
        )
}

/// The creatures that are alive, in their order.
pub open spec fn spec_living(creatures: Seq<Creature>) -> Seq<Creature>
    decreases creatures.len(),
{
    if creatures.len() == 0 {
        Seq::empty()
    } else if creatures.last().health > 0 {
        spec_living(creatures.drop_last()).push(creatures.last())
    } else {
        spec_living(creatures.drop_last())
    }
}

/// The food eaten by the dead creatures of lineage `id`, added up.
pub open spec fn spec_dead_food(creatures: Seq<Creature>, id: u128) -> nat
    decreases creatures.len(),
{
    if creatures.len() == 0 {
        0
    } else {
        spec_dead_food(creatures.drop_last(), id) + (if creatures.last().health <= 0
            && creatures.last().genome_id == id {
            creatures.last().food_eaten as nat
        } else {
            0nat
        })
    }
}

/// The records after the dead among `creatures` were removed: what each of
/// them had eaten is credited to its lineage.
pub open spec fn spec_records_after_deaths(
    before: Seq<LineageRecord>,
    creatures: Seq<Creature>,
    after: Seq<LineageRecord>,
) -> bool {
    &&& after.len() == before.len()
    &&& forall|k: int|
        0 <= k < before.len() ==> #[trigger] after[k] == (LineageRecord {
            total_food_eaten: if before[k].total_food_eaten + spec_dead_food(
                creatures,
                before[k].genome_id,
            ) > u32::MAX {
                u32::MAX
            } else {
                (before[k].total_food_eaten + spec_dead_food(creatures, before[k].genome_id)) as u32
            },
            ..before[k]
        })
}

/// The most creatures a world of the given size holds: half its area.
pub open spec fn spec_population_cap(width: usize, height: usize) -> int {
    (width as int) * (height as int) / 2
}

/// The bound that reproduction keeps the number of creatures under: the
/// cap, or the number there were where that was more.
pub open spec fn spec_bound(count: int, cap: int) -> int {
    if count > cap {
        count
    } else {
        cap
    }
}

/// Whether creature `k` is the one to evict: it is out of energy, no
/// creature out of energy has less health, and none before it has as
/// little.
pub open spec fn spec_weakest(creatures: Seq<Creature>, k: int) -> bool {
    &&& 0 <= k < creatures.len()
    &&& creatures[k].energy <= 0
    &&& forall|j: int|
        0 <= j < creatures.len() && (#[trigger] creatures[j]).energy <= 0 ==> creatures[k].health
            <= creatures[j].health && (j < k ==> creatures[k].health < creatures[j].health)
}

/// The records after a birth into lineage `child_lineage`, before which
/// `evicted`, if anyone, had to go: what the evicted creature had eaten is
/// credited to its lineage, and the newborn is counted for its own.
pub open spec fn spec_records_after_birth(
    before: Seq<LineageRecord>,
    after: Seq<LineageRecord>,
    evicted: Option<Creature>,
    child_lineage: u128,
) -> bool {
    &&& after.len() == before.len()
    &&& forall|r: int|
        0 <= r < before.len() ==> #[trigger] after[r] == (match evicted {
            Some(e) => before[r].spec_credited(e.genome_id, e.food_eaten),
            None => before[r],
        }).spec_spawned(child_lineage)
}

/// Where the reproduction phase stands: the creatures, the records of
/// their lineages, and the newborns that wait to join the creatures.
pub struct Breeding {
    pub creatures: Seq<Creature>,
    pub records: Seq<LineageRecord>,
    pub waiting: Seq<Creature>,
}

/// What becomes of the creatures, the records and the newborns that wait
/// when `child` asks to be let in. Below the cap, counting those that wait,
/// the child is born. At the cap the weakest creature is evicted first;
/// where there is none to evict the child is not born and nothing changes.
pub open spec fn spec_welcomed(
    before: Breeding,
    child: Creature,
    cap: int,
    born: bool,
    after: Breeding,
) -> bool {
    if before.creatures.len() + before.waiting.len() < cap {
        &&& born
        &&& after.creatures == before.creatures
        &&& after.waiting == before.waiting.push(child)
        &&& spec_records_after_birth(before.records, after.records, None, child.genome_id)
    } else if exists|k: int| spec_weakest(before.creatures, k) {
        &&& born
        &&& after.waiting == before.waiting.push(child)
        &&& exists|k: int|
            {
                &&& #[trigger] spec_weakest(before.creatures, k)
                &&& after.creatures == before.creatures.remove(k)
                &&& spec_records_after_birth(
                    before.records,
                    after.records,
                    Some(before.creatures[k]),
                    child.genome_id,
                )
            }
    } else {
        &&& !born
        &&& after == before
    }
}

/// Whether the creatures at the positions `first` and `second` breed: both
/// exist, they are two, and each has the energy that the island asks for
/// and that breeding takes.
pub open spec fn spec_pair_breeds(creatures: Seq<Creature>, first: int, second: int, threshold: i64)
    -> bool {
    &&& 0 <= first < creatures.len()
    &&& 0 <= second < creatures.len()
    &&& first != second
    &&& creatures[first].energy >= threshold
    &&& creatures[second].energy >= threshold
    &&& creatures[first].spec_may_breed(creatures[second])
}

/// The creatures after those at `first` and `second` have paid for
/// breeding.
pub open spec fn spec_paid(creatures: Seq<Creature>, first: int, second: int) -> Seq<Creature> {
    creatures.update(first, creatures[first].spec_after_breeding()).update(
        second,
        creatures[second].spec_after_breeding(),
    )
}

/// Whether `child` may be the offspring of `mother` and `father` at the
/// given mutation rate: it is of the lineage of `mother`, stands midway
/// between the two with full energy and health, and its genome is crossed
/// from theirs and then mutated.
pub open spec fn spec_offspring(
    mother: Creature,
    father: Creature,
    child: Creature,
    mutation_rate: i64,
) -> bool {
    &&& child == mother.spec_child(father, child.genome, child.id)
    &&& child.genome.within_budget()
    &&& exists|picks: TraitPicks, noise: TraitNoise|
        noise.fits_rate(mutation_rate) && child.genome == mother.genome.spec_crossed(
            father.genome,
            picks,
        ).spec_mutated(noise)
}

/// What becomes of the reproduction phase when the creatures at `first`
/// and `second` are paired: where `spec_pair_breeds` says so both pay and
/// their child asks to be let in; otherwise nothing changes.
pub open spec fn spec_bred_pair(
    before: Breeding,
    first: int,
    second: int,
    config: IslandConfig,
    cap: int,
    after: Breeding,
) -> bool {
    if spec_pair_breeds(before.creatures, first, second, config.reproduction_threshold) {
        exists|child: Creature, born: bool|
            {
                &&& spec_offspring(
                    before.creatures[first],
                    before.creatures[second],
                    child,
                    config.mutation_rate,
                )
                &&& #[trigger] spec_welcomed(
                    Breeding { creatures: spec_paid(before.creatures, first, second), ..before },
                    child,
                    cap,
                    born,
                    after,
                )
            }
    } else {
        after == before
    }
}

/// What becomes of the reproduction phase when the first `pairs` pairs of
/// `order` are paired, one pair after the other: the creatures at
/// `order[0]` and `order[1]`, then those at `order[2]` and `order[3]`, and
/// so on. A position counts in the list of creatures as it stands when its
/// pair comes up.
pub open spec fn spec_pairs_bred(
    start: Breeding,
    order: Seq<usize>,
    pairs: nat,
    config: IslandConfig,
    cap: int,
    end: Breeding,
) -> bool
    decreases pairs,
{
    if pairs == 0 {
        end == start
    } else {
        exists|mid: Breeding|
            {
                &&& spec_pairs_bred(start, order, (pairs - 1) as nat, config, cap, mid)
                &&& #[trigger] spec_bred_pair(
                    mid,
                    order[2 * (pairs - 1)] as int,
                    order[2 * (pairs - 1) + 1] as int,
                    config,
                    cap,
                    end,
                )
            }
    }
}

/// The positions of a list of `n` items, in their order.
pub open spec fn spec_indices(n: nat) -> Seq<usize> {
    Seq::new(n, |i: int| i as usize)
}

/// What the reproduction phase makes of the creatures and the records: a
/// shuffle of the positions is paired off, two by two, and the newborns
/// join the creatures at the end. Fewer than two creatures do not breed.
pub open spec fn spec_reproduced(
    creatures: Seq<Creature>,
    records: Seq<LineageRecord>,
    config: IslandConfig,
    cap: int,
    after_creatures: Seq<Creature>,
    after_records: Seq<LineageRecord>,
) -> bool {
    if creatures.len() < 2 {
        after_creatures == creatures && after_records == records
    } else {
        exists|order: Seq<usize>, end: Breeding|
            {
                &&& order.to_multiset() == spec_indices(creatures.len()).to_multiset()
                &&& #[trigger] spec_pairs_bred(
                    Breeding { creatures, records, waiting: Seq::empty() },
                    order,
                    creatures.len() / 2,
                    config,
                    cap,
                    end,
                )
                &&& after_creatures == end.creatures + end.waiting
                &&& after_records == end.records
            }
    }
}

/// Every creature in the list is well formed, alive, stands on a grid of the
/// given size, and is of a lineage found among `parents`.
pub open spec fn spec_sound_offspring(
    offspring: Seq<Creature>,
    parents: Seq<Creature>,
    width: usize,
    height: usize,
) -> bool {
    forall|j: int|
        0 <= j < offspring.len() ==> {
            &&& (#[trigger] offspring[j]).wf()
            &&& offspring[j].inside(width, height)
            &&& offspring[j].health > 0
            &&& spec_lineage_present(parents, offspring[j].genome_id)
        }
}

/// The fitness scores of the creatures, added up.
pub open spec fn spec_fitness_total(creatures: Seq<Creature>) -> int
    decreases creatures.len(),
{
    if creatures.len() == 0 {
        0
    } else {
        spec_fitness_total(creatures.drop_last()) + creatures.last().genome.spec_fitness_score()
    }
}

/// The fitness scores of the creatures, in their order.
pub open spec fn spec_fitness_keys(creatures: Seq<Creature>) -> Seq<u64> {
    Seq::new(creatures.len(), |i: int| creatures[i].genome.spec_fitness_score() as u64)
}

} // verus!
