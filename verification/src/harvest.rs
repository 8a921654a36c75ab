//! What a tile yields over time: laws on sequences of ticks and meals.

use crate::phases::{spec_meal, spec_tile_fed, MEAL};
use crate::world::{Tile, REGROWTH_DELAY};
use vstd::prelude::*;

verus! {

/// What happens to a tile: a tick passes, or a creature asks for food.
pub enum TileEvent {
    Tick,
    Eat(u32),
}

/// The ticks among the events.
pub open spec fn spec_ticks(events: Seq<TileEvent>) -> nat
    decreases events.len(),
{
    if events.len() == 0 {
        0
    } else {
        spec_ticks(events.drop_last()) + (if events.last() is Tick {
            1nat
        } else {
            0nat
        })
    }
}

/// The tile after one event.
pub open spec fn spec_after(tile: Tile, event: TileEvent) -> Tile {
    match event {
        TileEvent::Tick => tile.spec_regrown(),
        TileEvent::Eat(requested) => tile.spec_after_eating(requested),
    }
}

/// The food that one event takes from the tile.
pub open spec fn spec_yield(tile: Tile, event: TileEvent) -> nat {
    match event {
        TileEvent::Tick => 0,
        TileEvent::Eat(requested) => tile.spec_eaten(requested) as nat,
    }
}

/// The tile after the events, one after the other.
pub open spec fn spec_after_all(tile: Tile, events: Seq<TileEvent>) -> Tile
    decreases events.len(),
{
    if events.len() == 0 {
        tile
    } else {
        spec_after(spec_after_all(tile, events.drop_last()), events.last())
    }
}

/// The food that the events take from the tile, added up.
pub open spec fn spec_harvest(tile: Tile, events: Seq<TileEvent>) -> nat
    decreases events.len(),
{
    if events.len() == 0 {
        0
    } else {
        spec_harvest(tile, events.drop_last()) + spec_yield(
            spec_after_all(tile, events.drop_last()),
            events.last(),
        )
    }
}

/// Every meal among the events asks for at least `amount`.
pub open spec fn spec_meals_of_at_least(events: Seq<TileEvent>, amount: u32) -> bool {
    forall|i: int|
        0 <= i < events.len() ==> ((#[trigger] events[i]) matches TileEvent::Eat(requested)
            ==> requested >= amount)
}

/// The tile after `n` ticks without a meal.
pub open spec fn spec_left_alone(tile: Tile, n: nat) -> Tile
    decreases n,
{
    if n == 0 {
        tile
    } else {
        spec_left_alone(tile, (n - 1) as nat).spec_regrown()
    }
}

/// What one tick of a run does to a tile: a tick passes, and then a meal is
/// asked for where a creature stands on the tile and the tile holds food.
pub open spec fn spec_tick_events(tile: Tile, occupied: bool) -> Seq<TileEvent> {
    if occupied && tile.spec_regrown().spec_available() > 0 {
        seq![TileEvent::Tick, TileEvent::Eat(MEAL)]
    } else {
        seq![TileEvent::Tick]
    }
}

/// A tick of a run is a tick and at most one meal for every tile, and what
/// the winner of the tile eats is what the tile yields.
pub proof fn lemma_tick_as_events(tile: Tile, occupied: bool)
    ensures
        spec_tile_fed(tile.spec_regrown(), occupied) == spec_after_all(
            tile,
            spec_tick_events(tile, occupied),
        ),
        spec_harvest(tile, spec_tick_events(tile, occupied)) == (if occupied {
            spec_meal(tile.spec_regrown().spec_available()) as nat
        } else {
            0nat
        }),
        spec_ticks(spec_tick_events(tile, occupied)) == 1,
        spec_meals_of_at_least(spec_tick_events(tile, occupied), MEAL),
{
    let events = spec_tick_events(tile, occupied);
    reveal_with_fuel(spec_after_all, 3);
    reveal_with_fuel(spec_harvest, 3);
    reveal_with_fuel(spec_ticks, 3);
    if events.len() == 2 {
        assert(events.drop_last() =~= seq![TileEvent::Tick]);
        assert(events.drop_last().drop_last() =~= Seq::<TileEvent>::empty());
        assert(events.last() == TileEvent::Eat(MEAL));
        assert(events.drop_last().last() == TileEvent::Tick);
    } else {
        assert(events.drop_last() =~= Seq::<TileEvent>::empty());
        assert(events.last() == TileEvent::Tick);
    }
}

/// A well-formed tile stays well formed, whatever happens to it.
pub proof fn lemma_tile_stays_well_formed(tile: Tile, events: Seq<TileEvent>)
    requires
        tile.wf(),
    ensures
        spec_after_all(tile, events).wf(),
    decreases events.len(),
{
    if events.len() > 0 {
        lemma_tile_stays_well_formed(tile, events.drop_last());
    }
}

/// Eating never overdraws a tile: what has been eaten from it and what is
/// left on it are together no more than what it held at first and one unit
/// for each tick that has passed.
pub proof fn lemma_harvest_is_bounded(tile: Tile, events: Seq<TileEvent>)
    requires
        tile.wf(),
    ensures
        spec_harvest(tile, events) + spec_after_all(tile, events).spec_available()
            <= tile.spec_available() + spec_ticks(events),
    decreases events.len(),
{
    if events.len() > 0 {
        lemma_harvest_is_bounded(tile, events.drop_last());
        lemma_tile_stays_well_formed(tile, events.drop_last());
    }
}

/// How far a plant has come toward its next unit of food, in tenths of a
/// unit, counting the food it holds.
pub open spec fn spec_progress(tile: Tile) -> int {
    match tile {
        Tile::Plant { current_food, max_food, regrowth_timer } => if current_food < max_food {
            REGROWTH_DELAY * current_food + (REGROWTH_DELAY - regrowth_timer)
        } else {
            REGROWTH_DELAY * max_food
        },
        _ => 0,
    }
}

/// A plant that is eaten bare at every meal, from the first event on, has
/// its timer running whenever it is below its maximum, and yields in all
/// no more than it held at first and one unit for every ten ticks.
proof fn lemma_depleted_plant_progress(tile: Tile, events: Seq<TileEvent>)
    requires
        tile.wf(),
        tile is Plant,
        events.len() > 0,
        events[0] is Eat,
        spec_meals_of_at_least(events, tile->max_food),
    ensures
        spec_after_all(tile, events) matches Tile::Plant { current_food, max_food, regrowth_timer }
            && max_food == tile->max_food && current_food <= max_food && (current_food < max_food
            ==> 1 <= regrowth_timer <= REGROWTH_DELAY),
        REGROWTH_DELAY * (spec_harvest(tile, events) - tile.spec_available()) + spec_progress(
            spec_after_all(tile, events),
        ) <= spec_ticks(events),
    decreases events.len(),
{
    let earlier = events.drop_last();
    if earlier.len() == 0 {
        assert(events.last() == events[0]);
        assert(spec_after_all(tile, earlier) == tile);
        assert(spec_harvest(tile, earlier) == 0);
    } else {
        assert(earlier[0] == events[0]);
        assert forall|i: int| 0 <= i < earlier.len() implies
            ((#[trigger] earlier[i]) matches TileEvent::Eat(
            requested,
        ) ==> requested >= tile->max_food) by {
            assert(earlier[i] == events[i]);
        }
        lemma_depleted_plant_progress(tile, earlier);
    }
}

/// Under continuous depletion one unit of food regrows every ten ticks:
/// what is eaten from a plant that is eaten bare at every meal, from the
/// first event on, is no more than what the plant held at first and one
/// unit for every ten ticks that have passed.
pub proof fn lemma_depleting_harvest_is_bounded(tile: Tile, events: Seq<TileEvent>)
    requires
        tile.wf(),
        tile is Plant,
        events.len() > 0 ==> events[0] is Eat,
        spec_meals_of_at_least(events, tile->max_food),
    ensures
        spec_harvest(tile, events) <= tile.spec_available() + spec_ticks(events) / (
        REGROWTH_DELAY as nat),
{
    if events.len() > 0 {
        lemma_depleted_plant_progress(tile, events);
        let gained = spec_harvest(tile, events) - tile.spec_available();
        let ticks = spec_ticks(events) as int;
        assert(spec_progress(spec_after_all(tile, events)) >= 0);
        assert(gained <= ticks / 10) by (nonlinear_arith)
            requires
                10 * gained <= ticks,
        ;
    }
}

/// A plant that was eaten bare and is then left alone holds, after `n`
/// ticks, one unit of food for every ten of them, up to its maximum.
pub proof fn lemma_regrowth_after_depletion(max_food: u32, n: nat)
    ensures
        spec_left_alone(
            Tile::Plant { current_food: 0, max_food, regrowth_timer: REGROWTH_DELAY },
            n,
        ).spec_available() == (if n / (REGROWTH_DELAY as nat) < max_food {
            n / (REGROWTH_DELAY as nat)
        } else {
            max_food as nat
        }),
        spec_left_alone(
            Tile::Plant { current_food: 0, max_food, regrowth_timer: REGROWTH_DELAY },
            n,
        ) matches Tile::Plant { current_food, max_food: m, regrowth_timer } && m == max_food && (
        current_food < max_food ==> regrowth_timer == REGROWTH_DELAY - n % (REGROWTH_DELAY as nat)),
    decreases n,
{
    if n > 0 {
        lemma_regrowth_after_depletion(max_food, (n - 1) as nat);
    }
}

} // verus!
