//! Creatures and the moves they can make.

use crate::chance::{random_id, thread_seeded_rng, uniform_below};
use crate::fixed::{
    lemma_square_root_exists, saturating_difference, saturating_sum, spec_saturate,
    spec_square_root, square_root, UNIT,
};
use crate::genes::{Genome, TraitNoise, TraitPicks};
use rand::rngs::StdRng;
use vstd::prelude::*;

verus! {

/// The energy a creature starts with: 100.
pub const STARTING_ENERGY: i64 = 100_000_000;

/// The health a creature starts with: 100.
pub const STARTING_HEALTH: i64 = 100_000_000;

/// The energy below which no creature breeds: 60.
pub const BREEDING_ENERGY: i64 = 60_000_000;

/// The energy that breeding costs each parent: 20.
pub const BREEDING_COST: i64 = 20_000_000;

/// The eight compass directions a creature can step in. North is toward
/// smaller `y`, east toward larger `x`.
#[derive(Debug, Clone, Copy, PartialEq, Eq, Structural)]
pub enum Direction {
    North,
    South,
    East,
    West,
    NorthEast,
    NorthWest,
    SouthEast,
    SouthWest,
}

impl Direction {
    /// The step along the x axis.
    pub open spec fn spec_dx(self) -> int {
        match self {
            Direction::North | Direction::South => 0,
            Direction::East | Direction::NorthEast | Direction::SouthEast => 1,
            Direction::West | Direction::NorthWest | Direction::SouthWest => -1,
        }
    }

    /// The step along the y axis.
    pub open spec fn spec_dy(self) -> int {
        match self {
            Direction::East | Direction::West => 0,
            Direction::South | Direction::SouthEast | Direction::SouthWest => 1,
            Direction::North | Direction::NorthEast | Direction::NorthWest => -1,
        }
    }
}

/// The sign of `to - from`.
pub open spec fn spec_sign(from: int, to: int) -> int {
    if to > from {
        1
    } else if to < from {
        -1
    } else {
        0
    }
}

/// The midpoint of two coordinates, rounded down.
pub open spec fn spec_midpoint(a: usize, b: usize) -> int {
    (a + b) / 2
}

/// Where a step in `direction` from (`x`, `y`) leads in a world of the
/// given size: nowhere if it would leave the grid.
pub open spec fn spec_step(x: usize, y: usize, direction: Direction, width: usize, height: usize)
    -> Option<(usize, usize)> {
    let nx = x + direction.spec_dx();
    let ny = y + direction.spec_dy();
    if 0 <= nx < width && 0 <= ny < height {
        Some((nx as usize, ny as usize))
    } else {
        None
    }
}

/// A simulated agent: a genome at a position, with the energy and health
/// it has left.
#[derive(Debug, Clone, Copy, PartialEq, Eq, Structural)]
pub struct Creature {
    /// A random identifier of this creature.
    pub id: u128,
    pub genome: Genome,
    /// The lineage the creature was seeded from or descends from.
    pub genome_id: u128,
    pub energy: i64,
    pub health: i64,
    pub x: usize,
    pub y: usize,
    /// The food eaten so far.
    pub food_eaten: u32,
}

/// The square root of a number that is at least the square of `i64::MAX`
/// is at least `i64::MAX`.
proof fn lemma_root_of_large(x: nat)
    requires
        x >= 0x7fff_ffff_ffff_ffff * 0x7fff_ffff_ffff_ffff,
    ensures
        spec_square_root(x) >= 0x7fff_ffff_ffff_ffff,
{
    let r = spec_square_root(x);
    lemma_square_root_exists(x);
    if r < 0x7fff_ffff_ffff_ffff {
        assert((r + 1) * (r + 1)
            <= 0x7fff_ffff_ffff_ffff * 0x7fff_ffff_ffff_ffff) by (nonlinear_arith)
            requires
                r + 1 <= 0x7fff_ffff_ffff_ffff,
        ;
    }
}

/// The midpoint of two coordinates, rounded down.
fn midpoint(a: usize, b: usize) -> (m: usize)
    ensures
        m as int == spec_midpoint(a, b),
{
    let low: usize = if a <= b {
        a
    } else {
        b
    };
    let high: usize = if a <= b {
        b
    } else {
        a
    };
    low + (high - low) / 2
}

/// Where a step in `direction` from (`x`, `y`) leads, if anywhere.
pub fn step_from(
    x: usize,
    y: usize,
    direction: Direction,
    width: usize,
    height: usize,
) -> (target: Option<(usize, usize)>)
    ensures
        target == spec_step(x, y, direction, width, height),
{
    let (east, west) = match direction {
        Direction::East | Direction::NorthEast | Direction::SouthEast => (true, false),
        Direction::West | Direction::NorthWest | Direction::SouthWest => (false, true),
        _ => (false, false),
    };
    let (south, north) = match direction {
        Direction::South | Direction::SouthEast | Direction::SouthWest => (true, false),
        Direction::North | Direction::NorthEast | Direction::NorthWest => (false, true),
        _ => (false, false),
    };
    if (west && x == 0) || (north && y == 0) {
        return None;
    }
    if (east && x == usize::MAX) || (south && y == usize::MAX) {
        return None;
    }
    let nx: usize = if east {
        x + 1
    } else if west {
        x - 1
    } else {
        x
    };
    let ny: usize = if south {
        y + 1
    } else if north {
        y - 1
    } else {
        y
    };
    if nx < width && ny < height {
        Some((nx, ny))
    } else {
        None
    }
}

impl Creature {
    /// The traits of the genome lie between zero and one.
    pub open spec fn wf(self) -> bool {
        self.genome.in_unit_range()
    }

    /// Whether the creature stands on the grid of a world of the given size.
    pub open spec fn inside(self, width: usize, height: usize) -> bool {
        self.x < width && self.y < height
    }

    /// Both creatures have the energy that breeding takes.
    pub open spec fn spec_may_breed(self, other: Creature) -> bool {
        self.energy >= BREEDING_ENERGY && other.energy >= BREEDING_ENERGY
    }

    /// A newborn of the given genome and lineage at a position.
    pub open spec fn spec_newborn(id: u128, genome: Genome, genome_id: u128, x: usize, y: usize)
        -> Creature {
        Creature {
            id,
            genome,
            genome_id,
            energy: STARTING_ENERGY,
            health: STARTING_HEALTH,
            x,
            y,
            food_eaten: 0,
        }
    }

    /// The creature after it has paid for breeding.
    pub open spec fn spec_after_breeding(self) -> Creature {
        Creature { energy: (self.energy - BREEDING_COST) as i64, ..self }
    }

    /// The child of `self` and `other`, given its genome and identifier: it
    /// is of the lineage of `self` and stands midway between its parents.
    pub open spec fn spec_child(self, other: Creature, genome: Genome, id: u128) -> Creature {
        Creature::spec_newborn(
            id,
            genome,
            self.genome_id,
            spec_midpoint(self.x, other.x) as usize,
            spec_midpoint(self.y, other.y) as usize,
        )
    }

    /// Combat power: strength + 0.5·size.
    pub open spec fn spec_combat_power(self) -> int {
        self.genome.spec_combat_power()
    }

    /// Vision radius: 5 + 10·size.
    pub open spec fn spec_vision_radius(self) -> int {
        5 * UNIT + 10 * self.genome.size
    }

    /// The chance that a step succeeds: 0.3 + 0.7·speed, and a tenth of
    /// that for a creature without energy.
    pub open spec fn spec_movement_probability(self) -> int {
        let base = 300_000 + 7 * self.genome.speed / 10;
        if self.energy <= 0 {
            base / 10
        } else {
            base
        }
    }

    /// Where a step in `direction` leads for a draw `roll` between zero and
    /// one: to the neighbouring tile where `roll` is at most
    /// `spec_movement_probability` and the tile lies on the grid, and
    /// nowhere else.
    pub open spec fn spec_move_on_roll(
        self,
        direction: Direction,
        width: usize,
        height: usize,
        roll: i64,
    ) -> Option<(usize, usize)> {
        if roll <= self.spec_movement_probability() {
            spec_step(self.x, self.y, direction, width, height)
        } else {
            None
        }
    }

    /// The direction of the step that leads toward (`target_x`,
    /// `target_y`), by the signs of the two distances. North stands for no
    /// step at all.
    pub open spec fn spec_direction_to(self, target_x: usize, target_y: usize) -> Direction {
        let sx = spec_sign(self.x as int, target_x as int);
        let sy = spec_sign(self.y as int, target_y as int);
        if sx == 0 && sy == 1 {
            Direction::South
        } else if sx == 1 && sy == 0 {
            Direction::East
        } else if sx == -1 && sy == 0 {
            Direction::West
        } else if sx == 1 && sy == -1 {
            Direction::NorthEast
        } else if sx == -1 && sy == -1 {
            Direction::NorthWest
        } else if sx == 1 && sy == 1 {
            Direction::SouthEast
        } else if sx == -1 && sy == 1 {
            Direction::SouthWest
        } else {
            Direction::North
        }
    }

    /// The square of the distance to (`x`, `y`), in squared millionths.
    pub open spec fn spec_distance_squared(self, x: usize, y: usize) -> int {
        ((x - self.x) * (x - self.x) + (y - self.y) * (y - self.y)) * (UNIT * UNIT)
    }

    /// The distance to (`x`, `y`): the integer part of the square root of
    /// `spec_distance_squared`, and no more than an `i64` holds.
    pub open spec fn spec_distance_to(self, x: usize, y: usize) -> int {
        let root = spec_square_root(self.spec_distance_squared(x, y) as nat);
        if root > i64::MAX as nat {
            i64::MAX as int
        } else {
            root as int
        }
    }

    /// A new creature at a position, with full energy and health and a
    /// random identifier.
    pub fn new(genome: Genome, genome_id: u128, x: usize, y: usize) -> (creature: Creature)
        ensures
            creature == Creature::spec_newborn(creature.id, genome, genome_id, x, y),
    {
        Creature {
            id: random_id(),
            genome,
            genome_id,
            energy: STARTING_ENERGY,
            health: STARTING_HEALTH,
            x,
            y,
            food_eaten: 0,
        }
    }

    /// The upkeep of one tick. Creatures lose no energy by themselves, so
    /// this changes nothing.
    pub fn consume_energy(&mut self)
        ensures
            *final(self) == *old(self),
    {
    }

    /// Adds energy, as from food. The energy stops at the ends of its range.
    pub fn add_energy(&mut self, amount: i64)
        ensures
            *final(self) == (Creature {
                energy: spec_saturate(old(self).energy + amount) as i64,
                ..*old(self)
            }),
    {
        self.energy = saturating_sum(self.energy, amount);
    }

    /// Whether the creature is dead: its health is used up.
    pub fn is_dead(&self) -> (dead: bool)
        ensures
            dead == (self.health <= 0),
    {
        self.health <= 0
    }

    /// Takes damage off the health, which stops at the ends of its range.
    pub fn take_damage(&mut self, amount: i64)
        ensures
            *final(self) == (Creature {
                health: spec_saturate(old(self).health - amount) as i64,
                ..*old(self)
            }),
    {
        self.health = saturating_difference(self.health, amount);
    }

    /// Whether the creature has the energy to reproduce at the given
    /// threshold.
    pub fn can_reproduce(&self, threshold: i64) -> (able: bool)
        ensures
            able == (self.energy >= threshold),
    {
        self.energy >= threshold
    }

    /// Whether both creatures have the energy that breeding takes.
    pub fn may_breed(&self, other: &Creature) -> (able: bool)
        ensures
            able == self.spec_may_breed(*other),
    {
        self.can_reproduce(BREEDING_ENERGY) && other.can_reproduce(BREEDING_ENERGY)
    }

    /// Makes both parents pay for breeding and hands out their child, which
    /// gets the given genome and identifier.
    pub fn beget(&mut self, other: &mut Creature, genome: Genome, id: u128) -> (child: Creature)
        requires
            old(self).spec_may_breed(*old(other)),
        ensures
            *final(self) == old(self).spec_after_breeding(),
            *final(other) == old(other).spec_after_breeding(),
            final(self).energy == old(self).energy - BREEDING_COST,
            final(other).energy == old(other).energy - BREEDING_COST,
            child == old(self).spec_child(*old(other), genome, id),
    {
        self.energy = self.energy - BREEDING_COST;
        other.energy = other.energy - BREEDING_COST;
        Creature {
            id,
            genome,
            genome_id: self.genome_id,
            energy: STARTING_ENERGY,
            health: STARTING_HEALTH,
            x: midpoint(self.x, other.x),
            y: midpoint(self.y, other.y),
            food_eaten: 0,
        }
    }

    /// Reproduces with another creature. Where both have the energy that
    /// breeding takes, each pays the cost and a child is born midway
    /// between them, of the lineage of `self`, with full energy and health
    /// and a genome crossed from both parents and then mutated. Otherwise
    /// nothing changes and there is no child.
    pub fn reproduce(
        &mut self,
        other: &mut Creature,
        mutation_rate: i64,
    ) -> (child: Option<Creature>)
        ensures
            child.is_some() == old(self).spec_may_breed(*old(other)),
            child.is_none() ==> *final(self) == *old(self) && *final(other) == *old(other),
            child.is_some() ==> {
                &&& *final(self) == old(self).spec_after_breeding()
                &&& *final(other) == old(other).spec_after_breeding()
                &&& final(self).energy == old(self).energy - BREEDING_COST
                &&& final(other).energy == old(other).energy - BREEDING_COST
                &&& child.unwrap() == old(self).spec_child(
                    *old(other),
                    child.unwrap().genome,
                    child.unwrap().id,
                )
                &&& child.unwrap().energy == STARTING_ENERGY
                &&& child.unwrap().genome.within_budget()
                &&& exists|picks: TraitPicks, noise: TraitNoise|
                    noise.fits_rate(mutation_rate) && child.unwrap().genome == old(
                        self,
                    ).genome.spec_crossed(old(other).genome, picks).spec_mutated(noise)
            },
    {
        let mut rng = thread_seeded_rng();
        self.reproduce_from(other, mutation_rate, &mut rng)
    }

    /// Reproduces with another creature as `reproduce` does, with the
    /// draws for the child's genome taken from `rng`.
    pub fn reproduce_from(
        &mut self,
        other: &mut Creature,
        mutation_rate: i64,
        rng: &mut StdRng,
    ) -> (child: Option<Creature>)
        ensures
            child.is_some() == old(self).spec_may_breed(*old(other)),
            child.is_none() ==> *final(self) == *old(self) && *final(other) == *old(other),
            child.is_some() ==> {
                &&& *final(self) == old(self).spec_after_breeding()
                &&& *final(other) == old(other).spec_after_breeding()
                &&& final(self).energy == old(self).energy - BREEDING_COST
                &&& final(other).energy == old(other).energy - BREEDING_COST
                &&& child.unwrap() == old(self).spec_child(
                    *old(other),
                    child.unwrap().genome,
                    child.unwrap().id,
                )
                &&& child.unwrap().energy == STARTING_ENERGY
                &&& child.unwrap().genome.within_budget()
                &&& exists|picks: TraitPicks, noise: TraitNoise|
                    noise.fits_rate(mutation_rate) && child.unwrap().genome == old(
                        self,
                    ).genome.spec_crossed(old(other).genome, picks).spec_mutated(noise)
            },
    {
        if !self.may_breed(other) {
            return None;
        }
        let mut genome = self.genome.crossover_from(&other.genome, rng);
        let ghost crossed = genome;
        genome.mutate_from(rng, mutation_rate);
        let id = random_id();
        let child = self.beget(other, genome, id);
        proof {
            let picks = choose|picks: TraitPicks|
                crossed == old(self).genome.spec_crossed(old(other).genome, picks);
            let noise = choose|noise: TraitNoise|
                noise.fits_rate(mutation_rate) && genome == crossed.spec_mutated(noise);
            assert(noise.fits_rate(mutation_rate) && child.genome == old(self).genome.spec_crossed(
                old(other).genome,
                picks,
            ).spec_mutated(noise));
        }
        Some(child)
    }

    /// The fitness score of the genome.
    pub fn fitness(&self) -> (score: i64)
        requires
            self.wf(),
        ensures
            score == self.genome.spec_fitness_score(),
            0 <= score <= 2_642_245,
    {
        self.genome.fitness_score()
    }

    /// The power the creature fights for food with.
    pub fn combat_power(&self) -> (power: i64)
        requires
            self.wf(),
        ensures
            power == self.spec_combat_power(),
            0 <= power <= 1_500_000,
    {
        (2 * self.genome.strength + self.genome.size) / 2
    }

    /// How far the creature sees.
    pub fn vision_radius(&self) -> (radius: i64)
        requires
            self.wf(),
        ensures
            radius == self.spec_vision_radius(),
            5 * UNIT <= radius <= 15 * UNIT,
    {
        5 * UNIT + 10 * self.genome.size
    }

    /// The chance that a step of the creature succeeds.
    pub fn movement_probability(&self) -> (chance: i64)
        requires
            self.wf(),
        ensures
            chance == self.spec_movement_probability(),
            0 <= chance <= UNIT,
    {
        let base: i64 = 300_000 + 7 * self.genome.speed / 10;
        if self.energy <= 0 {
            base / 10
        } else {
            base
        }
    }

    /// Attempts a step in a direction. The step fails by chance, the less
    /// often the higher `movement_probability` is, and it fails where it
    /// would leave the grid. What comes back is the new position, or `None`
    /// where the step failed; the creature itself stays where it is.
    pub fn try_move(
        &self,
        direction: Direction,
        world_width: usize,
        world_height: usize,
        rng: &mut StdRng,
    ) -> (target: Option<(usize, usize)>)
        requires
            self.wf(),
        ensures
            exists|roll: i64|
                0 <= roll < UNIT && target == #[trigger] self.spec_move_on_roll(
                    direction,
                    world_width,
                    world_height,
                    roll,
                ),
            target.is_some() ==>
                target.unwrap().0 < world_width && target.unwrap().1 < world_height,
    {
        let roll: i64 = uniform_below(rng, UNIT as u64) as i64;
        let target = self.move_on_roll(direction, world_width, world_height, roll);
        assert(target == self.spec_move_on_roll(direction, world_width, world_height, roll));
        target
    }

    /// The outcome of a step for a given draw `roll` between zero and one:
    /// the step succeeds where `roll` is at most `movement_probability`
    /// and the target lies on the grid.
    pub fn move_on_roll(
        &self,
        direction: Direction,
        world_width: usize,
        world_height: usize,
        roll: i64,
    ) -> (target: Option<(usize, usize)>)
        requires
            self.wf(),
        ensures
            target == self.spec_move_on_roll(direction, world_width, world_height, roll),
    {
        if roll > self.movement_probability() {
            return None;
        }
        step_from(self.x, self.y, direction, world_width, world_height)
    }

    /// The direction of the step that leads toward a target.
    pub fn direction_to(&self, target_x: usize, target_y: usize) -> (direction: Direction)
        ensures
            direction == self.spec_direction_to(target_x, target_y),
    {
        if target_x == self.x {
            if target_y > self.y {
                Direction::South
            } else {
                Direction::North
            }
        } else if target_x > self.x {
            if target_y == self.y {
                Direction::East
            } else if target_y < self.y {
                Direction::NorthEast
            } else {
                Direction::SouthEast
            }
        } else {
            if target_y == self.y {
                Direction::West
            } else if target_y < self.y {
                Direction::NorthWest
            } else {
                Direction::SouthWest
            }
        }
    }

    /// The distance to a position, rounded down to a millionth, or
    /// `i64::MAX` where it is more than that.
    pub fn distance_to(&self, x: usize, y: usize) -> (distance: i64)
        ensures
            distance == self.spec_distance_to(x, y),
            0 <= distance,
    {
        let dx: u128 = if x >= self.x {
            (x - self.x) as u128
        } else {
            (self.x - x) as u128
        };
        let dy: u128 = if y >= self.y {
            (y - self.y) as u128
        } else {
            (self.y - y) as u128
        };
        assert(dx * dx == (x - self.x) * (x - self.x) && dy * dy == (y - self.y) * (y - self.y))
            by (nonlinear_arith)
            requires
                dx == x - self.x || dx == self.x - x,
                dy == y - self.y || dy == self.y - y,
        ;
        assert(UNIT * UNIT == 1_000_000_000_000) by (nonlinear_arith);
        assert(dx * dx >= 0 && dy * dy >= 0) by (nonlinear_arith);
        if dx > 9_223_372_036_854 || dy > 9_223_372_036_854 {
            assert((dx * dx + dy * dy) * 1_000_000_000_000 >= 0x7fff_ffff_ffff_ffff
                * 0x7fff_ffff_ffff_ffff) by (nonlinear_arith)
                requires
                    dx >= 9_223_372_036_855 || dy >= 9_223_372_036_855,
                    dx >= 0,
                    dy >= 0,
            ;
            proof {
                lemma_root_of_large(self.spec_distance_squared(x, y) as nat);
            }
            return i64::MAX;
        }
        assert(dx * dx <= 9_223_372_036_854 * 9_223_372_036_854 && dy * dy <= 9_223_372_036_854
            * 9_223_372_036_854) by (nonlinear_arith)
            requires
                0 <= dx <= 9_223_372_036_854,
                0 <= dy <= 9_223_372_036_854,
        ;
        let cells: u128 = dx * dx + dy * dy;
        assert(cells * 1_000_000_000_000 <= 2 * (9_223_372_036_854 * 9_223_372_036_854)
            * 1_000_000_000_000) by (nonlinear_arith)
            requires
                cells <= 2 * (9_223_372_036_854 * 9_223_372_036_854),
        ;
        let squared: u128 = cells * 1_000_000_000_000;
        let root: u128 = square_root(squared);
        if root >= i64::MAX as u128 {
            i64::MAX
        } else {
            root as i64
        }
    }
}

} // verus!
