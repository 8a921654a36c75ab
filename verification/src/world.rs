//! The grid world: tiles, the food on them, and how it regrows.

use crate::chance::uniform_below;
use crate::fixed::UNIT;
use rand::rngs::StdRng;
use vstd::arithmetic::div_mod::lemma_hoist_over_denominator;
use vstd::prelude::*;

verus! {

/// The food a freshly placed plant holds, and the most it regrows to.
pub const PLANT_CAPACITY: u32 = 10;

/// The ticks a depleted plant needs to regrow one unit of food.
pub const REGROWTH_DELAY: u32 = 10;

/// The least food a freshly placed food tile holds.
pub const FOOD_MIN: u32 = 5;

/// The most food a freshly placed food tile holds.
pub const FOOD_MAX: u32 = 15;

/// What one cell of the grid holds.
#[derive(Debug, Clone, Copy, PartialEq, Eq, Structural)]
pub enum Tile {
    /// Nothing.
    Empty,
    /// A renewable resource: food that regrows over time.
    Plant { current_food: u32, max_food: u32, regrowth_timer: u32 },
    /// A consumable resource: food that does not come back.
    Food { amount: u32 },
}

impl Tile {
    /// A plant never holds more than its maximum, and a food tile is never
    /// empty.
    pub open spec fn wf(self) -> bool {
        match self {
            Tile::Empty => true,
            Tile::Plant { current_food, max_food, regrowth_timer } => current_food <= max_food,
            Tile::Food { amount } => amount > 0,
        }
    }

    /// The food that can be eaten from the tile.
    pub open spec fn spec_available(self) -> u32 {
        match self {
            Tile::Empty => 0,
            Tile::Plant { current_food, max_food, regrowth_timer } => current_food,
            Tile::Food { amount } => amount,
        }
    }

    /// What a creature that asks for `requested` gets: what it asks for, or
    /// all there is.
    pub open spec fn spec_eaten(self, requested: u32) -> u32 {
        if self.spec_available() <= requested {
            self.spec_available()
        } else {
            requested
        }
    }

    /// The tile after a creature has asked for `requested`. A plant eaten
    /// bare starts its regrowth timer; a food tile eaten bare is gone.
    pub open spec fn spec_after_eating(self, requested: u32) -> Tile {
        match self {
            Tile::Empty => Tile::Empty,
            Tile::Plant { current_food, max_food, regrowth_timer } => {
                let left = (current_food - self.spec_eaten(requested)) as u32;
                Tile::Plant {
                    current_food: left,
                    max_food,
                    regrowth_timer: if left == 0 {
                        REGROWTH_DELAY
                    } else {
                        regrowth_timer
                    },
                }
            },
            Tile::Food { amount } => {
                let left = (amount - self.spec_eaten(requested)) as u32;
                if left == 0 {
                    Tile::Empty
                } else {
                    Tile::Food { amount: left }
                }
            },
        }
    }

    /// The tile one tick later. A plant below its maximum counts its timer
    /// down and gains one unit of food when the timer reaches, or already
    /// stands at, zero; below the maximum the timer then starts again.
    pub open spec fn spec_regrown(self) -> Tile {
        match self {
            Tile::Plant { current_food, max_food, regrowth_timer } => {
                if current_food < max_food {
                    if regrowth_timer > 1 {
                        Tile::Plant {
                            current_food,
                            max_food,
                            regrowth_timer: (regrowth_timer - 1) as u32,
                        }
                    } else {
                        Tile::Plant {
                            current_food: (current_food + 1) as u32,
                            max_food,
                            regrowth_timer: if current_food + 1 < max_food {
                                REGROWTH_DELAY
                            } else {
                                0
                            },
                        }
                    }
                } else {
                    self
                }
            },
            _ => self,
        }
    }

    /// The food that can be eaten from the tile.
    pub fn available(&self) -> (food: u32)
        ensures
            food == self.spec_available(),
    {
        match self {
            Tile::Empty => 0,
            Tile::Plant { current_food, .. } => *current_food,
            Tile::Food { amount } => *amount,
        }
    }

    /// Takes up to `requested` food from the tile and says how much it was.
    pub fn eat(&mut self, requested: u32) -> (eaten: u32)
        ensures
            eaten == old(self).spec_eaten(requested),
            *final(self) == old(self).spec_after_eating(requested),
            old(self).wf() ==> final(self).wf(),
            final(self).spec_available() == old(self).spec_available() - eaten,
    {
        match *self {
            Tile::Empty => 0,
            Tile::Plant { current_food, max_food, regrowth_timer } => {
                let eaten: u32 = if current_food <= requested {
                    current_food
                } else {
                    requested
                };
                let left: u32 = current_food - eaten;
                *self = Tile::Plant {
                    current_food: left,
                    max_food,
                    regrowth_timer: if left == 0 {
                        REGROWTH_DELAY
                    } else {
                        regrowth_timer
                    },
                };
                eaten
            },
            Tile::Food { amount } => {
                let eaten: u32 = if amount <= requested {
                    amount
                } else {
                    requested
                };
                let left: u32 = amount - eaten;
                if left == 0 {
                    *self = Tile::Empty;
                } else {
                    *self = Tile::Food { amount: left };
                }
                eaten
            },
        }
    }

    /// The tile one tick later.
    pub fn regrown(self) -> (next: Tile)
        requires
            self.wf(),
        ensures
            next == self.spec_regrown(),
            next.wf(),
    {
        match self {
            Tile::Plant { current_food, max_food, regrowth_timer } => {
                if current_food < max_food {
                    if regrowth_timer > 1 {
                        Tile::Plant { current_food, max_food, regrowth_timer: regrowth_timer - 1 }
                    } else {
                        let grown: u32 = current_food + 1;
                        Tile::Plant {
                            current_food: grown,
                            max_food,
                            regrowth_timer: if grown < max_food {
                                REGROWTH_DELAY
                            } else {
                                0
                            },
                        }
                    }
                } else {
                    self
                }
            },
            _ => self,
        }
    }
}

/// A two-dimensional grid of tiles. `grid[y][x]` is the tile in column `x` of
/// row `y`.
#[derive(Debug, Clone)]
pub struct World {
    pub width: usize,
    pub height: usize,
    pub grid: Vec<Vec<Tile>>,
}

/// How many tiles of a resource a world of the given size gets at the given
/// density: the area times the density, rounded down, and no more than a
/// `usize` holds. A negative density counts as zero.
pub open spec fn spec_resource_count(width: usize, height: usize, density: i64) -> int {
    let exact = if density <= 0 {
        0
    } else {
        (width as int) * (height as int) * (density as int) / (UNIT as int)
    };
    if exact > usize::MAX as int {
        usize::MAX as int
    } else {
        exact
    }
}

/// Whether (`x`, `y`) lies within the distance `radius` of (`cx`, `cy`). Grid
/// coordinates are whole numbers and `radius` is fixed-point, so the
/// squared distance is compared in squared millionths.
pub open spec fn within_radius(cx: int, cy: int, radius: int, x: int, y: int) -> bool {
    radius >= 0 && ((x - cx) * (x - cx) + (y - cy) * (y - cy)) * (UNIT * UNIT) <= radius * radius
}

/// The order in which a scan by rows meets two positions: the first one
/// earlier.
pub open spec fn row_major_before(a: (usize, usize, u32), b: (usize, usize, u32)) -> bool {
    a.1 < b.1 || (a.1 == b.1 && a.0 < b.0)
}

/// Whether the list names the position (`x`, `y`).
pub open spec fn lists_position(found: Seq<(usize, usize, u32)>, x: int, y: int) -> bool {
    exists|k: int| 0 <= k < found.len() && (#[trigger] found[k]).0 == x && found[k].1 == y
}

/// The food on the tiles of a row, added up.
pub open spec fn spec_row_food(row: Seq<Tile>) -> nat
    decreases row.len(),
{
    if row.len() == 0 {
        0
    } else {
        spec_row_food(row.drop_last()) + row.last().spec_available() as nat
    }
}

/// The food on the tiles of some rows, added up.
pub open spec fn spec_rows_food(rows: Seq<Vec<Tile>>) -> nat
    decreases rows.len(),
{
    if rows.len() == 0 {
        0
    } else {
        spec_rows_food(rows.drop_last()) + spec_row_food(rows.last()@)
    }
}

/// The smallest whole number of cells that covers the distance `radius`.
pub open spec fn spec_reach(radius: int) -> int {
    (radius + UNIT - 1) / (UNIT as int)
}

/// A position within the radius lies within the box of that many cells
/// around the centre.
proof fn lemma_radius_is_boxed(cx: int, cy: int, radius: int, x: int, y: int)
    requires
        within_radius(cx, cy, radius, x, y),
    ensures
        cx - spec_reach(radius) <= x <= cx + spec_reach(radius),
        cy - spec_reach(radius) <= y <= cy + spec_reach(radius),
{
    let reach = spec_reach(radius);
    let unit = UNIT as int;
    assert(reach * unit >= radius) by (nonlinear_arith)
        requires
            reach == (radius + unit - 1) / unit,
            unit == 1_000_000,
    ;
    let dx = x - cx;
    let dy = y - cy;
    assert(dx * dx >= 0 && dy * dy >= 0) by (nonlinear_arith);
    if dx > reach || dx < -reach {
        assert(dx * dx * (unit * unit) > radius * radius) by (nonlinear_arith)
            requires
                dx > reach || dx < -reach,
                reach * unit >= radius,
                radius >= 0,
                unit > 0,
        ;
        assert((dx * dx + dy * dy) * (unit * unit) >= dx * dx * (unit * unit)) by (nonlinear_arith)
            requires
                dy * dy >= 0,
                unit > 0,
        ;
    }
    if dy > reach || dy < -reach {
        assert(dy * dy * (unit * unit) > radius * radius) by (nonlinear_arith)
            requires
                dy > reach || dy < -reach,
                reach * unit >= radius,
                radius >= 0,
                unit > 0,
        ;
        assert((dx * dx + dy * dy) * (unit * unit) >= dy * dy * (unit * unit)) by (nonlinear_arith)
            requires
                dx * dx >= 0,
                unit > 0,
        ;
    }
}

/// The number of tiles that a resource of the given density gets in a world
/// of the given size.
pub fn resource_count(width: usize, height: usize, density: i64) -> (count: usize)
    ensures
        count as int == spec_resource_count(width, height, density),
{
    if density <= 0 {
        return 0;
    }
    assert((width as int) * (height as int) <= 0xffff_ffff_ffff_ffff * 0xffff_ffff_ffff_ffff)
        by (nonlinear_arith)
        requires
            0 <= width <= 0xffff_ffff_ffff_ffff,
            0 <= height <= 0xffff_ffff_ffff_ffff,
    ;
    let area: u128 = (width as u128) * (height as u128);
    let unit: u128 = UNIT as u128;
    let d: u128 = density as u128;
    let whole: u128 = area / unit;
    let part: u128 = area % unit;
    assert(part * d <= 1_000_000 * 0x7fff_ffff_ffff_ffff) by (nonlinear_arith)
        requires
            0 <= part < 1_000_000,
            0 <= d <= 0x7fff_ffff_ffff_ffff,
    ;
    let tail: u128 = part * d / unit;
    proof {
        let exact = (area as int) * (d as int) / (unit as int);
        assert((area as int) * (d as int)
            == (part as int) * (d as int) + ((whole as int) * (d as int))
            * (unit as int)) by (nonlinear_arith)
            requires
                area as int == (unit as int) * (whole as int) + (part as int),
        ;
        lemma_hoist_over_denominator((part as int) * (d as int), (whole as int) * (d as int),
            unit as nat);
        assert(exact == tail as int + (whole as int) * (d as int));
        assert((whole as int) * (d as int) >= 0) by (nonlinear_arith)
            requires
                whole >= 0,
                d >= 0,
        ;
    }
    match whole.checked_mul(d) {
        None => usize::MAX,
        Some(head) => match head.checked_add(tail) {
            None => usize::MAX,
            Some(exact) => if exact > usize::MAX as u128 {
                usize::MAX
            } else {
                exact as usize
            },
        },
    }
}

/// The smallest whole number of cells that covers the distance `radius`.
fn reach_of(radius: i64) -> (reach: u64)
    requires
        radius >= 0,
    ensures
        reach as int == spec_reach(radius as int),
        reach <= 9_223_372_036_855,
{
    let whole: i64 = radius / UNIT;
    let part: i64 = radius % UNIT;
    proof {
        lemma_hoist_over_denominator(part + UNIT - 1, whole as int, UNIT as nat);
    }
    if part > 0 {
        (whole + 1) as u64
    } else {
        whole as u64
    }
}

/// Whether the position (`x`, `y`) lies within `radius` of the centre, for
/// a position no further than `reach` cells from it along either axis.
fn sees(cx: usize, cy: usize, radius: i64, x: usize, y: usize) -> (seen: bool)
    requires
        radius >= 0,
        cx - 9_223_372_036_855 <= x <= cx + 9_223_372_036_855,
        cy - 9_223_372_036_855 <= y <= cy + 9_223_372_036_855,
    ensures
        seen == within_radius(cx as int, cy as int, radius as int, x as int, y as int),
{
    let dx: u128 = if x >= cx {
        (x - cx) as u128
    } else {
        (cx - x) as u128
    };
    let dy: u128 = if y >= cy {
        (y - cy) as u128
    } else {
        (cy - y) as u128
    };
    let r: u128 = radius as u128;
    assert(dx * dx <= 9_223_372_036_855 * 9_223_372_036_855 && dy * dy <= 9_223_372_036_855
        * 9_223_372_036_855 && r * r <= 0x7fff_ffff_ffff_ffff * 0x7fff_ffff_ffff_ffff)
        by (nonlinear_arith)
        requires
            0 <= dx <= 9_223_372_036_855,
            0 <= dy <= 9_223_372_036_855,
            0 <= r <= 0x7fff_ffff_ffff_ffff,
    ;
    assert(dx * dx == (x - cx) * (x - cx) && dy * dy == (y - cy) * (y - cy)) by (nonlinear_arith)
        requires
            dx == x - cx || dx == cx - x,
            dy == y - cy || dy == cy - y,
    ;
    let cells: u128 = dx * dx + dy * dy;
    assert(cells * 1_000_000_000_000 <= 2 * (9_223_372_036_855 * 9_223_372_036_855)
        * 1_000_000_000_000) by (nonlinear_arith)
        requires
            cells <= 2 * (9_223_372_036_855 * 9_223_372_036_855),
    ;
    assert(UNIT * UNIT == 1_000_000_000_000) by (nonlinear_arith);
    cells * 1_000_000_000_000 <= r * r
}

/// Every tile that differs from the tile before was empty and now holds a
/// full plant at a position of `plants`, or a fresh food tile at a position
/// of `food`.
pub open spec fn spec_sown_at(
    before: &World,
    after: &World,
    plants: Set<(int, int)>,
    food: Set<(int, int)>,
) -> bool {
    forall|x: int, y: int|
        before.in_bounds(x, y) ==> {
            ||| #[trigger] after.tile_at(x, y) == before.tile_at(x, y)
            ||| (before.tile_at(x, y) == Tile::Empty && plants.contains((x, y))
                && after.tile_at(x, y)
                == Tile::Plant {
                current_food: PLANT_CAPACITY,
                max_food: PLANT_CAPACITY,
                regrowth_timer: 0,
            })
            ||| (before.tile_at(x, y) == Tile::Empty && food.contains((x, y)) && exists|amount: u32|
                FOOD_MIN <= amount <= FOOD_MAX && after.tile_at(x, y) == (Tile::Food { amount }))
        }
}

/// Every tile of the world is empty.
pub open spec fn spec_blank(world: &World) -> bool {
    forall|x: int, y: int| world.in_bounds(x, y) ==> #[trigger] world.tile_at(x, y) == Tile::Empty
}

/// Some tile of the world holds a plant.
pub open spec fn spec_holds_plant(world: &World) -> bool {
    exists|x: int, y: int| world.in_bounds(x, y) && #[trigger] world.tile_at(x, y) is Plant
}

/// Some tile of the world holds food that does not regrow.
pub open spec fn spec_holds_food(world: &World) -> bool {
    exists|x: int, y: int| world.in_bounds(x, y) && #[trigger] world.tile_at(x, y) is Food
}

/// What sowing is sure to place on a world that was empty: the first draw
/// finds an empty tile, so there is a plant where at least one is asked
/// for, and food where no plant but at least one food tile is asked for.
pub open spec fn spec_sown_for_sure(after: &World, plant_count: int, food_count: int) -> bool {
    &&& plant_count >= 1 ==> spec_holds_plant(after)
    &&& plant_count == 0 && food_count >= 1 ==> spec_holds_food(after)
}

/// The resources of `after` were placed on `before` in at most
/// `plant_count` and `food_count` places, and in at least one where
/// `before` was empty.
pub open spec fn spec_sown(
    before: &World,
    after: &World,
    plant_count: int,
    food_count: int,
) -> bool {
    &&& exists|plants: Set<(int, int)>, food: Set<(int, int)>|
        {
            &&& plants.finite() && plants.len() <= plant_count
            &&& food.finite() && food.len() <= food_count
            &&& #[trigger] spec_sown_at(before, after, plants, food)
        }
    &&& spec_blank(before) ==> spec_sown_for_sure(after, plant_count, food_count)
}

/// Every tile is empty, or holds a full plant at a position of `plants`, or
/// a fresh food tile at a position of `food`.
pub open spec fn spec_holds_only(world: &World, plants: Set<(int, int)>, food: Set<(int,
    int)>) -> bool {
    forall|x: int, y: int|
        world.in_bounds(x, y) ==> {
            ||| #[trigger] world.tile_at(x, y) == Tile::Empty
            ||| (plants.contains((x, y)) && world.tile_at(x, y) == Tile::Plant {
                current_food: PLANT_CAPACITY,
                max_food: PLANT_CAPACITY,
                regrowth_timer: 0,
            })
            ||| (food.contains((x, y)) && exists|amount: u32|
                FOOD_MIN <= amount <= FOOD_MAX && world.tile_at(x, y) == (Tile::Food { amount }))
        }
}

/// The world is as resources were placed on an empty one: full plants in at
/// most `plant_count` places, fresh food in at most `food_count` places, and
/// nothing elsewhere; and there is a plant, or food, where
/// `spec_sown_for_sure` says so.
pub open spec fn spec_freshly_sown(world: &World, plant_count: int, food_count: int) -> bool {
    &&& exists|plants: Set<(int, int)>, food: Set<(int, int)>|
        {
            &&& plants.finite() && plants.len() <= plant_count
            &&& food.finite() && food.len() <= food_count
            &&& #[trigger] spec_holds_only(world, plants, food)
        }
    &&& spec_sown_for_sure(world, plant_count, food_count)
}

impl World {
    /// The grid has `height` rows of `width` tiles, each of them well
    /// formed.
    pub open spec fn wf(&self) -> bool {
        &&& self.grid@.len() == self.height
        &&& forall|y: int| 0 <= y < self.height ==> (#[trigger] self.grid@[y])@.len() == self.width
        &&& forall|x: int, y: int|
            0 <= x < self.width && 0 <= y < self.height ==> (#[trigger] self.tile_at(x, y)).wf()
    }

    /// The tile in column `x` of row `y`.
    pub open spec fn tile_at(&self, x: int, y: int) -> Tile {
        self.grid@[y]@[x]
    }

    /// Whether the position lies on the grid.
    pub open spec fn in_bounds(&self, x: int, y: int) -> bool {
        0 <= x < self.width && 0 <= y < self.height
    }

    /// The food at a position; none off the grid.
    pub open spec fn spec_available_food(&self, x: int, y: int) -> u32 {
        if self.in_bounds(x, y) {
            self.tile_at(x, y).spec_available()
        } else {
            0
        }
    }

    /// Whether the position lies on the grid, holds food, and is within
    /// `radius` of (`cx`, `cy`).
    pub open spec fn spec_food_in_view(
        &self,
        cx: int,
        cy: int,
        radius: int,
        x: int,
        y: int,
    ) -> bool {
        &&& self.in_bounds(x, y)
        &&& within_radius(cx, cy, radius, x, y)
        &&& self.tile_at(x, y).spec_available() > 0
    }

    /// Whether (`fx`, `fy`) is the first position that a scan by rows finds
    /// food at within `radius` of (`cx`, `cy`).
    pub open spec fn spec_first_in_view(
        &self,
        cx: int,
        cy: int,
        radius: int,
        fx: int,
        fy: int,
    ) -> bool {
        &&& self.spec_food_in_view(cx, cy, radius, fx, fy)
        &&& forall|a: int, b: int| #[trigger]
            self.spec_food_in_view(cx, cy, radius, a, b) ==> b > fy || (b == fy && a >= fx)
    }

    /// Both worlds have the same size.
    pub open spec fn same_size(&self, other: &World) -> bool {
        self.width == other.width && self.height == other.height
    }

    /// Both worlds have the same size and hold the same tiles, but for the
    /// one at (`x`, `y`).
    pub open spec fn same_but_at(&self, other: &World, x: int, y: int) -> bool {
        &&& self.same_size(other)
        &&& forall|a: int, b: int|
            self.in_bounds(a, b) && !(a == x && b == y) ==> #[trigger] self.tile_at(a, b)
                == other.tile_at(a, b)
    }

    /// Both worlds have the same size and hold the same tiles.
    pub open spec fn same_tiles(&self, other: &World) -> bool {
        &&& self.same_size(other)
        &&& forall|a: int, b: int|
            self.in_bounds(a, b) ==> #[trigger] self.tile_at(a, b) == other.tile_at(a, b)
    }

    /// A world of the given size with nothing on it.
    pub fn new(width: usize, height: usize) -> (world: World)
        ensures
            world.wf(),
            world.width == width,
            world.height == height,
            forall|x: int, y: int| world.in_bounds(x, y) ==> world.tile_at(x, y) == Tile::Empty,
    {
        let mut grid: Vec<Vec<Tile>> = Vec::new();
        let mut y: usize = 0;
        while y < height
            invariant
                y <= height,
                grid@.len() == y,
                forall|b: int| 0 <= b < y ==> (#[trigger] grid@[b])@.len() == width,
                forall|a: int, b: int| 0 <= a < width && 0 <= b < y ==> grid@[b]@[a] == Tile::Empty,
            decreases height - y,
        {
            let mut row: Vec<Tile> = Vec::new();
            let mut x: usize = 0;
            while x < width
                invariant
                    x <= width,
                    row@.len() == x,
                    forall|a: int| 0 <= a < x ==> row@[a] == Tile::Empty,
                decreases width - x,
            {
                row.push(Tile::Empty);
                x += 1;
            }
            grid.push(row);
            y += 1;
        }
        World { width, height, grid }
    }

    /// The tile at a position, or `None` off the grid.
    pub fn get_tile(&self, x: usize, y: usize) -> (tile: Option<&Tile>)
        requires
            self.wf(),
        ensures
            match tile {
                Some(t) => self.in_bounds(x as int, y as int)
                    && *t == self.tile_at(x as int, y as int),
                None => !self.in_bounds(x as int, y as int),
            },
    {
        if x < self.width && y < self.height {
            Some(&self.grid[y][x])
        } else {
            None
        }
    }

    /// The tile at a position, to be changed in place, or `None` off the
    /// grid. The world afterwards differs from the one before in that tile
    /// alone.
    pub fn get_tile_mut(&mut self, x: usize, y: usize) -> (tile: Option<&mut Tile>)
        requires
            old(self).wf(),
        ensures
            match tile {
                Some(t) => {
                    &&& old(self).in_bounds(x as int, y as int)
                    &&& *t == old(self).tile_at(x as int, y as int)
                    &&& final(self).tile_at(x as int, y as int) == *final(t)
                    &&& final(self).same_but_at(old(self), x as int, y as int)
                    &&& final(t).wf() ==> final(self).wf()
                },
                None => !old(self).in_bounds(x as int, y as int) && *final(self) == *old(self),
            },
    {
        if x < self.width && y < self.height {
            Some(&mut self.grid[y][x])
        } else {
            None
        }
    }

    /// Puts `tile` at a position of the grid.
    pub fn set_tile(&mut self, x: usize, y: usize, tile: Tile)
        requires
            old(self).wf(),
            old(self).in_bounds(x as int, y as int),
            tile.wf(),
        ensures
            final(self).wf(),
            final(self).tile_at(x as int, y as int) == tile,
            final(self).same_but_at(old(self), x as int, y as int),
    {
        self.grid[y][x] = tile;
        assert(forall|a: int, b: int|
            self.in_bounds(a, b) ==> #[trigger] self.tile_at(a, b) == (if a == x && b == y {
                tile
            } else {
                old(self).tile_at(a, b)
            }));
    }

    /// Whether the position lies on the grid.
    pub fn is_valid_position(&self, x: usize, y: usize) -> (valid: bool)
        ensures
            valid == self.in_bounds(x as int, y as int),
    {
        x < self.width && y < self.height
    }

    /// The food at a position: what the plant or the food tile there holds,
    /// and nothing elsewhere or off the grid.
    pub fn get_available_food(&self, x: usize, y: usize) -> (food: u32)
        requires
            self.wf(),
        ensures
            food == self.spec_available_food(x as int, y as int),
    {
        if x < self.width && y < self.height {
            self.grid[y][x].available()
        } else {
            0
        }
    }

    /// Takes up to `amount_requested` food from a position and says how
    /// much it was. Off the grid there is nothing to take.
    pub fn consume_food(&mut self, x: usize, y: usize, amount_requested: u32) -> (consumed: u32)
        requires
            old(self).wf(),
        ensures
            final(self).wf(),
            final(self).same_but_at(old(self), x as int, y as int),
            consumed <= amount_requested,
            consumed as int == old(self).spec_available_food(x as int, y as int)
                - final(self).spec_available_food(x as int, y as int),
            old(self).in_bounds(x as int, y as int) ==> {
                &&& consumed == old(self).tile_at(x as int, y as int).spec_eaten(amount_requested)
                &&& final(self).tile_at(x as int, y as int) == old(self).tile_at(
                    x as int,
                    y as int,
                ).spec_after_eating(amount_requested)
            },
            !old(self).in_bounds(x as int, y as int) ==>
                consumed == 0 && *final(self) == *old(self),
    {
        if x < self.width && y < self.height {
            let mut tile = self.grid[y][x];
            let consumed = tile.eat(amount_requested);
            self.set_tile(x, y, tile);
            consumed
        } else {
            0
        }
    }

    /// Lets one tick pass for every plant.
    pub fn tick_plants(&mut self)
        requires
            old(self).wf(),
        ensures
            final(self).wf(),
            final(self).same_size(old(self)),
            forall|x: int, y: int|
                old(self).in_bounds(x, y) ==>
                    #[trigger] final(self).tile_at(x, y) == old(self).tile_at(x, y).spec_regrown(),
    {
        let mut y: usize = 0;
        while y < self.height
            invariant
                y <= self.height,
                self.wf(),
                self.same_size(old(self)),
                forall|a: int, b: int|
                    0 <= a < self.width && 0 <= b < y ==>
                        #[trigger] self.tile_at(a, b) == old(self).tile_at(a, b).spec_regrown(),
                forall|a: int, b: int|
                    0 <= a < self.width && y <= b < self.height ==> #[trigger] self.tile_at(a, b)
                        == old(self).tile_at(a, b),
            decreases self.height - y,
        {
            let mut x: usize = 0;
            while x < self.width
                invariant
                    x <= self.width,
                    y < self.height,
                    self.wf(),
                    self.same_size(old(self)),
                    forall|a: int, b: int|
                        0 <= a < self.width && 0 <= b < y ==>
                            #[trigger] self.tile_at(a, b) == old(self).tile_at(a, b).spec_regrown(),
                    forall|a: int|
                        0 <= a < x ==> #[trigger] self.tile_at(a, y as int) == old(self).tile_at(
                            a,
                            y as int,
                        ).spec_regrown(),
                    forall|a: int|
                        x <= a < self.width ==>
                            #[trigger] self.tile_at(a, y as int) == old(self).tile_at(a, y as int),
                    forall|a: int, b: int|
                        0 <= a < self.width && y < b < self.height ==> #[trigger] self.tile_at(a, b)
                            == old(self).tile_at(a, b),
                decreases self.width - x,
            {
                let tile = self.grid[y][x];
                assert(tile == self.tile_at(x as int, y as int));
                self.set_tile(x, y, tile.regrown());
                x += 1;
            }
            y += 1;
        }
    }
    /// Grows a full plant at a position if the tile there is empty, and says
    /// whether it did.
    pub fn place_plant(&mut self, x: usize, y: usize) -> (placed: bool)
        requires
            old(self).wf(),
            old(self).in_bounds(x as int, y as int),
        ensures
            final(self).wf(),
            final(self).same_but_at(old(self), x as int, y as int),
            placed == (old(self).tile_at(x as int, y as int) == Tile::Empty),
            final(self).tile_at(x as int, y as int) == (if placed {
                Tile::Plant {
                    current_food: PLANT_CAPACITY,
                    max_food: PLANT_CAPACITY,
                    regrowth_timer: 0,
                }
            } else {
                old(self).tile_at(x as int, y as int)
            }),
    {
        match self.grid[y][x] {
            Tile::Empty => {
                self.set_tile(
                    x,
                    y,
                    Tile::Plant {
                        current_food: PLANT_CAPACITY,
                        max_food: PLANT_CAPACITY,
                        regrowth_timer: 0,
                    },
                );
                true
            },
            _ => false,
        }
    }

    /// Drops `amount` food at a position if the tile there is empty, and
    /// says whether it did.
    pub fn place_food(&mut self, x: usize, y: usize, amount: u32) -> (placed: bool)
        requires
            old(self).wf(),
            old(self).in_bounds(x as int, y as int),
            amount > 0,
        ensures
            final(self).wf(),
            final(self).same_but_at(old(self), x as int, y as int),
            placed == (old(self).tile_at(x as int, y as int) == Tile::Empty),
            final(self).tile_at(x as int, y as int) == (if placed {
                Tile::Food { amount }
            } else {
                old(self).tile_at(x as int, y as int)
            }),
    {
        match self.grid[y][x] {
            Tile::Empty => {
                self.set_tile(x, y, Tile::Food { amount });
                true
            },
            _ => false,
        }
    }

    /// Scatters plants and food over the world. For each of
    /// `spec_resource_count` plants, and then for as many food tiles, a
    /// position is drawn; the resource is placed only where the tile is
    /// still empty, so fewer may end up on the grid. A plant is placed
    /// full; a food tile gets between `FOOD_MIN` and `FOOD_MAX` food. On a
    /// world that was empty the first draw always finds an empty tile, so
    /// at least one plant is placed where one is asked for, and at least
    /// one food tile where no plant but food is asked for.
    pub fn initialize_resources(&mut self, rng: &mut StdRng, plant_density: i64, food_density: i64)
        requires
            old(self).wf(),
        ensures
            final(self).wf(),
            final(self).same_size(old(self)),
            spec_sown(
                old(self),
                final(self),
                spec_resource_count(old(self).width, old(self).height, plant_density),
                spec_resource_count(old(self).width, old(self).height, food_density),
            ),
            spec_blank(old(self)) && spec_resource_count(
                old(self).width,
                old(self).height,
                plant_density,
            ) >= 1 ==> exists|x: int, y: int|
                final(self).in_bounds(x, y) && #[trigger] final(self).tile_at(x, y) is Plant,
            spec_blank(old(self)) && spec_resource_count(
                old(self).width,
                old(self).height,
                plant_density,
            ) == 0 && spec_resource_count(old(self).width, old(self).height, food_density) >= 1
                ==> exists|x: int, y: int|
                final(self).in_bounds(x, y) && #[trigger] final(self).tile_at(x, y) is Food,
            spec_resource_count(old(self).width, old(self).height, plant_density) == 0
                && spec_resource_count(old(self).width, old(self).height, food_density) == 0
                ==> final(self).same_tiles(old(self)),
    {
        let ghost mut plants: Set<(int, int)> = Set::empty();
        let ghost mut food: Set<(int, int)> = Set::empty();
        let ghost blank = spec_blank(old(self));
        if self.width == 0 || self.height == 0 {
            proof {
                assert(spec_sown_at(old(self), self, plants, food));
                assert((self.width as int) * (self.height as int) == 0) by (nonlinear_arith)
                    requires
                        self.width == 0 || self.height == 0,
                ;
                assert((self.width as int) * (self.height as int) * (plant_density as int) == 0
                    && (self.width as int) * (self.height as int) * (food_density as int) == 0)
                    by (nonlinear_arith)
                    requires
                        (self.width as int) * (self.height as int) == 0,
                ;
            }
            return ;
        }
        let num_plants = resource_count(self.width, self.height, plant_density);
        let num_food = resource_count(self.width, self.height, food_density);
        let ghost mut grown: (int, int) = (0, 0);
        let mut placed: usize = 0;
        while placed < num_plants
            invariant
                self.wf(),
                self.same_size(old(self)),
                self.width > 0 && self.height > 0,
                placed <= num_plants,
                plants.finite() && plants.len() <= placed,
                food == Set::<(int, int)>::empty(),
                spec_sown_at(old(self), self, plants, food),
                blank == spec_blank(old(self)),
                placed == 0 ==> self.same_tiles(old(self)),
                blank && placed >= 1 ==> self.in_bounds(grown.0, grown.1) && self.tile_at(
                    grown.0,
                    grown.1,
                ) is Plant,
            decreases num_plants - placed,
        {
            let x = uniform_below(rng, self.width as u64) as usize;
            let y = uniform_below(rng, self.height as u64) as usize;
            if self.place_plant(x, y) {
                proof {
                    plants = plants.insert((x as int, y as int));
                    if placed == 0 {
                        grown = (x as int, y as int);
                    }
                }
            }
            placed += 1;
        }
        let ghost mut fallen: (int, int) = (0, 0);
        let mut dropped: usize = 0;
        while dropped < num_food
            invariant
                self.wf(),
                self.same_size(old(self)),
                self.width > 0 && self.height > 0,
                dropped <= num_food,
                plants.finite() && plants.len() <= num_plants,
                food.finite() && food.len() <= dropped,
                spec_sown_at(old(self), self, plants, food),
                blank == spec_blank(old(self)),
                num_plants == 0 && dropped == 0 ==> self.same_tiles(old(self)),
                blank && num_plants >= 1 ==> self.in_bounds(grown.0, grown.1) && self.tile_at(
                    grown.0,
                    grown.1,
                ) is Plant,
                blank && num_plants == 0 && dropped >= 1 ==> self.in_bounds(fallen.0, fallen.1)
                    && self.tile_at(fallen.0, fallen.1) is Food,
            decreases num_food - dropped,
        {
            let x = uniform_below(rng, self.width as u64) as usize;
            let y = uniform_below(rng, self.height as u64) as usize;
            if self.grid[y][x] == Tile::Empty {
                let span: u64 = (FOOD_MAX - FOOD_MIN + 1) as u64;
                let amount: u32 = FOOD_MIN + uniform_below(rng, span) as u32;
                self.place_food(x, y, amount);
                proof {
                    food = food.insert((x as int, y as int));
                    if dropped == 0 {
                        fallen = (x as int, y as int);
                    }
                }
            }
            dropped += 1;
        }
    }

    /// The food within `radius` of a centre: every position of the grid that
    /// holds food and lies no further than `radius` from (`center_x`,
    /// `center_y`), each with its food, in the order of a scan by rows.
    /// The nearest is not necessarily first.
    pub fn find_food_in_radius(&self, center_x: usize, center_y: usize, radius: i64) -> (found: Vec<
        (usize, usize, u32),
    >)
        requires
            self.wf(),
        ensures
            forall|k: int|
                0 <= k < found@.len() ==> {
                    &&& self.spec_food_in_view(
                        center_x as int,
                        center_y as int,
                        radius as int,
                        (#[trigger] found@[k]).0 as int,
                        found@[k].1 as int,
                    )
                    &&& found@[k].2 == self.tile_at(found@[k].0 as int,
                        found@[k].1 as int).spec_available()
                },
            forall|x: int, y: int| #[trigger]
                self.spec_food_in_view(center_x as int, center_y as int, radius as int, x, y)
                    ==> lists_position(found@, x, y),
            forall|j: int, k: int|
                0 <= j < k < found@.len() ==>
                    row_major_before(#[trigger] found@[j], #[trigger] found@[k]),
    {
        let mut found: Vec<(usize, usize, u32)> = Vec::new();
        if radius < 0 || self.width == 0 || self.height == 0 {
            return found;
        }
        let reach: u64 = reach_of(radius);
        let min_x: usize = if center_x as u64 >= reach {
            (center_x as u64 - reach) as usize
        } else {
            0
        };
        let min_y: usize = if center_y as u64 >= reach {
            (center_y as u64 - reach) as usize
        } else {
            0
        };
        let far_x: u128 = center_x as u128 + reach as u128;
        let far_y: u128 = center_y as u128 + reach as u128;
        let max_x: usize = if far_x < self.width as u128 {
            far_x as usize
        } else {
            self.width - 1
        };
        let max_y: usize = if far_y < self.height as u128 {
            far_y as usize
        } else {
            self.height - 1
        };
        let ghost cx = center_x as int;
        let ghost cy = center_y as int;
        let ghost r = radius as int;
        assert forall|a: int, b: int| #[trigger] self.spec_food_in_view(cx, cy, r, a, b) implies
            min_x
            <= a <= max_x && min_y <= b <= max_y by {
            lemma_radius_is_boxed(cx, cy, r, a, b);
        }
        if min_x > max_x || min_y > max_y {
            return found;
        }
        let mut y: usize = min_y;
        while y <= max_y
            invariant
                self.wf(),
                radius >= 0,
                cx == center_x as int && cy == center_y as int && r == radius as int,
                reach as int == spec_reach(r),
                reach <= 9_223_372_036_855,
                min_y <= y <= max_y + 1,
                min_x <= max_x,
                max_x < self.width && max_y < self.height,
                cx - reach <= min_x && max_x <= cx + reach,
                cy - reach <= min_y && max_y <= cy + reach,
                forall|a: int, b: int| #[trigger]
                    self.spec_food_in_view(cx, cy, r, a, b) ==> min_x <= a <= max_x && min_y <= b
                        <= max_y,
                forall|k: int|
                    0 <= k < found@.len() ==> {
                        &&& self.spec_food_in_view(
                            cx,
                            cy,
                            r,
                            (#[trigger] found@[k]).0 as int,
                            found@[k].1 as int,
                        )
                        &&& found@[k].2 == self.tile_at(
                            found@[k].0 as int,
                            found@[k].1 as int,
                        ).spec_available()
                        &&& found@[k].1 < y
                    },
                forall|a: int, b: int| #[trigger]
                    self.spec_food_in_view(cx, cy, r, a, b) && b < y ==>
                        lists_position(found@, a, b),
                forall|j: int, k: int|
                    0 <= j < k < found@.len() ==> row_major_before(
                        #[trigger] found@[j],
                        #[trigger] found@[k],
                    ),
            decreases max_y + 1 - y,
        {
            let mut x: usize = min_x;
            while x <= max_x
                invariant
                    self.wf(),
                    radius >= 0,
                    cx == center_x as int && cy == center_y as int && r == radius as int,
                    reach <= 9_223_372_036_855,
                    min_x <= x <= max_x + 1,
                    min_y <= y <= max_y,
                    max_x < self.width && max_y < self.height,
                    cx - reach <= min_x && max_x <= cx + reach,
                    cy - reach <= min_y && max_y <= cy + reach,
                    forall|a: int, b: int| #[trigger]
                        self.spec_food_in_view(cx, cy, r, a, b) ==> min_x <= a <= max_x && min_y
                            <= b <= max_y,
                    forall|k: int|
                        0 <= k < found@.len() ==> {
                            &&& self.spec_food_in_view(
                                cx,
                                cy,
                                r,
                                (#[trigger] found@[k]).0 as int,
                                found@[k].1 as int,
                            )
                            &&& found@[k].2 == self.tile_at(
                                found@[k].0 as int,
                                found@[k].1 as int,
                            ).spec_available()
                            &&& (found@[k].1 < y || (found@[k].1 == y && found@[k].0 < x))
                        },
                    forall|a: int, b: int| #[trigger]
                        self.spec_food_in_view(cx, cy, r, a, b) && (b < y || (b == y && a < x))
                            ==> lists_position(found@, a, b),
                    forall|j: int, k: int|
                        0 <= j < k < found@.len() ==> row_major_before(
                            #[trigger] found@[j],
                            #[trigger] found@[k],
                        ),
                decreases max_x + 1 - x,
            {
                let ghost before = found@;
                if sees(center_x, center_y, radius, x, y) {
                    let food = self.get_available_food(x, y);
                    if food > 0 {
                        found.push((x, y, food));
                    }
                }
                proof {
                    assert forall|a: int, b: int| #[trigger]
                        self.spec_food_in_view(cx, cy, r, a, b) && (b < y || (b == y && a < x
                            + 1)) implies lists_position(found@, a, b) by {
                        if b == y && a == x {
                            assert(found@.len() == before.len() + 1);
                            assert(found@[before.len() as int].0 == x);
                        } else {
                            assert(lists_position(before, a, b));
                            let k = choose|k: int|
                                0 <= k < before.len() && (#[trigger] before[k]).0 == a
                                    && before[k].1
                                    == b;
                            assert(found@[k] == before[k]);
                        }
                    }
                }
                x += 1;
            }
            y += 1;
        }
        found
    }

    /// All the food on the grid, or `u32::MAX` where there is more.
    pub fn total_food(&self) -> (total: u32)
        requires
            self.wf(),
        ensures
            total as nat == (if spec_rows_food(self.grid@) > u32::MAX as nat {
                u32::MAX as nat
            } else {
                spec_rows_food(self.grid@)
            }),
    {
        let mut total: u32 = 0;
        let mut y: usize = 0;
        while y < self.height
            invariant
                self.wf(),
                y <= self.height,
                total as nat == (if spec_rows_food(self.grid@.take(y as int)) > u32::MAX as nat {
                    u32::MAX as nat
                } else {
                    spec_rows_food(self.grid@.take(y as int))
                }),
            decreases self.height - y,
        {
            let mut in_row: u32 = 0;
            let mut x: usize = 0;
            while x < self.width
                invariant
                    self.wf(),
                    y < self.height,
                    x <= self.width,
                    in_row as nat == (if spec_row_food(self.grid@[y as int]@.take(x as int))
                        > u32::MAX as nat {
                        u32::MAX as nat
                    } else {
                        spec_row_food(self.grid@[y as int]@.take(x as int))
                    }),
                decreases self.width - x,
            {
                let food = self.grid[y][x].available();
                proof {
                    let row = self.grid@[y as int]@;
                    assert(row.take(x + 1).drop_last() =~= row.take(x as int));
                }
                in_row = in_row.saturating_add(food);
                x += 1;
            }
            proof {
                let row = self.grid@[y as int]@;
                assert(row.take(self.width as int) =~= row);
                assert(self.grid@.take(y + 1).drop_last() =~= self.grid@.take(y as int));
            }
            total = total.saturating_add(in_row);
            y += 1;
        }
        proof {
            assert(self.grid@.take(self.height as int) =~= self.grid@);
        }
        total
    }
}

} // verus!
