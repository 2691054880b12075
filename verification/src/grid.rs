//! World dimensions, grid coordinates and the four cardinal directions.

use vstd::prelude::*;

verus! {

/// Side length, in cells, of one square plot (room).
pub const PLOT_SIDE: usize = 20;

/// The world is a 3 x 3 arrangement of plots.
pub const MAP_SIDE: usize = 60;

/// Number of cells in one plot.
pub const PLOT_SIZE: usize = 400;

/// World width in cells.
pub const WIDTH: usize = MAP_SIDE;

/// World height in cells.
pub const HEIGHT: usize = MAP_SIDE;

/// Total number of cells in the world.
pub const MAP_SIZE: usize = 3600;

/// Center coordinate of the world, where new players spawn.
pub const MAP_SIDE_HALF: usize = 30;

/// The named sizes agree with each other: the world is three plots on a
/// side, the cell count is the square of the side length, and players
/// spawn at the center.
pub proof fn lemma_dimensions_consistent()
    ensures
        MAP_SIDE == 3 * PLOT_SIDE,
        PLOT_SIZE == PLOT_SIDE * PLOT_SIDE,
        MAP_SIZE == MAP_SIDE * MAP_SIDE,
        MAP_SIZE == 9 * PLOT_SIZE,
        MAP_SIDE_HALF == MAP_SIDE / 2,
{
}

/// A grid position; the cell at `(x, y)` lives at index `y * MAP_SIDE + x`.
#[derive(Clone, Copy, Debug, PartialEq, Eq, Structural)]
pub struct Coords {
    pub x: usize,
    pub y: usize,
}

/// The four cardinal directions a player can face or move in.
#[derive(Clone, Copy, Debug, PartialEq, Eq, Structural)]
pub enum MapDirection {
    North,
    East,
    South,
    West,
}

impl Coords {
    /// A position is valid when it lies inside the world rectangle.
    pub open spec fn in_bounds(self) -> bool {
        self.x < WIDTH && self.y < HEIGHT
    }
}

/// Flat index of a position in the cell sequence.
pub open spec fn index_of(c: Coords) -> int {
    c.y * (MAP_SIDE as int) + c.x
}

/// Every in-bounds position maps to an index below `MAP_SIZE`, and distinct
/// positions map to distinct indices.
pub proof fn lemma_index_of_injective(a: Coords, b: Coords)
    requires
        a.in_bounds(),
        b.in_bounds(),
    ensures
        0 <= index_of(a) < MAP_SIZE,
        index_of(a) == index_of(b) ==> a == b,
{
}

/// The position a flat index names.
pub open spec fn coords_of_index(k: int) -> Coords {
    Coords { x: (k % (MAP_SIDE as int)) as usize, y: (k / (MAP_SIDE as int)) as usize }
}

/// `coords_of_index` inverts `index_of` on the world's index range.
pub proof fn lemma_coords_of_index(k: int)
    requires
        0 <= k < MAP_SIZE,
    ensures
        coords_of_index(k).in_bounds(),
        index_of(coords_of_index(k)) == k,
{
    assert(0 <= k % 60 < 60 && 0 <= k / 60 < 60 && (k / 60) * 60 + (k % 60) == k)
        by (nonlinear_arith)
        requires
            0 <= k < 3600,
    ;
}

impl MapDirection {
    /// The direction that points back across the same edge.
    pub open spec fn opposite_spec(self) -> MapDirection {
        match self {
            MapDirection::North => MapDirection::South,
            MapDirection::East => MapDirection::West,
            MapDirection::South => MapDirection::North,
            MapDirection::West => MapDirection::East,
        }
    }

    pub fn opposite(&self) -> (r: MapDirection)
        ensures
            r == self.opposite_spec(),
    {
        match self {
            MapDirection::North => MapDirection::South,
            MapDirection::East => MapDirection::West,
            MapDirection::South => MapDirection::North,
            MapDirection::West => MapDirection::East,
        }
    }

    /// All four directions, in the order they are evaluated for input.
    pub fn all() -> (r: Vec<MapDirection>)
        ensures
            r@ == seq![
                MapDirection::North,
                MapDirection::East,
                MapDirection::South,
                MapDirection::West,
            ],
    {
        let mut v: Vec<MapDirection> = Vec::new();
        v.push(MapDirection::North);
        v.push(MapDirection::East);
        v.push(MapDirection::South);
        v.push(MapDirection::West);
        proof {
            assert(v@ =~= seq![
                MapDirection::North,
                MapDirection::East,
                MapDirection::South,
                MapDirection::West,
            ]);
        }
        v
    }
}

/// Whether one step from `c` in direction `d` stays inside the world.
pub open spec fn step_in_bounds(c: Coords, d: MapDirection) -> bool {
    match d {
        MapDirection::North => c.y > 0,
        MapDirection::East => c.x < WIDTH - 1,
        MapDirection::South => c.y < HEIGHT - 1,
        MapDirection::West => c.x > 0,
    }
}

/// The neighboring position one step from `c` in direction `d`;
/// meaningful only when `step_in_bounds(c, d)` holds.
pub open spec fn step_coord(c: Coords, d: MapDirection) -> Coords {
    match d {
        MapDirection::North => Coords { x: c.x, y: (c.y - 1) as usize },
        MapDirection::East => Coords { x: (c.x + 1) as usize, y: c.y },
        MapDirection::South => Coords { x: c.x, y: (c.y + 1) as usize },
        MapDirection::West => Coords { x: (c.x - 1) as usize, y: c.y },
    }
}

/// Flat index of a position.
pub fn get_index_from_coords(coords: &Coords) -> (r: usize)
    requires
        coords.in_bounds(),
    ensures
        r == index_of(*coords),
        r < MAP_SIZE,
{
    coords.y * MAP_SIDE + coords.x
}

/// World width and height in cells.
pub fn get_dimensions() -> (r: (usize, usize))
    ensures
        r.0 == WIDTH,
        r.1 == HEIGHT,
{
    (WIDTH, HEIGHT)
}

} // verus!
