//! The plot-partitioned map generator: the world is a 3 x 3 arrangement
//! of square plots of open Soil, separated by walls on every plot
//! boundary. No doors are placed.

use vstd::prelude::*;
use crate::grid::{
    Coords, MapDirection, MAP_SIDE, MAP_SIZE, PLOT_SIDE, HEIGHT, WIDTH, index_of, step_in_bounds,
    step_coord, coords_of_index, lemma_coords_of_index,
};
use crate::cell::{Cell, CellEdges, CellType, EdgeType};
use crate::world::World;

verus! {

/// The edges the generator gives the cell in column `x`, row `y`: a wall
/// exactly where the edge lies on a plot boundary (the world rim
/// included), a passage everywhere else.
pub open spec fn generated_edges(x: int, y: int) -> CellEdges {
    CellEdges {
        north: if y % (PLOT_SIDE as int) == 0 {
            EdgeType::Wall
        } else {
            EdgeType::Passage
        },
        east: if x % (PLOT_SIDE as int) == PLOT_SIDE - 1 {
            EdgeType::Wall
        } else {
            EdgeType::Passage
        },
        south: if y % (PLOT_SIDE as int) == PLOT_SIDE - 1 {
            EdgeType::Wall
        } else {
            EdgeType::Passage
        },
        west: if x % (PLOT_SIDE as int) == 0 {
            EdgeType::Wall
        } else {
            EdgeType::Passage
        },
    }
}

/// The cell the generator produces at flat index `k`: fresh Soil with the
/// plot-boundary walls for its position.
pub open spec fn generated_cell(k: int) -> Cell {
    Cell {
        index: k as usize,
        cell_type: CellType::Soil,
        edges: generated_edges(k % (MAP_SIDE as int), k / (MAP_SIDE as int)),
        lifetime: 0,
    }
}

/// A cell grid exactly as the generator lays it out.
pub open spec fn generated_cells(cells: Seq<Cell>) -> bool {
    cells.len() == MAP_SIZE && forall|k: int|
        0 <= k < MAP_SIZE ==> cells[k] == generated_cell(k)
}

/// A cell with one edge turned into a wall.
pub open spec fn cell_with_wall(c: Cell, d: MapDirection) -> Cell {
    Cell { edges: c.edges.with_edge_spec(d, EdgeType::Wall), ..c }
}

/// Insert a wall on one side of cell `cell_a` and, when a neighbor index
/// is given, on the facing side of that neighbor too.
pub fn create_wall(world: &mut World, cell_a: &usize, cell_b: Option<&usize>, direction:
    &MapDirection)
    requires
        *cell_a < old(world).cells@.len(),
        match cell_b {
            Some(b) => *b < old(world).cells@.len(),
            None => true,
        },
    ensures
        final(world).player_state@ == old(world).player_state@,
        final(world).cells@ == match cell_b {
            None => old(world).cells@.update(
                *cell_a as int,
                cell_with_wall(old(world).cells@[*cell_a as int], *direction),
            ),
            Some(b) => {
                let s1 = old(world).cells@.update(
                    *cell_a as int,
                    cell_with_wall(old(world).cells@[*cell_a as int], *direction),
                );
                s1.update(*b as int, cell_with_wall(s1[*b as int], direction.opposite_spec()))
            },
        },
{
    let mut c = world.cells[*cell_a];
    c.edges.set(*direction, EdgeType::Wall);
    world.cells.set(*cell_a, c);
    match cell_b {
        Some(cell) => {
            let mut cb = world.cells[*cell];
            cb.edges.set(direction.opposite(), EdgeType::Wall);
            world.cells.set(*cell, cb);
        },
        None => (),
    }
}

/// Build the world: `MAP_SIZE` fresh Soil cells, with walls on every plot
/// boundary, and no players yet.
pub fn generate_map() -> (w: World)
    ensures
        w.wf(),
        generated_cells(w@.cells),
        w@.players.len() == 0,
{
    let mut world = World { cells: Vec::new(), player_state: Vec::new() };
    let mut index: usize = 0;
    while index < HEIGHT * WIDTH
        invariant
            world.cells@.len() == index,
            0 <= index <= MAP_SIZE,
            forall|k: int| 0 <= k < index ==> world.cells@[k] == generated_cell(k),
            world.player_state@.len() == 0,
        decreases MAP_SIZE - index,
    {
        let cell: Cell = Cell::no_walls(index);
        world.cells.push(cell);
        let y: usize = index / MAP_SIDE;
        let x: usize = index - (MAP_SIDE * y);
        if y % PLOT_SIDE == 0 {
            create_wall(&mut world, &index, None, &MapDirection::North);
        }
        if x % PLOT_SIDE == PLOT_SIDE - 1 {
            create_wall(&mut world, &index, None, &MapDirection::East);
        }
        if y % PLOT_SIDE == PLOT_SIDE - 1 {
            create_wall(&mut world, &index, None, &MapDirection::South);
        }
        if x % PLOT_SIDE == 0 {
            create_wall(&mut world, &index, None, &MapDirection::West);
        }
        proof {
            assert(world.cells@[index as int] == generated_cell(index as int));
        }
        index = index + 1;
    }
    proof {
        assert forall|k: int|
            0 <= k < MAP_SIZE implies (#[trigger] world@.cells[k]).wf() && world@.cells[k].index
            == k by {
            assert(world.cells@[k] == generated_cell(k));
        }
    }
    world
}

/// Plot walls: in a generated world, an edge is a `Wall` exactly when it
/// lies on a plot boundary; every plot-interior edge is a `Passage`.
pub open spec fn crosses_plot_boundary(c: Coords, d: MapDirection) -> bool {
    match d {
        MapDirection::North => c.y as int % (PLOT_SIDE as int) == 0,
        MapDirection::East => c.x as int % (PLOT_SIDE as int) == PLOT_SIDE - 1,
        MapDirection::South => c.y as int % (PLOT_SIDE as int) == PLOT_SIDE - 1,
        MapDirection::West => c.x as int % (PLOT_SIDE as int) == 0,
    }
}

/// Plot walls, pointwise: the edge of a generated cell in any direction
/// is a wall exactly on plot boundaries.
pub proof fn lemma_plot_walls_at(cells: Seq<Cell>, c: Coords, d: MapDirection)
    requires
        generated_cells(cells),
        c.in_bounds(),
    ensures
        cells[index_of(c)].edges.edge_spec(d) == if crosses_plot_boundary(c, d) {
            EdgeType::Wall
        } else {
            EdgeType::Passage
        },
{
    let k = index_of(c);
    assert(cells[k] == generated_cell(k));
    assert(k % (MAP_SIDE as int) == c.x && k / (MAP_SIDE as int) == c.y) by (nonlinear_arith)
        requires
            c.x < 60,
            c.y < 60,
            k == c.y * 60 + c.x,
    ;
}

/// Plot walls over the whole world.
pub proof fn lemma_plot_walls(cells: Seq<Cell>)
    requires
        generated_cells(cells),
    ensures
        forall|c: Coords, d: MapDirection|
            c.in_bounds() ==> (#[trigger] cells[index_of(c)].edges.edge_spec(d))
                == if crosses_plot_boundary(c, d) {
                EdgeType::Wall
            } else {
                EdgeType::Passage
            },
{
    assert forall|c: Coords, d: MapDirection| c.in_bounds() implies (
    #[trigger] cells[index_of(c)].edges.edge_spec(d)) == if crosses_plot_boundary(c, d) {
        EdgeType::Wall
    } else {
        EdgeType::Passage
    } by {
        lemma_plot_walls_at(cells, c, d);
    }
}

/// Edge symmetry, pointwise: wherever two generated cells meet, they
/// agree about the edge between them.
pub proof fn lemma_edge_symmetry_at(cells: Seq<Cell>, c: Coords, d: MapDirection)
    requires
        generated_cells(cells),
        c.in_bounds(),
        step_in_bounds(c, d),
    ensures
        cells[index_of(c)].edges.edge_spec(d) == cells[index_of(step_coord(c, d))].edges.edge_spec(
            d.opposite_spec(),
        ),
{
    let c2 = step_coord(c, d);
    lemma_plot_walls_at(cells, c, d);
    lemma_plot_walls_at(cells, c2, d.opposite_spec());
}

/// Two flat indices name neighboring cells across direction `d`.
pub open spec fn adjacent_indices(a: int, b: int, d: MapDirection) -> bool {
    0 <= a < MAP_SIZE && step_in_bounds(coords_of_index(a), d) && b == index_of(
        step_coord(coords_of_index(a), d),
    )
}

/// Edge symmetry: wherever two cells meet, they agree about the edge
/// between them — walls and doors are bidirectional.
pub open spec fn edges_symmetric(cells: Seq<Cell>) -> bool {
    forall|a: int, b: int, d: MapDirection|
        adjacent_indices(a, b, d) ==> (#[trigger] cells[a].edges.edge_spec(d)) == (
        #[trigger] cells[b].edges.edge_spec(d.opposite_spec()))
}

/// Edge symmetry over the whole generated world.
pub proof fn lemma_edge_symmetry(cells: Seq<Cell>)
    requires
        generated_cells(cells),
    ensures
        edges_symmetric(cells),
{
    assert forall|a: int, b: int, d: MapDirection| adjacent_indices(a, b, d) implies (
    #[trigger] cells[a].edges.edge_spec(d)) == (#[trigger] cells[b].edges.edge_spec(
        d.opposite_spec(),
    )) by {
        lemma_coords_of_index(a);
        let c = coords_of_index(a);
        lemma_edge_symmetry_at(cells, c, d);
    }
}

} // verus!
