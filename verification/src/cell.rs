//! World tiles: per-cell type, per-edge walls, and the plant lifecycle.

use vstd::prelude::*;
use crate::grid::MapDirection;

verus! {

/// Number of ticks a Plant needs before it matures into a Flower.
pub const PLANT_MATURE_TICKS: u64 = 50;

/// What sits on an edge between two neighboring cells. A `Door` and a
/// `Passage` are both traversable; only a `Wall` blocks.
#[derive(Clone, Copy, Debug, PartialEq, Eq, Structural)]
pub enum EdgeType {
    Passage,
    Wall,
    Door,
}

/// What grows on a cell.
#[derive(Clone, Copy, Debug, PartialEq, Eq, Structural)]
pub enum CellType {
    Soil,
    Plant,
    Flower,
}

/// The edges of one cell, one per direction. A fresh cell has `Passage`
/// everywhere; `Passage` plays the role of an absent entry.
#[derive(Clone, Copy, Debug, PartialEq, Eq, Structural)]
pub struct CellEdges {
    pub north: EdgeType,
    pub east: EdgeType,
    pub south: EdgeType,
    pub west: EdgeType,
}

impl CellEdges {
    /// The edge in direction `d`.
    pub open spec fn edge_spec(self, d: MapDirection) -> EdgeType {
        match d {
            MapDirection::North => self.north,
            MapDirection::East => self.east,
            MapDirection::South => self.south,
            MapDirection::West => self.west,
        }
    }

    /// This value with the edge in direction `d` replaced by `e`.
    pub open spec fn with_edge_spec(self, d: MapDirection, e: EdgeType) -> CellEdges {
        match d {
            MapDirection::North => CellEdges { north: e, ..self },
            MapDirection::East => CellEdges { east: e, ..self },
            MapDirection::South => CellEdges { south: e, ..self },
            MapDirection::West => CellEdges { west: e, ..self },
        }
    }

    pub fn open_everywhere() -> (r: CellEdges)
        ensures
            r == (CellEdges {
                north: EdgeType::Passage,
                east: EdgeType::Passage,
                south: EdgeType::Passage,
                west: EdgeType::Passage,
            }),
    {
        CellEdges {
            north: EdgeType::Passage,
            east: EdgeType::Passage,
            south: EdgeType::Passage,
            west: EdgeType::Passage,
        }
    }

    pub fn get(&self, d: MapDirection) -> (r: EdgeType)
        ensures
            r == self.edge_spec(d),
    {
        match d {
            MapDirection::North => self.north,
            MapDirection::East => self.east,
            MapDirection::South => self.south,
            MapDirection::West => self.west,
        }
    }

    pub fn set(&mut self, d: MapDirection, e: EdgeType)
        ensures
            *final(self) == old(self).with_edge_spec(d, e),
    {
        match d {
            MapDirection::North => self.north = e,
            MapDirection::East => self.east = e,
            MapDirection::South => self.south = e,
            MapDirection::West => self.west = e,
        }
    }
}

/// One world tile. `index` is the cell's own flat position, kept redundantly
/// because it is serialized to clients. `lifetime` counts ticks spent as a
/// Plant and is reset by every type change.
#[derive(Clone, Copy, Debug, PartialEq, Eq, Structural)]
pub struct Cell {
    pub index: usize,
    pub cell_type: CellType,
    pub edges: CellEdges,
    pub lifetime: u64,
}

/// One lifecycle step of a single cell: a Plant ages by one tick and, on
/// reaching `PLANT_MATURE_TICKS`, matures into a Flower with its counter
/// reset; other cells are untouched.
pub open spec fn cell_tick(c: Cell) -> Cell {
    if c.cell_type == CellType::Plant {
        if c.lifetime + 1 >= PLANT_MATURE_TICKS {
            Cell { cell_type: CellType::Flower, lifetime: 0, ..c }
        } else {
            Cell { lifetime: (c.lifetime + 1) as u64, ..c }
        }
    } else {
        c
    }
}

/// `n` lifecycle steps of a single cell.
pub open spec fn cell_ticks(c: Cell, n: nat) -> Cell
    decreases n,
{
    if n == 0 {
        c
    } else {
        cell_tick(cell_ticks(c, (n - 1) as nat))
    }
}

/// Whether a player's interact acts on a cell of this type: Soil and Flower
/// respond, a Plant ripens on its own and cannot be interacted with.
pub open spec fn interactable(t: CellType) -> bool {
    t != CellType::Plant
}

/// The cell type produced by an interact: Soil becomes Plant, Flower
/// returns to Soil. Meaningful only for interactable types.
pub open spec fn toggled_type(t: CellType) -> CellType {
    match t {
        CellType::Soil => CellType::Plant,
        CellType::Flower => CellType::Soil,
        CellType::Plant => CellType::Plant,
    }
}

/// The cell after an interact lands on it: type toggled, lifetime reset,
/// position and walls untouched.
pub open spec fn toggled_cell(c: Cell) -> Cell {
    Cell { cell_type: toggled_type(c.cell_type), lifetime: 0, ..c }
}

impl Cell {
    /// A well-formed cell never reaches the maturation threshold between
    /// ticks: the counter is reset the moment it would.
    pub open spec fn wf(self) -> bool {
        self.lifetime < PLANT_MATURE_TICKS
    }

    /// A fresh Soil cell with open edges.
    pub fn no_walls(index: usize) -> (r: Cell)
        ensures
            r == (Cell {
                index,
                cell_type: CellType::Soil,
                edges: CellEdges {
                    north: EdgeType::Passage,
                    east: EdgeType::Passage,
                    south: EdgeType::Passage,
                    west: EdgeType::Passage,
                },
                lifetime: 0,
            }),
            r.wf(),
    {
        Cell {
            index,
            cell_type: CellType::Soil,
            edges: CellEdges::open_everywhere(),
            lifetime: 0,
        }
    }

    /// Change the cell's type; every type change resets the lifetime counter.
    pub fn change_type(&mut self, cell_type: CellType)
        ensures
            *final(self) == (Cell { cell_type, lifetime: 0, ..*old(self) }),
            final(self).wf(),
    {
        self.lifetime = 0;
        self.cell_type = cell_type;
    }

    /// A copy of this cell with a different lifetime counter.
    pub fn clone_with_new_lifetime(&self, lifetime: u64) -> (r: Cell)
        ensures
            r == (Cell { lifetime, ..*self }),
    {
        Cell { lifetime, ..*self }
    }

    /// One lifecycle step; reports whether the cell's type changed.
    pub fn update(&mut self) -> (changed: bool)
        requires
            old(self).wf(),
        ensures
            *final(self) == cell_tick(*old(self)),
            final(self).wf(),
            changed == (final(self).cell_type != old(self).cell_type),
    {
        if self.cell_type == CellType::Plant {
            self.lifetime = self.lifetime + 1;
            if self.lifetime >= PLANT_MATURE_TICKS {
                self.change_type(CellType::Flower);
                return true;
            }
        }
        false
    }
}

/// A Plant left alone matures after exactly `PLANT_MATURE_TICKS` ticks:
/// for any shorter stretch it is still a Plant, with its counter equal to
/// the number of ticks elapsed, and on the final tick it is a Flower.
pub proof fn lemma_plant_maturation(c: Cell, n: nat)
    requires
        c.cell_type == CellType::Plant,
        c.lifetime == 0,
        n <= PLANT_MATURE_TICKS,
    ensures
        n < PLANT_MATURE_TICKS ==> cell_ticks(c, n) == (Cell {
            lifetime: n as u64,
            ..c
        }),
        n == PLANT_MATURE_TICKS ==> cell_ticks(c, n) == (Cell {
            cell_type: CellType::Flower,
            lifetime: 0,
            ..c
        }),
    decreases n,
{
    if n > 0 {
        lemma_plant_maturation(c, (n - 1) as nat);
    }
}

/// Round trip of a resting Soil cell: an interact plants it, maturation
/// turns it into a Flower, and a second interact returns exactly the
/// original cell.
pub proof fn lemma_interact_round_trip(c: Cell)
    requires
        c.cell_type == CellType::Soil,
        c.lifetime == 0,
    ensures
        toggled_cell(cell_ticks(toggled_cell(c), PLANT_MATURE_TICKS as nat)) == c,
{
    lemma_plant_maturation(toggled_cell(c), PLANT_MATURE_TICKS as nat);
}

} // verus!
