//! The depth-first maze generator: the older, randomized alternative to
//! the plot layout. A backtracking walk decides every edge of the cells
//! it visits — passages inside a room, a wall at the world rim or between
//! rooms, now and then a door into a freshly colored room — and keeps
//! walls and doors bidirectional throughout.

use vstd::prelude::*;
use vstd::string::StringExecFns;
use crate::grid::{
    Coords, MapDirection, MAP_SIZE, WIDTH, HEIGHT, index_of, step_in_bounds, step_coord,
    get_index_from_coords, lemma_index_of_injective, coords_of_index, lemma_coords_of_index,
};
use crate::cell::{Cell, CellType, EdgeType};
use crate::player::adjust_in_direction;
use crate::map_generator::{edges_symmetric, adjacent_indices};

verus! {

/// One-in-ten odds that a newly carved connection is a door into a new
/// room.
pub const DOOR_CHANCE_NUMERATOR: u32 = 1;

pub const DOOR_CHANCE_DENOMINATOR: u32 = 10;

/// What a room of the maze is used as.
#[derive(Clone, Copy, Debug, PartialEq, Eq, Structural)]
pub enum RoomType {
    Null,
    Open,
    Corridor,
}

/// A room of the maze, as the walk carves them out.
#[derive(Debug)]
pub struct Room {
    pub room_type: RoomType,
    pub color: String,
}

/// What the maze generator hands back: the carved cell grid and the
/// rooms it created.
#[derive(Debug)]
pub struct MazeMap {
    pub cells: Vec<Cell>,
    pub rooms: Vec<Room>,
}

/// Which edges of one cell the walk has decided. An undecided edge still
/// reads as a passage in the cell itself.
#[derive(Clone, Copy, Debug, PartialEq, Eq, Structural)]
pub struct EdgeDecided {
    pub north: bool,
    pub east: bool,
    pub south: bool,
    pub west: bool,
}

impl EdgeDecided {
    pub open spec fn decided_spec(self, d: MapDirection) -> bool {
        match d {
            MapDirection::North => self.north,
            MapDirection::East => self.east,
            MapDirection::South => self.south,
            MapDirection::West => self.west,
        }
    }

    /// This value with the edge in direction `d` marked decided.
    pub open spec fn with_decided_spec(self, d: MapDirection) -> EdgeDecided {
        match d {
            MapDirection::North => EdgeDecided { north: true, ..self },
            MapDirection::East => EdgeDecided { east: true, ..self },
            MapDirection::South => EdgeDecided { south: true, ..self },
            MapDirection::West => EdgeDecided { west: true, ..self },
        }
    }

    fn none_decided() -> (r: EdgeDecided)
        ensures
            r == (EdgeDecided { north: false, east: false, south: false, west: false }),
    {
        EdgeDecided { north: false, east: false, south: false, west: false }
    }

    fn mark(&mut self, d: MapDirection)
        ensures
            *final(self) == old(self).with_decided_spec(d),
    {
        match d {
            MapDirection::North => self.north = true,
            MapDirection::East => self.east = true,
            MapDirection::South => self.south = true,
            MapDirection::West => self.west = true,
        }
    }
}

/// How many edges of one cell are still undecided.
pub open spec fn undecided_in(e: EdgeDecided) -> nat {
    (if !e.north {
        1nat
    } else {
        0nat
    }) + (if !e.east {
        1nat
    } else {
        0nat
    }) + (if !e.south {
        1nat
    } else {
        0nat
    }) + (if !e.west {
        1nat
    } else {
        0nat
    })
}

/// How many edges of the whole grid are still undecided: the walk's
/// measure of progress.
pub open spec fn undecided_count(s: Seq<EdgeDecided>) -> nat
    decreases s.len(),
{
    if s.len() == 0 {
        0
    } else {
        undecided_in(s[0]) + undecided_count(s.drop_first())
    }
}

/// Replacing one cell's decided-set changes the total by the difference
/// at that cell.
pub proof fn lemma_undecided_count_update(s: Seq<EdgeDecided>, i: int, v: EdgeDecided)
    requires
        0 <= i < s.len(),
    ensures
        undecided_count(s.update(i, v)) + undecided_in(s[i]) == undecided_count(s) + undecided_in(
            v,
        ),
    decreases s.len(),
{
    if i == 0 {
        assert(s.update(0, v).drop_first() =~= s.drop_first());
    } else {
        assert(s.update(i, v).drop_first() =~= s.drop_first().update(i - 1, v));
        assert(s.update(i, v)[0] == s[0]);
        lemma_undecided_count_update(s.drop_first(), i - 1, v);
    }
}

/// A full-size grid of fresh Soil cells, each carrying its own index.
pub open spec fn soil_grid(cells: Seq<Cell>) -> bool {
    cells.len() == MAP_SIZE && forall|k: int|
        0 <= k < MAP_SIZE ==> (#[trigger] cells[k]).index == k && cells[k].cell_type
            == CellType::Soil && cells[k].lifetime == 0
}

/// An edge the walk has not decided yet still reads as a passage.
pub open spec fn undecided_is_passage(cells: Seq<Cell>, decided: Seq<EdgeDecided>) -> bool {
    forall|k: int, d: MapDirection|
        0 <= k < MAP_SIZE && !decided[k].decided_spec(d) ==> (
        #[trigger] cells[k].edges.edge_spec(d)) == EdgeType::Passage
}

/// The working state of the depth-first walk: the grid being carved, the
/// rooms so far, each cell's room, which edges are decided, the stack of
/// positions still being explored, and which cells the walk has visited.
#[derive(Debug)]
pub struct MazeBuilder {
    pub cells: Vec<Cell>,
    pub rooms: Vec<Room>,
    pub room_of: Vec<usize>,
    pub decided: Vec<EdgeDecided>,
    pub active_coords: Vec<Coords>,
    pub initialized_cells: Vec<bool>,
}

impl MazeBuilder {
    /// The walk's invariant: a sound grid, every bookkeeping list full
    /// size, every cell in a real room, every room colored from the
    /// palette, every stacked position inside the world — and, at all
    /// times, symmetric edges.
    pub open spec fn wf(self) -> bool {
        &&& soil_grid(self.cells@)
        &&& self.decided@.len() == MAP_SIZE
        &&& self.room_of@.len() == MAP_SIZE
        &&& self.initialized_cells@.len() == MAP_SIZE
        &&& self.rooms@.len() >= 1
        &&& forall|k: int| 0 <= k < MAP_SIZE ==> (#[trigger] self.room_of@[k]) < self.rooms@.len()
        &&& forall|r: int| 0 <= r < self.rooms@.len() ==> is_color((#[trigger] self.rooms@[r]).color@)
        &&& forall|i: int|
            0 <= i < self.active_coords@.len() ==> (#[trigger] self.active_coords@[i]).in_bounds()
        &&& edges_symmetric(self.cells@)
        &&& undecided_is_passage(self.cells@, self.decided@)
    }
}

/// Relies on rand::random_range over `0..bound`: a uniformly drawn index
/// strictly below `bound`; the range must not be empty.
#[verifier::external_body]
fn random_below(bound: usize) -> (r: usize)
    requires
        bound > 0,
    ensures
        r < bound,
{
    rand::random_range(0..bound)
}

/// Relies on rand::random_ratio: true with `numerator` in `denominator`
/// odds, certain only at the two ends; the denominator must not be zero.
#[verifier::external_body]
fn random_chance(numerator: u32, denominator: u32) -> (r: bool)
    requires
        0 < denominator,
        numerator <= denominator,
    ensures
        numerator == 0 ==> !r,
        numerator == denominator ==> r,
{
    rand::random_ratio(numerator, denominator)
}

/// A position drawn from anywhere in the world.
pub fn random_coordinate() -> (r: Coords)
    ensures
        r.in_bounds(),
{
    Coords { x: random_below(WIDTH), y: random_below(HEIGHT) }
}

/// The palette a new room's color is drawn from.
pub open spec fn is_color(s: Seq<char>) -> bool {
    s == "blue"@ || s == "green"@ || s == "red"@ || s == "orange"@ || s == "pink"@
}

fn color_from_index(i: usize) -> (r: String)
    requires
        i < 5,
    ensures
        is_color(r@),
        i == 0 ==> r@ == "blue"@,
{
    if i == 0 {
        String::from_str("blue")
    } else if i == 1 {
        String::from_str("green")
    } else if i == 2 {
        String::from_str("red")
    } else if i == 3 {
        String::from_str("orange")
    } else {
        String::from_str("pink")
    }
}

/// A color for a fresh room, drawn from the palette.
pub fn rand_color() -> (r: String)
    ensures
        is_color(r@),
{
    let i = random_below(5);
    color_from_index(i)
}

/// Every room the walk carves is a corridor.
pub fn rand_room_type() -> (r: RoomType)
    ensures
        r == RoomType::Corridor,
{
    RoomType::Corridor
}

/// Decide one edge: set it to `e` on the named cell and, when the step
/// stays inside the world, to the same value on the neighbor's facing
/// side. The caller must name exactly the neighbor the direction points
/// at, or none when the step leaves the world; the edge must still be
/// undecided on the named cell, so the number of undecided edges
/// strictly falls.
#[verifier::rlimit(100)]
fn set_edge_pair(b: &mut MazeBuilder, a: usize, d: MapDirection, e: EdgeType, nb: Option<usize>)
    requires
        old(b).wf(),
        a < MAP_SIZE,
        !old(b).decided@[a as int].decided_spec(d),
        match nb {
            Some(n) => step_in_bounds(coords_of_index(a as int), d) && n < MAP_SIZE && n
                == index_of(step_coord(coords_of_index(a as int), d)),
            None => !step_in_bounds(coords_of_index(a as int), d),
        },
    ensures
        final(b).wf(),
        undecided_count(final(b).decided@) < undecided_count(old(b).decided@),
        final(b).rooms@ == old(b).rooms@,
        final(b).room_of@ == old(b).room_of@,
        final(b).initialized_cells@ == old(b).initialized_cells@,
        final(b).active_coords@ == old(b).active_coords@,
        final(b).cells@[a as int].edges.edge_spec(d) == e,
        final(b).decided@[a as int].decided_spec(d),
{
    proof {
        lemma_coords_of_index(a as int);
    }
    let ghost ac = coords_of_index(a as int);
    let ghost cells0 = b.cells@;
    let ghost decided0 = b.decided@;

    let mut c = b.cells[a];
    c.edges.set(d, e);
    b.cells.set(a, c);
    let mut dec = b.decided[a];
    dec.mark(d);
    b.decided.set(a, dec);
    proof {
        lemma_undecided_count_update(decided0, a as int, dec);
    }

    if let Some(n) = nb {
        let ghost decided1 = b.decided@;
        let mut c2 = b.cells[n];
        c2.edges.set(d.opposite(), e);
        b.cells.set(n, c2);
        let mut dec2 = b.decided[n];
        dec2.mark(d.opposite());
        b.decided.set(n, dec2);
        proof {
            lemma_undecided_count_update(decided1, n as int, dec2);
            let nc = step_coord(ac, d);
            assert(nc.in_bounds());
            lemma_coords_of_index(n as int);
            lemma_index_of_injective(coords_of_index(n as int), nc);
            lemma_index_of_injective(nc, ac);
            assert(step_coord(nc, d.opposite_spec()) == ac);
            assert(soil_grid(b.cells@)) by {
                assert forall|k: int|
                    0 <= k < MAP_SIZE implies (#[trigger] b.cells@[k]).index == k
                    && b.cells@[k].cell_type == CellType::Soil && b.cells@[k].lifetime == 0 by {
                    assert(cells0[k].index == k && cells0[k].cell_type == CellType::Soil
                        && cells0[k].lifetime == 0);
                }
            }
            assert(edges_symmetric(b.cells@)) by {
                assert forall|aa: int, bn: int, dd: MapDirection|
                    adjacent_indices(aa, bn, dd) implies (
                #[trigger] b.cells@[aa].edges.edge_spec(dd)) == (
                #[trigger] b.cells@[bn].edges.edge_spec(dd.opposite_spec())) by {
                    lemma_coords_of_index(aa);
                    let caa = coords_of_index(aa);
                    let target = step_coord(caa, dd);
                    assert(cells0[aa].edges.edge_spec(dd) == cells0[bn].edges.edge_spec(
                        dd.opposite_spec(),
                    ));
                    lemma_index_of_injective(caa, ac);
                    lemma_index_of_injective(caa, nc);
                    lemma_index_of_injective(target, ac);
                    lemma_index_of_injective(target, nc);
                }
            }
            assert(undecided_is_passage(b.cells@, b.decided@)) by {
                assert forall|k: int, dd: MapDirection|
                    0 <= k < MAP_SIZE && !b.decided@[k].decided_spec(dd) implies (
                #[trigger] b.cells@[k].edges.edge_spec(dd)) == EdgeType::Passage by {
                    assert(!decided0[k].decided_spec(dd));
                    assert(cells0[k].edges.edge_spec(dd) == EdgeType::Passage);
                }
            }
        }
    } else {
        proof {
            assert(soil_grid(b.cells@)) by {
                assert forall|k: int|
                    0 <= k < MAP_SIZE implies (#[trigger] b.cells@[k]).index == k
                    && b.cells@[k].cell_type == CellType::Soil && b.cells@[k].lifetime == 0 by {
                    assert(cells0[k].index == k && cells0[k].cell_type == CellType::Soil
                        && cells0[k].lifetime == 0);
                }
            }
            assert(edges_symmetric(b.cells@)) by {
                assert forall|aa: int, bn: int, dd: MapDirection|
                    adjacent_indices(aa, bn, dd) implies (
                #[trigger] b.cells@[aa].edges.edge_spec(dd)) == (
                #[trigger] b.cells@[bn].edges.edge_spec(dd.opposite_spec())) by {
                    lemma_coords_of_index(aa);
                    let caa = coords_of_index(aa);
                    let target = step_coord(caa, dd);
                    assert(cells0[aa].edges.edge_spec(dd) == cells0[bn].edges.edge_spec(
                        dd.opposite_spec(),
                    ));
                    lemma_index_of_injective(caa, ac);
                    lemma_index_of_injective(target, ac);
                }
            }
            assert(undecided_is_passage(b.cells@, b.decided@)) by {
                assert forall|k: int, dd: MapDirection|
                    0 <= k < MAP_SIZE && !b.decided@[k].decided_spec(dd) implies (
                #[trigger] b.cells@[k].edges.edge_spec(dd)) == EdgeType::Passage by {
                    assert(!decided0[k].decided_spec(dd));
                    assert(cells0[k].edges.edge_spec(dd) == EdgeType::Passage);
                }
            }
        }
    }
}

/// Insert a wall on one side of `cell_a` and, when a neighbor is named,
/// on that neighbor's facing side too.
pub fn create_wall(
    b: &mut MazeBuilder,
    cell_a: &usize,
    cell_b: Option<&usize>,
    direction: &MapDirection,
)
    requires
        old(b).wf(),
        *cell_a < MAP_SIZE,
        !old(b).decided@[*cell_a as int].decided_spec(*direction),
        match cell_b {
            Some(n) => step_in_bounds(coords_of_index(*cell_a as int), *direction) && *n < MAP_SIZE
                && *n == index_of(step_coord(coords_of_index(*cell_a as int), *direction)),
            None => !step_in_bounds(coords_of_index(*cell_a as int), *direction),
        },
    ensures
        final(b).wf(),
        undecided_count(final(b).decided@) < undecided_count(old(b).decided@),
        final(b).rooms@ == old(b).rooms@,
        final(b).room_of@ == old(b).room_of@,
        final(b).initialized_cells@ == old(b).initialized_cells@,
        final(b).active_coords@ == old(b).active_coords@,
{
    match cell_b {
        Some(n) => set_edge_pair(b, *cell_a, *direction, EdgeType::Wall, Some(*n)),
        None => set_edge_pair(b, *cell_a, *direction, EdgeType::Wall, None),
    }
}

/// Open a passage between two neighboring cells.
pub fn create_passage(b: &mut MazeBuilder, cell_a: &usize, cell_b: &usize, direction:
    &MapDirection)
    requires
        old(b).wf(),
        *cell_a < MAP_SIZE,
        !old(b).decided@[*cell_a as int].decided_spec(*direction),
        step_in_bounds(coords_of_index(*cell_a as int), *direction),
        *cell_b < MAP_SIZE,
        *cell_b == index_of(step_coord(coords_of_index(*cell_a as int), *direction)),
    ensures
        final(b).wf(),
        undecided_count(final(b).decided@) < undecided_count(old(b).decided@),
        final(b).rooms@ == old(b).rooms@,
        final(b).room_of@ == old(b).room_of@,
        final(b).initialized_cells@ == old(b).initialized_cells@,
        final(b).active_coords@ == old(b).active_coords@,
{
    set_edge_pair(b, *cell_a, *direction, EdgeType::Passage, Some(*cell_b))
}

/// Hang a door between two neighboring cells.
pub fn create_door(b: &mut MazeBuilder, cell_a: &usize, cell_b: &usize, direction: &MapDirection)
    requires
        old(b).wf(),
        *cell_a < MAP_SIZE,
        !old(b).decided@[*cell_a as int].decided_spec(*direction),
        step_in_bounds(coords_of_index(*cell_a as int), *direction),
        *cell_b < MAP_SIZE,
        *cell_b == index_of(step_coord(coords_of_index(*cell_a as int), *direction)),
    ensures
        final(b).wf(),
        undecided_count(final(b).decided@) < undecided_count(old(b).decided@),
        final(b).rooms@ == old(b).rooms@,
        final(b).room_of@ == old(b).room_of@,
        final(b).initialized_cells@ == old(b).initialized_cells@,
        final(b).active_coords@ == old(b).active_coords@,
{
    set_edge_pair(b, *cell_a, *direction, EdgeType::Door, Some(*cell_b))
}

/// Whether the walk has decided all four edges of a cell.
pub fn cell_is_initialized(b: &MazeBuilder, index: &usize) -> (r: bool)
    requires
        b.wf(),
        *index < MAP_SIZE,
    ensures
        r == (b.decided@[*index as int].north && b.decided@[*index as int].east
            && b.decided@[*index as int].south && b.decided@[*index as int].west),
{
    let e = b.decided[*index];
    e.north && e.east && e.south && e.west
}

/// Visit a cell: record the room it belongs to and mark it visited.
pub fn create_cell(b: &mut MazeBuilder, room_index: usize, coord: &Coords) -> (i: usize)
    requires
        old(b).wf(),
        coord.in_bounds(),
        room_index < old(b).rooms@.len(),
    ensures
        final(b).wf(),
        i == index_of(*coord),
        i < MAP_SIZE,
        final(b).cells@ == old(b).cells@,
        final(b).decided@ == old(b).decided@,
        final(b).rooms@ == old(b).rooms@,
        final(b).active_coords@ == old(b).active_coords@,
        final(b).room_of@ == old(b).room_of@.update(i as int, room_index),
        final(b).initialized_cells@ == old(b).initialized_cells@.update(i as int, true),
{
    let i = get_index_from_coords(coord);
    b.room_of.set(i, room_index);
    b.initialized_cells.set(i, true);
    i
}

/// Carve out a fresh corridor room with a drawn color; returns its
/// index.
pub fn create_room(b: &mut MazeBuilder) -> (r: usize)
    requires
        old(b).wf(),
        old(b).rooms@.len() < usize::MAX,
    ensures
        final(b).wf(),
        r == old(b).rooms@.len(),
        final(b).rooms@.len() == old(b).rooms@.len() + 1,
        final(b).cells@ == old(b).cells@,
        final(b).decided@ == old(b).decided@,
        final(b).room_of@ == old(b).room_of@,
        final(b).active_coords@ == old(b).active_coords@,
        final(b).initialized_cells@ == old(b).initialized_cells@,
{
    let room = Room { color: rand_color(), room_type: rand_room_type() };
    let r = b.rooms.len();
    b.rooms.push(room);
    proof {
        assert forall|k: int|
            0 <= k < MAP_SIZE implies (#[trigger] b.room_of@[k]) < b.rooms@.len() by {
            assert(old(b).room_of@[k] < old(b).rooms@.len());
        }
    }
    r
}

/// Pick one still-undecided direction of a cell at random.
pub fn get_random_uninitialized_direction(e: &EdgeDecided) -> (d: MapDirection)
    requires
        !(e.north && e.east && e.south && e.west),
    ensures
        !e.decided_spec(d),
{
    let mut unused_directions: Vec<MapDirection> = Vec::new();
    if !e.north {
        unused_directions.push(MapDirection::North);
    }
    if !e.east {
        unused_directions.push(MapDirection::East);
    }
    if !e.south {
        unused_directions.push(MapDirection::South);
    }
    if !e.west {
        unused_directions.push(MapDirection::West);
    }
    proof {
        assert(unused_directions@.len() > 0);
        assert forall|j: int|
            0 <= j < unused_directions@.len() implies !e.decided_spec(
            #[trigger] unused_directions@[j],
        ) by {}
    }
    let rng_index = random_below(unused_directions.len());
    unused_directions[rng_index]
}

/// Start the walk at a random position, in the starting room.
pub fn do_first_generation_step(b: &mut MazeBuilder)
    requires
        old(b).wf(),
    ensures
        final(b).wf(),
        final(b).decided@ == old(b).decided@,
        final(b).cells@ == old(b).cells@,
        final(b).rooms@ == old(b).rooms@,
        final(b).active_coords@.len() == old(b).active_coords@.len() + 1,
{
    let start_coord = random_coordinate();
    create_cell(b, 0, &start_coord);
    b.active_coords.push(start_coord);
}

/// One step of the walk: a fully decided position is popped; otherwise
/// one undecided edge of the top position is decided — a wall at the
/// world rim, a passage within the room, a wall toward a foreign room,
/// and toward unvisited ground either a passage or, now and then, a door
/// into a brand-new room, which the walk then explores next.
pub fn do_next_generation_step(b: &mut MazeBuilder)
    requires
        old(b).wf(),
        old(b).active_coords@.len() > 0,
    ensures
        final(b).wf(),
        undecided_count(final(b).decided@) <= undecided_count(old(b).decided@),
        undecided_count(final(b).decided@) == undecided_count(old(b).decided@) ==> final(b).active_coords@.len()
            < old(b).active_coords@.len(),
{
    let top = b.active_coords.len() - 1;
    let active_coord = b.active_coords[top];
    let active_cell_index = get_index_from_coords(&active_coord);
    proof {
        lemma_coords_of_index(active_cell_index as int);
        lemma_index_of_injective(coords_of_index(active_cell_index as int), active_coord);
    }
    if cell_is_initialized(b, &active_cell_index) {
        b.active_coords.remove(top);
        proof {
            assert forall|i: int|
                0 <= i < b.active_coords@.len() implies (
            #[trigger] b.active_coords@[i]).in_bounds() by {
                assert(old(b).active_coords@[i].in_bounds());
            }
        }
        return;
    }
    let active_decided = b.decided[active_cell_index];
    let direction = get_random_uninitialized_direction(&active_decided);
    match adjust_in_direction(&active_coord, &direction, &b.cells) {
        Some(next_coord) => {
            let neighbor_index = get_index_from_coords(&next_coord);
            if b.initialized_cells[neighbor_index] {
                if b.room_of[neighbor_index] == b.room_of[active_cell_index] {
                    create_passage(b, &active_cell_index, &neighbor_index, &direction);
                } else {
                    create_wall(b, &active_cell_index, Some(&neighbor_index), &direction);
                }
            } else {
                let cur_cell_room_index = b.room_of[active_cell_index];
                let new_neighbor_index = create_cell(b, cur_cell_room_index, &next_coord);
                let door = random_chance(DOOR_CHANCE_NUMERATOR, DOOR_CHANCE_DENOMINATOR);
                if door {
                    create_door(b, &active_cell_index, &new_neighbor_index, &direction);
                    if b.rooms.len() < usize::MAX - 1 {
                        let new_room_index = create_room(b);
                        b.room_of.set(new_neighbor_index, new_room_index);
                        proof {
                            assert forall|k: int|
                                0 <= k < MAP_SIZE implies (#[trigger] b.room_of@[k])
                                < b.rooms@.len() by {}
                        }
                    }
                } else {
                    create_passage(b, &active_cell_index, &new_neighbor_index, &direction);
                }
                b.active_coords.push(next_coord);
                proof {
                    assert forall|i: int|
                        0 <= i < b.active_coords@.len() implies (
                    #[trigger] b.active_coords@[i]).in_bounds() by {}
                }
            }
        },
        None => {
            proof {
                // the chosen edge is undecided, so it reads as a passage;
                // the motion test can only have failed at the world rim
                assert(b.cells@[active_cell_index as int].edges.edge_spec(direction)
                    == EdgeType::Passage);
            }
            create_wall(b, &active_cell_index, None, &direction);
        },
    }
}

/// Carve a whole maze: start somewhere, walk until every reachable edge
/// is decided and the stack has emptied. Unvisited ground keeps its open
/// edges, so the result is always a symmetric, full-size Soil grid.
pub fn generate_map() -> (m: MazeMap)
    ensures
        soil_grid(m.cells@),
        m.cells@.len() == MAP_SIZE,
        edges_symmetric(m.cells@),
        m.rooms@.len() >= 1,
        forall|r: int| 0 <= r < m.rooms@.len() ==> is_color((#[trigger] m.rooms@[r]).color@),
{
    let mut cells: Vec<Cell> = Vec::new();
    let mut index: usize = 0;
    while index < MAP_SIZE
        invariant
            cells@.len() == index,
            0 <= index <= MAP_SIZE,
            forall|k: int|
                0 <= k < index ==> (#[trigger] cells@[k]) == (Cell {
                    index: k as usize,
                    cell_type: CellType::Soil,
                    edges: crate::cell::CellEdges {
                        north: EdgeType::Passage,
                        east: EdgeType::Passage,
                        south: EdgeType::Passage,
                        west: EdgeType::Passage,
                    },
                    lifetime: 0,
                }),
        decreases MAP_SIZE - index,
    {
        cells.push(Cell::no_walls(index));
        index = index + 1;
    }

    let mut decided: Vec<EdgeDecided> = Vec::new();
    let mut k: usize = 0;
    while k < MAP_SIZE
        invariant
            decided@.len() == k,
            0 <= k <= MAP_SIZE,
            forall|j: int|
                0 <= j < k ==> (#[trigger] decided@[j]) == (EdgeDecided {
                    north: false,
                    east: false,
                    south: false,
                    west: false,
                }),
        decreases MAP_SIZE - k,
    {
        decided.push(EdgeDecided::none_decided());
        k = k + 1;
    }

    let mut room_of: Vec<usize> = Vec::new();
    let mut k2: usize = 0;
    while k2 < MAP_SIZE
        invariant
            room_of@.len() == k2,
            0 <= k2 <= MAP_SIZE,
            forall|j: int| 0 <= j < k2 ==> (#[trigger] room_of@[j]) == 0,
        decreases MAP_SIZE - k2,
    {
        room_of.push(0);
        k2 = k2 + 1;
    }

    let mut initialized_cells: Vec<bool> = Vec::new();
    let mut k3: usize = 0;
    while k3 < MAP_SIZE
        invariant
            initialized_cells@.len() == k3,
            0 <= k3 <= MAP_SIZE,
        decreases MAP_SIZE - k3,
    {
        initialized_cells.push(false);
        k3 = k3 + 1;
    }

    let mut rooms: Vec<Room> = Vec::new();
    rooms.push(Room { color: color_from_index(0), room_type: RoomType::Null });

    let mut b = MazeBuilder { cells, rooms, room_of, decided, active_coords: Vec::new(), initialized_cells };
    proof {
        assert(b.wf()) by {
            assert(soil_grid(b.cells@));
            assert(edges_symmetric(b.cells@)) by {
                assert forall|aa: int, bn: int, dd: MapDirection|
                    adjacent_indices(aa, bn, dd) implies (
                #[trigger] b.cells@[aa].edges.edge_spec(dd)) == (
                #[trigger] b.cells@[bn].edges.edge_spec(dd.opposite_spec())) by {
                    lemma_coords_of_index(aa);
                    let caa = coords_of_index(aa);
                    assert(step_coord(caa, dd).in_bounds());
                    assert(0 <= bn < MAP_SIZE);
                }
            }
            assert(undecided_is_passage(b.cells@, b.decided@)) by {
                assert forall|kk: int, dd: MapDirection|
                    0 <= kk < MAP_SIZE && !b.decided@[kk].decided_spec(dd) implies (
                #[trigger] b.cells@[kk].edges.edge_spec(dd)) == EdgeType::Passage by {}
            }
        }
    }
    do_first_generation_step(&mut b);
    while b.active_coords.len() > 0
        invariant
            b.wf(),
        decreases undecided_count(b.decided@), b.active_coords@.len(),
    {
        do_next_generation_step(&mut b);
    }
    MazeMap { cells: b.cells, rooms: b.rooms }
}

} // verus!
