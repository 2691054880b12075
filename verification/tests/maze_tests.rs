use world_server::cell::{Cell, CellType, EdgeType};
use world_server::grid::{Coords, MapDirection, HEIGHT, MAP_SIDE, MAP_SIZE, WIDTH};
use world_server::maze::{
    cell_is_initialized, create_cell, create_door, create_passage, create_room, create_wall,
    do_first_generation_step, generate_map, get_random_uninitialized_direction, rand_color,
    rand_room_type, random_coordinate, EdgeDecided, MazeBuilder, Room, RoomType,
};

const PALETTE: [&str; 5] = ["blue", "green", "red", "orange", "pink"];

#[test]
fn maze_is_a_full_soil_grid() {
    let maze = generate_map();
    assert_eq!(maze.cells.len(), MAP_SIZE);
    for (k, cell) in maze.cells.iter().enumerate() {
        assert_eq!(cell.index, k);
        assert_eq!(cell.cell_type, CellType::Soil);
        assert_eq!(cell.lifetime, 0);
    }
}

#[test]
fn maze_edges_are_symmetric() {
    let maze = generate_map();
    for y in 0..HEIGHT {
        for x in 0..WIDTH {
            let here = &maze.cells[y * MAP_SIDE + x];
            if y > 0 {
                let up = &maze.cells[(y - 1) * MAP_SIDE + x];
                assert_eq!(here.edges.north, up.edges.south);
            }
            if x > 0 {
                let left = &maze.cells[y * MAP_SIDE + (x - 1)];
                assert_eq!(here.edges.west, left.edges.east);
            }
        }
    }
}

#[test]
fn maze_carves_some_passages_and_some_walls() {
    let maze = generate_map();
    let mut walls = 0usize;
    let mut passages = 0usize;
    for cell in &maze.cells {
        for e in [cell.edges.north, cell.edges.east, cell.edges.south, cell.edges.west] {
            match e {
                EdgeType::Wall => walls += 1,
                EdgeType::Passage => passages += 1,
                EdgeType::Door => (),
            }
        }
    }
    // the walk always walls off the world rim it reaches and opens the
    // ground it walks over
    assert!(walls > 0);
    assert!(passages > 0);
}

#[test]
fn maze_rooms_use_the_palette() {
    let maze = generate_map();
    assert!(!maze.rooms.is_empty());
    for room in &maze.rooms {
        assert!(PALETTE.contains(&room.color.as_str()));
    }
}

#[test]
fn drawn_colors_come_from_the_palette() {
    for _ in 0..50 {
        let color = rand_color();
        assert!(PALETTE.contains(&color.as_str()));
    }
}

#[test]
fn drawn_coordinates_stay_inside_the_world() {
    for _ in 0..100 {
        let c = random_coordinate();
        assert!(c.x < WIDTH && c.y < HEIGHT);
    }
}

#[test]
fn only_undecided_directions_are_drawn() {
    let almost_done = EdgeDecided { north: false, east: true, south: true, west: true };
    for _ in 0..20 {
        let d = get_random_uninitialized_direction(&almost_done);
        assert_eq!(d, world_server::grid::MapDirection::North);
    }
}

#[test]
fn carved_rooms_are_corridors() {
    assert_eq!(rand_room_type(), RoomType::Corridor);
}

fn fresh_builder() -> MazeBuilder {
    MazeBuilder {
        cells: (0..MAP_SIZE).map(Cell::no_walls).collect(),
        rooms: vec![Room { room_type: RoomType::Null, color: String::from("blue") }],
        room_of: vec![0; MAP_SIZE],
        decided: vec![
            EdgeDecided { north: false, east: false, south: false, west: false };
            MAP_SIZE
        ],
        active_coords: Vec::new(),
        initialized_cells: vec![false; MAP_SIZE],
    }
}

#[test]
fn walls_passages_and_doors_are_carved_on_both_sides() {
    let mut b = fresh_builder();
    let here = 10 * MAP_SIDE + 10;
    let east = here + 1;
    create_wall(&mut b, &here, Some(&east), &MapDirection::East);
    assert_eq!(b.cells[here].edges.east, EdgeType::Wall);
    assert_eq!(b.cells[east].edges.west, EdgeType::Wall);

    let south = here + MAP_SIDE;
    create_passage(&mut b, &here, &south, &MapDirection::South);
    assert_eq!(b.cells[here].edges.south, EdgeType::Passage);
    assert!(b.decided[here].south);
    assert!(b.decided[south].north);

    let north = here - MAP_SIDE;
    create_door(&mut b, &here, &north, &MapDirection::North);
    assert_eq!(b.cells[here].edges.north, EdgeType::Door);
    assert_eq!(b.cells[north].edges.south, EdgeType::Door);
}

#[test]
fn rim_walls_touch_only_one_cell() {
    let mut b = fresh_builder();
    let corner = 0usize;
    create_wall(&mut b, &corner, None, &MapDirection::North);
    assert_eq!(b.cells[corner].edges.north, EdgeType::Wall);
    assert!(b.decided[corner].north);
    assert_eq!(b.cells[MAP_SIDE].edges, Cell::no_walls(MAP_SIDE).edges);
}

#[test]
fn a_cell_is_initialized_once_all_edges_are_decided() {
    let mut b = fresh_builder();
    let here = 5 * MAP_SIDE + 5;
    assert!(!cell_is_initialized(&b, &here));
    create_wall(&mut b, &here, Some(&(here - MAP_SIDE)), &MapDirection::North);
    create_wall(&mut b, &here, Some(&(here + 1)), &MapDirection::East);
    create_passage(&mut b, &here, &(here + MAP_SIDE), &MapDirection::South);
    assert!(!cell_is_initialized(&b, &here));
    create_door(&mut b, &here, &(here - 1), &MapDirection::West);
    assert!(cell_is_initialized(&b, &here));
}

#[test]
fn visiting_a_cell_records_its_room() {
    let mut b = fresh_builder();
    let r = create_room(&mut b);
    assert_eq!(r, 1);
    assert_eq!(b.rooms.len(), 2);
    assert_eq!(b.rooms[1].room_type, RoomType::Corridor);
    let coord = Coords { x: 3, y: 4 };
    let i = create_cell(&mut b, r, &coord);
    assert_eq!(i, 4 * MAP_SIDE + 3);
    assert!(b.initialized_cells[i]);
    assert_eq!(b.room_of[i], r);
}

#[test]
fn the_walk_starts_with_one_visited_cell_on_the_stack() {
    let mut b = fresh_builder();
    do_first_generation_step(&mut b);
    assert_eq!(b.active_coords.len(), 1);
    let start = b.active_coords[0];
    assert!(start.x < WIDTH && start.y < HEIGHT);
    assert!(b.initialized_cells[start.y * MAP_SIDE + start.x]);
}
