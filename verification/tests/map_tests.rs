use world_server::cell::{Cell, CellEdges, CellType, EdgeType};
use world_server::grid::{
    get_dimensions, get_index_from_coords, Coords, MapDirection, HEIGHT, MAP_SIDE, MAP_SIZE,
    PLOT_SIDE, WIDTH,
};
use world_server::map_generator::generate_map;
use world_server::player::adjust_in_direction;

fn all_directions() -> Vec<MapDirection> {
    vec![
        MapDirection::North,
        MapDirection::East,
        MapDirection::South,
        MapDirection::West,
    ]
}

#[test]
fn dimensions_are_sixty_by_sixty() {
    assert_eq!(get_dimensions(), (60, 60));
    assert_eq!(WIDTH, 60);
    assert_eq!(HEIGHT, 60);
    assert_eq!(MAP_SIDE, 3 * PLOT_SIDE);
    assert_eq!(MAP_SIZE, 3600);
}

#[test]
fn index_from_coords_is_row_major() {
    assert_eq!(get_index_from_coords(&Coords { x: 0, y: 0 }), 0);
    assert_eq!(get_index_from_coords(&Coords { x: 30, y: 29 }), 29 * 60 + 30);
    assert_eq!(get_index_from_coords(&Coords { x: 59, y: 59 }), 3599);
}

#[test]
fn generated_map_has_full_soil_grid() {
    let world = generate_map();
    assert_eq!(world.cells.len(), MAP_SIZE);
    for (k, cell) in world.cells.iter().enumerate() {
        assert_eq!(cell.index, k);
        assert_eq!(cell.cell_type, CellType::Soil);
        assert_eq!(cell.lifetime, 0);
    }
    assert_eq!(world.player_state.len(), 0);
}

#[test]
fn generated_map_walls_follow_plot_boundaries() {
    let world = generate_map();
    for y in 0..HEIGHT {
        for x in 0..WIDTH {
            let cell = &world.cells[y * MAP_SIDE + x];
            let expect = |wall: bool| {
                if wall {
                    EdgeType::Wall
                } else {
                    EdgeType::Passage
                }
            };
            assert_eq!(cell.edges.north, expect(y % PLOT_SIDE == 0));
            assert_eq!(cell.edges.east, expect(x % PLOT_SIDE == PLOT_SIDE - 1));
            assert_eq!(cell.edges.south, expect(y % PLOT_SIDE == PLOT_SIDE - 1));
            assert_eq!(cell.edges.west, expect(x % PLOT_SIDE == 0));
        }
    }
}

#[test]
fn generated_map_edges_are_symmetric() {
    let world = generate_map();
    for y in 0..HEIGHT {
        for x in 0..WIDTH {
            let here = &world.cells[y * MAP_SIDE + x];
            if y > 0 {
                let up = &world.cells[(y - 1) * MAP_SIDE + x];
                assert_eq!(here.edges.north, up.edges.south);
            }
            if x > 0 {
                let left = &world.cells[y * MAP_SIDE + (x - 1)];
                assert_eq!(here.edges.west, left.edges.east);
            }
        }
    }
}

#[test]
fn adjust_in_direction_moves_inside_a_plot() {
    let world = generate_map();
    let from = Coords { x: 30, y: 30 };
    assert_eq!(
        adjust_in_direction(&from, &MapDirection::North, &world.cells),
        Some(Coords { x: 30, y: 29 })
    );
    assert_eq!(
        adjust_in_direction(&from, &MapDirection::East, &world.cells),
        Some(Coords { x: 31, y: 30 })
    );
    assert_eq!(
        adjust_in_direction(&from, &MapDirection::South, &world.cells),
        Some(Coords { x: 30, y: 31 })
    );
    assert_eq!(
        adjust_in_direction(&from, &MapDirection::West, &world.cells),
        Some(Coords { x: 29, y: 30 })
    );
}

#[test]
fn adjust_in_direction_blocks_at_walls_and_world_rim() {
    let world = generate_map();
    // plot boundary between y = 20 and y = 19
    let at_wall = Coords { x: 30, y: 20 };
    assert_eq!(
        adjust_in_direction(&at_wall, &MapDirection::North, &world.cells),
        None
    );
    // world rim
    let corner = Coords { x: 0, y: 0 };
    assert_eq!(
        adjust_in_direction(&corner, &MapDirection::North, &world.cells),
        None
    );
    assert_eq!(
        adjust_in_direction(&corner, &MapDirection::West, &world.cells),
        None
    );
    let far = Coords { x: 59, y: 59 };
    assert_eq!(
        adjust_in_direction(&far, &MapDirection::East, &world.cells),
        None
    );
    assert_eq!(
        adjust_in_direction(&far, &MapDirection::South, &world.cells),
        None
    );
}

#[test]
fn doors_and_missing_edges_are_traversable() {
    let world = generate_map();
    let mut cells = world.cells;
    // carve a door through the wall north of (30, 20)
    let here = 20 * MAP_SIDE + 30;
    let up = 19 * MAP_SIDE + 30;
    cells[here].edges.north = EdgeType::Door;
    cells[up].edges.south = EdgeType::Door;
    assert_eq!(
        adjust_in_direction(&Coords { x: 30, y: 20 }, &MapDirection::North, &cells),
        Some(Coords { x: 30, y: 19 })
    );
}

#[test]
fn opposite_pairs_up_directions() {
    for d in all_directions() {
        assert_eq!(d.opposite().opposite(), d);
    }
    assert_eq!(MapDirection::North.opposite(), MapDirection::South);
    assert_eq!(MapDirection::East.opposite(), MapDirection::West);
}

#[test]
fn fresh_cell_is_open_soil() {
    let cell = Cell::no_walls(42);
    assert_eq!(cell.index, 42);
    assert_eq!(cell.cell_type, CellType::Soil);
    assert_eq!(cell.lifetime, 0);
    assert_eq!(
        cell.edges,
        CellEdges {
            north: EdgeType::Passage,
            east: EdgeType::Passage,
            south: EdgeType::Passage,
            west: EdgeType::Passage,
        }
    );
}
