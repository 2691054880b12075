use world_server::api::{generate_map_state, register_in_map_state, respond_to_move};
use world_server::grid::{Coords, MapDirection};
use world_server::map_generator::generate_map;

#[test]
fn session_registration_always_answers_the_center() {
    let mut state = generate_map_state();
    let reply = register_in_map_state(&mut state, String::from("7"));
    assert_eq!(reply.player_coords, Coords { x: 30, y: 30 });
    assert!(reply.explored_cells.is_empty());
    assert_eq!(state.player_state.len(), 1);

    // registering the same id again changes nothing
    let reply = register_in_map_state(&mut state, String::from("7"));
    assert_eq!(reply.player_coords, Coords { x: 30, y: 30 });
    assert_eq!(state.player_state.len(), 1);

    register_in_map_state(&mut state, String::from("8"));
    assert_eq!(state.player_state.len(), 2);
}

#[test]
fn session_moves_step_explore_and_answer() {
    let world = generate_map();
    let mut state = generate_map_state();
    register_in_map_state(&mut state, String::from("7"));

    let reply = respond_to_move(&world.cells, &mut state, &String::from("7"), MapDirection::North)
        .expect("an open step answers");
    assert_eq!(reply.move_id, 2);
    assert_eq!(reply.player_id, "7");
    assert_eq!(reply.player_position, Coords { x: 30, y: 29 });
    assert_eq!(reply.cell.index, 29 * 60 + 30);
    assert_eq!(state.player_state[0].1, Coords { x: 30, y: 29 });
    assert_eq!(state.explored_cells.len(), 1);

    // stepping back and forth never duplicates an explored entry
    respond_to_move(&world.cells, &mut state, &String::from("7"), MapDirection::South).unwrap();
    assert_eq!(state.explored_cells.len(), 2);
    respond_to_move(&world.cells, &mut state, &String::from("7"), MapDirection::North).unwrap();
    assert_eq!(state.explored_cells.len(), 2);
}

#[test]
fn session_moves_respect_walls_and_unknown_ids() {
    let world = generate_map();
    let mut state = generate_map_state();
    register_in_map_state(&mut state, String::from("7"));

    // walk north to the plot wall at y = 20
    for _ in 0..10 {
        respond_to_move(&world.cells, &mut state, &String::from("7"), MapDirection::North)
            .expect("open floor up to the wall");
    }
    assert_eq!(state.player_state[0].1, Coords { x: 30, y: 20 });
    let blocked =
        respond_to_move(&world.cells, &mut state, &String::from("7"), MapDirection::North);
    assert!(blocked.is_none());
    assert_eq!(state.player_state[0].1, Coords { x: 30, y: 20 });

    // a move for an unregistered id is skipped
    let ghost_move =
        respond_to_move(&world.cells, &mut state, &String::from("nobody"), MapDirection::East);
    assert!(ghost_move.is_none());
    assert_eq!(state.player_state.len(), 1);
}
