use world_server::api::{
    build_register_response, client_matches_event, generate_map_state, is_ping, Event,
    RegisterRequest,
};
use world_server::cell::CellType;
use world_server::grid::Coords;
use world_server::map_generator::generate_map;
use world_server::player::Inputs;
use world_server::tick::{game_tick, sort_dedup_indices};
use world_server::world::PlayerInput;

fn inputs(north: bool, interact: bool) -> Inputs {
    Inputs {
        north,
        east: false,
        south: false,
        west: false,
        interact,
    }
}

fn message(user_id: &str, input: Inputs) -> PlayerInput {
    PlayerInput {
        user_id: String::from(user_id),
        input,
    }
}

#[test]
fn registration_answers_center_and_full_snapshot() {
    let mut world = generate_map();
    let request = RegisterRequest { user_id: 7 };
    let reply = world.register_player(request.user_id.to_string(), 0);
    assert_eq!(reply.player_coords, Coords { x: 30, y: 30 });
    assert_eq!(reply.explored_cells.len(), 3600);
    let body = build_register_response(String::from("ws://127.0.0.1:8000/ws/abc"), reply);
    assert_eq!(body.width, 60);
    assert_eq!(body.height, 60);
    assert_eq!(body.player_position, Coords { x: 30, y: 30 });
    assert_eq!(body.explored_cells.len(), 3600);
    assert_eq!(body.url, "ws://127.0.0.1:8000/ws/abc");
}

#[test]
fn reregistration_keeps_the_existing_player() {
    let mut world = generate_map();
    world.register_player(String::from("7"), 0);
    assert_eq!(world.player_state.len(), 1);
    // move the player, then register the same id again
    world.player_state[0].coords = Coords { x: 12, y: 34 };
    let reply = world.register_player(String::from("7"), 99);
    assert_eq!(world.player_state.len(), 1);
    assert_eq!(reply.player_coords, Coords { x: 12, y: 34 });
    // a different id gets its own record
    world.register_player(String::from("8"), 100);
    assert_eq!(world.player_state.len(), 2);
}

#[test]
fn held_north_turns_then_steps_after_cadence() {
    let mut world = generate_map();
    world.register_player(String::from("7"), 0);
    // first frame with the held key: no movement yet, facing North
    let diff = game_tick(&mut world, vec![message("7", inputs(true, false))], 33);
    assert_eq!(diff.changed_player_ids, vec![String::from("7")]);
    assert_eq!(world.player_state[0].coords, Coords { x: 30, y: 30 });
    // the held vector is carried forward; past the cadence the player steps
    let diff = game_tick(&mut world, Vec::new(), 132);
    assert_eq!(diff.changed_player_ids, vec![String::from("7")]);
    assert_eq!(world.player_state[0].coords, Coords { x: 30, y: 29 });
}

#[test]
fn interact_cycle_shows_up_in_cell_diffs() {
    let mut world = generate_map();
    world.register_player(String::from("7"), 0);
    let front = 29 * 60 + 30;

    // interact plants the cell in front
    let diff = game_tick(&mut world, vec![message("7", inputs(false, true))], 33);
    assert_eq!(diff.changed_cell_indices, vec![front]);
    assert_eq!(world.cells[front].cell_type, CellType::Plant);
    assert_eq!(world.cells[front].lifetime, 0);

    // it ripens on its own; the diff stays empty until maturation
    let mut matured_at = None;
    for tick in 2..=60u64 {
        let diff = game_tick(&mut world, Vec::new(), 33 * tick);
        if !diff.changed_cell_indices.is_empty() {
            assert_eq!(diff.changed_cell_indices, vec![front]);
            matured_at = Some(tick);
            break;
        }
    }
    assert_eq!(matured_at, Some(51));
    assert_eq!(world.cells[front].cell_type, CellType::Flower);
    assert_eq!(world.cells[front].lifetime, 0);

    // a further interact returns it to soil
    let diff = game_tick(&mut world, vec![message("7", inputs(false, true))], 33 * 52);
    assert_eq!(diff.changed_cell_indices, vec![front]);
    assert_eq!(world.cells[front].cell_type, CellType::Soil);
}

#[test]
fn quiet_tick_reports_no_cell_changes() {
    let mut world = generate_map();
    world.register_player(String::from("7"), 0);
    let diff = game_tick(&mut world, Vec::new(), 33);
    assert!(diff.changed_cell_indices.is_empty());
    assert_eq!(diff.changed_player_ids, vec![String::from("7")]);
}

#[test]
fn cell_diff_merges_both_phases_sorted_and_unique() {
    let mut world = generate_map();
    world.register_player(String::from("7"), 0);
    // a plant about to mature, below the index the interact will touch
    world.cells[5].cell_type = CellType::Plant;
    world.cells[5].lifetime = 49;
    let front = 29 * 60 + 30;
    let diff = game_tick(&mut world, vec![message("7", inputs(false, true))], 33);
    assert_eq!(diff.changed_cell_indices, vec![5, front]);
    assert_eq!(world.cells[5].cell_type, CellType::Flower);
    assert_eq!(world.cells[front].cell_type, CellType::Plant);
}

#[test]
fn input_for_unknown_player_is_skipped() {
    let mut world = generate_map();
    world.register_player(String::from("7"), 0);
    let diff = game_tick(&mut world, vec![message("ghost", inputs(true, true))], 33);
    assert!(diff.changed_cell_indices.is_empty());
    assert_eq!(world.player_state.len(), 1);
    assert_eq!(world.player_state[0].coords, Coords { x: 30, y: 30 });
}

#[test]
fn sort_dedup_orders_and_removes_duplicates() {
    let raw = vec![5usize, 3, 5, 1, 3599, 0, 5];
    let out = sort_dedup_indices(&raw);
    assert_eq!(out, vec![0, 1, 3, 5, 3599]);
    let empty = sort_dedup_indices(&Vec::new());
    assert!(empty.is_empty());
}

#[test]
fn publish_reaches_matching_topic_and_user() {
    let topics = vec![String::from("cats")];
    let everyone = Event {
        topic: String::from("cats"),
        user_id: None,
        message: String::from("hi"),
    };
    assert!(client_matches_event(7, &topics, &everyone));
    assert!(client_matches_event(8, &topics, &everyone));

    let addressed = Event {
        topic: String::from("cats"),
        user_id: Some(7),
        message: String::from("hi"),
    };
    assert!(client_matches_event(7, &topics, &addressed));
    assert!(!client_matches_event(8, &topics, &addressed));

    let other_topic = Event {
        topic: String::from("dogs"),
        user_id: None,
        message: String::from("hi"),
    };
    assert!(!client_matches_event(7, &topics, &other_topic));
}

#[test]
fn ping_frames_are_recognized() {
    assert!(is_ping("ping"));
    assert!(is_ping("ping\n"));
    assert!(!is_ping("pong"));
    assert!(!is_ping(""));
    assert!(!is_ping("ping "));
    assert!(!is_ping("{\"north\":true}"));
}

#[test]
fn fresh_map_state_is_empty() {
    let state = generate_map_state();
    assert!(state.explored_cells.is_empty());
    assert!(state.player_state.is_empty());
}
