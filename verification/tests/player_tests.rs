use world_server::cell::{Cell, CellType};
use world_server::grid::{Coords, MapDirection};
use world_server::map_generator::generate_map;
use world_server::player::{Inputs, Player, PlayerStates};

fn held(north: bool, east: bool, south: bool, west: bool, interact: bool) -> Inputs {
    Inputs {
        north,
        east,
        south,
        west,
        interact,
    }
}

fn fresh_player() -> (Player, Vec<Cell>) {
    let world = generate_map();
    (Player::spawn(String::from("u"), 0), world.cells)
}

#[test]
fn spawn_is_centered_idle_facing_north() {
    let (p, _) = fresh_player();
    assert_eq!(p.coords, Coords { x: 30, y: 30 });
    assert_eq!(p.direction, MapDirection::North);
    assert_eq!(p.state, PlayerStates::Idle);
    assert_eq!(p.user_id, "u");
}

#[test]
fn turning_latches_looking_until_all_keys_released() {
    let (mut p, mut cells) = fresh_player();
    // facing North, press East: turn-to-face beat, no movement
    p.apply_inputs(&mut cells, held(false, true, false, false, false), 1000);
    assert_eq!(p.direction, MapDirection::East);
    assert_eq!(p.state, PlayerStates::Looking);
    assert_eq!(p.coords, Coords { x: 30, y: 30 });
    // keep holding: still looking, still in place
    p.apply_inputs(&mut cells, held(false, true, false, false, false), 2000);
    assert_eq!(p.state, PlayerStates::Looking);
    assert_eq!(p.coords, Coords { x: 30, y: 30 });
    // release everything, then press East again: now it moves
    p.apply_inputs(&mut cells, held(false, false, false, false, false), 3000);
    assert_eq!(p.state, PlayerStates::Idle);
    p.apply_inputs(&mut cells, held(false, true, false, false, false), 4000);
    assert_eq!(p.coords, Coords { x: 31, y: 30 });
    assert_eq!(p.state, PlayerStates::MovingEast);
}

#[test]
fn facing_held_key_waits_for_cadence_then_steps() {
    let (mut p, mut cells) = fresh_player();
    // last_moved is 0; 50 ms later the cadence has not elapsed
    p.apply_inputs(&mut cells, held(true, false, false, false, false), 50);
    assert_eq!(p.state, PlayerStates::Idle);
    assert_eq!(p.coords, Coords { x: 30, y: 30 });
    assert_eq!(p.direction, MapDirection::North);
    // the held key is re-evaluated next tick; past the cadence it steps
    p.update(&cells, 150);
    assert_eq!(p.coords, Coords { x: 30, y: 29 });
    assert_eq!(p.state, PlayerStates::MovingNorth);
}

#[test]
fn held_key_keeps_stepping_every_cadence_interval() {
    let (mut p, cells) = fresh_player();
    p.direction = MapDirection::West;
    p.last_input = held(false, false, false, true, false);
    let mut t = 0u64;
    for _ in 0..30 {
        t += 100;
        p.update(&cells, t);
        // bounds hold throughout
        assert!(p.coords.x < 60 && p.coords.y < 60);
        // the wall on the plot boundary at x = 20 is never crossed
        assert!(p.coords.x >= 20);
        assert_eq!(p.coords.y, 30);
    }
    // walked 10 open cells, then the wall held it in place
    assert_eq!(p.coords, Coords { x: 20, y: 30 });
    assert_eq!(p.state, PlayerStates::MovingWest);
}

#[test]
fn blocked_player_latches_and_never_moves() {
    let (mut p, mut cells) = fresh_player();
    // stand just south of the plot wall between y = 19 and y = 20
    p.coords = Coords { x: 30, y: 20 };
    p.apply_inputs(&mut cells, held(true, false, false, false, false), 500);
    assert_eq!(p.coords, Coords { x: 30, y: 20 });
    assert_eq!(p.state, PlayerStates::MovingNorth);
    assert_eq!(p.direction, MapDirection::North);
    for k in 1..20u64 {
        p.update(&cells, 500 + 100 * k);
        assert_eq!(p.coords, Coords { x: 30, y: 20 });
        assert_eq!(p.direction, MapDirection::North);
    }
}

#[test]
fn cadence_allows_at_most_one_step_per_interval() {
    let (mut p, cells) = fresh_player();
    p.last_input = held(true, false, false, false, false);
    let mut moves = Vec::new();
    for k in 1..=8u64 {
        let t = 33 * k;
        let before = p.coords;
        p.update(&cells, t);
        if p.coords != before {
            moves.push(t);
        }
    }
    // with 33 ms ticks and a 100 ms cadence, steps land at 132 and 264
    assert_eq!(moves, vec![132, 264]);
}

#[test]
fn releasing_the_key_stops_the_player() {
    let (mut p, mut cells) = fresh_player();
    p.apply_inputs(&mut cells, held(true, false, false, false, false), 100);
    assert_eq!(p.state, PlayerStates::MovingNorth);
    p.apply_inputs(&mut cells, held(false, false, false, false, false), 150);
    assert_eq!(p.state, PlayerStates::Idle);
    let here = p.coords;
    p.update(&cells, 1000);
    assert_eq!(p.coords, here);
}

#[test]
fn interact_plants_soil_in_front() {
    let (mut p, mut cells) = fresh_player();
    let changed = p.apply_inputs(&mut cells, held(false, false, false, false, true), 10);
    let front = 29 * 60 + 30;
    assert_eq!(changed, Some(front));
    assert_eq!(cells[front].cell_type, CellType::Plant);
    assert_eq!(cells[front].lifetime, 0);
    // a plant is not interactable
    let again = p.apply_inputs(&mut cells, held(false, false, false, false, true), 20);
    assert_eq!(again, None);
    assert_eq!(cells[front].cell_type, CellType::Plant);
}

#[test]
fn interact_cannot_reach_through_a_wall() {
    let (mut p, mut cells) = fresh_player();
    p.coords = Coords { x: 30, y: 20 };
    // facing North into the plot wall
    let changed = p.apply_inputs(&mut cells, held(false, false, false, false, true), 10);
    assert_eq!(changed, None);
    let beyond = 19 * 60 + 30;
    assert_eq!(cells[beyond].cell_type, CellType::Soil);
}

#[test]
fn interact_returns_flower_to_soil() {
    let (mut p, mut cells) = fresh_player();
    let front = 29 * 60 + 30;
    cells[front].change_type(CellType::Flower);
    let changed = p.apply_inputs(&mut cells, held(false, false, false, false, true), 10);
    assert_eq!(changed, Some(front));
    assert_eq!(cells[front].cell_type, CellType::Soil);
    assert_eq!(cells[front].lifetime, 0);
}

#[test]
fn first_held_direction_wins_in_fixed_order() {
    let (mut p, mut cells) = fresh_player();
    // North and East held together: North wins the evaluation order
    p.apply_inputs(&mut cells, held(true, true, false, false, false), 500);
    assert_eq!(p.coords, Coords { x: 30, y: 29 });
    assert_eq!(p.state, PlayerStates::MovingNorth);
}
