//! The shapes the HTTP and WebSocket surface exchanges with the core, and
//! the decisions those handlers delegate to the library: who receives a
//! published event, which inbound frames are keep-alives, and what a
//! registration answers.

use vstd::prelude::*;
use vstd::string::StringExecFns;
use crate::grid::{Coords, MapDirection, MAP_SIZE, MAP_SIDE_HALF, WIDTH, HEIGHT, get_dimensions,
    get_index_from_coords, index_of};
use crate::cell::Cell;
use crate::player::{adjust_spec, adjust_in_direction};
use crate::world;

verus! {

/// Body of a registration request: the numeric user id.
#[derive(Debug)]
pub struct RegisterRequest {
    pub user_id: usize,
}

/// Body of a registration answer: the WebSocket address to connect to,
/// where the player stands, the full cell snapshot, and the world size.
#[derive(Debug)]
pub struct RegisterResponse {
    pub url: String,
    pub player_position: Coords,
    pub explored_cells: Vec<Cell>,
    pub width: usize,
    pub height: usize,
}

/// Body of a publish request: a topic, an optional addressee, and the
/// message text.
#[derive(Debug)]
pub struct Event {
    pub topic: String,
    pub user_id: Option<usize>,
    pub message: String,
}

/// A topic-subscription request from a client.
#[derive(Debug)]
pub struct TopicsRequest {
    pub topics: Vec<String>,
}

/// A raw input line from a client.
#[derive(Debug)]
pub struct UserInput {
    pub input: String,
}

/// One move answer of the older request protocol.
#[derive(Debug)]
pub struct MoveResponse {
    pub move_id: usize,
    pub player_id: String,
    pub player_position: Coords,
    pub cell: Cell,
}

/// One cell-change answer of the older request protocol.
#[derive(Debug)]
pub struct CellUpdateResponse {
    pub cell: Cell,
    pub player_position: Coords,
}

/// A room's look, as sent to clients.
#[derive(Debug)]
pub struct Room {
    pub color: String,
}

/// The older per-session view of the world: the cells a player has seen
/// and the last known position of each player.
#[derive(Debug)]
pub struct MapState {
    pub explored_cells: Vec<Cell>,
    pub player_state: Vec<(String, Coords)>,
}

impl MapState {
    /// A sound session view: ids unique, every recorded position inside
    /// the world, and at most one explored entry per cell.
    pub open spec fn wf(self) -> bool {
        &&& forall|j1: int, j2: int|
            0 <= j1 < j2 < self.player_state@.len() ==> self.player_state@[j1].0@
                != self.player_state@[j2].0@
        &&& forall|j: int|
            0 <= j < self.player_state@.len() ==> (#[trigger] self.player_state@[j]).1.in_bounds()
        &&& forall|t1: int, t2: int|
            0 <= t1 < t2 < self.explored_cells@.len() ==> self.explored_cells@[t1].index
                != self.explored_cells@[t2].index
    }
}

/// A fresh, empty session view.
pub fn generate_map_state() -> (r: MapState)
    ensures
        r.explored_cells@.len() == 0,
        r.player_state@.len() == 0,
        r.wf(),
{
    MapState { explored_cells: Vec::new(), player_state: Vec::new() }
}

/// The position of the entry for `id` in a session's player list,
/// searching front to back.
pub open spec fn find_state_player(players: Seq<(String, Coords)>, id: Seq<char>) -> Option<int>
    decreases players.len(),
{
    if players.len() == 0 {
        None
    } else if players[0].0@ == id {
        Some(0int)
    } else {
        match find_state_player(players.drop_first(), id) {
            Some(j) => Some(j + 1),
            None => None,
        }
    }
}

/// `find_state_player` returns the first matching entry, or reports that
/// none matches.
pub proof fn lemma_find_state_player_characterization(
    players: Seq<(String, Coords)>,
    id: Seq<char>,
)
    ensures
        match find_state_player(players, id) {
            Some(j) => 0 <= j < players.len() && players[j].0@ == id && forall|k: int|
                0 <= k < j ==> (#[trigger] players[k]).0@ != id,
            None => forall|k: int| 0 <= k < players.len() ==> (#[trigger] players[k]).0@ != id,
        },
    decreases players.len(),
{
    if players.len() > 0 && players[0].0@ != id {
        lemma_find_state_player_characterization(players.drop_first(), id);
        assert forall|k: int| 1 <= k < players.len() implies (#[trigger] players[k]).0@
            == players.drop_first()[k - 1].0@ by {
            assert(players[k] == players.drop_first()[k - 1]);
        }
    }
}

/// The position of the explored entry for flat index `idx`, if any.
pub open spec fn find_explored(explored: Seq<Cell>, idx: int) -> Option<int>
    decreases explored.len(),
{
    if explored.len() == 0 {
        None
    } else if explored[0].index == idx {
        Some(0int)
    } else {
        match find_explored(explored.drop_first(), idx) {
            Some(t) => Some(t + 1),
            None => None,
        }
    }
}

/// `find_explored` returns the first entry for the index, or reports
/// that the cell was never explored.
pub proof fn lemma_find_explored_characterization(explored: Seq<Cell>, idx: int)
    ensures
        match find_explored(explored, idx) {
            Some(t) => 0 <= t < explored.len() && explored[t].index == idx && forall|k: int|
                0 <= k < t ==> (#[trigger] explored[k]).index != idx,
            None => forall|k: int| 0 <= k < explored.len() ==> (#[trigger] explored[k]).index != idx,
        },
    decreases explored.len(),
{
    if explored.len() > 0 && explored[0].index != idx {
        lemma_find_explored_characterization(explored.drop_first(), idx);
        assert forall|k: int| 1 <= k < explored.len() implies (#[trigger] explored[k]).index
            == explored.drop_first()[k - 1].index by {
            assert(explored[k] == explored.drop_first()[k - 1]);
        }
    }
}

/// The position of the explored entry for a flat index, executably.
fn find_explored_index(explored: &Vec<Cell>, idx: usize) -> (r: Option<usize>)
    ensures
        match r {
            Some(t) => find_explored(explored@, idx as int) == Some(t as int),
            None => find_explored(explored@, idx as int) is None,
        },
{
    let n = explored.len();
    let mut t: usize = 0;
    while t < n
        invariant
            n == explored@.len(),
            0 <= t <= n,
            forall|k: int| 0 <= k < t ==> (#[trigger] explored@[k]).index != idx,
        decreases n - t,
    {
        if explored[t].index == idx {
            proof {
                lemma_find_explored_characterization(explored@, idx as int);
            }
            return Some(t);
        }
        t = t + 1;
    }
    proof {
        lemma_find_explored_characterization(explored@, idx as int);
    }
    None
}

/// Record an explored cell in a session view: a known index is
/// refreshed in place, a new one appended.
fn record_explored(state: &mut MapState, cell: Cell)
    requires
        old(state).wf(),
    ensures
        final(state).wf(),
        final(state).player_state@ == old(state).player_state@,
        final(state).explored_cells@ == match find_explored(
            old(state).explored_cells@,
            cell.index as int,
        ) {
            Some(t) => old(state).explored_cells@.update(t, cell),
            None => old(state).explored_cells@.push(cell),
        },
{
    proof {
        lemma_find_explored_characterization(state.explored_cells@, cell.index as int);
    }
    let found = find_explored_index(&state.explored_cells, cell.index);
    match found {
        Some(t) => {
            state.explored_cells.set(t, cell);
            proof {
                assert forall|t1: int, t2: int|
                    0 <= t1 < t2 < state.explored_cells@.len() implies state.explored_cells@[t1].index
                    != state.explored_cells@[t2].index by {
                    assert(old(state).explored_cells@[t1].index != old(
                        state,
                    ).explored_cells@[t2].index);
                    assert(old(state).explored_cells@[t as int].index == cell.index);
                }
            }
        },
        None => {
            state.explored_cells.push(cell);
            proof {
                assert forall|t1: int, t2: int|
                    0 <= t1 < t2 < state.explored_cells@.len() implies state.explored_cells@[t1].index
                    != state.explored_cells@[t2].index by {
                    if t2 < old(state).explored_cells@.len() {
                        assert(old(state).explored_cells@[t1].index != old(
                            state,
                        ).explored_cells@[t2].index);
                    } else {
                        assert(old(state).explored_cells@[t1].index != cell.index);
                    }
                }
            }
        },
    }
}

/// The older registration rule: a first-time id is recorded at the world
/// center, and the reply always names the center and carries the cells
/// explored so far.
pub fn register_in_map_state(state: &mut MapState, user_id: String) -> (r: world::RegisterResponse)
    requires
        old(state).wf(),
    ensures
        final(state).wf(),
        final(state).explored_cells@ == old(state).explored_cells@,
        ({
            let center = Coords { x: MAP_SIDE_HALF, y: MAP_SIDE_HALF };
            &&& r.player_coords == center
            &&& match find_state_player(old(state).player_state@, user_id@) {
                Some(j) => final(state).player_state@ == old(state).player_state@,
                None => final(state).player_state@ == old(state).player_state@.push(
                    (user_id, center),
                ),
            }
        }),
        r.explored_cells@ == old(state).explored_cells@,
{
    proof {
        lemma_find_state_player_characterization(state.player_state@, user_id@);
    }
    let center = Coords { x: MAP_SIDE_HALF, y: MAP_SIDE_HALF };
    let found = find_state_player_index(state, &user_id);
    if found.is_none() {
        proof {
            lemma_find_state_player_characterization(state.player_state@, user_id@);
        }
        state.player_state.push((user_id, center));
    }
    let explored_cells = world::copy_cells(&state.explored_cells);
    world::RegisterResponse { player_coords: center, explored_cells }
}

/// The position of a session entry, executably.
pub fn find_state_player_index(state: &MapState, user_id: &String) -> (r: Option<usize>)
    ensures
        match r {
            Some(j) => find_state_player(state.player_state@, user_id@) == Some(j as int),
            None => find_state_player(state.player_state@, user_id@) is None,
        },
{
    let n = state.player_state.len();
    let mut j: usize = 0;
    while j < n
        invariant
            n == state.player_state@.len(),
            0 <= j <= n,
            forall|k: int| 0 <= k < j ==> (#[trigger] state.player_state@[k]).0@ != user_id@,
        decreases n - j,
    {
        if state.player_state[j].0 == *user_id {
            proof {
                lemma_find_state_player_characterization(state.player_state@, user_id@);
            }
            return Some(j);
        }
        j = j + 1;
    }
    proof {
        lemma_find_state_player_characterization(state.player_state@, user_id@);
    }
    None
}

/// The older movement rule: look the player up, test the step with the
/// only allowed motion test, and on success record the entered cell as
/// explored, move the player, and answer with the move. An unknown id or
/// a blocked step changes nothing and answers nothing.
pub fn respond_to_move(
    cells: &Vec<Cell>,
    state: &mut MapState,
    user_id: &String,
    direction: MapDirection,
) -> (r: Option<MoveResponse>)
    requires
        old(state).wf(),
        cells@.len() == MAP_SIZE,
    ensures
        final(state).wf(),
        ({
            match find_state_player(old(state).player_state@, user_id@) {
                Some(j) => match adjust_spec(
                    old(state).player_state@[j].1,
                    direction,
                    cells@,
                ) {
                    Some(np) => {
                        let entered = cells@[index_of(np)];
                        &&& final(state).player_state@ == old(state).player_state@.update(
                            j,
                            (*user_id, np),
                        )
                        &&& final(state).explored_cells@ == match find_explored(
                            old(state).explored_cells@,
                            entered.index as int,
                        ) {
                            Some(t) => old(state).explored_cells@.update(t, entered),
                            None => old(state).explored_cells@.push(entered),
                        }
                        &&& r matches Some(m) && m.move_id == 2 && m.player_id@ == user_id@
                            && m.player_position == np && m.cell == entered
                    },
                    None => *final(state) == *old(state) && r is None,
                },
                None => *final(state) == *old(state) && r is None,
            }
        }),
{
    let found = find_state_player_index(state, user_id);
    let j = match found {
        Some(j) => j,
        None => {
            return None;
        },
    };
    proof {
        lemma_find_state_player_characterization(state.player_state@, user_id@);
    }
    let here = state.player_state[j].1;
    let new_position = match adjust_in_direction(&here, &direction, cells) {
        Some(np) => np,
        None => {
            return None;
        },
    };
    let next_index = get_index_from_coords(&new_position);
    let next_cell = cells[next_index];
    record_explored(state, next_cell);
    state.player_state.set(j, (user_id.clone(), new_position));
    proof {
        assert forall|j1: int, j2: int|
            0 <= j1 < j2 < state.player_state@.len() implies state.player_state@[j1].0@
            != state.player_state@[j2].0@ by {
            assert(old(state).player_state@[j1].0@ != old(state).player_state@[j2].0@);
        }
    }
    Some(MoveResponse {
        move_id: 2,
        player_id: user_id.clone(),
        player_position: new_position,
        cell: next_cell,
    })
}

/// Whether one of the subscribed topics is the given one.
pub open spec fn has_topic(topics: Seq<String>, topic: Seq<char>) -> bool {
    exists|i: int| 0 <= i < topics.len() && topics[i]@ == topic
}

pub fn contains_topic(topics: &Vec<String>, topic: &String) -> (r: bool)
    ensures
        r == has_topic(topics@, topic@),
{
    let n = topics.len();
    let mut i: usize = 0;
    while i < n
        invariant
            n == topics@.len(),
            0 <= i <= n,
            forall|k: int| 0 <= k < i ==> (#[trigger] topics@[k])@ != topic@,
        decreases n - i,
    {
        if topics[i] == *topic {
            return true;
        }
        i = i + 1;
    }
    false
}

/// The publish rule: a client receives an event exactly when it is
/// subscribed to the event's topic and, if the event names a user, the
/// client belongs to that user.
pub fn client_matches_event(client_user_id: usize, topics: &Vec<String>, event: &Event) -> (r:
    bool)
    ensures
        r == ((match event.user_id {
            Some(v) => client_user_id == v,
            None => true,
        }) && has_topic(topics@, event.topic@)),
{
    let user_ok = match event.user_id {
        Some(v) => client_user_id == v,
        None => true,
    };
    user_ok && contains_topic(topics, &event.topic)
}

/// The keep-alive test: a frame that reads `ping`, with or without a
/// trailing newline, carries no input and is ignored.
pub fn is_ping(message: &str) -> (r: bool)
    ensures
        r == (message@ == "ping"@ || message@ == "ping\n"@),
{
    let m = String::from_str(message);
    let ping = String::from_str("ping");
    let ping_nl = String::from_str("ping\n");
    m == ping || m == ping_nl
}

/// Assemble the registration answer from the simulation's reply, the
/// connection's WebSocket address, and the world dimensions.
pub fn build_register_response(url: String, reply: world::RegisterResponse) -> (r:
    RegisterResponse)
    ensures
        r.url@ == url@,
        r.player_position == reply.player_coords,
        r.explored_cells@ == reply.explored_cells@,
        r.width == WIDTH,
        r.height == HEIGHT,
{
    let (width, height) = get_dimensions();
    RegisterResponse {
        url,
        player_position: reply.player_coords,
        explored_cells: reply.explored_cells,
        width,
        height,
    }
}

} // verus!
