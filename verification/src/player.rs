//! Players: position, facing, the per-frame motion state machine, the
//! movement cadence, and interaction with the cell in front.

use vstd::prelude::*;
use crate::grid::{
    Coords, MapDirection, MAP_SIZE, MAP_SIDE_HALF, WIDTH, HEIGHT, index_of, step_in_bounds,
    step_coord, get_index_from_coords,
};
use crate::cell::{Cell, CellType, EdgeType, interactable, toggled_cell};

verus! {

/// Minimum wall-clock spacing, in milliseconds, between two position
/// changes of one player.
pub const MOVE_INTERVAL_MS: u64 = 100;

/// One frame of held-key input from a client. Each flag is held state, not
/// an edge event.
#[derive(Clone, Copy, Debug, PartialEq, Eq, Structural)]
pub struct Inputs {
    pub north: bool,
    pub east: bool,
    pub south: bool,
    pub west: bool,
    pub interact: bool,
}

impl Inputs {
    /// The all-released input vector.
    pub fn none_held() -> (r: Inputs)
        ensures
            r == (Inputs { north: false, east: false, south: false, west: false, interact: false }),
    {
        Inputs { north: false, east: false, south: false, west: false, interact: false }
    }
}

/// The motion state machine: `Idle` (no direction key held), `Looking`
/// (turned to face a new direction; latched until all keys are released),
/// or actively stepping in one direction each cadence interval.
#[derive(Clone, Copy, Debug, PartialEq, Eq, Structural)]
pub enum PlayerStates {
    Idle,
    Looking,
    MovingNorth,
    MovingEast,
    MovingSouth,
    MovingWest,
}

/// One player's record. `last_moved` is the time, in monotonic
/// milliseconds, of the most recent movement attempt; `last_input` is the
/// most recent input vector, re-evaluated every tick so that a held key
/// keeps the player stepping between messages.
#[derive(Debug)]
pub struct Player {
    pub user_id: String,
    pub coords: Coords,
    pub direction: MapDirection,
    pub state: PlayerStates,
    pub last_moved: u64,
    pub last_input: Inputs,
}

/// Whether the key for direction `d` is held.
pub open spec fn dir_held(i: Inputs, d: MapDirection) -> bool {
    match d {
        MapDirection::North => i.north,
        MapDirection::East => i.east,
        MapDirection::South => i.south,
        MapDirection::West => i.west,
    }
}

/// Whether any direction key is held.
pub open spec fn any_held(i: Inputs) -> bool {
    i.north || i.east || i.south || i.west
}

/// The first held direction key, in the fixed evaluation order
/// North, East, South, West.
pub open spec fn first_held(i: Inputs) -> Option<MapDirection> {
    if i.north {
        Some(MapDirection::North)
    } else if i.east {
        Some(MapDirection::East)
    } else if i.south {
        Some(MapDirection::South)
    } else if i.west {
        Some(MapDirection::West)
    } else {
        None
    }
}

/// The moving state for direction `d`.
pub open spec fn moving_state(d: MapDirection) -> PlayerStates {
    match d {
        MapDirection::North => PlayerStates::MovingNorth,
        MapDirection::East => PlayerStates::MovingEast,
        MapDirection::South => PlayerStates::MovingSouth,
        MapDirection::West => PlayerStates::MovingWest,
    }
}

/// The direction a moving state steps in, if any.
pub open spec fn moving_dir(s: PlayerStates) -> Option<MapDirection> {
    match s {
        PlayerStates::MovingNorth => Some(MapDirection::North),
        PlayerStates::MovingEast => Some(MapDirection::East),
        PlayerStates::MovingSouth => Some(MapDirection::South),
        PlayerStates::MovingWest => Some(MapDirection::West),
        PlayerStates::Idle => None,
        PlayerStates::Looking => None,
    }
}

/// The movement cadence has elapsed: at least `MOVE_INTERVAL_MS` have
/// passed since the last movement attempt.
pub open spec fn cadence_ok(last_moved: u64, now: u64) -> bool {
    now >= last_moved + MOVE_INTERVAL_MS
}

/// Key-release handling: a moving state whose key is no longer held falls
/// back to `Idle`, and releasing every direction key always yields `Idle`.
pub open spec fn released_state(s: PlayerStates, i: Inputs) -> PlayerStates {
    if !any_held(i) {
        PlayerStates::Idle
    } else {
        match moving_dir(s) {
            Some(d) => if !dir_held(i, d) {
                PlayerStates::Idle
            } else {
                s
            },
            None => s,
        }
    }
}

/// The only allowed motion test: `None` when the step would leave the
/// world or the current cell's edge in that direction is a `Wall`;
/// otherwise the neighbor position. A `Door` does not block.
pub open spec fn adjust_spec(c: Coords, d: MapDirection, cells: Seq<Cell>) -> Option<Coords> {
    if step_in_bounds(c, d) && cells[index_of(c)].edges.edge_spec(d) != EdgeType::Wall {
        Some(step_coord(c, d))
    } else {
        None
    }
}

/// The input-driven part of a player's per-frame evaluation: key releases,
/// then the first held direction key either turns the player to face it
/// (`Looking`), or — when already facing it, idle, and past the cadence —
/// attempts one step and latches the moving state whether or not a wall
/// blocked the step.
pub open spec fn motion_step(p: Player, cells: Seq<Cell>, i: Inputs, now: u64) -> Player {
    let s0 = released_state(p.state, i);
    match first_held(i) {
        None => Player { state: s0, ..p },
        Some(d) => if s0 == PlayerStates::Idle && p.direction != d {
            Player { state: PlayerStates::Looking, direction: d, ..p }
        } else if s0 == PlayerStates::Idle && p.direction == d && cadence_ok(p.last_moved, now) {
            match adjust_spec(p.coords, d, cells) {
                Some(c2) => Player {
                    coords: c2,
                    last_moved: now,
                    state: moving_state(d),
                    ..p
                },
                None => Player { last_moved: now, state: moving_state(d), ..p },
            }
        } else {
            Player { state: s0, ..p }
        },
    }
}

/// The continuation part of a player's per-frame evaluation: a player in a
/// moving state attempts one step each time the cadence elapses, and the
/// attempt time is recorded even when a wall blocked it.
pub open spec fn continue_step(p: Player, cells: Seq<Cell>, now: u64) -> Player {
    match moving_dir(p.state) {
        Some(d) => if cadence_ok(p.last_moved, now) {
            match adjust_spec(p.coords, d, cells) {
                Some(c2) => Player { coords: c2, last_moved: now, ..p },
                None => Player { last_moved: now, ..p },
            }
        } else {
            p
        },
        None => p,
    }
}

/// One whole per-frame evaluation of a player against an input vector:
/// the input-driven step followed by the moving-state continuation.
pub open spec fn frame_step(p: Player, cells: Seq<Cell>, i: Inputs, now: u64) -> Player {
    continue_step(motion_step(p, cells, i, now), cells, now)
}

/// The flat index of the cell an interact lands on, if any: the cell the
/// player faces, reachable (walls block interaction, doors do not), and of
/// an interactable type.
pub open spec fn interact_target(p: Player, cells: Seq<Cell>, i: Inputs) -> Option<int> {
    if i.interact {
        match adjust_spec(p.coords, p.direction, cells) {
            Some(tc) => if interactable(cells[index_of(tc)].cell_type) {
                Some(index_of(tc))
            } else {
                None
            },
            None => None,
        }
    } else {
        None
    }
}

/// The complete effect of handling one input message for one player:
/// the new player record (with the vector remembered for later ticks),
/// the new cells, and the index of the cell an interact changed, if any.
pub open spec fn apply_inputs_spec(p: Player, cells: Seq<Cell>, i: Inputs, now: u64) -> (
    Player,
    Seq<Cell>,
    Option<int>,
) {
    let p1 = motion_step(p, cells, i, now);
    let p2 = Player { last_input: i, ..p1 };
    match interact_target(p1, cells, i) {
        Some(ix) => (p2, cells.update(ix, toggled_cell(cells[ix])), Some(ix)),
        None => (p2, cells, None),
    }
}

/// The only allowed motion test, executably.
pub fn adjust_in_direction(
    active_coord: &Coords,
    direction: &MapDirection,
    cells: &Vec<Cell>,
) -> (r: Option<Coords>)
    requires
        active_coord.in_bounds(),
        cells@.len() == MAP_SIZE,
    ensures
        r == adjust_spec(*active_coord, *direction, cells@),
        r matches Some(c2) ==> c2.in_bounds(),
{
    let edges = &cells[get_index_from_coords(active_coord)].edges;
    match direction {
        MapDirection::North => {
            if active_coord.y == 0 || edges.get(MapDirection::North) == EdgeType::Wall {
                return None;
            }
            Some(Coords { x: active_coord.x, y: active_coord.y - 1 })
        },
        MapDirection::East => {
            if active_coord.x == WIDTH - 1 || edges.get(MapDirection::East) == EdgeType::Wall {
                return None;
            }
            Some(Coords { x: active_coord.x + 1, y: active_coord.y })
        },
        MapDirection::South => {
            if active_coord.y == HEIGHT - 1 || edges.get(MapDirection::South) == EdgeType::Wall {
                return None;
            }
            Some(Coords { x: active_coord.x, y: active_coord.y + 1 })
        },
        MapDirection::West => {
            if active_coord.x == 0 || edges.get(MapDirection::West) == EdgeType::Wall {
                return None;
            }
            Some(Coords { x: active_coord.x - 1, y: active_coord.y })
        },
    }
}

impl Player {
    /// A player is well formed when it stands inside the world.
    pub open spec fn wf(self) -> bool {
        self.coords.in_bounds()
    }

    /// A freshly registered player: at the world center, facing North,
    /// idle, with no keys held.
    pub fn spawn(user_id: String, now: u64) -> (r: Player)
        ensures
            r == (Player {
                user_id,
                coords: Coords { x: MAP_SIDE_HALF, y: MAP_SIDE_HALF },
                direction: MapDirection::North,
                state: PlayerStates::Idle,
                last_moved: now,
                last_input: Inputs {
                    north: false,
                    east: false,
                    south: false,
                    west: false,
                    interact: false,
                },
            }),
            r.wf(),
    {
        Player {
            user_id,
            coords: Coords { x: MAP_SIDE_HALF, y: MAP_SIDE_HALF },
            direction: MapDirection::North,
            state: PlayerStates::Idle,
            last_moved: now,
            last_input: Inputs::none_held(),
        }
    }

    /// The step the player would take from its position, if not blocked.
    pub fn move_in_direction(&self, cells: &Vec<Cell>, direction: MapDirection) -> (r: Option<
        Coords,
    >)
        requires
            self.wf(),
            cells@.len() == MAP_SIZE,
        ensures
            r == adjust_spec(self.coords, direction, cells@),
            r matches Some(c2) ==> c2.in_bounds(),
    {
        let new_position = adjust_in_direction(&self.coords, &direction, cells);
        if let Some(np) = new_position {
            let index = get_index_from_coords(&np);
            if index < cells.len() {
                return Some(np);
            }
        }
        None
    }

    /// The input-driven part of the per-frame evaluation, executably.
    fn step_motion(&mut self, cells: &Vec<Cell>, inputs: Inputs, frame_time: u64)
        requires
            old(self).wf(),
            cells@.len() == MAP_SIZE,
        ensures
            *final(self) == motion_step(*old(self), cells@, inputs, frame_time),
            final(self).wf(),
    {
        if self.state == PlayerStates::MovingNorth && !inputs.north {
            self.state = PlayerStates::Idle;
        }
        if self.state == PlayerStates::MovingEast && !inputs.east {
            self.state = PlayerStates::Idle;
        }
        if self.state == PlayerStates::MovingSouth && !inputs.south {
            self.state = PlayerStates::Idle;
        }
        if self.state == PlayerStates::MovingWest && !inputs.west {
            self.state = PlayerStates::Idle;
        }
        if !inputs.north && !inputs.east && !inputs.south && !inputs.west {
            self.state = PlayerStates::Idle;
        }

        let held: Option<MapDirection> = if inputs.north {
            Some(MapDirection::North)
        } else if inputs.east {
            Some(MapDirection::East)
        } else if inputs.south {
            Some(MapDirection::South)
        } else if inputs.west {
            Some(MapDirection::West)
        } else {
            None
        };

        if let Some(d) = held {
            if self.state == PlayerStates::Idle {
                if self.direction != d {
                    self.direction = d;
                    self.state = PlayerStates::Looking;
                } else if frame_time >= self.last_moved
                    && frame_time - self.last_moved >= MOVE_INTERVAL_MS {
                    let new_coords = self.move_in_direction(cells, d);
                    if let Some(nc) = new_coords {
                        self.coords = nc;
                    }
                    self.last_moved = frame_time;
                    self.state = match d {
                        MapDirection::North => PlayerStates::MovingNorth,
                        MapDirection::East => PlayerStates::MovingEast,
                        MapDirection::South => PlayerStates::MovingSouth,
                        MapDirection::West => PlayerStates::MovingWest,
                    };
                }
            }
        }
    }

    /// Handle one input message: evaluate the motion machine, remember the
    /// vector for later ticks, and act on the cell in front when interact
    /// is held. Returns the index of the cell the interact changed, if any.
    pub fn apply_inputs(&mut self, cells: &mut Vec<Cell>, inputs: Inputs, frame_time: u64) -> (r:
        Option<usize>)
        requires
            old(self).wf(),
            old(cells)@.len() == MAP_SIZE,
        ensures
            ({
                let (p2, cells2, change) = apply_inputs_spec(
                    *old(self),
                    old(cells)@,
                    inputs,
                    frame_time,
                );
                &&& *final(self) == p2
                &&& final(cells)@ == cells2
                &&& match change {
                    Some(ix) => r == Some(ix as usize),
                    None => r is None,
                }
            }),
            final(self).wf(),
            final(cells)@.len() == old(cells)@.len(),
    {
        self.step_motion(cells, inputs, frame_time);
        self.last_input = inputs;

        if inputs.interact {
            let facing_cell_coords = adjust_in_direction(&self.coords, &self.direction, cells);
            if let Some(cell_coords) = facing_cell_coords {
                let index = get_index_from_coords(&cell_coords);
                match cells[index].cell_type {
                    CellType::Soil => {
                        let mut target = cells[index];
                        target.change_type(CellType::Plant);
                        cells.set(index, target);
                        return Some(index);
                    },
                    CellType::Flower => {
                        let mut target = cells[index];
                        target.change_type(CellType::Soil);
                        cells.set(index, target);
                        return Some(index);
                    },
                    CellType::Plant => {
                        return None;
                    },
                }
            }
        }
        None
    }

    /// The per-tick evaluation of a player against its remembered input
    /// vector: what keeps a held key stepping the player between messages.
    /// Interact is never replayed here; it acts only when a message
    /// arrives.
    pub fn update(&mut self, cells: &Vec<Cell>, frame_time: u64)
        requires
            old(self).wf(),
            cells@.len() == MAP_SIZE,
        ensures
            *final(self) == frame_step(*old(self), cells@, old(self).last_input, frame_time),
            final(self).wf(),
    {
        let inputs = self.last_input;
        self.step_motion(cells, inputs, frame_time);

        let continuing: Option<MapDirection> = match self.state {
            PlayerStates::MovingNorth => Some(MapDirection::North),
            PlayerStates::MovingEast => Some(MapDirection::East),
            PlayerStates::MovingSouth => Some(MapDirection::South),
            PlayerStates::MovingWest => Some(MapDirection::West),
            _ => None,
        };
        if let Some(d) = continuing {
            if frame_time >= self.last_moved && frame_time - self.last_moved >= MOVE_INTERVAL_MS {
                let new_coords = self.move_in_direction(cells, d);
                if let Some(nc) = new_coords {
                    self.coords = nc;
                }
                self.last_moved = frame_time;
            }
        }
    }
}

impl Clone for Player {
    fn clone(&self) -> (r: Player)
        ensures
            r == *self,
    {
        Player {
            user_id: self.user_id.clone(),
            coords: self.coords,
            direction: self.direction,
            state: self.state,
            last_moved: self.last_moved,
            last_input: self.last_input,
        }
    }
}

/// A successful motion test never crosses a wall and lands exactly one
/// step away, inside the world.
pub proof fn lemma_no_wall_crossing(c: Coords, d: MapDirection, cells: Seq<Cell>, c2: Coords)
    requires
        adjust_spec(c, d, cells) == Some(c2),
    ensures
        cells[index_of(c)].edges.edge_spec(d) != EdgeType::Wall,
        c2 == step_coord(c, d),
        step_in_bounds(c, d),
        c.in_bounds() ==> c2.in_bounds(),
{
}

/// Bounds: a per-frame evaluation keeps every player inside the world,
/// whatever the inputs and whatever the frame time.
pub proof fn lemma_player_bounds(p: Player, cells: Seq<Cell>, i: Inputs, now: u64)
    requires
        p.wf(),
    ensures
        motion_step(p, cells, i, now).wf(),
        frame_step(p, cells, i, now).wf(),
{
}

/// Wall respect: whenever a per-frame evaluation changes a player's
/// position, the move was one step through an edge the motion test allows
/// — in particular, never through a `Wall`.
pub proof fn lemma_wall_respect(p: Player, cells: Seq<Cell>, i: Inputs, now: u64)
    ensures
        ({
            let q = frame_step(p, cells, i, now);
            q.coords != p.coords ==> exists|d: MapDirection|
                (#[trigger] adjust_spec(p.coords, d, cells)) == Some(q.coords)
        }),
{
    let p1 = motion_step(p, cells, i, now);
    let q = frame_step(p, cells, i, now);
    if q.coords != p.coords {
        if p1.coords != p.coords {
            let d = first_held(i)->Some_0;
            assert(adjust_spec(p.coords, d, cells) == Some(p1.coords));
            assert(p1.last_moved == now);
            assert(!cadence_ok(p1.last_moved, now));
            assert(q == p1);
        } else {
            let d = moving_dir(p1.state)->Some_0;
            assert(adjust_spec(p.coords, d, cells) == Some(q.coords));
        }
    }
}

/// Motion cadence: a position can change only when at least
/// `MOVE_INTERVAL_MS` have elapsed since the previous movement attempt,
/// and the attempt time is then recorded; the recorded time never runs
/// backwards while frame times move forwards.
pub proof fn lemma_motion_cadence(p: Player, cells: Seq<Cell>, i: Inputs, now: u64)
    ensures
        ({
            let q = frame_step(p, cells, i, now);
            &&& q.coords != p.coords ==> now >= p.last_moved + MOVE_INTERVAL_MS
                && q.last_moved == now
            &&& q.last_moved == p.last_moved || q.last_moved == now
            &&& now >= p.last_moved ==> q.last_moved >= p.last_moved
        }),
{
}

/// The player after the first `n` frames of a run: each frame is one
/// per-tick evaluation against an input vector at a frame time.
pub open spec fn player_at(
    p: Player,
    cells: Seq<Cell>,
    frames: Seq<(Inputs, u64)>,
    n: int,
) -> Player
    decreases n,
{
    if n <= 0 {
        p
    } else {
        frame_step(player_at(p, cells, frames, n - 1), cells, frames[n - 1].0, frames[n - 1].1)
    }
}

/// Frame times never run backwards.
pub open spec fn times_monotone(frames: Seq<(Inputs, u64)>) -> bool {
    forall|i: int, j: int|
        0 <= i <= j < frames.len() ==> (#[trigger] frames[i]).1 <= (#[trigger] frames[j]).1
}

/// Along a run with nondecreasing frame times, the recorded time of the
/// last movement attempt never exceeds the latest frame time and never
/// runs backwards.
pub proof fn lemma_trace_last_moved(p: Player, cells: Seq<Cell>, frames: Seq<(Inputs, u64)>, n:
    int)
    requires
        times_monotone(frames),
        frames.len() > 0 ==> p.last_moved <= frames[0].1,
        0 <= n <= frames.len(),
    ensures
        n == 0 ==> player_at(p, cells, frames, n) == p,
        n > 0 ==> player_at(p, cells, frames, n).last_moved <= frames[n - 1].1,
        n > 0 ==> player_at(p, cells, frames, n).last_moved >= player_at(
            p,
            cells,
            frames,
            n - 1,
        ).last_moved,
    decreases n,
{
    if n > 0 {
        lemma_trace_last_moved(p, cells, frames, n - 1);
        let q = player_at(p, cells, frames, n - 1);
        lemma_motion_cadence(q, cells, frames[n - 1].0, frames[n - 1].1);
        if n - 1 > 0 {
            assert(frames[n - 2].1 <= frames[n - 1].1);
        }
    }
}

/// The recorded time of the last movement attempt grows along a run.
pub proof fn lemma_trace_last_moved_mono(
    p: Player,
    cells: Seq<Cell>,
    frames: Seq<(Inputs, u64)>,
    m: int,
    n: int,
)
    requires
        times_monotone(frames),
        frames.len() > 0 ==> p.last_moved <= frames[0].1,
        0 <= m <= n <= frames.len(),
    ensures
        player_at(p, cells, frames, m).last_moved <= player_at(p, cells, frames, n).last_moved,
    decreases n - m,
{
    if m < n {
        lemma_trace_last_moved_mono(p, cells, frames, m, n - 1);
        lemma_trace_last_moved(p, cells, frames, n);
    }
}

/// Motion cadence over a whole run: when frame times never decrease and
/// the run starts no earlier than the player's last movement attempt, any
/// two frames that both change the player's position lie at least
/// `MOVE_INTERVAL_MS` apart.
pub proof fn lemma_cadence_trace(
    p: Player,
    cells: Seq<Cell>,
    frames: Seq<(Inputs, u64)>,
    a: int,
    b: int,
)
    requires
        times_monotone(frames),
        frames.len() > 0 ==> p.last_moved <= frames[0].1,
        0 <= a < b < frames.len(),
        player_at(p, cells, frames, a + 1).coords != player_at(p, cells, frames, a).coords,
        player_at(p, cells, frames, b + 1).coords != player_at(p, cells, frames, b).coords,
    ensures
        frames[b].1 >= frames[a].1 + MOVE_INTERVAL_MS,
{
    let pa = player_at(p, cells, frames, a);
    let pb = player_at(p, cells, frames, b);
    lemma_motion_cadence(pa, cells, frames[a].0, frames[a].1);
    lemma_motion_cadence(pb, cells, frames[b].0, frames[b].1);
    assert(player_at(p, cells, frames, a + 1) == frame_step(
        pa,
        cells,
        frames[a].0,
        frames[a].1,
    ));
    assert(player_at(p, cells, frames, b + 1) == frame_step(
        pb,
        cells,
        frames[b].0,
        frames[b].1,
    ));
    lemma_trace_last_moved_mono(p, cells, frames, a + 1, b);
}

} // verus!
