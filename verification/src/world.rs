//! The authoritative world: the cell grid plus every player's record, and
//! the per-tick phases the game loop runs over them.

use vstd::prelude::*;
use crate::grid::{Coords, MapDirection, MAP_SIZE, MAP_SIDE_HALF};
use crate::cell::{Cell, cell_tick};
use crate::player::{Player, Inputs, PlayerStates, apply_inputs_spec, frame_step};

verus! {

/// One buffered input message: which player it is for and what keys were
/// held when it was sent.
#[derive(Debug)]
pub struct PlayerInput {
    pub user_id: String,
    pub input: Inputs,
}

/// What a newly registered (or re-registering) player is told: where it
/// stands and a full snapshot of the world's cells.
#[derive(Debug)]
pub struct RegisterResponse {
    pub player_coords: Coords,
    pub explored_cells: Vec<Cell>,
}

/// The mathematical model of a world: the cell sequence and the player
/// records.
pub struct WorldView {
    pub cells: Seq<Cell>,
    pub players: Seq<Player>,
}

impl WorldView {
    /// A well-formed world: exactly `MAP_SIZE` cells, each carrying its
    /// own index and a lifetime below the maturation threshold; every
    /// player inside the world; player ids unique.
    pub open spec fn wf(self) -> bool {
        &&& self.cells.len() == MAP_SIZE
        &&& forall|k: int|
            0 <= k < MAP_SIZE ==> (#[trigger] self.cells[k]).wf() && self.cells[k].index == k
        &&& forall|j: int| 0 <= j < self.players.len() ==> (#[trigger] self.players[j]).wf()
        &&& forall|j1: int, j2: int|
            0 <= j1 < j2 < self.players.len() ==> self.players[j1].user_id@
                != self.players[j2].user_id@
    }
}

/// The world as the game loop owns it. The loop is its sole writer.
pub struct World {
    pub cells: Vec<Cell>,
    pub player_state: Vec<Player>,
}

impl View for World {
    type V = WorldView;

    open spec fn view(&self) -> WorldView {
        WorldView { cells: self.cells@, players: self.player_state@ }
    }
}

/// The position of the player with the given id, searching front to back.
pub open spec fn find_player(players: Seq<Player>, id: Seq<char>) -> Option<int>
    decreases players.len(),
{
    if players.len() == 0 {
        None
    } else if players[0].user_id@ == id {
        Some(0int)
    } else {
        match find_player(players.drop_first(), id) {
            Some(j) => Some(j + 1),
            None => None,
        }
    }
}

/// `find_player` returns the first matching position, or reports that no
/// player matches.
pub proof fn lemma_find_player_characterization(players: Seq<Player>, id: Seq<char>)
    ensures
        match find_player(players, id) {
            Some(j) => 0 <= j < players.len() && players[j].user_id@ == id && forall|k: int|
                0 <= k < j ==> (#[trigger] players[k]).user_id@ != id,
            None => forall|k: int|
                0 <= k < players.len() ==> (#[trigger] players[k]).user_id@ != id,
        },
    decreases players.len(),
{
    if players.len() > 0 && players[0].user_id@ != id {
        lemma_find_player_characterization(players.drop_first(), id);
        assert forall|k: int| 1 <= k < players.len() implies (#[trigger] players[k]).user_id@
            == players.drop_first()[k - 1].user_id@ by {
            assert(players[k] == players.drop_first()[k - 1]);
        }
    }
}

/// The effect of one buffered input message on the world: the named
/// player's per-message evaluation and, possibly, one interacted cell.
/// A message for an unknown id is skipped.
pub open spec fn apply_message(w: WorldView, m: PlayerInput, now: u64) -> (WorldView, Option<int>) {
    match find_player(w.players, m.user_id@) {
        Some(j) => {
            let (p2, cells2, change) = apply_inputs_spec(w.players[j], w.cells, m.input, now);
            (WorldView { cells: cells2, players: w.players.update(j, p2) }, change)
        },
        None => (w, None),
    }
}

/// The world after a sequence of buffered input messages, applied in
/// drain order.
pub open spec fn apply_messages(w: WorldView, msgs: Seq<PlayerInput>, now: u64) -> WorldView
    decreases msgs.len(),
{
    if msgs.len() == 0 {
        w
    } else {
        apply_messages(apply_message(w, msgs[0], now).0, msgs.drop_first(), now)
    }
}

/// The indices of the cells the interacts in a message sequence changed,
/// in drain order (an index may repeat).
pub open spec fn collected_changes(w: WorldView, msgs: Seq<PlayerInput>, now: u64) -> Seq<int>
    decreases msgs.len(),
{
    if msgs.len() == 0 {
        Seq::empty()
    } else {
        let (w2, change) = apply_message(w, msgs[0], now);
        let rest = collected_changes(w2, msgs.drop_first(), now);
        match change {
            Some(ix) => seq![ix] + rest,
            None => rest,
        }
    }
}

/// Peeling the last message off a fold over a message sequence.
pub proof fn lemma_apply_messages_snoc(w: WorldView, msgs: Seq<PlayerInput>, now: u64)
    requires
        msgs.len() > 0,
    ensures
        apply_messages(w, msgs, now) == apply_message(
            apply_messages(w, msgs.drop_last(), now),
            msgs.last(),
            now,
        ).0,
        collected_changes(w, msgs, now) == collected_changes(w, msgs.drop_last(), now) + (
        match apply_message(apply_messages(w, msgs.drop_last(), now), msgs.last(), now).1 {
            Some(ix) => seq![ix],
            None => Seq::<int>::empty(),
        }),
    decreases msgs.len(),
{
    let w1 = apply_message(w, msgs[0], now).0;
    if msgs.len() == 1 {
        assert(msgs.drop_last() =~= Seq::<PlayerInput>::empty());
        assert(msgs.drop_first() =~= Seq::<PlayerInput>::empty());
        assert(msgs.last() == msgs[0]);
        assert(collected_changes(w1, Seq::<PlayerInput>::empty(), now) == Seq::<int>::empty());
        assert(collected_changes(w, Seq::<PlayerInput>::empty(), now) == Seq::<int>::empty());
        assert(apply_messages(w, Seq::<PlayerInput>::empty(), now) == w);
        assert(apply_messages(w1, Seq::<PlayerInput>::empty(), now) == w1);
        match apply_message(w, msgs[0], now).1 {
            Some(ix) => {
                assert(collected_changes(w, msgs, now) =~= Seq::<int>::empty() + seq![ix]);
            },
            None => {
                assert(collected_changes(w, msgs, now) =~= Seq::<int>::empty()
                    + Seq::<int>::empty());
            },
        }
    } else {
        lemma_apply_messages_snoc(w1, msgs.drop_first(), now);
        assert(msgs.drop_first().drop_last() =~= msgs.drop_last().drop_first());
        assert(msgs.drop_first().last() == msgs.last());
        assert(msgs.drop_last()[0] == msgs[0]);
        assert(msgs.drop_last().len() > 0);
        // the two fold orders meet in the middle
        assert(apply_messages(w, msgs.drop_last(), now) == apply_messages(
            w1,
            msgs.drop_last().drop_first(),
            now,
        ));
        match apply_message(
            apply_messages(w1, msgs.drop_first().drop_last(), now),
            msgs.drop_first().last(),
            now,
        ).1 {
            Some(ix) => {
                assert(collected_changes(w, msgs, now) =~= collected_changes(
                    w,
                    msgs.drop_last(),
                    now,
                ) + seq![ix]);
            },
            None => {
                assert(collected_changes(w, msgs, now) =~= collected_changes(
                    w,
                    msgs.drop_last(),
                    now,
                ) + Seq::<int>::empty());
            },
        }
    }
}

/// The per-tick evaluation of every player against its remembered input
/// vector; cells are untouched.
pub open spec fn update_all(w: WorldView, now: u64) -> WorldView {
    WorldView {
        cells: w.cells,
        players: Seq::new(
            w.players.len(),
            |j: int| frame_step(w.players[j], w.cells, w.players[j].last_input, now),
        ),
    }
}

/// The cell-lifecycle phase of a tick: every cell steps once.
pub open spec fn cells_phase(w: WorldView) -> WorldView {
    WorldView { cells: Seq::new(w.cells.len(), |k: int| cell_tick(w.cells[k])), players: w.players }
}

impl World {
    pub open spec fn wf(self) -> bool {
        self@.wf()
    }

    /// The position of a player's record in the player list.
    pub fn find_player_index(&self, user_id: &String) -> (r: Option<usize>)
        ensures
            match r {
                Some(j) => find_player(self@.players, user_id@) == Some(j as int),
                None => find_player(self@.players, user_id@) is None,
            },
    {
        let n = self.player_state.len();
        let mut j: usize = 0;
        while j < n
            invariant
                n == self@.players.len(),
                0 <= j <= n,
                forall|k: int| 0 <= k < j ==> (#[trigger] self@.players[k]).user_id@ != user_id@,
            decreases n - j,
        {
            if self.player_state[j].user_id == *user_id {
                proof {
                    lemma_find_player_characterization(self@.players, user_id@);
                }
                return Some(j);
            }
            j = j + 1;
        }
        proof {
            lemma_find_player_characterization(self@.players, user_id@);
        }
        None
    }

    /// The cell-lifecycle phase: advance every cell once and report, in
    /// increasing order, exactly the indices whose type changed.
    pub fn update_cells(&mut self) -> (r: Vec<usize>)
        requires
            old(self).wf(),
        ensures
            final(self).wf(),
            final(self)@ == cells_phase(old(self)@),
            forall|i1: int, i2: int| 0 <= i1 < i2 < r@.len() ==> r@[i1] < r@[i2],
            forall|k: int|
                0 <= k < MAP_SIZE ==> (r@.contains(k as usize) <==> cell_tick(old(self)@.cells[k]).cell_type
                    != old(self)@.cells[k].cell_type),
            forall|i1: int| 0 <= i1 < r@.len() ==> r@[i1] < MAP_SIZE,
    {
        let ghost orig = self@;
        let mut new_cell_indices: Vec<usize> = Vec::new();
        let n = self.cells.len();
        let mut i: usize = 0;
        while i < n
            invariant
                old(self).wf(),
                orig == old(self)@,
                n == MAP_SIZE,
                0 <= i <= n,
                self.cells@.len() == MAP_SIZE,
                self.player_state@ == orig.players,
                forall|k: int| 0 <= k < i ==> self.cells@[k] == cell_tick(orig.cells[k]),
                forall|k: int| i <= k < MAP_SIZE ==> self.cells@[k] == orig.cells[k],
                forall|i1: int, i2: int|
                    0 <= i1 < i2 < new_cell_indices@.len() ==> new_cell_indices@[i1]
                        < new_cell_indices@[i2],
                forall|i1: int|
                    0 <= i1 < new_cell_indices@.len() ==> new_cell_indices@[i1] < i,
                forall|k: int|
                    0 <= k < i ==> (new_cell_indices@.contains(k as usize)
                        <==> cell_tick(orig.cells[k]).cell_type != orig.cells[k].cell_type),
            decreases n - i,
        {
            let ghost s0 = new_cell_indices@;
            let mut c = self.cells[i];
            proof {
                assert(orig.cells[i as int].wf());
            }
            let changed = c.update();
            self.cells.set(i, c);
            if changed {
                new_cell_indices.push(i);
            }
            proof {
                assert forall|x: usize|
                    new_cell_indices@.contains(x) <==> (s0.contains(x) || (changed && x
                        == i)) by {
                    if s0.contains(x) {
                        let w = choose|w: int| 0 <= w < s0.len() && s0[w] == x;
                        assert(new_cell_indices@[w] == x);
                    }
                    if changed && x == i {
                        assert(new_cell_indices@[s0.len() as int] == x);
                    }
                    if new_cell_indices@.contains(x) {
                        let w = choose|w: int|
                            0 <= w < new_cell_indices@.len() && new_cell_indices@[w] == x;
                        if w < s0.len() {
                            assert(s0[w] == x);
                        }
                    }
                }
                assert(!s0.contains(i)) by {
                    if s0.contains(i) {
                        let w = choose|w: int| 0 <= w < s0.len() && s0[w] == i;
                    }
                }
                assert forall|k: int|
                    0 <= k < i + 1 implies (new_cell_indices@.contains(k as usize)
                        <==> cell_tick(orig.cells[k]).cell_type != orig.cells[k].cell_type) by {}
            }
            i = i + 1;
        }
        proof {
            assert(self@.cells =~= cells_phase(orig).cells);
            assert(self@ == cells_phase(orig));
        }
        new_cell_indices
    }

    /// Apply every buffered input message in drain order, then run the
    /// per-tick evaluation of every player against its remembered input
    /// vector. Returns the ids of all players (each touched by the tick)
    /// and the indices of the cells the interacts changed, in order.
    pub fn update_player_state(&mut self, inputs: Vec<PlayerInput>, frame_time: u64) -> (r: (
        Vec<String>,
        Vec<usize>,
    ))
        requires
            old(self).wf(),
        ensures
            final(self).wf(),
            final(self)@ == update_all(
                apply_messages(old(self)@, inputs@, frame_time),
                frame_time,
            ),
            r.0@.len() == final(self)@.players.len(),
            forall|j: int|
                0 <= j < r.0@.len() ==> (#[trigger] r.0@[j])@
                    == final(self)@.players[j].user_id@,
            r.1@.map_values(|u: usize| u as int) == collected_changes(
                old(self)@,
                inputs@,
                frame_time,
            ),
            forall|t: int| 0 <= t < r.1@.len() ==> (#[trigger] r.1@[t]) < MAP_SIZE,
    {
        let ghost orig = self@;
        let mut changed_cell_indices: Vec<usize> = Vec::new();
        let n_inputs = inputs.len();
        let mut t: usize = 0;
        while t < n_inputs
            invariant
                orig.wf(),
                n_inputs == inputs@.len(),
                0 <= t <= n_inputs,
                self.wf(),
                self@ == apply_messages(orig, inputs@.take(t as int), frame_time),
                changed_cell_indices@.map_values(|u: usize| u as int) == collected_changes(
                    orig,
                    inputs@.take(t as int),
                    frame_time,
                ),
                forall|q: int|
                    0 <= q < changed_cell_indices@.len() ==> (#[trigger] changed_cell_indices@[q])
                        < MAP_SIZE,
            decreases n_inputs - t,
        {
            let ghost pre = self@;
            let ghost s0 = changed_cell_indices@;
            let found = self.find_player_index(&inputs[t].user_id);
            if let Some(j) = found {
                proof {
                    lemma_find_player_characterization(pre.players, inputs@[t as int].user_id@);
                }
                let mut p = self.player_state[j].clone();
                let change = p.apply_inputs(&mut self.cells, inputs[t].input, frame_time);
                proof {
                    assert(p.user_id@ == pre.players[j as int].user_id@);
                }
                self.player_state.set(j, p);
                if let Some(ix) = change {
                    changed_cell_indices.push(ix);
                }
                proof {
                    let m = inputs@[t as int];
                    let (p2, cells2, sc) = apply_inputs_spec(
                        pre.players[j as int],
                        pre.cells,
                        m.input,
                        frame_time,
                    );
                    assert(self@.players =~= pre.players.update(j as int, p2));
                    assert(self@ == apply_message(pre, m, frame_time).0);
                    assert(self@.wf()) by {
                        assert forall|k: int|
                            0 <= k < MAP_SIZE implies (#[trigger] self@.cells[k]).wf()
                            && self@.cells[k].index == k by {
                            assert(pre.cells[k].wf() && pre.cells[k].index == k);
                        }
                    }
                }
            }
            proof {
                let m = inputs@[t as int];
                assert(inputs@.take(t + 1).drop_last() =~= inputs@.take(t as int));
                assert(inputs@.take(t + 1).last() == m);
                lemma_apply_messages_snoc(orig, inputs@.take(t + 1), frame_time);
                assert(self@ == apply_messages(orig, inputs@.take(t + 1), frame_time));
                match apply_message(pre, m, frame_time).1 {
                    Some(ix) => {
                        assert(changed_cell_indices@ =~= s0.push(ix as usize));
                        assert(changed_cell_indices@.map_values(|u: usize| u as int)
                            =~= collected_changes(orig, inputs@.take(t + 1), frame_time));
                    },
                    None => {
                        assert(changed_cell_indices@.map_values(|u: usize| u as int)
                            =~= collected_changes(orig, inputs@.take(t + 1), frame_time));
                    },
                }
            }
            t = t + 1;
        }
        proof {
            assert(inputs@.take(n_inputs as int) =~= inputs@);
        }

        let ghost mid = self@;
        let n_players = self.player_state.len();
        let mut j: usize = 0;
        while j < n_players
            invariant
                mid.wf(),
                n_players == mid.players.len(),
                0 <= j <= n_players,
                self@.cells == mid.cells,
                self@.players.len() == n_players,
                forall|k: int|
                    0 <= k < j ==> (#[trigger] self@.players[k]) == frame_step(
                        mid.players[k],
                        mid.cells,
                        mid.players[k].last_input,
                        frame_time,
                    ),
                forall|k: int| j <= k < n_players ==> (#[trigger] self@.players[k])
                    == mid.players[k],
            decreases n_players - j,
        {
            let mut p = self.player_state[j].clone();
            proof {
                assert(mid.players[j as int].wf());
            }
            p.update(&self.cells, frame_time);
            self.player_state.set(j, p);
            j = j + 1;
        }
        proof {
            assert(self@.players =~= update_all(mid, frame_time).players);
            assert(self@ == update_all(mid, frame_time));
            assert(self@.wf()) by {
                assert forall|k: int|
                    0 <= k < self@.players.len() implies (#[trigger] self@.players[k]).wf()
                    && self@.players[k].user_id@ == mid.players[k].user_id@ by {
                    assert(mid.players[k].wf());
                }
            }
        }

        let mut changed_player_ids: Vec<String> = Vec::new();
        let n2 = self.player_state.len();
        let mut k: usize = 0;
        while k < n2
            invariant
                n2 == self@.players.len(),
                0 <= k <= n2,
                changed_player_ids@.len() == k,
                forall|q: int| 0 <= q < k ==> (#[trigger] changed_player_ids@[q])@
                    == self@.players[q].user_id@,
            decreases n2 - k,
        {
            changed_player_ids.push(self.player_state[k].user_id.clone());
            k = k + 1;
        }

        (changed_player_ids, changed_cell_indices)
    }

    /// Register a player: create a record at the world center on the
    /// first registration of an id, and answer with the player's position
    /// and a full cell snapshot.
    pub fn register_player(&mut self, user_id: String, now: u64) -> (r: RegisterResponse)
        requires
            old(self).wf(),
        ensures
            final(self).wf(),
            final(self)@.cells == old(self)@.cells,
            ({
                let w = old(self)@;
                match find_player(w.players, user_id@) {
                    Some(j) => final(self)@.players == w.players && r.player_coords
                        == w.players[j].coords,
                    None => final(self)@.players == w.players.push(
                        Player {
                            user_id,
                            coords: Coords { x: MAP_SIDE_HALF, y: MAP_SIDE_HALF },
                            direction: MapDirection::North,
                            state: PlayerStates::Idle,
                            last_moved: now,
                            last_input: Inputs {
                                north: false,
                                east: false,
                                south: false,
                                west: false,
                                interact: false,
                            },
                        },
                    ) && r.player_coords == (Coords { x: MAP_SIDE_HALF, y: MAP_SIDE_HALF }),
                }
            }),
            r.explored_cells@ == old(self)@.cells,
    {
        let found = self.find_player_index(&user_id);
        let coords: Coords = match found {
            Some(j) => {
                proof {
                    lemma_find_player_characterization(self@.players, user_id@);
                }
                self.player_state[j].coords
            },
            None => {
                proof {
                    lemma_find_player_characterization(self@.players, user_id@);
                }
                let p = Player::spawn(user_id, now);
                let c = p.coords;
                self.player_state.push(p);
                c
            },
        };
        let explored_cells = copy_cells(&self.cells);
        RegisterResponse { player_coords: coords, explored_cells }
    }
}

/// An element-for-element copy of the cell grid, as handed to a
/// registering player.
pub fn copy_cells(cells: &Vec<Cell>) -> (r: Vec<Cell>)
    ensures
        r@ == cells@,
{
    let mut out: Vec<Cell> = Vec::new();
    let n = cells.len();
    let mut i: usize = 0;
    while i < n
        invariant
            n == cells@.len(),
            0 <= i <= n,
            out@ == cells@.take(i as int),
        decreases n - i,
    {
        out.push(cells[i]);
        proof {
            assert(out@ =~= cells@.take(i + 1));
        }
        i = i + 1;
    }
    proof {
        assert(cells@.take(n as int) =~= cells@);
    }
    out
}

} // verus!
