//! One iteration of the game loop over the world: the cell-lifecycle
//! phase, the buffered input messages, the per-player evaluation, and the
//! deduplicated diff sets that are fanned out to clients.

use vstd::prelude::*;
use crate::grid::MAP_SIZE;
use crate::cell::{Cell, CellType, cell_tick, toggled_cell, interactable, PLANT_MATURE_TICKS};
use crate::world::{
    World, WorldView, PlayerInput, apply_message, apply_messages, collected_changes, update_all,
    cells_phase, lemma_apply_messages_snoc,
};
use crate::player::apply_inputs_spec;

verus! {

/// The whole effect of one tick on the world: every cell steps once, the
/// buffered messages are applied in drain order, and every player is
/// evaluated against its remembered input vector.
pub open spec fn tick_spec(w: WorldView, msgs: Seq<PlayerInput>, now: u64) -> WorldView {
    update_all(apply_messages(cells_phase(w), msgs, now), now)
}

/// Whether a tick over world `w` with messages `msgs` puts cell `k` into
/// the cell diff: its type matured in the lifecycle phase, or an interact
/// in the message phase changed it.
pub open spec fn in_cell_diff(w: WorldView, msgs: Seq<PlayerInput>, now: u64, k: int) -> bool {
    cell_tick(w.cells[k]).cell_type != w.cells[k].cell_type || collected_changes(
        cells_phase(w),
        msgs,
        now,
    ).contains(k)
}

/// What one tick asks the network side to broadcast: the players touched
/// this tick and the cells whose type a phase changed, without
/// duplicates.
pub struct TickDiff {
    pub changed_player_ids: Vec<String>,
    pub changed_cell_indices: Vec<usize>,
}

/// Sort a list of cell indices and drop duplicates, by marking which
/// indices occur and sweeping the index range upwards.
pub fn sort_dedup_indices(v: &Vec<usize>) -> (r: Vec<usize>)
    requires
        forall|i: int| 0 <= i < v@.len() ==> (#[trigger] v@[i]) < MAP_SIZE,
    ensures
        forall|i1: int, i2: int| 0 <= i1 < i2 < r@.len() ==> r@[i1] < r@[i2],
        forall|x: usize| r@.contains(x) <==> v@.contains(x),
        forall|i: int| 0 <= i < r@.len() ==> (#[trigger] r@[i]) < MAP_SIZE,
{
    let mut seen: Vec<bool> = Vec::new();
    let mut k: usize = 0;
    while k < MAP_SIZE
        invariant
            seen@.len() == k,
            0 <= k <= MAP_SIZE,
            forall|i: int| 0 <= i < k ==> (#[trigger] seen@[i]) == false,
        decreases MAP_SIZE - k,
    {
        seen.push(false);
        k = k + 1;
    }

    let n = v.len();
    let mut t: usize = 0;
    while t < n
        invariant
            seen@.len() == MAP_SIZE,
            n == v@.len(),
            0 <= t <= n,
            forall|i: int| 0 <= i < v@.len() ==> (#[trigger] v@[i]) < MAP_SIZE,
            forall|x: int|
                0 <= x < MAP_SIZE ==> ((#[trigger] seen@[x]) <==> v@.take(t as int).contains(
                    x as usize,
                )),
        decreases n - t,
    {
        let ghost s0 = seen@;
        let ix = v[t];
        seen.set(ix, true);
        proof {
            assert forall|x: int|
                0 <= x < MAP_SIZE implies ((#[trigger] seen@[x]) <==> v@.take(t + 1).contains(
                    x as usize,
                )) by {
                assert(v@.take(t + 1) =~= v@.take(t as int).push(v@[t as int]));
                if seen@[x] {
                    if x == ix {
                        assert(v@.take(t + 1)[t as int] == x as usize);
                    } else {
                        let w = choose|w: int|
                            0 <= w < v@.take(t as int).len() && v@.take(t as int)[w] == x as usize;
                        assert(v@.take(t + 1)[w] == x as usize);
                    }
                }
                if v@.take(t + 1).contains(x as usize) {
                    let s1 = v@.take(t + 1);
                    let w = choose|w: int| 0 <= w < s1.len() && (#[trigger] s1[w]) == x as usize;
                    if w < t {
                        assert(v@.take(t as int)[w] == x as usize);
                        assert(s0[x]);
                    }
                }
            }
        }
        t = t + 1;
    }

    let mut r: Vec<usize> = Vec::new();
    let mut x: usize = 0;
    while x < MAP_SIZE
        invariant
            seen@.len() == MAP_SIZE,
            n == v@.len(),
            0 <= x <= MAP_SIZE,
            forall|y: int| 0 <= y < MAP_SIZE ==> ((#[trigger] seen@[y]) <==> v@.take(n as int).contains(y as usize)),
            forall|i1: int, i2: int| 0 <= i1 < i2 < r@.len() ==> r@[i1] < r@[i2],
            forall|i: int| 0 <= i < r@.len() ==> (#[trigger] r@[i]) < x,
            forall|u: usize| r@.contains(u) <==> (u < x && seen@[u as int]),
        decreases MAP_SIZE - x,
    {
        let ghost r0 = r@;
        if seen[x] {
            r.push(x);
        }
        proof {
            assert forall|u: usize| r@.contains(u) <==> (u < x + 1 && seen@[u as int]) by {
                if r0.contains(u) {
                    let w = choose|w: int| 0 <= w < r0.len() && r0[w] == u;
                    assert(r@[w] == u);
                }
                if u == x && seen@[x as int] {
                    assert(r@[r0.len() as int] == u);
                }
                if r@.contains(u) {
                    let w = choose|w: int| 0 <= w < r@.len() && r@[w] == u;
                    if w < r0.len() {
                        assert(r0[w] == u);
                    }
                }
            }
        }
        x = x + 1;
    }
    proof {
        assert(v@.take(n as int) =~= v@);
        assert forall|u: usize| r@.contains(u) <==> v@.contains(u) by {
            if v@.contains(u) {
                let w = choose|w: int| 0 <= w < v@.len() && v@[w] == u;
                assert(v@[w] < MAP_SIZE);
            }
        }
    }
    r
}

/// Run one tick: advance every cell, apply the drained input messages,
/// evaluate every player against its remembered inputs, and report the
/// diff sets. The cell diff holds, in increasing order and exactly once,
/// every index whose cell type either matured or was interacted with this
/// tick; the player diff holds every player's id.
pub fn game_tick(world: &mut World, inputs: Vec<PlayerInput>, frame_time: u64) -> (diff: TickDiff)
    requires
        old(world).wf(),
    ensures
        final(world).wf(),
        final(world)@ == tick_spec(old(world)@, inputs@, frame_time),
        diff.changed_player_ids@.len() == final(world)@.players.len(),
        forall|j: int|
            0 <= j < diff.changed_player_ids@.len() ==> (#[trigger] diff.changed_player_ids@[j])@
                == final(world)@.players[j].user_id@,
        forall|i1: int, i2: int|
            0 <= i1 < i2 < diff.changed_cell_indices@.len() ==> diff.changed_cell_indices@[i1]
                < diff.changed_cell_indices@[i2],
        forall|k: int|
            0 <= k < MAP_SIZE ==> (diff.changed_cell_indices@.contains(k as usize)
                <==> in_cell_diff(old(world)@, inputs@, frame_time, k)),
{
    let ghost orig = world@;
    let mut all_indices = world.update_cells();
    let ghost a_list = all_indices@;
    let (changed_player_ids, mut b_indices) = world.update_player_state(inputs, frame_time);
    let ghost b_list = b_indices@;
    all_indices.append(&mut b_indices);
    proof {
        assert forall|i: int|
            0 <= i < all_indices@.len() implies (#[trigger] all_indices@[i]) < MAP_SIZE by {
            if i < a_list.len() {
                assert(all_indices@[i] == a_list[i]);
            } else {
                assert(all_indices@[i] == b_list[i - a_list.len()]);
            }
        }
    }
    let changed_cell_indices = sort_dedup_indices(&all_indices);
    proof {
        let coll = collected_changes(cells_phase(orig), inputs@, frame_time);
        assert forall|k: int|
            0 <= k < MAP_SIZE implies (changed_cell_indices@.contains(k as usize)
                <==> in_cell_diff(orig, inputs@, frame_time, k)) by {
            // membership in the concatenation splits into the two phases
            assert(all_indices@.contains(k as usize) <==> (a_list.contains(k as usize)
                || b_list.contains(k as usize))) by {
                if a_list.contains(k as usize) {
                    let w = choose|w: int| 0 <= w < a_list.len() && a_list[w] == k as usize;
                    assert(all_indices@[w] == k as usize);
                }
                if b_list.contains(k as usize) {
                    let w = choose|w: int| 0 <= w < b_list.len() && b_list[w] == k as usize;
                    assert(all_indices@[a_list.len() + w] == k as usize);
                }
                if all_indices@.contains(k as usize) {
                    let w = choose|w: int|
                        0 <= w < all_indices@.len() && all_indices@[w] == k as usize;
                    if w < a_list.len() {
                        assert(a_list[w] == k as usize);
                    } else {
                        assert(b_list[w - a_list.len()] == k as usize);
                    }
                }
            }
            // the interact list matches the spec-level collection
            assert(b_list.contains(k as usize) <==> coll.contains(k)) by {
                assert(b_list.map_values(|u: usize| u as int) == coll);
                if b_list.contains(k as usize) {
                    let w = choose|w: int| 0 <= w < b_list.len() && b_list[w] == k as usize;
                    assert(coll[w] == k);
                }
                if coll.contains(k) {
                    let w = choose|w: int| 0 <= w < coll.len() && coll[w] == k;
                    assert(b_list[w] == k as usize);
                }
            }
            assert(a_list.contains(k as usize) <==> cell_tick(orig.cells[k]).cell_type
                != orig.cells[k].cell_type);
            assert(changed_cell_indices@.contains(k as usize) <==> all_indices@.contains(
                k as usize,
            ));
        }
    }
    TickDiff { changed_player_ids, changed_cell_indices }
}

/// The cell lifecycle phase preserves well-formedness.
pub proof fn lemma_cells_phase_wf(w: WorldView)
    requires
        w.wf(),
    ensures
        cells_phase(w).wf(),
{
    assert forall|k: int|
        0 <= k < MAP_SIZE implies (#[trigger] cells_phase(w).cells[k]).wf()
        && cells_phase(w).cells[k].index == k by {
        assert(w.cells[k].wf());
    }
}

/// The effect of one message on the cells alone: at most one cell
/// changes, and only by an interact toggle.
pub proof fn lemma_apply_message_cells(w: WorldView, m: PlayerInput, now: u64)
    requires
        w.wf(),
    ensures
        ({
            let (w2, change) = apply_message(w, m, now);
            &&& w2.wf()
            &&& w2.cells.len() == w.cells.len()
            &&& match change {
                Some(ix) => 0 <= ix < MAP_SIZE && interactable(w.cells[ix].cell_type)
                    && w2.cells == w.cells.update(ix, toggled_cell(w.cells[ix])),
                None => w2.cells == w.cells,
            }
        }),
{
    let (w2, change) = apply_message(w, m, now);
    match crate::world::find_player(w.players, m.user_id@) {
        Some(j) => {
            crate::world::lemma_find_player_characterization(w.players, m.user_id@);
            let p = w.players[j];
            let (p2, cells2, c) = apply_inputs_spec(p, w.cells, m.input, now);
            assert(w2.wf()) by {
                assert forall|k: int|
                    0 <= k < MAP_SIZE implies (#[trigger] w2.cells[k]).wf() && w2.cells[k].index
                    == k by {
                    assert(w.cells[k].wf() && w.cells[k].index == k);
                }
                assert forall|q: int|
                    0 <= q < w2.players.len() implies (#[trigger] w2.players[q]).wf() by {
                    assert(w.players[q].wf());
                }
                assert forall|j1: int, j2: int|
                    0 <= j1 < j2 < w2.players.len() implies w2.players[j1].user_id@
                    != w2.players[j2].user_id@ by {
                    assert(p2.user_id == p.user_id);
                }
            }
        },
        None => {},
    }
}

/// The effect of a whole message sequence on the cells: cells outside the
/// collected indices are untouched; a collected cell keeps its place and
/// walls but holds a freshly toggled type — never the type it entered the
/// phase with.
pub proof fn lemma_collected_changes_cells(w: WorldView, msgs: Seq<PlayerInput>, now: u64)
    requires
        w.wf(),
    ensures
        ({
            let w2 = apply_messages(w, msgs, now);
            let coll = collected_changes(w, msgs, now);
            &&& w2.wf()
            &&& w2.cells.len() == w.cells.len()
            &&& forall|k: int|
                0 <= k < MAP_SIZE && !coll.contains(k) ==> w2.cells[k] == w.cells[k]
            &&& forall|k: int|
                #[trigger] coll.contains(k) ==> 0 <= k < MAP_SIZE && w.cells[k].cell_type
                    != CellType::Plant && w2.cells[k].cell_type != w.cells[k].cell_type
                    && w2.cells[k].lifetime == 0 && (w2.cells[k].cell_type == CellType::Plant
                    || w2.cells[k].cell_type == CellType::Soil)
            &&& forall|k: int|
                0 <= k < MAP_SIZE ==> (#[trigger] w2.cells[k]).index == w.cells[k].index
                    && w2.cells[k].edges == w.cells[k].edges
        }),
    decreases msgs.len(),
{
    let w2 = apply_messages(w, msgs, now);
    let coll = collected_changes(w, msgs, now);
    if msgs.len() == 0 {
        assert(coll.len() == 0);
        assert(!coll.contains(0));
        assert forall|k: int| !(#[trigger] coll.contains(k)) by {}
    } else {
        lemma_apply_message_cells(w, msgs[0], now);
        let (w1, change) = apply_message(w, msgs[0], now);
        lemma_collected_changes_cells(w1, msgs.drop_first(), now);
        let collr = collected_changes(w1, msgs.drop_first(), now);
        match change {
            Some(ix0) => {
                assert(coll == seq![ix0] + collr);
                assert forall|k: int| #[trigger] coll.contains(k) implies (k == ix0
                    || collr.contains(k)) by {
                    let t = choose|t: int| 0 <= t < coll.len() && coll[t] == k;
                    if t >= 1 {
                        assert(collr[t - 1] == k);
                    }
                }
                assert forall|k: int| k == ix0 || collr.contains(k) implies #[trigger] coll.contains(
                    k,
                ) by {
                    if collr.contains(k) {
                        let t = choose|t: int| 0 <= t < collr.len() && collr[t] == k;
                        assert(coll[t + 1] == k);
                    } else {
                        assert(coll[0] == k);
                    }
                }
                assert forall|k: int|
                    0 <= k < MAP_SIZE && !coll.contains(k) implies w2.cells[k] == w.cells[k] by {
                    assert(!collr.contains(k) && k != ix0);
                    assert(w1.cells[k] == w.cells[k]);
                }
                assert forall|k: int| #[trigger] coll.contains(k) implies 0 <= k < MAP_SIZE
                    && w.cells[k].cell_type != CellType::Plant && w2.cells[k].cell_type
                    != w.cells[k].cell_type && w2.cells[k].lifetime == 0 && (w2.cells[k].cell_type
                    == CellType::Plant || w2.cells[k].cell_type == CellType::Soil) by {
                    if collr.contains(k) {
                        if k == ix0 {
                            assert(w1.cells[k] == toggled_cell(w.cells[k]));
                        } else {
                            assert(w1.cells[k] == w.cells[k]);
                        }
                    } else {
                        assert(k == ix0);
                        assert(w2.cells[k] == w1.cells[k]);
                        assert(w1.cells[k] == toggled_cell(w.cells[k]));
                    }
                }
            },
            None => {
                assert(coll == collr);
                assert(w1.cells == w.cells);
            },
        }
    }
}

/// Cell-diff soundness: every index a tick's cell diff names holds a cell
/// whose value genuinely differs from the value it had when the tick
/// began. (A Plant's quiet aging is not reported; the diff only follows
/// type changes, so a freshly matured-and-replanted cell is told apart by
/// its reset lifetime.)
pub proof fn lemma_cell_diff_sound(w: WorldView, msgs: Seq<PlayerInput>, now: u64, k: int)
    requires
        w.wf(),
        0 <= k < MAP_SIZE,
        in_cell_diff(w, msgs, now, k),
    ensures
        tick_spec(w, msgs, now).cells[k] != w.cells[k],
{
    let wa = cells_phase(w);
    lemma_cells_phase_wf(w);
    lemma_collected_changes_cells(wa, msgs, now);
    let wb = apply_messages(wa, msgs, now);
    let coll = collected_changes(wa, msgs, now);
    assert(tick_spec(w, msgs, now).cells == wb.cells);
    assert(w.cells[k].wf());
    if coll.contains(k) {
        if cell_tick(w.cells[k]).cell_type != w.cells[k].cell_type {
            // matured this tick, then toggled onwards: either the type or
            // the reset lifetime betrays the change
            assert(w.cells[k].cell_type == CellType::Plant);
            assert(w.cells[k].lifetime + 1 >= PLANT_MATURE_TICKS);
        } else {
            assert(wa.cells[k].cell_type == w.cells[k].cell_type);
        }
    } else {
        assert(wb.cells[k] == wa.cells[k]);
    }
}

/// Cell-diff completeness: a cell whose type at the end of a tick differs
/// from its type at the start is always in the diff.
pub proof fn lemma_cell_diff_complete(w: WorldView, msgs: Seq<PlayerInput>, now: u64, k: int)
    requires
        w.wf(),
        0 <= k < MAP_SIZE,
        tick_spec(w, msgs, now).cells[k].cell_type != w.cells[k].cell_type,
    ensures
        in_cell_diff(w, msgs, now, k),
{
    let wa = cells_phase(w);
    lemma_cells_phase_wf(w);
    lemma_collected_changes_cells(wa, msgs, now);
    let coll = collected_changes(wa, msgs, now);
    if !coll.contains(k) && cell_tick(w.cells[k]).cell_type == w.cells[k].cell_type {
        assert(apply_messages(wa, msgs, now).cells[k] == wa.cells[k]);
        assert(false);
    }
}

/// A tick never moves a cell or changes its walls: positions and edges
/// are fixed at generation time.
pub proof fn lemma_tick_preserves_edges(w: WorldView, msgs: Seq<PlayerInput>, now: u64, k: int)
    requires
        w.wf(),
        0 <= k < MAP_SIZE,
    ensures
        tick_spec(w, msgs, now).cells[k].edges == w.cells[k].edges,
        tick_spec(w, msgs, now).cells[k].index == w.cells[k].index,
{
    let wa = cells_phase(w);
    lemma_cells_phase_wf(w);
    lemma_collected_changes_cells(wa, msgs, now);
}

} // verus!
