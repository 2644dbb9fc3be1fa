use vstd::prelude::*;

use crate::game::{
    cell_at, cell_index, coords_of, dead_grid, emitted, flipped, in_arena, instance_list,
    lemma_coords_of_index, lemma_index_of_coords, lemma_live_among_bounds, lemma_reflect_in_arena,
    live_among, neighbour_count, next_generation, offset_x, offset_y, offset_z, reflect, Cell,
    CELL_COUNT,
};
use crate::tick::{run_frames, tick, TickState};

verus! {

/// Whatever the grid, a cell has between 0 and 26 live neighbours.
pub proof fn lemma_neighbour_count_bounds(g: Seq<Cell>, x: int, y: int, z: int)
    ensures
        0 <= neighbour_count(g, x, y, z) <= 26,
{
    lemma_live_among_bounds(g, x, y, z, 27);
}

/// In an all-dead grid no neighbour is alive.
proof fn lemma_dead_neighbours(x: int, y: int, z: int, k: int)
    requires
        in_arena(x),
        in_arena(y),
        in_arena(z),
        0 <= k <= 27,
    ensures
        live_among(dead_grid(), x, y, z, k) == 0,
    decreases k,
{
    if k > 0 {
        lemma_dead_neighbours(x, y, z, k - 1);
        let j = k - 1;
        let (nx, ny, nz) = (
            reflect(x + offset_x(j)),
            reflect(y + offset_y(j)),
            reflect(z + offset_z(j)),
        );
        lemma_reflect_in_arena(x, offset_x(j));
        lemma_reflect_in_arena(y, offset_y(j));
        lemma_reflect_in_arena(z, offset_z(j));
        lemma_index_of_coords(nx, ny, nz);
    }
}

/// Stepping an all-dead grid yields an all-dead grid: nothing is born from
/// nothing.
pub proof fn lemma_dead_grid_stays_dead()
    ensures
        next_generation(dead_grid()) == dead_grid(),
{
    assert forall|i: int| 0 <= i < CELL_COUNT implies #[trigger] next_generation(dead_grid())[i]
        == dead_grid()[i] by {
        lemma_coords_of_index(i);
        let (x, y, z) = coords_of(i);
        lemma_dead_neighbours(x, y, z, 27);
    }
    assert(next_generation(dead_grid()) =~= dead_grid());
}

/// A generation step depends on the current grid alone: two steps from equal
/// grids give equal grids.
pub proof fn lemma_step_deterministic(a: Seq<Cell>, b: Seq<Cell>)
    requires
        a == b,
    ensures
        next_generation(a) == next_generation(b),
{
}

/// Flipping the same cell twice restores the grid.
pub proof fn lemma_flip_self_inverse(g: Seq<Cell>, p: (int, int, int))
    requires
        g.len() == CELL_COUNT,
        in_arena(p.0),
        in_arena(p.1),
        in_arena(p.2),
    ensures
        flipped(flipped(g, p), p) == g,
{
    lemma_index_of_coords(p.0, p.1, p.2);
    assert(flipped(flipped(g, p), p) =~= g);
}

/// The instances among the first `n` positions are exactly the live cells
/// there other than the cursor's.
proof fn lemma_emitted_members(g: Seq<Cell>, c: (int, int, int), n: int)
    requires
        g.len() == CELL_COUNT,
        0 <= n <= CELL_COUNT,
    ensures
        forall|p: (int, int, int)|
            #[trigger] emitted(g, c, n).contains(p) <==> (in_arena(p.0) && in_arena(p.1) && in_arena(
                p.2,
            ) && cell_index(p.0, p.1, p.2) < n && cell_at(g, p.0, p.1, p.2) == Cell::Alive && p
                != c),
    decreases n,
{
    if n > 0 {
        lemma_emitted_members(g, c, n - 1);
        let q = coords_of(n - 1);
        lemma_coords_of_index(n - 1);
        let prev = emitted(g, c, n - 1);
        assert forall|p: (int, int, int)|
            #[trigger] emitted(g, c, n).contains(p) <==> (in_arena(p.0) && in_arena(p.1) && in_arena(
                p.2,
            ) && cell_index(p.0, p.1, p.2) < n && cell_at(g, p.0, p.1, p.2) == Cell::Alive && p
                != c) by {
            if in_arena(p.0) && in_arena(p.1) && in_arena(p.2) {
                lemma_index_of_coords(p.0, p.1, p.2);
            }
            if g[n - 1] == Cell::Alive && q != c {
                assert(emitted(g, c, n) == prev.push(q));
                if emitted(g, c, n).contains(p) {
                    let j = choose|j: int| 0 <= j < prev.len() + 1 && prev.push(q)[j] == p;
                    if j < prev.len() {
                        assert(prev.contains(p));
                    }
                }
                if prev.contains(p) {
                    let j = choose|j: int| 0 <= j < prev.len() && prev[j] == p;
                    assert(prev.push(q)[j] == p);
                }
                if p == q {
                    assert(prev.push(q)[prev.len() as int] == p);
                }
            }
        }
    }
}

/// The instance list holds exactly the live cells other than the one under
/// the cursor: the cursor's cell is left out even when it is alive.
pub proof fn lemma_instances_exclude_cursor(g: Seq<Cell>, c: (int, int, int))
    requires
        g.len() == CELL_COUNT,
    ensures
        forall|p: (int, int, int)|
            #[trigger] instance_list(g, c).contains(p) <==> (in_arena(p.0) && in_arena(p.1)
                && in_arena(p.2) && cell_at(g, p.0, p.1, p.2) == Cell::Alive && p != c),
        !instance_list(g, c).contains(c),
{
    lemma_emitted_members(g, c, CELL_COUNT as int);
    assert forall|p: (int, int, int)|
        #[trigger] instance_list(g, c).contains(p) <==> (in_arena(p.0) && in_arena(p.1) && in_arena(
            p.2,
        ) && cell_at(g, p.0, p.1, p.2) == Cell::Alive && p != c) by {
        if in_arena(p.0) && in_arena(p.1) && in_arena(p.2) {
            lemma_index_of_coords(p.0, p.1, p.2);
        }
    }
}

/// While paused with no step due, frames of any length leave the scheduler
/// as it was and fire no step.
pub proof fn lemma_paused_frames_never_advance(s: TickState, deltas: Seq<nat>)
    requires
        s.paused,
        s.progress < s.threshold,
    ensures
        run_frames(s, deltas) == (s, 0nat),
    decreases deltas.len(),
{
    if deltas.len() > 0 {
        lemma_paused_frames_never_advance(s, deltas.drop_first());
    }
}

/// While paused with a step due, the first frame fires that step and resets
/// the progress; no later frame fires another.
pub proof fn lemma_paused_due_step_fires_once(s: TickState, deltas: Seq<nat>)
    requires
        s.paused,
        s.progress >= s.threshold,
        s.threshold > 0,
        deltas.len() > 0,
    ensures
        run_frames(s, deltas) == (TickState { progress: 0, ..s }, 1nat),
{
    let reset = TickState { progress: 0, ..s };
    assert(tick(s, deltas[0]) == (reset, true));
    lemma_paused_frames_never_advance(reset, deltas.drop_first());
}

} // verus!
