use rand::rngs::ThreadRng;
use rand::Rng;
use vstd::prelude::*;

use crate::cursor::{rolled, Cursor};
use crate::tick::{tick, TickScheduler};

verus! {

/// rand's thread-local generator, carried through opaquely to the die roll.
#[verifier::external_type_specification]
#[verifier::external_body]
pub struct ExThreadRng(ThreadRng);

/// Relies on rand's `Rng::gen_range` on `ThreadRng`: the value it returns lies
/// in the inclusive range `1..=6`, which is not empty, so it does not panic.
#[verifier::external_body]
fn roll_die(rng: &mut ThreadRng) -> (r: u32)
    ensures
        1 <= r <= 6,
{
    rng.gen_range(1..=6)
}

/// Edge length of the cubic arena.
pub const ARENA_SIZE: usize = 128;

/// Number of cells in the arena.
pub const CELL_COUNT: usize = ARENA_SIZE * ARENA_SIZE * ARENA_SIZE;

/// State of one cell.
#[derive(Clone, Copy, Debug, PartialEq, Eq, Structural)]
pub enum Cell {
    Alive,
    Dead,
}

impl Cell {
    pub fn is_alive(&self) -> (r: bool)
        ensures
            r == (*self == Cell::Alive),
    {
        match *self {
            Cell::Alive => true,
            Cell::Dead => false,
        }
    }

    pub fn is_dead(&self) -> (r: bool)
        ensures
            r == (*self == Cell::Dead),
    {
        !self.is_alive()
    }
}

/// Edge length of the arena as a mathematical integer.
pub open spec fn arena() -> int {
    ARENA_SIZE as int
}

/// Whether `c` addresses a layer, row or column of the arena.
pub open spec fn in_arena(c: int) -> bool {
    0 <= c < arena()
}

/// Position of cell `(x, y, z)` in the flat storage: layers by `y`, rows by
/// `x`, columns by `z`.
pub open spec fn cell_index(x: int, y: int, z: int) -> int {
    (y * arena() + x) * arena() + z
}

/// The coordinates `(x, y, z)` stored at flat position `i`.
pub open spec fn coords_of(i: int) -> (int, int, int) {
    ((i / arena()) % arena(), i / (arena() * arena()), i % arena())
}

/// Flat positions and in-arena coordinates correspond one to one.
pub proof fn lemma_index_of_coords(x: int, y: int, z: int)
    requires
        in_arena(x),
        in_arena(y),
        in_arena(z),
    ensures
        0 <= cell_index(x, y, z) < CELL_COUNT,
        coords_of(cell_index(x, y, z)) == (x, y, z),
{
    let i = cell_index(x, y, z);
    assert(0 <= i < CELL_COUNT) by (nonlinear_arith)
        requires
            0 <= x < 128,
            0 <= y < 128,
            0 <= z < 128,
            i == (y * 128 + x) * 128 + z,
            CELL_COUNT == 2097152int,
    ;
    assert(i / 128 == y * 128 + x) by (nonlinear_arith)
        requires
            0 <= z < 128,
            i == (y * 128 + x) * 128 + z,
    ;
    assert(i % 128 == z) by (nonlinear_arith)
        requires
            0 <= z < 128,
            i == (y * 128 + x) * 128 + z,
    ;
    assert((y * 128 + x) % 128 == x) by (nonlinear_arith)
        requires
            0 <= x < 128,
            0 <= y,
    ;
    assert(i / 16384 == y) by (nonlinear_arith)
        requires
            0 <= x < 128,
            0 <= z < 128,
            0 <= y,
            i == (y * 128 + x) * 128 + z,
    ;
}

/// Every flat position holds in-arena coordinates, and maps back to itself.
pub proof fn lemma_coords_of_index(i: int)
    requires
        0 <= i < CELL_COUNT,
    ensures
        in_arena(coords_of(i).0),
        in_arena(coords_of(i).1),
        in_arena(coords_of(i).2),
        cell_index(coords_of(i).0, coords_of(i).1, coords_of(i).2) == i,
{
    let (x, y, z) = coords_of(i);
    assert(0 <= y < 128 && 0 <= x < 128 && 0 <= z < 128 && (y * 128 + x) * 128 + z == i)
        by (nonlinear_arith)
        requires
            0 <= i < 2097152,
            x == (i / 128) % 128,
            y == i / 16384,
            z == i % 128,
    {
        assert(i / 128 / 128 == i / 16384) by {
            vstd::arithmetic::div_mod::lemma_div_denominator(i, 128, 128);
        }
        vstd::arithmetic::div_mod::lemma_fundamental_div_mod(i, 128);
        vstd::arithmetic::div_mod::lemma_fundamental_div_mod(i / 128, 128);
    }
}

/// Reflect-at-edge normalisation of `v`, one step outside the arena at most:
/// just below the low edge maps to `(N - 1) + v`, just above the high edge
/// to `v - (N - 1)`.
pub open spec fn reflect(v: int) -> int {
    if v < 0 {
        (arena() - 1) + v
    } else if v > arena() - 1 {
        v - (arena() - 1)
    } else {
        v
    }
}

/// The 27 offsets of the 3x3x3 block are numbered `k = 9 * (dy + 1) + 3 * (dx + 1) + (dz + 1)`;
/// the centre is `k == 13`.
pub open spec fn offset_x(k: int) -> int {
    (k / 3) % 3 - 1
}

pub open spec fn offset_y(k: int) -> int {
    k / 9 - 1
}

pub open spec fn offset_z(k: int) -> int {
    k % 3 - 1
}

/// Whether the neighbour of `(x, y, z)` at offset number `k` is alive.
pub open spec fn neighbour_alive(g: Seq<Cell>, x: int, y: int, z: int, k: int) -> bool {
    k != 13 && cell_at(
        g,
        reflect(x + offset_x(k)),
        reflect(y + offset_y(k)),
        reflect(z + offset_z(k)),
    ) == Cell::Alive
}

/// Number of live neighbours among the offsets numbered below `k`.
pub open spec fn live_among(g: Seq<Cell>, x: int, y: int, z: int, k: int) -> int
    decreases k,
{
    if k <= 0 {
        0
    } else {
        live_among(g, x, y, z, k - 1) + if neighbour_alive(g, x, y, z, k - 1) {
            1int
        } else {
            0int
        }
    }
}

/// Number of live cells among the 26 neighbours of `(x, y, z)`.
pub open spec fn neighbour_count(g: Seq<Cell>, x: int, y: int, z: int) -> int {
    live_among(g, x, y, z, 27)
}

/// The generational rule: a live cell survives with 3 or 5 live neighbours,
/// a dead cell is born with exactly 5; every other cell ends up dead.
pub open spec fn rule(current: Cell, live_neighbours: int) -> Cell {
    match current {
        Cell::Alive => if live_neighbours == 3 || live_neighbours == 5 {
            Cell::Alive
        } else {
            Cell::Dead
        },
        Cell::Dead => if live_neighbours == 5 {
            Cell::Alive
        } else {
            Cell::Dead
        },
    }
}

/// The grid one generation after `g`: every cell follows the rule, applied
/// to its neighbours in `g`.
pub open spec fn next_generation(g: Seq<Cell>) -> Seq<Cell> {
    Seq::new(
        CELL_COUNT as nat,
        |i: int|
            rule(g[i], neighbour_count(g, coords_of(i).0, coords_of(i).1, coords_of(i).2)),
    )
}

/// Cell by cell, the next generation follows the rule.
pub proof fn lemma_next_generation_at(g: Seq<Cell>)
    ensures
        forall|x: int, y: int, z: int|
            in_arena(x) && in_arena(y) && in_arena(z) ==> #[trigger] cell_at(next_generation(g), x, y, z)
                == rule(cell_at(g, x, y, z), neighbour_count(g, x, y, z)),
{
    assert forall|x: int, y: int, z: int|
        in_arena(x) && in_arena(y) && in_arena(z) implies #[trigger] cell_at(next_generation(g), x, y, z)
            == rule(cell_at(g, x, y, z), neighbour_count(g, x, y, z)) by {
        lemma_index_of_coords(x, y, z);
    }
}

/// The live-neighbour count of the offsets below `k` is at most `k`, and the
/// centre never counts.
pub proof fn lemma_live_among_bounds(g: Seq<Cell>, x: int, y: int, z: int, k: int)
    requires
        0 <= k <= 27,
    ensures
        0 <= live_among(g, x, y, z, k) <= if k > 13 { k - 1 } else { k },
    decreases k,
{
    if k > 0 {
        lemma_live_among_bounds(g, x, y, z, k - 1);
    }
}

/// Reflected coordinates of a neighbour stay in the arena.
pub proof fn lemma_reflect_in_arena(c: int, d: int)
    requires
        in_arena(c),
        -1 <= d <= 1,
    ensures
        in_arena(reflect(c + d)),
{
}

/// The opposite state of a cell.
pub open spec fn opposite(c: Cell) -> Cell {
    match c {
        Cell::Alive => Cell::Dead,
        Cell::Dead => Cell::Alive,
    }
}

/// Grid `g` with the cell at `p` set to its opposite state.
pub open spec fn flipped(g: Seq<Cell>, p: (int, int, int)) -> Seq<Cell> {
    g.update(cell_index(p.0, p.1, p.2), opposite(cell_at(g, p.0, p.1, p.2)))
}

/// The coordinates of the live cells among the first `n` flat positions of
/// `g`, in storage order, leaving out the cell at `cursor`.
pub open spec fn emitted(g: Seq<Cell>, cursor: (int, int, int), n: int) -> Seq<(int, int, int)>
    decreases n,
{
    if n <= 0 {
        Seq::empty()
    } else if g[n - 1] == Cell::Alive && coords_of(n - 1) != cursor {
        emitted(g, cursor, n - 1).push(coords_of(n - 1))
    } else {
        emitted(g, cursor, n - 1)
    }
}

/// The coordinates of every live cell of `g` but the one at `cursor`, in
/// storage order: the instances to draw for one frame.
pub open spec fn instance_list(g: Seq<Cell>, cursor: (int, int, int)) -> Seq<(int, int, int)> {
    emitted(g, cursor, CELL_COUNT as int)
}

/// A triple of machine coordinates as mathematical integers.
pub open spec fn as_ints(p: (usize, usize, usize)) -> (int, int, int) {
    (p.0 as int, p.1 as int, p.2 as int)
}

/// The dense grid of cells, stored flat in layer-row-column order.
pub struct GameOfLife {
    cells: Vec<Cell>,
}

impl View for GameOfLife {
    type V = Seq<Cell>;

    closed spec fn view(&self) -> Seq<Cell> {
        self.cells@
    }
}

/// The cell of grid `g` at `(x, y, z)`.
pub open spec fn cell_at(g: Seq<Cell>, x: int, y: int, z: int) -> Cell {
    g[cell_index(x, y, z)]
}

/// A grid with every cell dead.
pub open spec fn dead_grid() -> Seq<Cell> {
    Seq::new(CELL_COUNT as nat, |i: int| Cell::Dead)
}

impl GameOfLife {
    /// A grid holds exactly one cell per coordinate triple of the arena.
    pub open spec fn wf(&self) -> bool {
        self@.len() == CELL_COUNT
    }

    pub fn new() -> (r: GameOfLife)
        ensures
            r@ == dead_grid(),
    {
        let cells = vec![Cell::Dead; CELL_COUNT];
        let r = GameOfLife { cells };
        assert(r@ =~= dead_grid());
        r
    }

    /// Reflect-at-edge normalisation of a coordinate at most one step
    /// outside the arena.
    pub fn clamp_coords(x: i32) -> (r: usize)
        requires
            -1 <= x <= ARENA_SIZE,
        ensures
            r as int == reflect(x as int),
            r < ARENA_SIZE,
    {
        let arena_max_index: i32 = (ARENA_SIZE - 1) as i32;
        if x < 0 {
            (arena_max_index + x) as usize
        } else if x > arena_max_index {
            (x - arena_max_index) as usize
        } else {
            x as usize
        }
    }

    /// Number of live cells among the 26 neighbours of `(cell_x, cell_y, cell_z)`.
    pub fn living_neighbours(&self, cell_x: usize, cell_y: usize, cell_z: usize) -> (r: u32)
        requires
            self.wf(),
            cell_x < ARENA_SIZE,
            cell_y < ARENA_SIZE,
            cell_z < ARENA_SIZE,
        ensures
            r as int == neighbour_count(self@, cell_x as int, cell_y as int, cell_z as int),
            r <= 26,
    {
        let mut neighbours_count: u32 = 0;
        let mut k: i32 = 0;
        while k < 27
            invariant
                self.wf(),
                cell_x < ARENA_SIZE,
                cell_y < ARENA_SIZE,
                cell_z < ARENA_SIZE,
                0 <= k <= 27,
                neighbours_count as int == live_among(
                    self@,
                    cell_x as int,
                    cell_y as int,
                    cell_z as int,
                    k as int,
                ),
            decreases 27 - k,
        {
            proof {
                lemma_live_among_bounds(self@, cell_x as int, cell_y as int, cell_z as int, k as int);
            }
            if k != 13 {
                let x_offset: i32 = (k / 3) % 3 - 1;
                let y_offset: i32 = k / 9 - 1;
                let z_offset: i32 = k % 3 - 1;
                let neighbour_x = Self::clamp_coords(cell_x as i32 + x_offset);
                let neighbour_y = Self::clamp_coords(cell_y as i32 + y_offset);
                let neighbour_z = Self::clamp_coords(cell_z as i32 + z_offset);
                if self.cell(neighbour_x, neighbour_y, neighbour_z).is_alive() {
                    neighbours_count += 1;
                }
            }
            k += 1;
        }
        proof {
            lemma_live_among_bounds(self@, cell_x as int, cell_y as int, cell_z as int, 27);
        }
        neighbours_count
    }

    /// The state of a cell in the next generation, given its state and its
    /// number of live neighbours.
    pub fn next_cell(current: Cell, live_neighbours: u32) -> (r: Cell)
        ensures
            r == rule(current, live_neighbours as int),
    {
        if current.is_alive() {
            if live_neighbours == 3 || live_neighbours == 5 {
                Cell::Alive
            } else {
                Cell::Dead
            }
        } else if live_neighbours == 5 {
            Cell::Alive
        } else {
            Cell::Dead
        }
    }

    /// Advances the grid by one generation. Every new cell is computed from
    /// the old grid, never from cells already updated.
    pub fn update_game(&mut self)
        requires
            old(self).wf(),
        ensures
            final(self)@ == next_generation(old(self)@),
            forall|x: int, y: int, z: int|
                in_arena(x) && in_arena(y) && in_arena(z) ==> #[trigger] cell_at(final(self)@, x, y, z)
                    == rule(cell_at(old(self)@, x, y, z), neighbour_count(old(self)@, x, y, z)),
    {
        let mut new_cells: Vec<Cell> = Vec::with_capacity(CELL_COUNT);
        let mut i: usize = 0;
        while i < CELL_COUNT
            invariant
                self.wf(),
                i <= CELL_COUNT,
                new_cells@.len() == i,
                forall|j: int| 0 <= j < i ==> new_cells@[j] == #[trigger] next_generation(self@)[j],
            decreases CELL_COUNT - i,
        {
            let y = i / (ARENA_SIZE * ARENA_SIZE);
            let x = (i / ARENA_SIZE) % ARENA_SIZE;
            let z = i % ARENA_SIZE;
            proof {
                lemma_coords_of_index(i as int);
            }
            let live_neighbours = self.living_neighbours(x, y, z);
            let new_cell = Self::next_cell(self.cells[i], live_neighbours);
            new_cells.push(new_cell);
            i += 1;
        }
        assert(new_cells@ =~= next_generation(self@));
        proof {
            lemma_next_generation_at(self@);
        }
        self.cells = new_cells;
    }

    /// Sets the cell under the cursor to its opposite state, bypassing the rule.
    pub fn flip_at_cursor(&mut self, cursor: &Cursor)
        requires
            old(self).wf(),
        ensures
            final(self)@ == flipped(old(self)@, cursor@),
    {
        let (x, y, z) = (cursor.x(), cursor.y(), cursor.z());
        let current = self.cell(x, y, z);
        let new_cell = if current.is_alive() {
            Cell::Dead
        } else {
            Cell::Alive
        };
        self.set_cell(x, y, z, new_cell);
    }

    /// The grid coordinates of every live cell but the one under the cursor,
    /// in storage order. The cursor's own cell is drawn on its own.
    pub fn instances(&self, cursor: &Cursor) -> (r: Vec<(usize, usize, usize)>)
        requires
            self.wf(),
        ensures
            r@.map_values(|p: (usize, usize, usize)| as_ints(p)) == instance_list(self@, cursor@),
    {
        let (cursor_x, cursor_y, cursor_z) = (cursor.x(), cursor.y(), cursor.z());
        let mut list: Vec<(usize, usize, usize)> = Vec::new();
        let mut i: usize = 0;
        while i < CELL_COUNT
            invariant
                self.wf(),
                i <= CELL_COUNT,
                cursor@ == (cursor_x as int, cursor_y as int, cursor_z as int),
                list@.map_values(|p: (usize, usize, usize)| as_ints(p)) == emitted(
                    self@,
                    cursor@,
                    i as int,
                ),
            decreases CELL_COUNT - i,
        {
            let y = i / (ARENA_SIZE * ARENA_SIZE);
            let x = (i / ARENA_SIZE) % ARENA_SIZE;
            let z = i % ARENA_SIZE;
            let ghost before = list@;
            if self.cells[i].is_alive() && (x != cursor_x || y != cursor_y || z != cursor_z) {
                list.push((x, y, z));
                assert(list@.map_values(|p: (usize, usize, usize)| as_ints(p)) =~= before.map_values(
                    |p: (usize, usize, usize)| as_ints(p),
                ).push(coords_of(i as int)));
            }
            i += 1;
        }
        list
    }

    /// Moves the cursor one step in a direction drawn at random, then flips
    /// the cell under it.
    pub fn random_walk(&mut self, cursor: &mut Cursor, rng: &mut ThreadRng)
        requires
            old(self).wf(),
        ensures
            exists|roll: int|
                1 <= roll <= 6 && final(cursor)@ == rolled(old(cursor)@, roll),
            final(self)@ == flipped(old(self)@, final(cursor)@),
    {
        let roll = roll_die(rng);
        cursor.move_by_roll(roll);
        self.flip_at_cursor(cursor);
    }

    /// One frame of the simulation. The scheduler decides whether a
    /// generation step fires; if one does, the grid advances. If none does
    /// and `wander` is set, the cursor takes a random step and flips the
    /// cell it lands on. Returns whether a step fired.
    pub fn advance(
        &mut self,
        scheduler: &mut TickScheduler,
        cursor: &mut Cursor,
        rng: &mut ThreadRng,
        delta: u64,
        wander: bool,
    ) -> (r: bool)
        requires
            old(self).wf(),
        ensures
            (final(scheduler)@, r) == tick(old(scheduler)@, delta as nat),
            r ==> final(self)@ == next_generation(old(self)@) && final(cursor)@ == old(cursor)@,
            !r && !wander ==> final(self)@ == old(self)@ && final(cursor)@ == old(cursor)@,
            !r && wander ==> (exists|roll: int|
                1 <= roll <= 6 && final(cursor)@ == rolled(old(cursor)@, roll))
                && final(self)@ == flipped(old(self)@, final(cursor)@),
    {
        let fired = scheduler.frame(delta);
        if fired {
            self.update_game();
        } else if wander {
            self.random_walk(cursor, rng);
        }
        fired
    }

    pub fn cells(&self) -> (r: &Vec<Cell>)
        ensures
            r@ == self@,
    {
        &self.cells
    }

    pub fn cells_mut(&mut self) -> (r: &mut Vec<Cell>)
        ensures
            r@ == old(self)@,
            final(self)@ == final(r)@,
    {
        &mut self.cells
    }

    pub fn cell(&self, x: usize, y: usize, z: usize) -> (r: Cell)
        requires
            self.wf(),
            x < ARENA_SIZE,
            y < ARENA_SIZE,
            z < ARENA_SIZE,
        ensures
            r == cell_at(self@, x as int, y as int, z as int),
    {
        proof {
            lemma_index_of_coords(x as int, y as int, z as int);
        }
        self.cells[(y * ARENA_SIZE + x) * ARENA_SIZE + z]
    }

    pub fn set_cell(&mut self, x: usize, y: usize, z: usize, cell: Cell)
        requires
            old(self).wf(),
            x < ARENA_SIZE,
            y < ARENA_SIZE,
            z < ARENA_SIZE,
        ensures
            final(self)@ == old(self)@.update(cell_index(x as int, y as int, z as int), cell),
    {
        proof {
            lemma_index_of_coords(x as int, y as int, z as int);
        }
        self.cells.set((y * ARENA_SIZE + x) * ARENA_SIZE + z, cell);
    }
}

} // verus!
