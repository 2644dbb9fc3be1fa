use vstd::prelude::*;

use crate::game::{arena, ARENA_SIZE};

verus! {

/// Moves coordinate `c` by `d`, stopping at the arena's edges.
pub open spec fn moved(c: int, d: int) -> int {
    if c + d < 0 {
        0
    } else if c + d > arena() - 1 {
        arena() - 1
    } else {
        c + d
    }
}

/// The cursor position after a move chosen by a die roll: 1 and 2 move along
/// `x` by -1 and +1, 3 and 4 along `z` by +1 and -1, 5 and 6 along `y` by +1
/// and -1; any other roll leaves it in place.
pub open spec fn rolled(p: (int, int, int), roll: int) -> (int, int, int) {
    if roll == 1 {
        (moved(p.0, -1), p.1, p.2)
    } else if roll == 2 {
        (moved(p.0, 1), p.1, p.2)
    } else if roll == 3 {
        (p.0, p.1, moved(p.2, 1))
    } else if roll == 4 {
        (p.0, p.1, moved(p.2, -1))
    } else if roll == 5 {
        (p.0, moved(p.1, 1), p.2)
    } else if roll == 6 {
        (p.0, moved(p.1, -1), p.2)
    } else {
        p
    }
}

/// A single addressable cell of the arena. Moves stop at the arena's edges,
/// so the cursor always addresses a cell.
pub struct Cursor {
    x: usize,
    y: usize,
    z: usize,
}

impl View for Cursor {
    type V = (int, int, int);

    closed spec fn view(&self) -> (int, int, int) {
        (self.x as int, self.y as int, self.z as int)
    }
}

/// Moves `c` by `d`, stopping at the arena's edges.
fn step_coord(c: usize, d: i32) -> (r: usize)
    requires
        c < ARENA_SIZE,
    ensures
        r as int == moved(c as int, d as int),
        r < ARENA_SIZE,
{
    let v: i64 = c as i64 + d as i64;
    if v < 0 {
        0
    } else if v > (ARENA_SIZE - 1) as i64 {
        ARENA_SIZE - 1
    } else {
        v as usize
    }
}

impl Cursor {
    #[verifier::type_invariant]
    spec fn in_bounds(self) -> bool {
        self.x < ARENA_SIZE && self.y < ARENA_SIZE && self.z < ARENA_SIZE
    }

    /// A cursor at the centre of the arena.
    pub fn new() -> (r: Cursor)
        ensures
            r@ == (arena() / 2, arena() / 2, arena() / 2),
    {
        Cursor { x: ARENA_SIZE / 2, y: ARENA_SIZE / 2, z: ARENA_SIZE / 2 }
    }

    pub fn x(&self) -> (r: usize)
        ensures
            r as int == self@.0,
            r < ARENA_SIZE,
    {
        proof {
            use_type_invariant(self);
        }
        self.x
    }

    pub fn y(&self) -> (r: usize)
        ensures
            r as int == self@.1,
            r < ARENA_SIZE,
    {
        proof {
            use_type_invariant(self);
        }
        self.y
    }

    pub fn z(&self) -> (r: usize)
        ensures
            r as int == self@.2,
            r < ARENA_SIZE,
    {
        proof {
            use_type_invariant(self);
        }
        self.z
    }

    pub fn move_x(&mut self, dx: i32)
        ensures
            final(self)@ == (moved(old(self)@.0, dx as int), old(self)@.1, old(self)@.2),
    {
        proof {
            use_type_invariant(&*self);
        }
        self.x = step_coord(self.x, dx);
    }

    pub fn move_y(&mut self, dy: i32)
        ensures
            final(self)@ == (old(self)@.0, moved(old(self)@.1, dy as int), old(self)@.2),
    {
        proof {
            use_type_invariant(&*self);
        }
        self.y = step_coord(self.y, dy);
    }

    pub fn move_z(&mut self, dz: i32)
        ensures
            final(self)@ == (old(self)@.0, old(self)@.1, moved(old(self)@.2, dz as int)),
    {
        proof {
            use_type_invariant(&*self);
        }
        self.z = step_coord(self.z, dz);
    }

    /// Moves one step in the direction that a die roll in `1..=6` selects.
    pub fn move_by_roll(&mut self, roll: u32)
        ensures
            final(self)@ == rolled(old(self)@, roll as int),
    {
        match roll {
            1 => self.move_x(-1),
            2 => self.move_x(1),
            3 => self.move_z(1),
            4 => self.move_z(-1),
            5 => self.move_y(1),
            6 => self.move_y(-1),
            _ => {},
        }
    }
}

} // verus!
