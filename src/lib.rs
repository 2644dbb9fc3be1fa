//! A three-dimensional cellular automaton: a dense cubic grid of cells,
//! the reflect-at-edge neighbourhood, the generational rule, a cursor for
//! manual edits, and a scheduler that paces generations against frame time.

pub mod cursor;
pub mod game;
pub mod laws;
pub mod tick;
