//! A toroidal Game of Life engine over a packed-bit grid.
//!
//! The mathematical model of a generation is [`grid::Grid`]; the executable
//! engine is [`universe::Universe`], whose every operation is specified as a
//! function on that model.

pub mod bitset;
pub mod cell;
pub mod grid;
pub mod laws;
pub mod universe;

pub use crate::cell::Cell;
pub use crate::universe::Universe;
