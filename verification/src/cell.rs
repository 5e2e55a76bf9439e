//! The two states of a grid position.

use vstd::prelude::*;

verus! {

/// The state of one grid position.
#[derive(Clone, Copy, Debug, PartialEq, Eq, Structural)]
pub enum Cell {
    Dead,
    Alive,
}

impl Cell {
    /// The cell that stands for a bit of the grid: `Alive` for a set bit.
    pub open spec fn of(alive: bool) -> Cell {
        if alive {
            Cell::Alive
        } else {
            Cell::Dead
        }
    }

    /// Whether this is the `Alive` state.
    pub open spec fn is_alive(self) -> bool {
        self == Cell::Alive
    }

    /// The other state.
    pub open spec fn toggled(self) -> Cell {
        Cell::of(!self.is_alive())
    }

    /// Flips the state in place.
    pub fn toggle(&mut self)
        ensures
            *final(self) == old(self).toggled(),
    {
        *self = match *self {
            Cell::Alive => Cell::Dead,
            Cell::Dead => Cell::Alive,
        };
    }
}

} // verus!
