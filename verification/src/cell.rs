//! A single cell and the transition rule.

use vstd::prelude::*;

verus! {

/// The transition rule: a live cell survives with two or three live
/// neighbours, a dead cell comes alive with exactly three.
pub open spec fn next_state(alive: bool, neighbours: int) -> bool {
    if alive {
        neighbours == 2 || neighbours == 3
    } else {
        neighbours == 3
    }
}

/// One cell of the grid: its state in the current generation and the state
/// staged for the next one.
#[derive(Clone, Copy, Debug, PartialEq, Eq, Structural)]
pub struct Cell {
    pub is_alive: bool,
    pub is_alive_next: bool,
}

impl Cell {
    /// Stages the cell's next state from its current state and the number of
    /// live neighbours; the current state is left untouched.
    pub fn calculate_next_round(&mut self, neighours: i32)
        ensures
            final(self).is_alive == old(self).is_alive,
            final(self).is_alive_next == next_state(old(self).is_alive, neighours as int),
    {
        if self.is_alive {
            self.is_alive_next = neighours >= 2 && neighours < 4;
        } else {
            self.is_alive_next = neighours == 3;
        }
    }
}

} // verus!
