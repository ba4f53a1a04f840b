//! The two-state domain of a single cell.

use vstd::prelude::*;

verus! {

/// The state of one cell of the grid.
#[derive(Clone, Copy, Debug, PartialEq, Eq, Structural)]
pub enum CellState {
    Dead,
    Alive,
}

impl CellState {
    /// Whether the cell counts as a live neighbour.
    pub open spec fn alive(self) -> bool {
        self == CellState::Alive
    }

    /// Whether the cell counts as a live neighbour.
    pub fn is_alive(self) -> (live: bool)
        ensures
            live == self.alive(),
    {
        match self {
            CellState::Alive => true,
            CellState::Dead => false,
        }
    }
}

} // verus!
