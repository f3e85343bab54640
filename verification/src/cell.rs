//! The two states of a cell.

use vstd::prelude::*;

verus! {

/// The state of one position of a board. Cast to an integer, `Dead` is 0 and
/// `Alive` is 1, as a bit of the packed board is.
#[derive(Clone, Copy, Debug, PartialEq, Eq, Structural)]
pub enum Cell {
    Dead,
    Alive,
}

impl Cell {
    /// Whether this is the state of a live cell.
    pub open spec fn is_alive(self) -> bool {
        self == Cell::Alive
    }
}

/// The cells of a board, `true` for alive, from a list of their states.
pub open spec fn alive_states(cells: Seq<Cell>) -> Seq<bool> {
    Seq::new(cells.len(), |i: int| cells[i].is_alive())
}

} // verus!
