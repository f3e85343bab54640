//! Named shapes and the operations that place them on a board. How the
//! shapes develop is proved in [`crate::pattern_laws`].

use crate::grid::positions;
use crate::universe::Universe;
use vstd::prelude::*;

verus! {

/// The five cells of a glider around `(row, col)`.
pub open spec fn glider(row: int, col: int) -> Seq<(int, int)> {
    seq![
        (row - 1, col + 1),
        (row, col - 1),
        (row, col + 1),
        (row + 1, col),
        (row + 1, col + 1),
    ]
}

/// The forty-eight cells of a pulsar around `(row, col)`.
pub open spec fn pulsar(row: int, col: int) -> Seq<(int, int)> {
    seq![
        (row - 6, col - 4),
        (row - 6, col - 3),
        (row - 6, col - 2),
        (row - 6, col + 2),
        (row - 6, col + 3),
        (row - 6, col + 4),
        (row - 4, col - 6),
        (row - 4, col - 1),
        (row - 4, col + 1),
        (row - 4, col + 6),
        (row - 3, col - 6),
        (row - 3, col - 1),
        (row - 3, col + 1),
        (row - 3, col + 6),
        (row - 2, col - 6),
        (row - 2, col - 1),
        (row - 2, col + 1),
        (row - 2, col + 6),
        (row - 1, col - 4),
        (row - 1, col - 3),
        (row - 1, col - 2),
        (row - 1, col + 2),
        (row - 1, col + 3),
        (row - 1, col + 4),
        (row + 1, col - 4),
        (row + 1, col - 3),
        (row + 1, col - 2),
        (row + 1, col + 2),
        (row + 1, col + 3),
        (row + 1, col + 4),
        (row + 2, col - 6),
        (row + 2, col - 1),
        (row + 2, col + 1),
        (row + 2, col + 6),
        (row + 3, col - 6),
        (row + 3, col - 1),
        (row + 3, col + 1),
        (row + 3, col + 6),
        (row + 4, col - 6),
        (row + 4, col - 1),
        (row + 4, col + 1),
        (row + 4, col + 6),
        (row + 6, col - 4),
        (row + 6, col - 3),
        (row + 6, col - 2),
        (row + 6, col + 2),
        (row + 6, col + 3),
        (row + 6, col + 4),
    ]
}

impl Universe {
    /// Makes the five cells of a glider around `(row, col)` alive. The shape
    /// is not wrapped: it has to lie on the board.
    pub fn spawn_glider(&mut self, row: u32, col: u32)
        requires
            old(self).wf(),
            1 <= row,
            row + 1 < old(self)@.height,
            1 <= col,
            col + 1 < old(self)@.width,
        ensures
            final(self).wf(),
            final(self)@ == old(self)@.set_all(glider(row as int, col as int)),
    {
        let cells = [
            (row - 1, col + 1),
            (row, col - 1),
            (row, col + 1),
            (row + 1, col),
            (row + 1, col + 1),
        ];
        assert(positions(cells@) =~= glider(row as int, col as int));
        self.set_cells(cells.as_slice());
    }

    /// Makes the forty-eight cells of a pulsar around `(row, col)` alive. The
    /// shape is not wrapped: it has to lie on the board.
    pub fn spawn_pulsar(&mut self, row: u32, col: u32)
        requires
            old(self).wf(),
            6 <= row,
            row + 6 < old(self)@.height,
            6 <= col,
            col + 6 < old(self)@.width,
        ensures
            final(self).wf(),
            final(self)@ == old(self)@.set_all(pulsar(row as int, col as int)),
    {
        let cells = [
            (row - 6, col - 4),
            (row - 6, col - 3),
            (row - 6, col - 2),
            (row - 6, col + 2),
            (row - 6, col + 3),
            (row - 6, col + 4),
            (row - 4, col - 6),
            (row - 4, col - 1),
            (row - 4, col + 1),
            (row - 4, col + 6),
            (row - 3, col - 6),
            (row - 3, col - 1),
            (row - 3, col + 1),
            (row - 3, col + 6),
            (row - 2, col - 6),
            (row - 2, col - 1),
            (row - 2, col + 1),
            (row - 2, col + 6),
            (row - 1, col - 4),
            (row - 1, col - 3),
            (row - 1, col - 2),
            (row - 1, col + 2),
            (row - 1, col + 3),
            (row - 1, col + 4),
            (row + 1, col - 4),
            (row + 1, col - 3),
            (row + 1, col - 2),
            (row + 1, col + 2),
            (row + 1, col + 3),
            (row + 1, col + 4),
            (row + 2, col - 6),
            (row + 2, col - 1),
            (row + 2, col + 1),
            (row + 2, col + 6),
            (row + 3, col - 6),
            (row + 3, col - 1),
            (row + 3, col + 1),
            (row + 3, col + 6),
            (row + 4, col - 6),
            (row + 4, col - 1),
            (row + 4, col + 1),
            (row + 4, col + 6),
            (row + 6, col - 4),
            (row + 6, col - 3),
            (row + 6, col - 2),
            (row + 6, col + 2),
            (row + 6, col + 3),
            (row + 6, col + 4),
        ];
        assert(positions(cells@) =~= pulsar(row as int, col as int));
        self.set_cells(cells.as_slice());
    }
}

} // verus!
