//! The mathematical model: a board as a sequence of cells, and one generation
//! of the game as a function from boards to boards. What holds of the model is
//! proved in [`crate::laws`].

use vstd::prelude::*;

verus! {

/// The transition rule: a live cell stays alive with two or three live
/// neighbours, a dead cell comes alive with exactly three.
pub open spec fn survives(alive: bool, live_neighbors: int) -> bool {
    if alive {
        live_neighbors == 2 || live_neighbors == 3
    } else {
        live_neighbors == 3
    }
}

/// `x` reduced to `0 .. n`, the coordinate that `x` names on a ring of `n`
/// positions.
pub open spec fn wrap(x: int, n: nat) -> int {
    x % (n as int)
}

/// What the position `(row, col)` adds to a count of the positions in `live`.
pub open spec fn plane_population(live: Set<(int, int)>, row: int, col: int) -> int {
    if live.contains((row, col)) {
        1
    } else {
        0
    }
}

/// The number of positions in `live` among the eight around `(row, col)` on
/// the unbounded plane.
pub open spec fn plane_neighbors(live: Set<(int, int)>, row: int, col: int) -> int {
    plane_population(live, row - 1, col - 1) + plane_population(live, row - 1, col)
        + plane_population(live, row - 1, col + 1) + plane_population(live, row, col - 1)
        + plane_population(live, row, col + 1) + plane_population(live, row + 1, col - 1)
        + plane_population(live, row + 1, col) + plane_population(live, row + 1, col + 1)
}

/// One generation on the unbounded plane, from the set of live positions to
/// the set of live positions.
pub open spec fn plane_step(live: Set<(int, int)>) -> Set<(int, int)> {
    Set::new(
        |p: (int, int)| survives(live.contains(p), plane_neighbors(live, p.0, p.1)),
    )
}

/// Whether every position in `live` lies in the rows `top ..= bottom` and
/// the columns `left ..= right`.
pub open spec fn within(live: Set<(int, int)>, top: int, left: int, bottom: int, right: int) -> bool {
    forall|p: (int, int)|
        #[trigger] live.contains(p) ==> top <= p.0 <= bottom && left <= p.1 <= right
}

/// The `(row, col)` pairs of a list of machine coordinates.
pub open spec fn positions(cells: Seq<(u32, u32)>) -> Seq<(int, int)> {
    Seq::new(cells.len(), |k: int| (cells[k].0 as int, cells[k].1 as int))
}

/// A board of `width * height` cells in row-major order; `true` is alive.
pub struct Grid {
    pub width: nat,
    pub height: nat,
    pub cells: Seq<bool>,
}

impl Grid {
    /// There is exactly one cell for each position of the board.
    pub open spec fn wf(self) -> bool {
        self.cells.len() == self.width * self.height
    }

    /// Whether `(row, col)` is a position of the board.
    pub open spec fn in_bounds(self, row: int, col: int) -> bool {
        0 <= row < self.height && 0 <= col < self.width
    }

    /// Where the cell at `(row, col)` stands in `cells`.
    pub open spec fn index(self, row: int, col: int) -> int {
        row * self.width + col
    }

    /// Whether the cell at `(row, col)` is alive.
    pub open spec fn alive(self, row: int, col: int) -> bool {
        self.cells[self.index(row, col)]
    }

    /// What the cell at `(row, col)` adds to a count of live cells.
    pub open spec fn population(self, row: int, col: int) -> int {
        if self.alive(row, col) {
            1
        } else {
            0
        }
    }

    /// The number of live cells among the eight neighbours of `(row, col)`,
    /// where the last row is next to the first and the last column next to the
    /// first. On a board with fewer than three rows or columns a cell stands
    /// at several of the eight places and is counted once for each.
    pub open spec fn live_neighbors(self, row: int, col: int) -> int {
        let north = wrap(row - 1, self.height);
        let south = wrap(row + 1, self.height);
        let west = wrap(col - 1, self.width);
        let east = wrap(col + 1, self.width);
        self.population(north, west) + self.population(north, col) + self.population(north, east)
            + self.population(row, west) + self.population(row, east) + self.population(
            south,
            west,
        ) + self.population(south, col) + self.population(south, east)
    }

    /// Whether the cell at `(row, col)` is alive one generation later.
    pub open spec fn next_alive(self, row: int, col: int) -> bool {
        survives(self.alive(row, col), self.live_neighbors(row, col))
    }

    /// The board one generation later: every cell is decided from the cells
    /// of this board alone.
    pub open spec fn step(self) -> Grid {
        Grid {
            width: self.width,
            height: self.height,
            cells: Seq::new(
                self.cells.len(),
                |i: int| self.next_alive(i / (self.width as int), i % (self.width as int)),
            ),
        }
    }

    /// The board of the given size on which every cell is dead.
    pub open spec fn dead(width: nat, height: nat) -> Grid {
        Grid { width, height, cells: Seq::new(width * height, |i: int| false) }
    }

    /// Whether no cell of the board is alive.
    pub open spec fn all_dead(self) -> bool {
        forall|i: int| 0 <= i < self.cells.len() ==> !#[trigger] self.cells[i]
    }

    /// This board with the cell at `(row, col)` alive.
    pub open spec fn set_alive(self, row: int, col: int) -> Grid {
        Grid { cells: self.cells.update(self.index(row, col), true), ..self }
    }

    /// This board with the cell at `(row, col)` inverted.
    pub open spec fn toggle(self, row: int, col: int) -> Grid {
        Grid { cells: self.cells.update(self.index(row, col), !self.alive(row, col)), ..self }
    }

    /// This board with every cell named in `coords` alive.
    pub open spec fn set_all(self, coords: Seq<(int, int)>) -> Grid
        decreases coords.len(),
    {
        if coords.len() == 0 {
            self
        } else {
            self.set_all(coords.drop_last()).set_alive(coords.last().0, coords.last().1)
        }
    }

    /// The board of the given size on which the cells at the positions in
    /// `live` are alive and all others dead.
    pub open spec fn of_live(width: nat, height: nat, live: Set<(int, int)>) -> Grid {
        Grid {
            width,
            height,
            cells: Seq::new(
                width * height,
                |i: int| live.contains((i / (width as int), i % (width as int))),
            ),
        }
    }

    /// The positions of the board whose cells are alive.
    pub open spec fn live(self) -> Set<(int, int)> {
        Set::new(|p: (int, int)| self.in_bounds(p.0, p.1) && self.alive(p.0, p.1))
    }
}

} // verus!
