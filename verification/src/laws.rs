//! What holds of the model of the game: how positions and indices correspond,
//! what one generation does to a cell, and how changes to single cells
//! compose.

use crate::grid::{plane_neighbors, plane_step, survives, within, wrap, Grid};
use vstd::arithmetic::div_mod::lemma_fundamental_div_mod_converse;
use vstd::prelude::*;

verus! {

/// On a ring the position before the first is the last, and the position
/// after the last is the first; everywhere else a step is a step.
pub proof fn lemma_wrap_step(x: int, n: nat)
    requires
        0 <= x < n,
    ensures
        wrap(x - 1, n) == (if x == 0 {
            n - 1
        } else {
            x - 1
        }),
        wrap(x + 1, n) == (if x == n - 1 {
            0
        } else {
            x + 1
        }),
        0 <= wrap(x - 1, n) < n,
        0 <= wrap(x + 1, n) < n,
{
    let d = n as int;
    if x == 0 {
        lemma_fundamental_div_mod_converse(x - 1, d, -1, d - 1);
    } else {
        lemma_fundamental_div_mod_converse(x - 1, d, 0, x - 1);
    }
    if x == d - 1 {
        lemma_fundamental_div_mod_converse(x + 1, d, 1, 0);
    } else {
        lemma_fundamental_div_mod_converse(x + 1, d, 0, x + 1);
    }
}

/// The rule case by case: a live cell with fewer than two live neighbours
/// dies, with two or three it lives on, with more than three it dies; a dead
/// cell comes alive with exactly three and stays dead otherwise.
pub proof fn lemma_rule_cases(live_neighbors: int)
    ensures
        live_neighbors < 2 ==> !survives(true, live_neighbors),
        live_neighbors == 2 || live_neighbors == 3 ==> survives(true, live_neighbors),
        live_neighbors > 3 ==> !survives(true, live_neighbors),
        live_neighbors == 3 ==> survives(false, live_neighbors),
        live_neighbors != 3 ==> !survives(false, live_neighbors),
{
}

impl Grid {
    /// A position of the board has its cell inside `cells`.
    pub proof fn lemma_index_in_range(self, row: int, col: int)
        requires
            self.wf(),
            self.in_bounds(row, col),
        ensures
            0 <= self.index(row, col) < self.cells.len(),
    {
        let w = self.width as int;
        let h = self.height as int;
        assert(0 <= row * w) by (nonlinear_arith)
            requires
                0 <= row,
                0 <= w,
        ;
        assert(row * w + w <= h * w) by (nonlinear_arith)
            requires
                row + 1 <= h,
                0 <= w,
        ;
        assert(w * h == h * w) by (nonlinear_arith);
    }

    /// The row and the column of a position can be read back from its index.
    pub proof fn lemma_index_inverse(self, row: int, col: int)
        requires
            self.in_bounds(row, col),
        ensures
            self.index(row, col) / (self.width as int) == row,
            self.index(row, col) % (self.width as int) == col,
    {
        lemma_fundamental_div_mod_converse(self.index(row, col), self.width as int, row, col);
    }

    /// Every index into `cells` is the index of one position of the board.
    pub proof fn lemma_position_of_index(self, i: int)
        requires
            self.wf(),
            0 <= i < self.cells.len(),
        ensures
            self.in_bounds(i / (self.width as int), i % (self.width as int)),
            self.index(i / (self.width as int), i % (self.width as int)) == i,
    {
        let w = self.width as int;
        let h = self.height as int;
        assert(w > 0) by (nonlinear_arith)
            requires
                0 <= i < w * h,
                0 <= w,
        ;
        assert(i == w * (i / w) + i % w && 0 <= i % w < w) by (nonlinear_arith)
            requires
                w > 0,
        ;
        assert(0 <= i / w < h) by (nonlinear_arith)
            requires
                w > 0,
                0 <= i < w * h,
                i == w * (i / w) + i % w,
                0 <= i % w < w,
        ;
        assert(w * (i / w) == (i / w) * w) by (nonlinear_arith);
    }

    /// Two positions of the board share an index only if they are the same.
    pub proof fn lemma_index_injective(self, row1: int, col1: int, row2: int, col2: int)
        requires
            self.in_bounds(row1, col1),
            self.in_bounds(row2, col2),
            self.index(row1, col1) == self.index(row2, col2),
        ensures
            row1 == row2,
            col1 == col2,
    {
        self.lemma_index_inverse(row1, col1);
        self.lemma_index_inverse(row2, col2);
    }

    /// The neighbours of a cell written out without reduction: the row above
    /// the first row is the last row, the row below the last is the first,
    /// and likewise for the columns.
    pub proof fn lemma_neighbors_wrap(self, row: int, col: int)
        requires
            self.in_bounds(row, col),
        ensures
            ({
                let north = if row == 0 {
                    self.height - 1
                } else {
                    row - 1
                };
                let south = if row == self.height - 1 {
                    0
                } else {
                    row + 1
                };
                let west = if col == 0 {
                    self.width - 1
                } else {
                    col - 1
                };
                let east = if col == self.width - 1 {
                    0
                } else {
                    col + 1
                };
                self.live_neighbors(row, col) == self.population(north, west) + self.population(
                    north,
                    col,
                ) + self.population(north, east) + self.population(row, west) + self.population(
                    row,
                    east,
                ) + self.population(south, west) + self.population(south, col) + self.population(
                    south,
                    east,
                )
            }),
    {
        lemma_wrap_step(row, self.height);
        lemma_wrap_step(col, self.width);
    }

    /// The eight neighbours of a position of the board are positions of the
    /// board, and their number alive is between zero and eight.
    pub proof fn lemma_neighbors_on_board(self, row: int, col: int)
        requires
            self.in_bounds(row, col),
        ensures
            self.in_bounds(wrap(row - 1, self.height), wrap(col - 1, self.width)),
            self.in_bounds(wrap(row + 1, self.height), wrap(col + 1, self.width)),
            0 <= self.live_neighbors(row, col) <= 8,
    {
        lemma_wrap_step(row, self.height);
        lemma_wrap_step(col, self.width);
    }

    /// One generation keeps the size of the board and decides every cell by
    /// the rule, from the cell and its live neighbours on the board before.
    pub proof fn lemma_step_cell(self, row: int, col: int)
        requires
            self.wf(),
            self.in_bounds(row, col),
        ensures
            self.step().wf(),
            self.step().width == self.width,
            self.step().height == self.height,
            self.step().alive(row, col) == survives(
                self.alive(row, col),
                self.live_neighbors(row, col),
            ),
    {
        self.lemma_index_in_range(row, col);
        self.lemma_index_inverse(row, col);
    }

    /// A board without a live cell has none one generation later.
    pub proof fn lemma_dead_stays_dead(self)
        requires
            self.wf(),
            self.all_dead(),
        ensures
            self.step() == self,
            self.step().all_dead(),
    {
        assert forall|i: int| 0 <= i < self.cells.len() implies self.step().cells[i]
            == self.cells[i] by {
            let row = i / (self.width as int);
            let col = i % (self.width as int);
            self.lemma_position_of_index(i);
            self.lemma_no_live_neighbors(row, col);
        }
        assert(self.step().cells =~= self.cells);
    }

    /// On a board without a live cell no position has a live neighbour.
    pub proof fn lemma_no_live_neighbors(self, row: int, col: int)
        requires
            self.wf(),
            self.all_dead(),
            self.in_bounds(row, col),
        ensures
            self.live_neighbors(row, col) == 0,
    {
        let north = wrap(row - 1, self.height);
        let south = wrap(row + 1, self.height);
        let west = wrap(col - 1, self.width);
        let east = wrap(col + 1, self.width);
        self.lemma_neighbors_on_board(row, col);
        self.lemma_dead_cell(north, west);
        self.lemma_dead_cell(north, col);
        self.lemma_dead_cell(north, east);
        self.lemma_dead_cell(row, west);
        self.lemma_dead_cell(row, east);
        self.lemma_dead_cell(south, west);
        self.lemma_dead_cell(south, col);
        self.lemma_dead_cell(south, east);
    }

    /// On a board without a live cell the cell at any position is dead.
    pub proof fn lemma_dead_cell(self, row: int, col: int)
        requires
            self.wf(),
            self.all_dead(),
            self.in_bounds(row, col),
        ensures
            !self.alive(row, col),
            self.population(row, col) == 0,
    {
        self.lemma_index_in_range(row, col);
    }

    /// The board of any size on which every cell is dead is well formed, has
    /// no live cell, and is its own next generation.
    pub proof fn lemma_dead_board(width: nat, height: nat)
        ensures
            Grid::dead(width, height).wf(),
            Grid::dead(width, height).all_dead(),
            Grid::dead(width, height).step() == Grid::dead(width, height),
    {
        Grid::dead(width, height).lemma_dead_stays_dead();
    }

    /// Inverting a cell twice gives the board back.
    pub proof fn lemma_toggle_twice(self, row: int, col: int)
        requires
            self.wf(),
            self.in_bounds(row, col),
        ensures
            self.toggle(row, col).toggle(row, col) == self,
    {
        self.lemma_index_in_range(row, col);
        assert(self.toggle(row, col).toggle(row, col).cells =~= self.cells);
    }

    /// Inverting a cell changes that cell and no other.
    pub proof fn lemma_toggle_cell(self, row: int, col: int, other_row: int, other_col: int)
        requires
            self.wf(),
            self.in_bounds(row, col),
            self.in_bounds(other_row, other_col),
        ensures
            self.toggle(row, col).wf(),
            self.toggle(row, col).alive(row, col) == !self.alive(row, col),
            (other_row, other_col) != (row, col) ==> self.toggle(row, col).alive(
                other_row,
                other_col,
            ) == self.alive(other_row, other_col),
    {
        self.lemma_index_in_range(row, col);
        self.lemma_index_in_range(other_row, other_col);
        if self.index(row, col) == self.index(other_row, other_col) {
            self.lemma_index_injective(row, col, other_row, other_col);
        }
    }

    /// Making a list of cells of the board alive keeps the size of the board.
    pub proof fn lemma_set_all_size(self, coords: Seq<(int, int)>)
        requires
            self.wf(),
            forall|k: int|
                0 <= k < coords.len() ==> self.in_bounds((#[trigger] coords[k]).0, coords[k].1),
        ensures
            self.set_all(coords).wf(),
            self.set_all(coords).width == self.width,
            self.set_all(coords).height == self.height,
        decreases coords.len(),
    {
        if coords.len() > 0 {
            let rest = coords.drop_last();
            self.lemma_set_all_size(rest);
            self.set_all(rest).lemma_index_in_range(coords.last().0, coords.last().1);
        }
    }

    /// After a list of cells was made alive, a cell is alive exactly if it
    /// was alive before or is in the list.
    pub proof fn lemma_set_all(self, coords: Seq<(int, int)>, row: int, col: int)
        requires
            self.wf(),
            forall|k: int|
                0 <= k < coords.len() ==> self.in_bounds((#[trigger] coords[k]).0, coords[k].1),
            self.in_bounds(row, col),
        ensures
            self.set_all(coords).alive(row, col) == (self.alive(row, col) || coords.contains(
                (row, col),
            )),
        decreases coords.len(),
    {
        if coords.len() > 0 {
            let rest = coords.drop_last();
            let last = coords.last();
            self.lemma_set_all(rest, row, col);
            self.lemma_set_all_size(rest);
            let before = self.set_all(rest);
            before.lemma_index_in_range(last.0, last.1);
            before.lemma_index_in_range(row, col);
            if before.index(last.0, last.1) == before.index(row, col) {
                before.lemma_index_injective(last.0, last.1, row, col);
                assert(coords[coords.len() - 1] == (row, col));
            } else {
                if rest.contains((row, col)) {
                    let k = choose|k: int| 0 <= k < rest.len() && rest[k] == (row, col);
                    assert(coords[k] == (row, col));
                }
                if coords.contains((row, col)) {
                    let k = choose|k: int| 0 <= k < coords.len() && coords[k] == (row, col);
                    assert(rest[k] == (row, col));
                }
            }
        }
    }

    /// On a board made from a set of positions, the cell at a position of the
    /// board is alive exactly if the position is in the set.
    pub proof fn lemma_of_live_alive(
        width: nat,
        height: nat,
        live: Set<(int, int)>,
        row: int,
        col: int,
    )
        requires
            0 <= row < height,
            0 <= col < width,
        ensures
            Grid::of_live(width, height, live).wf(),
            Grid::of_live(width, height, live).alive(row, col) == live.contains((row, col)),
    {
        let g = Grid::of_live(width, height, live);
        g.lemma_index_in_range(row, col);
        g.lemma_index_inverse(row, col);
    }

    /// The live positions of a board made from a set of positions on the
    /// board are that set.
    pub proof fn lemma_of_live_live(width: nat, height: nat, live: Set<(int, int)>)
        requires
            within(live, 0, 0, height - 1, width - 1),
        ensures
            Grid::of_live(width, height, live).live() == live,
    {
        let g = Grid::of_live(width, height, live);
        assert forall|p: (int, int)| g.live().contains(p) == live.contains(p) by {
            if g.in_bounds(p.0, p.1) {
                Grid::lemma_of_live_alive(width, height, live, p.0, p.1);
            }
        }
        assert(g.live() =~= live);
    }

    /// Making a list of cells alive on a board without a live cell gives the
    /// board whose live cells are those of the list.
    pub proof fn lemma_set_all_on_dead(width: nat, height: nat, coords: Seq<(int, int)>)
        requires
            forall|k: int|
                0 <= k < coords.len() ==> 0 <= (#[trigger] coords[k]).0 < height && 0
                    <= coords[k].1 < width,
        ensures
            Grid::dead(width, height).set_all(coords) == Grid::of_live(
                width,
                height,
                coords.to_set(),
            ),
    {
        let dead = Grid::dead(width, height);
        let set = dead.set_all(coords);
        let made = Grid::of_live(width, height, coords.to_set());
        dead.lemma_set_all_size(coords);
        assert forall|i: int| 0 <= i < set.cells.len() implies set.cells[i] == made.cells[i] by {
            let row = i / (width as int);
            let col = i % (width as int);
            dead.lemma_position_of_index(i);
            dead.lemma_set_all(coords, row, col);
        }
        assert(set.cells =~= made.cells);
    }

    /// A shape that keeps a cell's distance from every edge of the board
    /// develops on the board as it does on the unbounded plane.
    pub proof fn lemma_step_away_from_edges(width: nat, height: nat, live: Set<(int, int)>)
        requires
            within(live, 1, 1, height - 2, width - 2),
        ensures
            Grid::of_live(width, height, live).step() == Grid::of_live(
                width,
                height,
                plane_step(live),
            ),
    {
        let g = Grid::of_live(width, height, live);
        let next = Grid::of_live(width, height, plane_step(live));
        assert forall|i: int| 0 <= i < g.cells.len() implies g.step().cells[i]
            == next.cells[i] by {
            let row = i / (width as int);
            let col = i % (width as int);
            g.lemma_position_of_index(i);
            Grid::lemma_live_neighbors_away_from_edges(width, height, live, row, col);
            Grid::lemma_of_live_alive(width, height, live, row, col);
        }
        assert(g.step().cells =~= next.cells);
    }

    /// Where no live cell stands on the outermost rows and columns, the
    /// neighbours that the torus gives a cell are alive exactly where the
    /// neighbours on the plane are.
    proof fn lemma_live_neighbors_away_from_edges(
        width: nat,
        height: nat,
        live: Set<(int, int)>,
        row: int,
        col: int,
    )
        requires
            within(live, 1, 1, height - 2, width - 2),
            0 <= row < height,
            0 <= col < width,
        ensures
            Grid::of_live(width, height, live).live_neighbors(row, col) == plane_neighbors(
                live,
                row,
                col,
            ),
    {
        let g = Grid::of_live(width, height, live);
        let north = wrap(row - 1, height);
        let south = wrap(row + 1, height);
        let west = wrap(col - 1, width);
        let east = wrap(col + 1, width);
        lemma_wrap_step(row, height);
        lemma_wrap_step(col, width);
        Grid::lemma_of_live_alive(width, height, live, north, west);
        Grid::lemma_of_live_alive(width, height, live, north, col);
        Grid::lemma_of_live_alive(width, height, live, north, east);
        Grid::lemma_of_live_alive(width, height, live, row, west);
        Grid::lemma_of_live_alive(width, height, live, row, east);
        Grid::lemma_of_live_alive(width, height, live, south, west);
        Grid::lemma_of_live_alive(width, height, live, south, col);
        Grid::lemma_of_live_alive(width, height, live, south, east);
        assert(live.contains((north, west)) == live.contains((row - 1, col - 1)));
        assert(live.contains((north, col)) == live.contains((row - 1, col)));
        assert(live.contains((north, east)) == live.contains((row - 1, col + 1)));
        assert(live.contains((row, west)) == live.contains((row, col - 1)));
        assert(live.contains((row, east)) == live.contains((row, col + 1)));
        assert(live.contains((south, west)) == live.contains((row + 1, col - 1)));
        assert(live.contains((south, col)) == live.contains((row + 1, col)));
        assert(live.contains((south, east)) == live.contains((row + 1, col + 1)));
    }
}

} // verus!
