//! The executable board: dimensions and one bit per cell.

use crate::bitset::{bit_seq, packed_bit};
use crate::cell::{alive_states, Cell};
use crate::grid::{positions, survives, wrap, Grid};
use crate::random::random_bit;
use crate::timer::Timer;
use fixedbitset::FixedBitSet;
use vstd::arithmetic::div_mod::lemma_mod_add_multiples_vanish;
use vstd::prelude::*;

verus! {

/// A board of the game. Its cells are packed into a bit set, row after row.
pub struct Universe {
    width: u32,
    height: u32,
    cells: FixedBitSet,
}

impl View for Universe {
    type V = Grid;

    closed spec fn view(&self) -> Grid {
        Grid { width: self.width as nat, height: self.height as nat, cells: bit_seq(self.cells) }
    }
}

impl Universe {
    /// The board holds exactly one cell for each of its positions, and its
    /// dimensions and the number of its cells fit their machine types.
    pub open spec fn wf(&self) -> bool {
        &&& self@.wf()
        &&& self@.width <= u32::MAX
        &&& self@.height <= u32::MAX
        &&& self@.cells.len() <= usize::MAX
    }

    /// A board of the given size with every cell dead.
    pub fn empty(width: u32, height: u32) -> (universe: Universe)
        requires
            width * height <= usize::MAX,
        ensures
            universe.wf(),
            universe@ == Grid::dead(width as nat, height as nat),
    {
        let size = cell_count(width, height);
        let cells = FixedBitSet::with_capacity(size);
        assert(bit_seq(cells) =~= Grid::dead(width as nat, height as nat).cells);
        Universe { width, height, cells }
    }

    /// The board of the given size whose cells have the states listed in
    /// `cells`, row after row.
    pub fn from_cells(width: u32, height: u32, cells: &[Cell]) -> (universe: Universe)
        requires
            cells@.len() == width * height,
        ensures
            universe.wf(),
            universe@ == (Grid {
                width: width as nat,
                height: height as nat,
                cells: alive_states(cells@),
            }),
    {
        let size = cells.len();
        let mut bits = FixedBitSet::with_capacity(size);
        let mut i: usize = 0;
        while i < size
            invariant
                i <= size,
                size == cells@.len(),
                bit_seq(bits).len() == size,
                forall|k: int| 0 <= k < i ==> bit_seq(bits)[k] == (#[trigger] cells@[k]).is_alive(),
            decreases size - i,
        {
            let alive = match cells[i] {
                Cell::Alive => true,
                Cell::Dead => false,
            };
            bits.set(i, alive);
            i += 1;
        }
        assert(bit_seq(bits) =~= alive_states(cells@));
        Universe { width, height, cells: bits }
    }

    /// A board of the given size on which the state of each cell is drawn at
    /// random, alive and dead equally likely. Nothing is known of the cells
    /// but their number: what comes of a given draw is what
    /// [`Universe::from_cells`] states.
    pub fn new(width: u32, height: u32) -> (universe: Universe)
        requires
            width * height <= usize::MAX,
        ensures
            universe.wf(),
            universe@.width == width,
            universe@.height == height,
    {
        let size = cell_count(width, height);
        let mut drawn: Vec<Cell> = Vec::new();
        let mut i: usize = 0;
        while i < size
            invariant
                i <= size,
                drawn@.len() == i,
            decreases size - i,
        {
            let cell = if random_bit() {
                Cell::Alive
            } else {
                Cell::Dead
            };
            drawn.push(cell);
            i += 1;
        }
        Universe::from_cells(width, height, drawn.as_slice())
    }

    /// The number of columns.
    pub fn width(&self) -> (width: u32)
        ensures
            width == self@.width,
    {
        self.width
    }

    /// The number of rows.
    pub fn height(&self) -> (height: u32)
        ensures
            height == self@.height,
    {
        self.height
    }

    /// The cells as a bit set: bit `i` is the cell with index `i`.
    pub fn get_cells(&self) -> (cells: &FixedBitSet)
        ensures
            bit_seq(*cells) == self@.cells,
    {
        &self.cells
    }

    /// The cells as packed 32-bit blocks: the cell with index `i` is alive
    /// exactly if bit `i % 32` of block `i / 32` is set.
    pub fn cells(&self) -> (blocks: &[u32])
        ensures
            blocks@.len() == (self@.cells.len() + 31) / 32,
            forall|i: int|
                0 <= i < self@.cells.len() ==> #[trigger] self@.cells[i] == packed_bit(blocks@, i),
    {
        self.cells.as_slice()
    }

    /// The index of the cell at `(row, col)`.
    pub fn get_index(&self, row: u32, col: u32) -> (idx: usize)
        requires
            self.wf(),
            self@.in_bounds(row as int, col as int),
        ensures
            idx == self@.index(row as int, col as int),
            idx < self@.cells.len(),
    {
        proof {
            self@.lemma_index_in_range(row as int, col as int);
            assert(0 <= row * self.width) by (nonlinear_arith);
        }
        row as usize * self.width as usize + col as usize
    }

    /// Inverts the cell at `(row, col)`.
    pub fn toggle_cell(&mut self, row: u32, col: u32)
        requires
            old(self).wf(),
            old(self)@.in_bounds(row as int, col as int),
        ensures
            final(self).wf(),
            final(self)@ == old(self)@.toggle(row as int, col as int),
    {
        let idx = self.get_index(row, col);
        self.cells.toggle(idx);
    }

    /// Whether the cell at `(row, col)` is alive, as a count of live cells.
    fn population(&self, row: u32, col: u32) -> (count: u8)
        requires
            self.wf(),
            self@.in_bounds(row as int, col as int),
        ensures
            count == self@.population(row as int, col as int),
    {
        let idx = self.get_index(row, col);
        if self.cells.contains(idx) {
            1
        } else {
            0
        }
    }

    /// The number of live cells among the eight neighbours of `(row, col)` on
    /// the torus: the row above the first is the last, the column left of the
    /// first is the last, and the other way round.
    pub fn live_neighbor_count(&self, row: u32, col: u32) -> (count: u8)
        requires
            self.wf(),
            self@.in_bounds(row as int, col as int),
        ensures
            count == self@.live_neighbors(row as int, col as int),
            count <= 8,
    {
        // Adding `height - 1` and reducing goes one row up without going below zero.
        let north = wrap_add(row, self.height - 1, self.height);
        let south = wrap_add(row, 1, self.height);
        let west = wrap_add(col, self.width - 1, self.width);
        let east = wrap_add(col, 1, self.width);
        proof {
            lemma_wrap_back(row as int, self.height as nat);
            lemma_wrap_back(col as int, self.width as nat);
        }
        let mut count: u8 = self.population(north, west);
        count += self.population(north, col);
        count += self.population(north, east);
        count += self.population(row, west);
        count += self.population(row, east);
        count += self.population(south, west);
        count += self.population(south, col);
        count += self.population(south, east);
        count
    }

    /// Advances the board by one generation. The next state of every cell is
    /// computed from the current board and written to a second buffer, which
    /// then replaces the current one.
    pub fn tick(&mut self)
        requires
            old(self).wf(),
        ensures
            final(self).wf(),
            final(self)@ == old(self)@.step(),
    {
        let _timer = Timer::new("Universe::tick");
        let mut next = {
            let _timer = Timer::new("Allocate next cells");
            self.cells.clone()
        };
        {
            let _timer = Timer::new("New generation");
            let mut row: u32 = 0;
            while row < self.height
                invariant
                    *self == *old(self),
                    self.wf(),
                    row <= self.height,
                    bit_seq(next).len() == self@.cells.len(),
                    forall|i: int|
                        0 <= i < row * self.width && i < self@.cells.len() ==> bit_seq(next)[i]
                            == #[trigger] self@.step().cells[i],
                decreases self.height - row,
            {
                let mut col: u32 = 0;
                while col < self.width
                    invariant
                        *self == *old(self),
                        self.wf(),
                        row < self.height,
                        col <= self.width,
                        bit_seq(next).len() == self@.cells.len(),
                        forall|i: int|
                            0 <= i < row * self.width + col && i < self@.cells.len() ==> bit_seq(
                                next,
                            )[i] == #[trigger] self@.step().cells[i],
                    decreases self.width - col,
                {
                    let idx = self.get_index(row, col);
                    let cell = self.cells.contains(idx);
                    let live_neighbors = self.live_neighbor_count(row, col);
                    proof {
                        self@.lemma_index_inverse(row as int, col as int);
                    }
                    next.set(idx, next_state(cell, live_neighbors));
                    col += 1;
                }
                proof {
                    assert(row * self.width + self.width == (row + 1) * self.width)
                        by (nonlinear_arith);
                }
                row += 1;
            }
        }
        proof {
            assert(self.height * self.width == self.width * self.height) by (nonlinear_arith);
            assert(bit_seq(next) =~= self@.step().cells);
        }
        let _timer = Timer::new("Free old cells");
        self.cells = next;
    }

    /// Makes every cell named in `cells` alive and leaves the others as they
    /// are. Each entry is a `(row, col)` pair.
    pub fn set_cells(&mut self, cells: &[(u32, u32)])
        requires
            old(self).wf(),
            forall|k: int|
                0 <= k < cells@.len() ==> old(self)@.in_bounds(
                    (#[trigger] cells@[k]).0 as int,
                    cells@[k].1 as int,
                ),
        ensures
            final(self).wf(),
            final(self)@ == old(self)@.set_all(positions(cells@)),
    {
        let mut k: usize = 0;
        proof {
            assert(positions(cells@).take(0) =~= Seq::empty());
        }
        while k < cells.len()
            invariant
                k <= cells@.len(),
                self.wf(),
                self@.width == old(self)@.width,
                self@.height == old(self)@.height,
                self@ == old(self)@.set_all(positions(cells@).take(k as int)),
                forall|j: int|
                    0 <= j < cells@.len() ==> old(self)@.in_bounds(
                        (#[trigger] cells@[j]).0 as int,
                        cells@[j].1 as int,
                    ),
            decreases cells@.len() - k,
        {
            let (row, col) = cells[k];
            let idx = self.get_index(row, col);
            self.cells.set(idx, true);
            proof {
                assert(positions(cells@).take(k + 1).drop_last() =~= positions(cells@).take(k as int));
            }
            k += 1;
        }
        proof {
            assert(positions(cells@).take(k as int) =~= positions(cells@));
        }
    }

    /// Changes the number of columns. Every cell of the resized board is dead.
    pub fn set_width(&mut self, width: u32)
        requires
            width * old(self)@.height <= usize::MAX,
        ensures
            final(self).wf(),
            final(self)@ == Grid::dead(width as nat, old(self)@.height),
    {
        let size = cell_count(width, self.height);
        let cells = FixedBitSet::with_capacity(size);
        assert(bit_seq(cells) =~= Grid::dead(width as nat, self.height as nat).cells);
        self.width = width;
        self.cells = cells;
    }

    /// Changes the number of rows. Every cell of the resized board is dead.
    pub fn set_height(&mut self, height: u32)
        requires
            old(self)@.width * height <= usize::MAX,
        ensures
            final(self).wf(),
            final(self)@ == Grid::dead(old(self)@.width, height as nat),
    {
        let size = cell_count(self.width, height);
        let cells = FixedBitSet::with_capacity(size);
        assert(bit_seq(cells) =~= Grid::dead(self.width as nat, height as nat).cells);
        self.height = height;
        self.cells = cells;
    }
}

/// The state of a cell one generation later, from its state and the number
/// of its live neighbours: a live cell with fewer than two live neighbours
/// dies, one with two or three lives on, one with more than three dies; a
/// dead cell with exactly three comes alive; any other cell stays as it is.
pub fn next_state(alive: bool, live_neighbors: u8) -> (next: bool)
    ensures
        next == survives(alive, live_neighbors as int),
{
    if alive && live_neighbors < 2 {
        false
    } else if alive && (live_neighbors == 2 || live_neighbors == 3) {
        true
    } else if alive && live_neighbors > 3 {
        false
    } else if !alive && live_neighbors == 3 {
        true
    } else {
        alive
    }
}

/// `x` moved `delta` positions forward on a ring of `n` positions.
fn wrap_add(x: u32, delta: u32, n: u32) -> (wrapped: u32)
    requires
        n > 0,
    ensures
        wrapped == wrap(x + delta, n as nat),
        wrapped < n,
{
    let sum: u64 = x as u64 + delta as u64;
    (sum % n as u64) as u32
}

/// On a ring of `n` positions, `n - 1` steps forward end one step back.
proof fn lemma_wrap_back(x: int, n: nat)
    requires
        0 <= x < n,
    ensures
        wrap(x + (n - 1), n) == wrap(x - 1, n),
{
    lemma_mod_add_multiples_vanish(x - 1, n as int);
}

/// The number of cells on a board of the given size.
fn cell_count(width: u32, height: u32) -> (size: usize)
    requires
        width * height <= usize::MAX,
    ensures
        size == width * height,
{
    proof {
        assert(0 <= width * height) by (nonlinear_arith);
    }
    width as usize * height as usize
}

} // verus!
