//! How the named shapes develop: a glider moves, a pulsar returns.
//!
//! Each proof describes the forms that a shape passes through by the offsets
//! of its live cells from the anchor, shows by arithmetic that the rule takes
//! each form to the next at every offset, and carries the result to a board
//! with [`Grid::lemma_step_away_from_edges`].

use crate::grid::{plane_step, survives, within, Grid};
use crate::patterns::{glider, pulsar};
use vstd::prelude::*;
use vstd::seq_lib::{lemma_seq_contains_after_push, lemma_seq_empty_contains_nothing};

verus! {

/// One for a live cell, zero for a dead one.
spec fn one_if(alive: bool) -> int {
    if alive {
        1
    } else {
        0
    }
}

/// Whether the cell at the offset `(dr, dc)` from the anchor of a glider is
/// alive, `generation` generations (zero to three) after the glider was
/// placed.
spec fn glider_at(generation: int, dr: int, dc: int) -> bool {
    if generation == 0 {
        (dr == -1 && dc == 1) || (dr == 0 && (dc == -1 || dc == 1)) || (dr == 1 && (dc == 0 || dc
            == 1))
    } else if generation == 1 {
        (dr == -1 && dc == 0) || (dr == 0 && (dc == 1 || dc == 2)) || (dr == 1 && (dc == 0 || dc
            == 1))
    } else if generation == 2 {
        (dr == -1 && dc == 1) || (dr == 0 && dc == 2) || (dr == 1 && 0 <= dc <= 2)
    } else {
        (dr == 0 && (dc == 0 || dc == 2)) || (dr == 1 && (dc == 1 || dc == 2)) || (dr == 2 && dc
            == 1)
    }
}

/// The number of live cells around the offset `(dr, dc)` of a glider.
spec fn glider_neighbors(generation: int, dr: int, dc: int) -> int {
    one_if(glider_at(generation, dr - 1, dc - 1)) + one_if(glider_at(generation, dr - 1, dc))
        + one_if(glider_at(generation, dr - 1, dc + 1)) + one_if(glider_at(generation, dr, dc - 1))
        + one_if(glider_at(generation, dr, dc + 1)) + one_if(
        glider_at(generation, dr + 1, dc - 1),
    ) + one_if(glider_at(generation, dr + 1, dc)) + one_if(glider_at(generation, dr + 1, dc + 1))
}

/// The positions of the live cells of the glider around `(row, col)`,
/// `generation` generations after it was placed.
spec fn glider_cells(generation: int, row: int, col: int) -> Set<(int, int)> {
    Set::new(|p: (int, int)| glider_at(generation, p.0 - row, p.1 - col))
}

/// The rule takes each of the four forms of a glider to the next, and the
/// last to the first form one row down and one column to the right.
proof fn lemma_glider_rule(generation: int, dr: int, dc: int)
    requires
        0 <= generation <= 3,
    ensures
        survives(glider_at(generation, dr, dc), glider_neighbors(generation, dr, dc)) == (if generation
            == 3 {
            glider_at(0, dr - 1, dc - 1)
        } else {
            glider_at(generation + 1, dr, dc)
        }),
{
}

/// On the plane a glider passes through its four forms and is then the
/// glider one row down and one column to the right.
proof fn lemma_glider_generations(row: int, col: int)
    ensures
        glider_cells(0, row, col) == glider(row, col).to_set(),
        plane_step(glider_cells(0, row, col)) == glider_cells(1, row, col),
        plane_step(glider_cells(1, row, col)) == glider_cells(2, row, col),
        plane_step(glider_cells(2, row, col)) == glider_cells(3, row, col),
        plane_step(glider_cells(3, row, col)) == glider_cells(0, row + 1, col + 1),
{
    broadcast use {lemma_seq_contains_after_push, lemma_seq_empty_contains_nothing};

    assert(glider_cells(0, row, col) =~= glider(row, col).to_set());
    assert forall|p: (int, int)|
        plane_step(glider_cells(0, row, col)).contains(p) == glider_cells(1, row, col).contains(
            p,
        ) by {
        lemma_glider_rule(0, p.0 - row, p.1 - col);
    }
    assert forall|p: (int, int)|
        plane_step(glider_cells(1, row, col)).contains(p) == glider_cells(2, row, col).contains(
            p,
        ) by {
        lemma_glider_rule(1, p.0 - row, p.1 - col);
    }
    assert forall|p: (int, int)|
        plane_step(glider_cells(2, row, col)).contains(p) == glider_cells(3, row, col).contains(
            p,
        ) by {
        lemma_glider_rule(2, p.0 - row, p.1 - col);
    }
    assert forall|p: (int, int)|
        plane_step(glider_cells(3, row, col)).contains(p) == glider_cells(
            0,
            row + 1,
            col + 1,
        ).contains(p) by {
        lemma_glider_rule(3, p.0 - row, p.1 - col);
    }
    assert(plane_step(glider_cells(0, row, col)) =~= glider_cells(1, row, col));
    assert(plane_step(glider_cells(1, row, col)) =~= glider_cells(2, row, col));
    assert(plane_step(glider_cells(2, row, col)) =~= glider_cells(3, row, col));
    assert(plane_step(glider_cells(3, row, col)) =~= glider_cells(0, row + 1, col + 1));
}

/// A glider names five different cells, and placed on a board without a live
/// cell it makes exactly these alive.
pub proof fn lemma_glider_cells(width: nat, height: nat, row: int, col: int)
    requires
        1 <= row,
        row + 1 < height,
        1 <= col,
        col + 1 < width,
    ensures
        glider(row, col).len() == 5,
        glider(row, col).no_duplicates(),
        Grid::dead(width, height).set_all(glider(row, col)).live() == glider(row, col).to_set(),
        Grid::dead(width, height).set_all(glider(row, col)).live().len() == 5,
{
    let cells = glider(row, col);
    assert(cells.no_duplicates());
    cells.unique_seq_to_set();
    Grid::lemma_set_all_on_dead(width, height, cells);
    lemma_glider_generations(row, col);
    Grid::lemma_of_live_live(width, height, cells.to_set());
}

/// A glider alone on a board, at least two cells from the top and left edges
/// and three from the bottom and right edges, is after four generations the
/// same glider one row down and one column to the right.
pub proof fn lemma_glider_moves(width: nat, height: nat, row: int, col: int)
    requires
        2 <= row,
        row + 4 <= height,
        2 <= col,
        col + 4 <= width,
    ensures
        Grid::dead(width, height).set_all(glider(row, col)).step().step().step().step()
            == Grid::dead(width, height).set_all(glider(row + 1, col + 1)),
{
    lemma_glider_generations(row, col);
    lemma_glider_generations(row + 1, col + 1);
    Grid::lemma_set_all_on_dead(width, height, glider(row, col));
    Grid::lemma_set_all_on_dead(width, height, glider(row + 1, col + 1));
    Grid::lemma_step_away_from_edges(width, height, glider_cells(0, row, col));
    Grid::lemma_step_away_from_edges(width, height, glider_cells(1, row, col));
    Grid::lemma_step_away_from_edges(width, height, glider_cells(2, row, col));
    Grid::lemma_step_away_from_edges(width, height, glider_cells(3, row, col));
}

/// The distance of an offset from the anchor along one axis.
spec fn distance(offset: int) -> int {
    if offset < 0 {
        -offset
    } else {
        offset
    }
}

/// Whether the cell at the offset `(dr, dc)` from the centre of a pulsar is
/// alive, `generation` generations (zero to two) after the pulsar was placed.
/// Each form is the same in all four quadrants.
spec fn pulsar_at(generation: int, dr: int, dc: int) -> bool {
    let a = distance(dr);
    let b = distance(dc);
    if generation == 0 {
        ((a == 1 || a == 6) && 2 <= b <= 4) || (2 <= a <= 4 && (b == 1 || b == 6))
    } else if generation == 1 {
        (a == 1 && (b == 2 || b == 3)) || (a == 2 && (b == 1 || b == 3 || b == 5)) || (a == 3 && (b
            == 1 || b == 2 || 5 <= b <= 7)) || (a == 5 && (b == 2 || b == 3)) || ((a == 6 || a == 7)
            && b == 3)
    } else {
        (a == 1 && 2 <= b <= 4) || (a == 2 && (b == 1 || b == 3 || b == 5)) || (a == 3 && (b == 1
            || b == 2 || 4 <= b <= 6)) || (a == 4 && (b == 1 || b == 3 || b == 6)) || (a == 5 && (b
            == 2 || b == 3)) || (a == 6 && (b == 3 || b == 4))
    }
}

/// The number of live cells around the offset `(dr, dc)` of a pulsar.
spec fn pulsar_neighbors(generation: int, dr: int, dc: int) -> int {
    one_if(pulsar_at(generation, dr - 1, dc - 1)) + one_if(pulsar_at(generation, dr - 1, dc))
        + one_if(pulsar_at(generation, dr - 1, dc + 1)) + one_if(pulsar_at(generation, dr, dc - 1))
        + one_if(pulsar_at(generation, dr, dc + 1)) + one_if(
        pulsar_at(generation, dr + 1, dc - 1),
    ) + one_if(pulsar_at(generation, dr + 1, dc)) + one_if(pulsar_at(generation, dr + 1, dc + 1))
}

/// The positions of the live cells of the pulsar around `(row, col)`,
/// `generation` generations after it was placed.
spec fn pulsar_cells(generation: int, row: int, col: int) -> Set<(int, int)> {
    Set::new(|p: (int, int)| pulsar_at(generation, p.0 - row, p.1 - col))
}

/// The rule takes each of the three forms of a pulsar to the next, and the
/// last to the first.
proof fn lemma_pulsar_rule(generation: int, dr: int, dc: int)
    requires
        0 <= generation <= 2,
    ensures
        survives(pulsar_at(generation, dr, dc), pulsar_neighbors(generation, dr, dc)) == pulsar_at(
            if generation == 2 {
                0
            } else {
                generation + 1
            },
            dr,
            dc,
        ),
{
}

/// The first form of a pulsar is the list of cells that places it.
proof fn lemma_pulsar_placed(row: int, col: int)
    ensures
        pulsar_cells(0, row, col) == pulsar(row, col).to_set(),
{
    broadcast use {lemma_seq_contains_after_push, lemma_seq_empty_contains_nothing};

    assert(pulsar_cells(0, row, col) =~= pulsar(row, col).to_set());
}

/// Every cell of a pulsar is within six rows and six columns of its centre.
proof fn lemma_pulsar_on_board(width: nat, height: nat, row: int, col: int)
    requires
        6 <= row,
        row + 6 < height,
        6 <= col,
        col + 6 < width,
    ensures
        forall|k: int|
            0 <= k < pulsar(row, col).len() ==> 0 <= (#[trigger] pulsar(row, col)[k]).0 < height
                && 0 <= pulsar(row, col)[k].1 < width,
{
}

/// Every live cell of a pulsar, in each of its forms, is within seven rows
/// and seven columns of its centre.
proof fn lemma_pulsar_extent(generation: int, row: int, col: int)
    requires
        0 <= generation <= 2,
    ensures
        within(pulsar_cells(generation, row, col), row - 7, col - 7, row + 7, col + 7),
{
}

/// On the plane one generation takes each form of a pulsar to the next, and
/// the last to the first.
proof fn lemma_pulsar_generation(generation: int, row: int, col: int)
    requires
        0 <= generation <= 2,
    ensures
        plane_step(pulsar_cells(generation, row, col)) == pulsar_cells(
            if generation == 2 {
                0
            } else {
                generation + 1
            },
            row,
            col,
        ),
{
    let next = if generation == 2 {
        0
    } else {
        generation + 1
    };
    assert forall|p: (int, int)|
        plane_step(pulsar_cells(generation, row, col)).contains(p) == pulsar_cells(
            next,
            row,
            col,
        ).contains(p) by {
        lemma_pulsar_rule(generation, p.0 - row, p.1 - col);
    }
    assert(plane_step(pulsar_cells(generation, row, col)) =~= pulsar_cells(next, row, col));
}

/// A pulsar alone on a board, its centre at least eight cells from every
/// edge, is after three generations the pulsar it was.
pub proof fn lemma_pulsar_returns(width: nat, height: nat, row: int, col: int)
    requires
        8 <= row,
        row + 8 < height,
        8 <= col,
        col + 8 < width,
    ensures
        Grid::dead(width, height).set_all(pulsar(row, col)).step().step().step() == Grid::dead(
            width,
            height,
        ).set_all(pulsar(row, col)),
{
    lemma_pulsar_placed(row, col);
    lemma_pulsar_generation(0, row, col);
    lemma_pulsar_generation(1, row, col);
    lemma_pulsar_generation(2, row, col);
    lemma_pulsar_extent(0, row, col);
    lemma_pulsar_extent(1, row, col);
    lemma_pulsar_extent(2, row, col);
    lemma_pulsar_on_board(width, height, row, col);
    Grid::lemma_set_all_on_dead(width, height, pulsar(row, col));
    Grid::lemma_step_away_from_edges(width, height, pulsar_cells(0, row, col));
    Grid::lemma_step_away_from_edges(width, height, pulsar_cells(1, row, col));
    Grid::lemma_step_away_from_edges(width, height, pulsar_cells(2, row, col));
}

/// A pulsar names forty-eight different cells, and placed on a board without
/// a live cell it makes exactly these alive.
pub proof fn lemma_pulsar_cells(width: nat, height: nat, row: int, col: int)
    requires
        6 <= row,
        row + 6 < height,
        6 <= col,
        col + 6 < width,
    ensures
        pulsar(row, col).len() == 48,
        pulsar(row, col).no_duplicates(),
        Grid::dead(width, height).set_all(pulsar(row, col)).live() == pulsar(row, col).to_set(),
        Grid::dead(width, height).set_all(pulsar(row, col)).live().len() == 48,
{
    let cells = pulsar(row, col);
    assert(cells.no_duplicates());
    cells.unique_seq_to_set();
    lemma_pulsar_on_board(width, height, row, col);
    Grid::lemma_set_all_on_dead(width, height, cells);
    lemma_pulsar_placed(row, col);
    lemma_pulsar_extent(0, row, col);
    Grid::lemma_of_live_live(width, height, cells.to_set());
}

} // verus!
