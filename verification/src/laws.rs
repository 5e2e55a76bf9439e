//! What holds of every grid: the laws of indexing, of the transition rule,
//! of the torus and of the two edits, each proved from the model in `grid`.

use crate::grid::{in_spaceship, next_state, Grid};
use vstd::arithmetic::div_mod::{lemma_mod_add_multiples_vanish, lemma_small_mod};
use vstd::prelude::*;

verus! {

/// `index` is a bijection between the cells of a grid and the positions
/// `0..width * height`: it maps every cell to such a position, `row_of` and
/// `col_of` map every such position to a cell, and the two undo each other.
/// So two cells with the same position are the same cell.
pub proof fn lemma_index_bijection(grid: Grid)
    ensures
        forall|row: int, col: int|
            grid.contains(row, col) ==> {
                &&& 0 <= #[trigger] grid.index(row, col) < grid.width * grid.height
                &&& grid.row_of(grid.index(row, col)) == row
                &&& grid.col_of(grid.index(row, col)) == col
            },
        forall|i: int|
            0 <= i < grid.width * grid.height ==> {
                &&& grid.contains(#[trigger] grid.row_of(i), grid.col_of(i))
                &&& grid.index(grid.row_of(i), grid.col_of(i)) == i
            },
        forall|r1: int, c1: int, r2: int, c2: int|
            grid.contains(r1, c1) && grid.contains(r2, c2) && #[trigger] grid.index(r1, c1)
                == #[trigger] grid.index(r2, c2) ==> r1 == r2 && c1 == c2,
{
    assert forall|row: int, col: int| grid.contains(row, col) implies {
        &&& 0 <= #[trigger] grid.index(row, col) < grid.width * grid.height
        &&& grid.row_of(grid.index(row, col)) == row
        &&& grid.col_of(grid.index(row, col)) == col
    } by {
        grid.lemma_index(row, col);
    }
    assert forall|i: int| 0 <= i < grid.width * grid.height implies {
        &&& grid.contains(#[trigger] grid.row_of(i), grid.col_of(i))
        &&& grid.index(grid.row_of(i), grid.col_of(i)) == i
    } by {
        grid.lemma_position(i);
    }
}

/// The neighbors of a cell are taken on a torus: above the first row lies
/// the last, below the last the first, and so for the columns.
pub proof fn lemma_wraparound(grid: Grid, row: int, col: int)
    requires
        grid.contains(row, col),
    ensures
        (row - 1) % (grid.height as int) == if row == 0 {
            grid.height - 1
        } else {
            row - 1
        },
        (row + 1) % (grid.height as int) == if row == grid.height - 1 {
            0
        } else {
            row + 1
        },
        (col - 1) % (grid.width as int) == if col == 0 {
            grid.width - 1
        } else {
            col - 1
        },
        (col + 1) % (grid.width as int) == if col == grid.width - 1 {
            0
        } else {
            col + 1
        },
{
    lemma_wrap(row, grid.height as int);
    lemma_wrap(col, grid.width as int);
}

/// One step off `x` in either direction on a cycle of `n` places.
proof fn lemma_wrap(x: int, n: int)
    requires
        0 <= x < n,
    ensures
        (x - 1) % n == if x == 0 {
            n - 1
        } else {
            x - 1
        },
        (x + 1) % n == if x == n - 1 {
            0
        } else {
            x + 1
        },
{
    if x == 0 {
        lemma_mod_add_multiples_vanish(-1, n);
        lemma_small_mod((n - 1) as nat, n as nat);
    } else {
        lemma_small_mod((x - 1) as nat, n as nat);
    }
    if x == n - 1 {
        lemma_mod_add_multiples_vanish(0, n);
        lemma_small_mod(0, n as nat);
    } else {
        lemma_small_mod((x + 1) as nat, n as nat);
    }
}

/// The cell in the first row and column has the cell in the last row and
/// column as its upper left neighbor, and counts it when it is alive.
pub proof fn lemma_corner_neighbor(grid: Grid)
    requires
        grid.width > 0,
        grid.height > 0,
    ensures
        grid.neighbor(0, 0, -1, -1) == grid.alive(grid.height - 1, grid.width - 1),
        grid.alive(grid.height - 1, grid.width - 1) ==> grid.live_neighbors(0, 0) >= 1,
{
    lemma_wraparound(grid, 0, 0);
}

/// A step keeps the size of the grid, and the state of each cell after it
/// is `next_state` of the cell's state and neighbor count before it.
pub proof fn lemma_step_cell(grid: Grid, row: int, col: int)
    requires
        grid.wf(),
        grid.contains(row, col),
    ensures
        grid.step().wf(),
        grid.step().alive(row, col) == next_state(
            grid.alive(row, col),
            grid.live_neighbors(row, col),
        ),
{
    grid.lemma_index(row, col);
}

/// Underpopulation: a live cell with fewer than two live neighbors is dead
/// after a step.
pub proof fn lemma_underpopulation(grid: Grid, row: int, col: int)
    requires
        grid.wf(),
        grid.contains(row, col),
        grid.alive(row, col),
        grid.live_neighbors(row, col) < 2,
    ensures
        !grid.step().alive(row, col),
{
    lemma_step_cell(grid, row, col);
}

/// Survival: a live cell with two or three live neighbors is alive after a
/// step.
pub proof fn lemma_survival(grid: Grid, row: int, col: int)
    requires
        grid.wf(),
        grid.contains(row, col),
        grid.alive(row, col),
        grid.live_neighbors(row, col) == 2 || grid.live_neighbors(row, col) == 3,
    ensures
        grid.step().alive(row, col),
{
    lemma_step_cell(grid, row, col);
}

/// Overpopulation: a live cell with more than three live neighbors is dead
/// after a step.
pub proof fn lemma_overpopulation(grid: Grid, row: int, col: int)
    requires
        grid.wf(),
        grid.contains(row, col),
        grid.alive(row, col),
        grid.live_neighbors(row, col) > 3,
    ensures
        !grid.step().alive(row, col),
{
    lemma_step_cell(grid, row, col);
}

/// Reproduction: a dead cell is alive after a step if and only if it has
/// exactly three live neighbors.
pub proof fn lemma_reproduction(grid: Grid, row: int, col: int)
    requires
        grid.wf(),
        grid.contains(row, col),
        !grid.alive(row, col),
    ensures
        grid.step().alive(row, col) <==> grid.live_neighbors(row, col) == 3,
{
    lemma_step_cell(grid, row, col);
}

/// A toggle flips the cell it names and no other.
pub proof fn lemma_toggle_cell(grid: Grid, row: int, col: int)
    requires
        grid.wf(),
        grid.contains(row, col),
    ensures
        grid.toggle(row, col).wf(),
        grid.toggle(row, col).alive(row, col) == !grid.alive(row, col),
        forall|r: int, c: int|
            grid.contains(r, c) && !(r == row && c == col) ==> #[trigger] grid.toggle(
                row,
                col,
            ).alive(r, c) == grid.alive(r, c),
{
    grid.lemma_index(row, col);
    assert forall|r: int, c: int|
        grid.contains(r, c) && !(r == row && c == col) implies #[trigger] grid.toggle(
        row,
        col,
    ).alive(r, c) == grid.alive(r, c) by {
        grid.lemma_index(r, c);
    }
}

/// Two toggles of one cell give the grid back.
pub proof fn lemma_toggle_twice(grid: Grid, row: int, col: int)
    requires
        grid.wf(),
        grid.contains(row, col),
    ensures
        grid.toggle(row, col).toggle(row, col) == grid,
{
    grid.lemma_index(row, col);
    assert(grid.toggle(row, col).toggle(row, col).cells =~= grid.cells);
}

/// After a stamp whose five cells lie inside the grid, those five are
/// alive, and every other cell is as it was.
pub proof fn lemma_stamp(grid: Grid, row: int, col: int)
    requires
        grid.wf(),
        1 <= row,
        row + 1 < grid.height,
        1 <= col,
        col + 1 < grid.width,
    ensures
        grid.stamp(row, col).wf(),
        grid.stamp(row, col).alive(row, col),
        grid.stamp(row, col).alive(row - 1, col - 1),
        grid.stamp(row, col).alive(row + 1, col - 1),
        grid.stamp(row, col).alive(row, col + 1),
        grid.stamp(row, col).alive(row + 1, col),
        forall|r: int, c: int|
            grid.contains(r, c) && !in_spaceship(row, col, r, c) ==> #[trigger] grid.stamp(
                row,
                col,
            ).alive(r, c) == grid.alive(r, c),
{
    grid.lemma_index(row, col);
    grid.lemma_index(row - 1, col - 1);
    grid.lemma_index(row + 1, col - 1);
    grid.lemma_index(row, col + 1);
    grid.lemma_index(row + 1, col);
    assert forall|r: int, c: int|
        grid.contains(r, c) && !in_spaceship(row, col, r, c) implies #[trigger] grid.stamp(
        row,
        col,
    ).alive(r, c) == grid.alive(r, c) by {
        grid.lemma_index(r, c);
    }
}

} // verus!
