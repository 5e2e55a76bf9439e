//! The mathematical model of one generation.
//!
//! A [`Grid`] is a width, a height and a row-major sequence of cell states.
//! Every operation of the engine is a spec function here; the executable
//! code in `universe` is proved to compute exactly these functions.

use vstd::arithmetic::div_mod::{
    lemma_fundamental_div_mod,
    lemma_fundamental_div_mod_converse,
    lemma_mod_bound,
};
use vstd::arithmetic::mul::{lemma_mul_inequality, lemma_mul_is_commutative};
use vstd::prelude::*;

verus! {

/// One generation: `cells[row * width + col]` is the state of the cell at
/// `(row, col)`, `true` for alive.
#[verifier::ext_equal]
pub struct Grid {
    pub width: nat,
    pub height: nat,
    pub cells: Seq<bool>,
}

/// The transition rule: a cell is alive in the next generation if it has
/// exactly three live neighbors, or if it is alive and has exactly two.
pub open spec fn next_state(alive: bool, neighbors: nat) -> bool {
    neighbors == 3 || (alive && neighbors == 2)
}

/// What one cell adds to a neighbor count.
pub open spec fn population(alive: bool) -> nat {
    if alive {
        1
    } else {
        0
    }
}

/// The character that renders a cell.
pub open spec fn glyph(alive: bool) -> char {
    if alive {
        '\u{25FC}'
    } else {
        '\u{25FB}'
    }
}

/// Whether `(r, c)` is one of the five cells of the spaceship pattern
/// anchored at `(row, col)`.
pub open spec fn in_spaceship(row: int, col: int, r: int, c: int) -> bool {
    ||| (r == row && c == col)
    ||| (r == row - 1 && c == col - 1)
    ||| (r == row + 1 && c == col - 1)
    ||| (r == row && c == col + 1)
    ||| (r == row + 1 && c == col)
}

impl Grid {
    /// There is exactly one state per position.
    pub open spec fn wf(self) -> bool {
        self.cells.len() == self.width * self.height
    }

    /// Whether `(row, col)` names a cell of this grid.
    pub open spec fn contains(self, row: int, col: int) -> bool {
        0 <= row < self.height && 0 <= col < self.width
    }

    /// The position of `(row, col)` in `cells`.
    pub open spec fn index(self, row: int, col: int) -> int {
        row * self.width + col
    }

    /// The row of the cell at position `i`.
    pub open spec fn row_of(self, i: int) -> int {
        i / (self.width as int)
    }

    /// The column of the cell at position `i`.
    pub open spec fn col_of(self, i: int) -> int {
        i % (self.width as int)
    }

    /// The state of the cell at `(row, col)`.
    pub open spec fn alive(self, row: int, col: int) -> bool {
        self.cells[self.index(row, col)]
    }

    /// The state of the cell `d_row` rows below and `d_col` columns right of
    /// `(row, col)` on the torus.
    pub open spec fn neighbor(self, row: int, col: int, d_row: int, d_col: int) -> bool {
        self.alive((row + d_row) % (self.height as int), (col + d_col) % (self.width as int))
    }

    /// The number of live cells among the eight neighbors of `(row, col)`
    /// on the torus. A grid narrower or lower than three cells reaches the
    /// same cell by more than one offset, and counts it once per offset.
    pub open spec fn live_neighbors(self, row: int, col: int) -> nat {
        population(self.neighbor(row, col, -1, -1))
            + population(self.neighbor(row, col, -1, 0))
            + population(self.neighbor(row, col, -1, 1))
            + population(self.neighbor(row, col, 0, -1))
            + population(self.neighbor(row, col, 0, 1))
            + population(self.neighbor(row, col, 1, -1))
            + population(self.neighbor(row, col, 1, 0))
            + population(self.neighbor(row, col, 1, 1))
    }

    /// The next generation: every cell follows `next_state` on its state and
    /// neighbor count in this generation.
    pub open spec fn step(self) -> Grid {
        Grid {
            width: self.width,
            height: self.height,
            cells: Seq::new(
                self.cells.len(),
                |i: int|
                    next_state(self.cells[i], self.live_neighbors(self.row_of(i), self.col_of(i))),
            ),
        }
    }

    /// This grid with the state of `(row, col)` flipped.
    pub open spec fn toggle(self, row: int, col: int) -> Grid {
        Grid {
            width: self.width,
            height: self.height,
            cells: self.cells.update(self.index(row, col), !self.alive(row, col)),
        }
    }

    /// This grid with the five cells of the spaceship anchored at
    /// `(row, col)` alive.
    pub open spec fn stamp(self, row: int, col: int) -> Grid {
        Grid {
            width: self.width,
            height: self.height,
            cells: Seq::new(
                self.cells.len(),
                |i: int| self.cells[i] || in_spaceship(row, col, self.row_of(i), self.col_of(i)),
            ),
        }
    }

    /// The rendering: for each row its glyphs in column order, then a
    /// newline.
    pub open spec fn text(self) -> Seq<char> {
        let line = self.width as int + 1;
        Seq::new(
            self.height * (self.width + 1),
            |k: int|
                if k % line == self.width {
                    '\n'
                } else {
                    glyph(self.alive(k / line, k % line))
                },
        )
    }

    /// A cell's position lies in `0..width * height`, and `row_of` and
    /// `col_of` give its coordinates back.
    pub proof fn lemma_index(self, row: int, col: int)
        requires
            self.contains(row, col),
        ensures
            0 <= self.index(row, col) < self.width * self.height,
            self.row_of(self.index(row, col)) == row,
            self.col_of(self.index(row, col)) == col,
    {
        let w = self.width as int;
        let h = self.height as int;
        assert(row * w + col < w * h) by {
            lemma_mul_inequality(row + 1, h, w);
            assert((row + 1) * w == row * w + w) by (nonlinear_arith);
            lemma_mul_is_commutative(h, w);
        }
        assert(0 <= row * w) by (nonlinear_arith)
            requires
                0 <= row,
                0 <= w,
        ;
        lemma_fundamental_div_mod_converse(self.index(row, col), w, row, col);
    }

    /// The character of the rendering that stands for column `col` of row
    /// `row`, where column `width` is the newline that ends the row.
    pub proof fn lemma_text_at(self, row: int, col: int)
        requires
            0 <= row < self.height,
            0 <= col <= self.width,
        ensures
            0 <= row * (self.width + 1) + col < self.text().len(),
            self.text()[row * (self.width + 1) + col] == if col == self.width {
                '\n'
            } else {
                glyph(self.alive(row, col))
            },
    {
        let lines = Grid { width: self.width + 1, height: self.height, cells: self.cells };
        lines.lemma_index(row, col);
        lemma_mul_is_commutative(self.height as int, self.width as int + 1);
    }

    /// Every position in `0..width * height` is the position of the cell
    /// at its `row_of` and `col_of`.
    pub proof fn lemma_position(self, i: int)
        requires
            0 <= i < self.width * self.height,
        ensures
            self.contains(self.row_of(i), self.col_of(i)),
            self.index(self.row_of(i), self.col_of(i)) == i,
    {
        let w = self.width as int;
        let h = self.height as int;
        assert(w > 0) by (nonlinear_arith)
            requires
                0 <= i < w * h,
                0 <= w,
        ;
        lemma_fundamental_div_mod(i, w);
        lemma_mod_bound(i, w);
        let q = i / w;
        assert(0 <= q < h) by (nonlinear_arith)
            requires
                0 <= i < w * h,
                i == w * q + i % w,
                0 <= i % w < w,
                0 < w,
        ;
        lemma_mul_is_commutative(w, q);
    }
}

} // verus!
