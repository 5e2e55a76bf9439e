//! The executable engine: a grid of fixed size stored as packed bits.

use crate::bitset::{bit_at, bits_of, packs};
use crate::cell::Cell;
use crate::grid::{glyph, next_state, population, Grid};
use fixedbitset::FixedBitSet;
use vstd::arithmetic::div_mod::{lemma_mod_add_multiples_vanish, lemma_small_mod};
use vstd::arithmetic::mul::lemma_mul_is_commutative;
use vstd::prelude::*;
use vstd::string::StringExecFns;

verus! {

/// A Game of Life grid on a torus. Its size is fixed when it is made; its
/// cells change by `tick`, `toggle_cell` and `add_spaceship`.
pub struct Universe {
    width: u32,
    height: u32,
    cells: FixedBitSet,
}

/// `(x + delta) % n`, computed without overflow.
fn wrap_add(x: u32, delta: u32, n: u32) -> (wrapped: u32)
    requires
        n > 0,
    ensures
        wrapped == (x + delta) % (n as int),
        wrapped < n,
{
    ((x as u64 + delta as u64) % (n as u64)) as u32
}

/// The state that follows `cell` in a neighborhood of `live_neighbors` live
/// cells.
fn next_cell_state(cell: bool, live_neighbors: u8) -> (alive: bool)
    ensures
        alive == next_state(cell, live_neighbors as nat),
{
    match (cell, live_neighbors) {
        // A live cell with fewer than two live neighbors dies.
        (true, x) if x < 2 => false,
        // A live cell with two or three live neighbors lives on.
        (true, 2) | (true, 3) => true,
        // A live cell with more than three live neighbors dies.
        (true, x) if x > 3 => false,
        // A dead cell with exactly three live neighbors comes alive.
        (false, 3) => true,
        // Every other cell keeps its state.
        (otherwise, _) => otherwise,
    }
}

/// The text that renders one cell.
fn glyph_of(cell: Cell) -> (text: &'static str)
    ensures
        text@ == seq![glyph(cell.is_alive())],
{
    proof {
        reveal_strlit("\u{25FC}");
        reveal_strlit("\u{25FB}");
    }
    match cell {
        Cell::Alive => "\u{25FC}",
        Cell::Dead => "\u{25FB}",
    }
}

impl View for Universe {
    type V = Grid;

    closed spec fn view(&self) -> Grid {
        Grid {
            width: self.width as nat,
            height: self.height as nat,
            cells: bits_of(self.cells),
        }
    }
}

impl Universe {
    /// The bit set holds one bit per position, and every position fits in
    /// a `usize`.
    #[verifier::type_invariant]
    spec fn inv(&self) -> bool {
        &&& bits_of(self.cells).len() == self.width * self.height
        &&& self.width * self.height <= usize::MAX
    }

    /// A grid of `width` columns and `height` rows. The caller chooses the
    /// first generation: `alive` holds one state per cell in row-major
    /// order, `true` for alive.
    pub fn new(width: u32, height: u32, alive: &[bool]) -> (universe: Universe)
        requires
            alive@.len() == width * height,
        ensures
            universe@ == (Grid { width: width as nat, height: height as nat, cells: alive@ }),
    {
        let size = alive.len();
        let mut cells = FixedBitSet::with_capacity(size);
        let mut i: usize = 0;
        while i < size
            invariant
                size == alive@.len(),
                i <= size,
                bits_of(cells).len() == size,
                forall|k: int| 0 <= k < i ==> bits_of(cells)[k] == alive@[k],
            decreases size - i,
        {
            cells.set(i, alive[i]);
            i += 1;
        }
        assert(bits_of(cells) =~= alive@);
        Universe { width, height, cells }
    }

    /// The number of columns. The grid holds one cell per position.
    pub fn width(&self) -> (width: u32)
        ensures
            width == self@.width,
            self@.wf(),
    {
        proof {
            use_type_invariant(self);
        }
        self.width
    }

    /// The number of rows. The grid holds one cell per position.
    pub fn height(&self) -> (height: u32)
        ensures
            height == self@.height,
            self@.wf(),
    {
        proof {
            use_type_invariant(self);
        }
        self.height
    }

    /// The position of the cell at `(row, col)` in row-major order.
    pub fn get_index(&self, row: u32, col: u32) -> (index: usize)
        requires
            self@.contains(row as int, col as int),
        ensures
            index == self@.index(row as int, col as int),
            index < self@.cells.len(),
    {
        proof {
            use_type_invariant(self);
            self@.lemma_index(row as int, col as int);
            assert(0 <= row * self.width <= row * self.width + col) by (nonlinear_arith);
        }
        row as usize * self.width as usize + col as usize
    }

    /// The state of the cell at `(row, col)`.
    pub fn cell(&self, row: u32, col: u32) -> (cell: Cell)
        requires
            self@.contains(row as int, col as int),
        ensures
            cell == Cell::of(self@.alive(row as int, col as int)),
    {
        let index = self.get_index(row, col);
        if bit_at(&self.cells, index) {
            Cell::Alive
        } else {
            Cell::Dead
        }
    }

    /// The number of live cells among the eight neighbors of `(row, col)`
    /// on the torus.
    pub fn live_neighbor_count(&self, row: u32, col: u32) -> (count: u8)
        requires
            self@.contains(row as int, col as int),
        ensures
            count == self@.live_neighbors(row as int, col as int),
            count <= 8,
    {
        let north = wrap_add(row, self.height - 1, self.height);
        let south = wrap_add(row, 1, self.height);
        let west = wrap_add(col, self.width - 1, self.width);
        let east = wrap_add(col, 1, self.width);
        proof {
            let h = self.height as int;
            let w = self.width as int;
            lemma_mod_add_multiples_vanish(row - 1, h);
            lemma_mod_add_multiples_vanish(col - 1, w);
            lemma_small_mod(row as nat, h as nat);
            lemma_small_mod(col as nat, w as nat);
        }
        let above = self.population_at(north, west) + self.population_at(north, col)
            + self.population_at(north, east);
        let beside = self.population_at(row, west) + self.population_at(row, east);
        let below = self.population_at(south, west) + self.population_at(south, col)
            + self.population_at(south, east);
        above + beside + below
    }

    /// What the cell at `(row, col)` adds to a neighbor count.
    fn population_at(&self, row: u32, col: u32) -> (count: u8)
        requires
            self@.contains(row as int, col as int),
        ensures
            count == population(self@.alive(row as int, col as int)),
    {
        let index = self.get_index(row, col);
        if bit_at(&self.cells, index) {
            1
        } else {
            0
        }
    }

    /// Advances the grid by one generation. Every cell is judged on the
    /// generation before the call: the new states are written to a second
    /// bit set, which replaces the first when all of them are there.
    pub fn tick(&mut self)
        ensures
            final(self)@ == old(self)@.step(),
    {
        proof {
            use_type_invariant(&*self);
        }
        let ghost before = self@;
        let mut next = self.cells.clone();
        let mut row: u32 = 0;
        while row < self.height
            invariant
                self@ == before,
                self.inv(),
                row <= self.height,
                bits_of(next).len() == self.width * self.height,
                forall|i: int|
                    0 <= i < row * self.width ==> bits_of(next)[i] == before.step().cells[i],
            decreases self.height - row,
        {
            let mut col: u32 = 0;
            while col < self.width
                invariant
                    self@ == before,
                    self.inv(),
                    row < self.height,
                    col <= self.width,
                    bits_of(next).len() == self.width * self.height,
                    forall|i: int|
                        0 <= i < row * self.width + col ==> bits_of(next)[i]
                            == before.step().cells[i],
                decreases self.width - col,
            {
                let index = self.get_index(row, col);
                let cell = bit_at(&self.cells, index);
                let live_neighbors = self.live_neighbor_count(row, col);
                proof {
                    before.lemma_index(row as int, col as int);
                }
                next.set(index, next_cell_state(cell, live_neighbors));
                col += 1;
            }
            assert(row * self.width + self.width == (row + 1) * self.width) by (nonlinear_arith);
            row += 1;
        }
        assert(bits_of(next) =~= before.step().cells);
        self.cells = next;
    }

    /// Flips the state of the cell at `(row, col)` and leaves every other
    /// cell as it is.
    pub fn toggle_cell(&mut self, row: u32, col: u32)
        requires
            old(self)@.contains(row as int, col as int),
        ensures
            final(self)@ == old(self)@.toggle(row as int, col as int),
    {
        proof {
            use_type_invariant(&*self);
        }
        let index = self.get_index(row, col);
        let mut next = self.cells.clone();
        let alive = bit_at(&self.cells, index);
        next.set(index, !alive);
        self.cells = next;
    }

    /// Makes the five cells of a spaceship alive: the cell at `(row, col)`
    /// and those at `(row - 1, col - 1)`, `(row + 1, col - 1)`,
    /// `(row, col + 1)` and `(row + 1, col)`. Every other cell stays as it
    /// is. The five cells must lie inside the grid: the pattern is not
    /// wrapped around its edges.
    pub fn add_spaceship(&mut self, row: u32, col: u32)
        requires
            1 <= row,
            row + 1 < old(self)@.height,
            1 <= col,
            col + 1 < old(self)@.width,
        ensures
            final(self)@ == old(self)@.stamp(row as int, col as int),
    {
        proof {
            use_type_invariant(&*self);
        }
        let ghost before = self@;
        let mut next = self.cells.clone();
        let center = self.get_index(row, col);
        let top_left = self.get_index(row - 1, col - 1);
        let right = self.get_index(row, col + 1);
        let bottom = self.get_index(row + 1, col);
        let bottom_left = self.get_index(row + 1, col - 1);
        next.set(center, true);
        next.set(top_left, true);
        next.set(bottom_left, true);
        next.set(right, true);
        next.set(bottom, true);
        proof {
            before.lemma_index(row as int, col as int);
            before.lemma_index(row - 1, col - 1);
            before.lemma_index(row as int, col + 1);
            before.lemma_index(row + 1, col as int);
            before.lemma_index(row + 1, col - 1);
            assert forall|i: int| 0 <= i < before.cells.len() implies bits_of(next)[i]
                == before.stamp(row as int, col as int).cells[i] by {
                before.lemma_position(i);
            }
            assert(bits_of(next) =~= before.stamp(row as int, col as int).cells);
        }
        self.cells = next;
    }

    /// The grid as text: one line per row, one glyph per cell, a newline
    /// after each row.
    pub fn render(&self) -> (text: String)
        ensures
            text@ == self@.text(),
    {
        let mut text = String::new();
        let mut row: u32 = 0;
        while row < self.height
            invariant
                row <= self.height,
                text@ == self@.text().take(row * (self.width + 1)),
            decreases self.height - row,
        {
            let mut col: u32 = 0;
            while col < self.width
                invariant
                    row < self.height,
                    col <= self.width,
                    text@ == self@.text().take(row * (self.width + 1) + col),
                decreases self.width - col,
            {
                let cell = self.cell(row, col);
                proof {
                    self@.lemma_text_at(row as int, col as int);
                }
                text.append(glyph_of(cell));
                assert(text@ =~= self@.text().take(row * (self.width + 1) + col + 1));
                col += 1;
            }
            proof {
                self@.lemma_text_at(row as int, col as int);
                reveal_strlit("\n");
                assert(row * (self.width + 1) + self.width + 1 == (row + 1) * (self.width + 1))
                    by (nonlinear_arith);
            }
            text.append("\n");
            assert(text@ =~= self@.text().take((row + 1) * (self.width + 1)));
            row += 1;
        }
        proof {
            lemma_mul_is_commutative(self.height as int, self.width as int + 1);
        }
        assert(text@ =~= self@.text());
        text
    }

    /// The packed bits of the current generation, 32 cells to a block in
    /// row-major order.
    pub fn cells(&self) -> (blocks: &[u32])
        ensures
            packs(blocks@, self@.cells),
    {
        self.cells.as_slice()
    }
}

} // verus!
