//! The mathematical model of a generation: dimensions and cells, with the
//! neighbour count, the transition rule and the textual picture defined over
//! unbounded integers.

use vstd::prelude::*;
use vstd::arithmetic::div_mod::{
    lemma_div_pos_is_pos, lemma_fundamental_div_mod, lemma_fundamental_div_mod_converse,
    lemma_mod_bound, lemma_multiply_divide_lt,
};

verus! {

/// One generation: a `width` by `height` field whose cells are stored row by
/// row, the cell at column `x` of row `y` at index `y * width + x`.
#[verifier::ext_equal]
pub struct Field {
    pub width: int,
    pub height: int,
    pub cells: Seq<bool>,
}

/// What one cell adds to a neighbour count.
pub open spec fn weight(alive: bool) -> int {
    if alive {
        1
    } else {
        0
    }
}

/// Conway's rule: a live cell stays alive with two or three live neighbours,
/// a dead cell comes alive with exactly three.
pub open spec fn lives_on(alive: bool, neighbours: int) -> bool {
    if alive {
        neighbours == 2 || neighbours == 3
    } else {
        neighbours == 3
    }
}

/// The character that stands for a cell in the picture.
pub open spec fn glyph(alive: bool) -> char {
    if alive {
        '*'
    } else {
        ' '
    }
}

impl Field {
    /// The dimensions are not negative and there is one cell per position.
    pub open spec fn wf(self) -> bool {
        &&& 0 <= self.width
        &&& 0 <= self.height
        &&& self.cells.len() == self.width * self.height
    }

    /// Whether `(x, y)` is a position of the field.
    pub open spec fn inside(self, x: int, y: int) -> bool {
        0 <= x < self.width && 0 <= y < self.height
    }

    /// Whether the cell at `(x, y)` is alive. Every position outside the field
    /// is dead.
    pub open spec fn alive(self, x: int, y: int) -> bool {
        self.inside(x, y) && self.cells[y * self.width + x]
    }

    /// The number of live cells among the eight positions around `(x, y)`.
    pub open spec fn neighbours(self, x: int, y: int) -> int {
        weight(self.alive(x - 1, y - 1)) + weight(self.alive(x - 1, y)) + weight(
            self.alive(x - 1, y + 1),
        ) + weight(self.alive(x, y - 1)) + weight(self.alive(x, y + 1)) + weight(
            self.alive(x + 1, y - 1),
        ) + weight(self.alive(x + 1, y)) + weight(self.alive(x + 1, y + 1))
    }

    /// Whether the cell at `(x, y)` is alive in the next generation.
    pub open spec fn alive_next(self, x: int, y: int) -> bool {
        lives_on(self.alive(x, y), self.neighbours(x, y))
    }

    /// The next generation: the same dimensions, and every cell decided by the
    /// rule from this generation alone.
    pub open spec fn step(self) -> Field {
        Field {
            width: self.width,
            height: self.height,
            cells: Seq::new(
                self.cells.len(),
                |i: int| self.alive_next(i % self.width, i / self.width),
            ),
        }
    }

    /// Row `y` of the picture: one glyph per column.
    pub open spec fn row(self, y: int) -> Seq<char> {
        Seq::new(self.width as nat, |x: int| glyph(self.alive(x, y)))
    }

    /// The first `n` rows of the picture, with a line break between each two.
    pub open spec fn rows(self, n: int) -> Seq<char>
        decreases n,
    {
        if n <= 0 {
            Seq::empty()
        } else if n == 1 {
            self.row(0)
        } else {
            self.rows(n - 1) + seq!['\n'] + self.row(n - 1)
        }
    }

    /// The picture of the whole field: its rows from the top, joined by line
    /// breaks, with none after the last.
    pub open spec fn rendered(self) -> Seq<char> {
        self.rows(self.height)
    }

    /// Where in the picture the glyph of the cell at `(x, y)` stands: each row
    /// takes `width` glyphs and one line break. With `x == width` this is the
    /// place of the line break behind row `y`.
    pub open spec fn offset(self, x: int, y: int) -> int {
        y * (self.width + 1) + x
    }

    /// The layout of the first `n` rows of the picture.
    pub proof fn lemma_rows_layout(self, n: int)
        requires
            self.wf(),
            0 <= n <= self.height,
        ensures
            self.rows(n).len() == if n == 0 {
                0
            } else {
                n * (self.width + 1) - 1
            },
            forall|x: int, y: int|
                0 <= x < self.width && 0 <= y < n ==> 0 <= #[trigger] self.offset(x, y)
                    < self.rows(n).len() && self.rows(n)[self.offset(x, y)] == glyph(
                    self.alive(x, y),
                ),
            forall|y: int|
                0 <= y < n - 1 ==> 0 <= #[trigger] self.offset(self.width, y) < self.rows(n).len()
                    && self.rows(n)[self.offset(self.width, y)] == '\n',
        decreases n,
    {
        let w = self.width;
        if n >= 2 {
            self.lemma_rows_layout(n - 1);
            let before = self.rows(n - 1);
            assert(n * (w + 1) == (n - 1) * (w + 1) + (w + 1)) by (nonlinear_arith);
            assert((n - 1) * (w + 1) == (n - 2) * (w + 1) + (w + 1)) by (nonlinear_arith);
            assert(before.len() == self.offset(w, n - 2));
            assert forall|x: int, y: int| 0 <= x < w && 0 <= y < n implies 0
                <= #[trigger] self.offset(x, y) < self.rows(n).len() && self.rows(n)[self.offset(
                x,
                y,
            )] == glyph(self.alive(x, y)) by {
                if y == n - 1 {
                    assert(self.offset(x, y) == before.len() + 1 + x);
                    assert(self.row(n - 1)[x] == glyph(self.alive(x, y)));
                }
            }
            assert forall|y: int| 0 <= y < n - 1 implies 0 <= #[trigger] self.offset(w, y)
                < self.rows(n).len() && self.rows(n)[self.offset(w, y)] == '\n' by {
                if y == n - 2 {
                    assert(self.offset(w, y) == before.len());
                }
            }
        } else if n == 1 {
            assert(1 * (w + 1) == w + 1) by (nonlinear_arith);
            assert forall|x: int, y: int| 0 <= x < w && 0 <= y < n implies 0
                <= #[trigger] self.offset(x, y) < self.rows(n).len() && self.rows(n)[self.offset(
                x,
                y,
            )] == glyph(self.alive(x, y)) by {
                assert(0 * (w + 1) == 0) by (nonlinear_arith);
                assert(self.offset(x, y) == x);
            }
        }
    }

    /// The index of an inside position lies within the cells, and column and
    /// row are found again from it by remainder and quotient.
    pub proof fn lemma_index_of_position(self, x: int, y: int)
        requires
            self.wf(),
            self.inside(x, y),
        ensures
            0 <= y * self.width,
            0 <= y * self.width + x < self.cells.len(),
            (y * self.width + x) % self.width == x,
            (y * self.width + x) / self.width == y,
    {
        let w = self.width;
        let h = self.height;
        assert(0 <= y * w && (y + 1) * w <= h * w && (y + 1) * w == y * w + w && h * w == w * h)
            by (nonlinear_arith)
            requires
                0 <= y < h,
                0 < w,
        ;
        lemma_fundamental_div_mod_converse(y * w + x, w, y, x);
    }

    /// Every index within the cells is that of exactly one inside position.
    pub proof fn lemma_position_of_index(self, i: int)
        requires
            self.wf(),
            0 <= i < self.cells.len(),
        ensures
            self.inside(i % self.width, i / self.width),
            (i / self.width) * self.width + i % self.width == i,
    {
        let w = self.width;
        let h = self.height;
        assert(w > 0) by (nonlinear_arith)
            requires
                0 <= w,
                0 <= h,
                0 <= i < w * h,
        ;
        lemma_fundamental_div_mod(i, w);
        lemma_mod_bound(i, w);
        lemma_div_pos_is_pos(i, w);
        lemma_multiply_divide_lt(i, w, h);
        assert(w * (i / w) == (i / w) * w) by (nonlinear_arith);
    }
}

} // verus!
