//! The executable grid. Each operation is proved against the model in
//! [`crate::field`].

use vstd::prelude::*;
use vstd::string::StringExecFns;
use crate::field::{glyph, weight, Field};
use crate::random::{next_bool, thread_rng};

verus! {

/// One generation of the game, held as machine integers and a vector of cells
/// in row-major order.
#[derive(Debug)]
pub struct Grid {
    width: isize,
    height: isize,
    cells: Vec<bool>,
}

impl View for Grid {
    type V = Field;

    closed spec fn view(&self) -> Field {
        Field { width: self.width as int, height: self.height as int, cells: self.cells@ }
    }
}

impl Clone for Grid {
    /// A copy with the same dimensions and the same cells.
    fn clone(&self) -> (copy: Grid)
        ensures
            copy@ == self@,
    {
        let copy = Grid { width: self.width, height: self.height, cells: self.cells.clone() };
        assert(copy@ =~= self@);
        copy
    }
}

impl Grid {
    /// The grid is well formed when its model is: no negative dimension, and
    /// `width * height` cells.
    pub open spec fn wf(&self) -> bool {
        self@.wf()
    }

    /// A grid of the given dimensions in which every cell is alive or dead by
    /// an independent draw from the thread's random generator. The contract
    /// fixes the shape of the grid and leaves the cells open, as chance does.
    /// The dimensions must not be negative, and their product must be an
    /// `isize`.
    pub fn new(width: isize, height: isize) -> (grid: Grid)
        requires
            0 <= width,
            0 <= height,
            width * height <= isize::MAX,
        ensures
            grid.wf(),
            grid@.width == width,
            grid@.height == height,
    {
        assert(0 <= width * height) by (nonlinear_arith)
            requires
                0 <= width,
                0 <= height,
        ;
        let mut rng = thread_rng();
        let mut cells: Vec<bool> = Vec::new();
        for i in 0..(width * height)
            invariant
                cells@.len() == i,
        {
            cells.push(next_bool(&mut rng));
        }
        Grid { width, height, cells }
    }

    /// The grid of the given dimensions that holds exactly the given cells,
    /// row by row, where there is one: the dimensions must not be negative and
    /// must call for as many cells as are given.
    pub fn from_cells(width: isize, height: isize, cells: Vec<bool>) -> (made: Option<Grid>)
        ensures
            made.is_some() <==> (0 <= width && 0 <= height && cells@.len() == width * height),
            made.is_some() ==> made.unwrap().wf() && made.unwrap()@ == (Field {
                width: width as int,
                height: height as int,
                cells: cells@,
            }),
    {
        if width < 0 || height < 0 {
            return None;
        }
        let given = cells.len();
        match (width as usize).checked_mul(height as usize) {
            Some(wanted) => {
                if wanted == given {
                    Some(Grid { width, height, cells })
                } else {
                    None
                }
            },
            None => None,
        }
    }

    /// The number of columns.
    pub fn width(&self) -> (w: isize)
        ensures
            w == self@.width,
    {
        self.width
    }

    /// The number of rows.
    pub fn height(&self) -> (h: isize)
        ensures
            h == self@.height,
    {
        self.height
    }

    /// The cells, row by row.
    pub fn cells(&self) -> (cells: &Vec<bool>)
        ensures
            cells@ == self@.cells,
    {
        &self.cells
    }

    /// Whether the cell at `(x, y)` is alive. Any position outside the grid,
    /// negative coordinates included, is dead.
    pub fn cell_at(&self, x: isize, y: isize) -> (alive: bool)
        requires
            self.wf(),
        ensures
            alive == self@.alive(x as int, y as int),
            !self@.inside(x as int, y as int) ==> !alive,
    {
        if x < 0 || y < 0 || x >= self.width || y >= self.height {
            return false;
        }
        proof {
            self@.lemma_index_of_position(x as int, y as int);
            assert(y * self.width + x < self.cells.len());
        }
        self.cells[y as usize * self.width as usize + x as usize]
    }

    /// Whether the cell one step from `(x, y)` in the direction `(dx, dy)` is
    /// alive. A step that leaves the range of the machine integers leaves the
    /// grid as well.
    fn cell_beside(&self, x: isize, y: isize, dx: isize, dy: isize) -> (alive: bool)
        requires
            self.wf(),
            -1 <= dx <= 1,
            -1 <= dy <= 1,
        ensures
            alive == self@.alive(x + dx, y + dy),
    {
        match (x.checked_add(dx), y.checked_add(dy)) {
            (Some(nx), Some(ny)) => self.cell_at(nx, ny),
            _ => false,
        }
    }

    /// The number of live cells among the eight positions around `(x, y)`.
    /// Positions outside the grid count as dead, so the border behaves as if
    /// the grid lay in an endless dead plane.
    pub fn neighbour_count(&self, x: isize, y: isize) -> (count: usize)
        requires
            self.wf(),
        ensures
            count == self@.neighbours(x as int, y as int),
            count <= 8,
    {
        let around: [bool; 8] = [
            self.cell_beside(x, y, -1, -1),
            self.cell_beside(x, y, -1, 0),
            self.cell_beside(x, y, -1, 1),
            self.cell_beside(x, y, 0, -1),
            self.cell_beside(x, y, 0, 1),
            self.cell_beside(x, y, 1, -1),
            self.cell_beside(x, y, 1, 0),
            self.cell_beside(x, y, 1, 1),
        ];
        let mut count: usize = 0;
        let mut k: usize = 0;
        while k < 8
            invariant
                k <= 8,
                count == live_among(around@, k as int),
                count <= k,
            decreases 8 - k,
        {
            if around[k] {
                count = count + 1;
            }
            k = k + 1;
        }
        proof {
            reveal_with_fuel(live_among, 9);
        }
        count
    }

    /// The next generation. Every cell is decided from this generation alone,
    /// which is left as it is; the result has the same dimensions.
    pub fn tick(&self) -> (next: Grid)
        requires
            self.wf(),
        ensures
            next.wf(),
            next@ == self@.step(),
    {
        let mut cells: Vec<bool> = Vec::new();
        let ghost target = self@.step().cells;
        for y in 0..self.height
            invariant
                self.wf(),
                target == self@.step().cells,
                0 <= y <= self.height,
                cells@.len() == y * self.width,
                forall|i: int| 0 <= i < cells@.len() ==> cells@[i] == target[i],
        {
            for x in 0..self.width
                invariant
                    self.wf(),
                    0 <= y < self.height,
                    target == self@.step().cells,
                    cells@.len() == y * self.width + x,
                    forall|i: int| 0 <= i < cells@.len() ==> cells@[i] == target[i],
            {
                let cur = self.cell_at(x, y);
                let neighbours = self.neighbour_count(x, y);
                let alive = if cur {
                    neighbours == 2 || neighbours == 3
                } else {
                    neighbours == 3
                };
                proof {
                    self@.lemma_index_of_position(x as int, y as int);
                }
                cells.push(alive);
            }
            assert((y + 1) * self.width == y * self.width + self.width) by (nonlinear_arith);
        }
        assert(cells@.len() == target.len()) by (nonlinear_arith)
            requires
                cells@.len() == self.height * self.width,
                target.len() == self.width * self.height,
        ;
        let next = Grid { width: self.width, height: self.height, cells };
        assert(next@ =~= self@.step());
        next
    }

    /// The picture of the grid: one line per row from the top, one character
    /// per cell, `*` for a live cell and a space for a dead one. A line break
    /// stands between each two lines and none after the last.
    pub fn render(&self) -> (text: String)
        requires
            self.wf(),
        ensures
            text@ == self@.rendered(),
    {
        let mut text = String::new();
        proof {
            reveal_strlit("*");
            reveal_strlit(" ");
            reveal_strlit("\n");
        }
        for y in 0..self.height
            invariant
                self.wf(),
                text@ == self@.rows(y as int),
                "*"@ == seq!['*'],
                " "@ == seq![' '],
                "\n"@ == seq!['\n'],
        {
            if y > 0 {
                text.append("\n");
            }
            let ghost head = text@;
            for x in 0..self.width
                invariant
                    self.wf(),
                    text@ == head + self@.row(y as int).take(x as int),
                    "*"@ == seq!['*'],
                    " "@ == seq![' '],
            {
                if self.cell_at(x, y) {
                    text.append("*");
                } else {
                    text.append(" ");
                }
                assert(self@.row(y as int).take(x + 1) == self@.row(y as int).take(x as int).push(
                    glyph(self@.alive(x as int, y as int)),
                ));
            }
            assert(self@.row(y as int).take(self.width as int) == self@.row(y as int));
        }
        text
    }
}

/// The number of `true` entries among the first `n` of `flags`.
spec fn live_among(flags: Seq<bool>, n: int) -> int
    decreases n,
{
    if n <= 0 {
        0
    } else {
        live_among(flags, n - 1) + weight(flags[n - 1])
    }
}

} // verus!
