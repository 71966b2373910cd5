//! General facts about the game, proved over the model in [`crate::field`].
//! The operations of [`crate::grid::Grid`] are specified by that model, so
//! each fact holds of what they compute.

use vstd::prelude::*;
use crate::field::{glyph, Field};
use crate::grid::Grid;

verus! {

/// Whether `(x, y)` is one of the four positions of the two by two block whose
/// upper left corner is `(left, top)`.
pub open spec fn in_block(left: int, top: int, x: int, y: int) -> bool {
    left <= x <= left + 1 && top <= y <= top + 1
}

/// A step keeps the dimensions and the number of cells: a well-formed field
/// stays well formed.
pub proof fn law_step_keeps_shape(f: Field)
    requires
        f.wf(),
    ensures
        f.step().wf(),
        f.step().width == f.width,
        f.step().height == f.height,
        f.step().cells.len() == f.width * f.height,
{
}

/// After a step, the cell at an inside position is what the rule makes of that
/// cell and its neighbours before the step; outside the field nothing lives.
pub proof fn law_step_cell(f: Field, x: int, y: int)
    requires
        f.wf(),
    ensures
        f.step().alive(x, y) == (f.inside(x, y) && f.alive_next(x, y)),
{
    if f.inside(x, y) {
        f.lemma_index_of_position(x, y);
    }
}

/// No position outside the field is alive, whatever the cells hold.
pub proof fn law_outside_is_dead(f: Field, x: int, y: int)
    requires
        x < 0 || y < 0 || x >= f.width || y >= f.height,
    ensures
        !f.alive(x, y),
{
}

/// A neighbour count lies between zero and eight.
pub proof fn law_neighbours_bounded(f: Field, x: int, y: int)
    ensures
        0 <= f.neighbours(x, y) <= 8,
{
}

/// On a field of a single cell that cell has no live neighbour.
pub proof fn law_single_cell_is_alone(f: Field)
    requires
        f.wf(),
        f.width == 1,
        f.height == 1,
    ensures
        f.neighbours(0, 0) == 0,
{
}

/// The step is a function of the grid: whatever two calls of `tick` return
/// for grids with the same field, the two results have the same field and
/// the same picture.
pub proof fn law_tick_is_deterministic(a: Grid, b: Grid, next_a: Grid, next_b: Grid)
    requires
        a@ == b@,
        next_a@ == a@.step(),
        next_b@ == b@.step(),
    ensures
        next_a@ == next_b@,
        next_a@.rendered() == next_b@.rendered(),
{
}

/// A field without a live cell has none after a step either.
pub proof fn law_dead_stays_dead(f: Field)
    requires
        f.wf(),
        forall|i: int| 0 <= i < f.cells.len() ==> !f.cells[i],
    ensures
        f.step() == f,
        forall|i: int| 0 <= i < f.step().cells.len() ==> !f.step().cells[i],
{
    assert forall|x: int, y: int| !#[trigger] f.alive(x, y) by {
        if f.inside(x, y) {
            f.lemma_index_of_position(x, y);
        }
    }
    assert forall|i: int| 0 <= i < f.cells.len() implies f.step().cells[i] == f.cells[i] by {
        let x = i % f.width;
        let y = i / f.width;
        assert(f.neighbours(x, y) == 0);
    }
    assert(f.step() =~= f);
}

/// The block is a still life: a field whose live cells are exactly the four
/// of a two by two block is left unchanged by a step, wherever in the field
/// the block lies. Each cell of the block has exactly three live neighbours,
/// and every other position has at most two, so nothing is born.
pub proof fn law_block_is_still(f: Field, left: int, top: int)
    requires
        f.wf(),
        0 <= left,
        left + 1 < f.width,
        0 <= top,
        top + 1 < f.height,
        forall|x: int, y: int| #[trigger] f.alive(x, y) <==> in_block(left, top, x, y),
    ensures
        f.step() == f,
        forall|x: int, y: int| in_block(left, top, x, y) ==> #[trigger] f.neighbours(x, y) == 3,
        forall|x: int, y: int| !in_block(left, top, x, y) ==> #[trigger] f.neighbours(x, y) <= 2,
{
    assert forall|i: int| 0 <= i < f.cells.len() implies f.step().cells[i] == f.cells[i] by {
        f.lemma_position_of_index(i);
        let x = i % f.width;
        let y = i / f.width;
        assert(f.cells[i] == f.alive(x, y));
        assert(f.alive_next(x, y) == f.alive(x, y));
    }
    assert(f.step() =~= f);
}

/// The layout of the picture. It is empty for a field without rows, and else
/// has `height * (width + 1) - 1` characters; the glyph of the cell at
/// `(x, y)` stands at `f.offset(x, y)`, and a line break stands behind every
/// row but the last. So the picture has `height` lines of `width` characters
/// each, and holds nothing but `*`, spaces and the line breaks between lines.
pub proof fn law_picture_layout(f: Field)
    requires
        f.wf(),
    ensures
        f.rendered().len() == if f.height == 0 {
            0
        } else {
            f.height * (f.width + 1) - 1
        },
        forall|x: int, y: int|
            f.inside(x, y) ==> 0 <= #[trigger] f.offset(x, y) < f.rendered().len()
                && f.rendered()[f.offset(x, y)] == glyph(f.alive(x, y)),
        forall|y: int|
            0 <= y < f.height - 1 ==> 0 <= #[trigger] f.offset(f.width, y) < f.rendered().len()
                && f.rendered()[f.offset(f.width, y)] == '\n',
{
    f.lemma_rows_layout(f.height);
}

} // verus!
