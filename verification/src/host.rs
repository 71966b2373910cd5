//! What the program around the grid decides before the first generation: how
//! large the grid is to be for the terminal it runs in.

use vstd::prelude::*;

verus! {

/// The size a terminal reports: its rows and its columns.
#[derive(Clone, Copy, Debug)]
pub struct TerminalSize {
    pub rows: u16,
    pub cols: u16,
}

/// The side of the square grid that is used where no terminal size is known.
pub const DEFAULT_SIDE: isize = 20;

/// The width and the height of the grid for a terminal: its columns and its
/// rows where it reported a size, and the default square where it did not.
pub fn grid_dimensions(reported: Option<TerminalSize>) -> (dimensions: (isize, isize))
    ensures
        dimensions == match reported {
            Some(size) => (size.cols as isize, size.rows as isize),
            None => (DEFAULT_SIDE, DEFAULT_SIDE),
        },
{
    match reported {
        Some(size) => (size.cols as isize, size.rows as isize),
        None => (DEFAULT_SIDE, DEFAULT_SIDE),
    }
}

} // verus!
