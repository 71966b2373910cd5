//! Conway's Game of Life on a bounded rectangular field.
//!
//! Cells beyond the border are dead for ever: the field does not wrap around.
//! [`field`] holds the mathematical model, [`grid`] the executable grid whose
//! operations are proved against that model, and [`laws`] the general facts
//! that follow. [`host`] holds the one decision of the surrounding program
//! that is not input or output: the dimensions of the grid.

pub mod field;
pub mod grid;
pub mod host;
pub mod laws;
mod random;
