//! A retained-mode terminal UI toolkit: a declarative view tree is painted
//! into a grid of styled cells, and two grids are compared to find the
//! cells that must be written to the terminal.
pub mod control;
pub mod event;
pub mod screen;
pub mod style;
pub mod text;
pub mod tree;
