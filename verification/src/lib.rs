//! Conway's Game of Life on a fixed-size toroidal grid.
//!
//! The grid keeps two generations per cell: the one on display and the one
//! staged to replace it. A step promotes the staged generation and stages its
//! successor under the standard rule.

pub mod cell;
pub mod driver;
pub mod generation;
pub mod grid;
pub mod loader;

pub use cell::Cell;
pub use driver::{App, LoopEvent, Reaction};
pub use grid::Grid;
pub use loader::{after_read, load, LoadError, NextStep, ReadOutcome};
