//! Conway's Game of Life on a bounded grid.
//!
//! The grid is a flat, row-major buffer of 32-bit color values that can be
//! handed to a display as it is. A cell is alive exactly when it holds the
//! grid's current color. Cells beyond the edges of the grid are dead and stay
//! dead: the grid is a finite plane with a fixed dead border, and nothing
//! wraps around to the far side.
//!
//! [`Framebuffer`] is the grid in memory and [`Generation`] its mathematical
//! model. [`initialize_patterns`] seeds the first generation,
//! [`next_generation`] computes the one that follows, and the module
//! [`shapes`] proves how a block, a blinker and a glider behave.

pub mod engine;
pub mod framebuffer;
pub mod generation;
pub mod patterns;
pub mod shapes;

pub use crate::engine::{advance, count_live_neighbors, next_generation, next_state, run_frame};
pub use crate::framebuffer::{Framebuffer, DEFAULT_BACKGROUND_COLOR, DEFAULT_CURRENT_COLOR};
pub use crate::generation::Generation;
pub use crate::patterns::initialize_patterns;
