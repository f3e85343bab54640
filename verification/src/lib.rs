//! Conway's Game of Life on a toroidal grid whose cells are packed one per bit.
//!
//! [`universe::Universe`] is the executable board. Its contracts are stated
//! over [`grid::Grid`], the mathematical model of a board and of one
//! generation. [`laws`] proves what holds of the model, and
//! [`pattern_laws`] that a glider moves and a pulsar returns. The bit set and
//! the random bits come from outside this library: [`bitset`] and [`random`]
//! hold what is relied on of them.

pub mod bitset;
pub mod cell;
pub mod grid;
pub mod laws;
pub mod pattern_laws;
pub mod patterns;
pub mod random;
pub mod timer;
pub mod universe;

pub use cell::Cell;
pub use timer::Timer;
pub use universe::{next_state, Universe};
