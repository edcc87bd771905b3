//! Number spirals: sequences of marked integers laid out along lattice paths.
//!
//! A [`generator::Generator`] classifies the integers of a range one by one
//! (prime, Fibonacci number, multiple of a base, perfect square). A tile walks
//! a path over the integer lattice (square spiral, hexagon spiral, square
//! zigzag), pairs every item of a generator with the next cell of the path,
//! and says what a renderer is to draw for it.
//!
//! The library draws nothing and reads no files. Its contracts say which
//! indices are marked, where each item lies, and what a parameter string
//! stands for.

pub mod animation;
pub mod cover;
pub mod error;
pub mod generator;
pub mod numbers;
pub mod text;
pub mod tile;
