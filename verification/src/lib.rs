//! A two-dimensional binary cellular automaton on a bounded grid.
//!
//! The grid holds `width * height` cells in a flat, row-major buffer and
//! advances one generation at a time under the standard neighbor-counting
//! rule, with hard (non-wrapping) edges. A textual rendering of the current
//! state is available at any time.

pub mod grid;
pub mod laws;
