//! Conway's Game of Life on a fixed-size toroidal grid.
//!
//! The crate holds the simulation core: the cell matrix with wraparound
//! addressing, the B3/S23 generation step, the control state that reacts to
//! user commands, and the per-frame sequencing that ties them together.
//! Windowing, key polling and the random source stay with the caller, which
//! hands plain values in and takes plain values back.

pub mod board;
pub mod cell;
pub mod control;
pub mod engine;
pub mod frame;
pub mod grid;
pub mod layout;
pub mod render;
