//! Connect-Four core: a 7x6 board stored as a flat 42-cell grid, a
//! gravity-drop move, and detection of a four-in-a-row completed by the
//! most recently placed piece.

pub mod board;
pub mod grid;
pub mod win;
