//! A minesweeper board model: random mine placement, clue derivation from
//! mine adjacency, a per-cell reveal mask, and the mapping from a pointer
//! position on a drawing surface to a grid cell.

pub mod board;
pub mod clues;
pub mod generator;
pub mod pointer;
pub mod mask;
pub mod text;
