//! Utilities for working with rectangular two-dimensional grids: construction,
//! per-cell neighbour lookup, coordinate search, transposition, rotation, and
//! element-wise addition, together with index-sorting and substring-search
//! helpers.

pub mod grid;
pub mod sorting;
pub mod strings;
