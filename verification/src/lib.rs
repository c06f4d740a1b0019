//! A two-dimensional grid stored in a single contiguous buffer and addressed
//! through opaque linear-index handles.
//!
//! A [`Grid`] owns `width * height` elements in row-major order; a
//! [`GridPos`] wraps a linear index into that buffer.  The grid offers
//! row/column addressing, four-directional adjacency, relative-offset
//! lookups, single-cell mutation, and in-order iteration.

pub mod grid;
pub mod pos;
pub mod rows;

pub use grid::Grid;
pub use grid::GridIterator;
pub use pos::GridPos;
