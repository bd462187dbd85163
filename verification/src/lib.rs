//! Exact geometry for a hexagonal line grid.
//!
//! A regular hex-vertex lattice is addressed by integer index pairs and laid
//! out as the union of four interleaved rectangular sub-lattices.  All
//! coordinates are kept in exact integer form: a lattice position is a pair of
//! counts of half-units along the two axes, and a transformed position is a
//! pair of numbers of the form `(a + b*sqrt(3)) / den`.  The render layer
//! converts these to floating point only at the GPU boundary.

pub mod frame;
pub mod indexer;
pub mod mesh;
pub mod numeric;
pub mod transform;
