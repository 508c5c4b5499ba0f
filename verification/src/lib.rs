//! Nearest-neighbour resampling of raster buffers under a planar transform.
//!
//! The crate holds the exact side of a small affine-transform engine: the
//! order in which a transform is composed from its elementary factors, the
//! walk over the destination grid, the rounding of a pixel's image to a cell,
//! the bounds policy and the index arithmetic. It does no floating-point
//! arithmetic. Single-precision numbers are carried as IEEE-754 bit patterns
//! (`single::Single`), and the steps that need real arithmetic are functions
//! that the caller hands in: the matrix of a factor and the product of two
//! matrices for the builder, and the image of a grid point under the composed
//! matrix for the resampler.

pub mod error;
pub mod grid;
pub mod inverse;
pub mod laws;
pub mod resample;
pub mod rounding;
pub mod single;
pub mod transform;
pub mod warp;
