//! Total generalized variation denoising of two-dimensional images.
//!
//! The solver is a first-order primal-dual scheme over row-major pixel grids
//! with periodic boundaries. Every routine is generic over the pixel scalar,
//! whose arithmetic is described by the [`scalar::Scalar`] trait;
//! [`fixed::Fixed`] is a scalar that needs no floating point.
//!
//! [`solver::tgv_denoise`] denoises one image, and
//! [`tiling::parallel_tgv_denoise`] denoises an image tile by tile.
pub mod adjoint;
pub mod exact;
pub mod fixed;
pub mod grid;
pub mod operators;
pub mod projection;
pub mod scalar;
pub mod shift;
pub mod solver;
pub mod steady;
pub mod tiling;
