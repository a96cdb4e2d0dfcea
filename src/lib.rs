//! Integer-level decisions behind a differentiable-field renderer: the
//! failure path of the Gaussian density builder, the row-major grid that
//! rendering and slice sampling walk, and the gathering of per-pixel results
//! in which pixels without a camera ray leave a gap.
pub mod gaussian;
pub mod grid;
pub mod render;
