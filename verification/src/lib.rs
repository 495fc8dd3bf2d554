//! Image deformation by moving least squares: the discrete side of the
//! deformation and of the warpers, verified.
//!
//! Control points say where parts of an image should move. The deformation
//! moves any point by a transformation fitted to the control points, each
//! weighted by its closeness to the point, and the warpers pull every pixel of
//! the result from the source raster at its deformed position.
//!
//! Points and weights are continuous values which this crate never inspects:
//! it carries them as type parameters and receives the arithmetic on them as
//! function values. What is checked here is everything around that
//! arithmetic: which inputs are refused, when a query is matched to a control
//! point exactly, which control set plays which role in a warp, which anchors
//! a pixel is interpolated from and with which weights, which pixels a sample
//! reads, and when the background colour is used instead.

pub mod controls;
pub mod grid;
pub mod interpolation;
pub mod raster;
pub mod solver;
pub mod warp;

pub use crate::controls::WarpError;
pub use crate::grid::{AnchorGrid, BilinearWeights, Corners};
pub use crate::interpolation::{bilinear, CanLinearInterpolate};
pub use crate::raster::{Color, Raster};
pub use crate::solver::deform;
pub use crate::warp::{reverse_dense, reverse_sparse};
