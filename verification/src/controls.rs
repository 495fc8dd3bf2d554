//! The inputs that a deformation refuses: control point sets that do not
//! correspond, and a subresolution factor of zero.

use vstd::prelude::*;

verus! {

/// Why a deformation request is refused before any computation starts.
#[derive(Clone, Copy, Debug, PartialEq, Eq)]
pub enum WarpError {
    /// The source and destination control sets differ in length.
    LengthMismatch,
    /// The control sets are empty.
    NoControlPoints,
    /// The subresolution factor of a sparse warp is zero.
    ZeroSubresolution,
}

/// The error, if any, that a pair of control sets of these lengths gives.
pub open spec fn controls_error(source_len: nat, dest_len: nat) -> Option<WarpError> {
    if source_len != dest_len {
        Some(WarpError::LengthMismatch)
    } else if source_len == 0 {
        Some(WarpError::NoControlPoints)
    } else {
        None
    }
}

/// Accepts two control sets exactly when they correspond point for point and
/// hold at least one point.
pub fn check_controls(source_len: usize, dest_len: usize) -> (r: Result<(), WarpError>)
    ensures
        r == match controls_error(source_len as nat, dest_len as nat) {
            Some(e) => Err::<(), WarpError>(e),
            None => Ok::<(), WarpError>(()),
        },
{
    if source_len != dest_len {
        Err(WarpError::LengthMismatch)
    } else if source_len == 0 {
        Err(WarpError::NoControlPoints)
    } else {
        Ok(())
    }
}

/// The error, if any, that a sparse warp with these control set lengths and
/// this subresolution factor gives. The control sets are judged first.
pub open spec fn sparse_error(
    source_len: nat,
    dest_len: nat,
    subresolution_factor: u32,
) -> Option<WarpError> {
    match controls_error(source_len, dest_len) {
        Some(e) => Some(e),
        None => if subresolution_factor == 0 {
            Some(WarpError::ZeroSubresolution)
        } else {
            None
        },
    }
}

/// Accepts a subresolution factor exactly when it is at least one.
pub fn check_subresolution(subresolution_factor: u32) -> (r: Result<(), WarpError>)
    ensures
        r == if subresolution_factor == 0 {
            Err::<(), WarpError>(WarpError::ZeroSubresolution)
        } else {
            Ok::<(), WarpError>(())
        },
{
    if subresolution_factor == 0 {
        Err(WarpError::ZeroSubresolution)
    } else {
        Ok(())
    }
}

} // verus!
