//! Typed failures of configuration and of the engine.

use vstd::prelude::*;

verus! {

/// Failures of buffer-size validation, shared by the engine and the builder.
#[derive(Debug, Clone, Copy, PartialEq, Eq, Structural)]
pub enum CommonError {
    /// The requested buffer size is zero KiB.
    SizeIsZero,
    /// Converting the requested size to bytes overflows the address-space
    /// integer type.
    SizeTooLarge,
}

/// Failures reported by the engine.
#[derive(Debug, Clone, Copy, PartialEq, Eq, Structural)]
pub enum ChaseSeqError {
    /// A size-validation failure.
    CommonError(CommonError),
    /// The requested sample count is too large for a result buffer.
    TestIterationsTooLarge,
}

/// Failures reported by the builder.
#[derive(Debug, Clone, Copy, PartialEq, Eq, Structural)]
pub enum ChaseSeqBuilderError {
    /// A size-validation failure.
    CommonError(CommonError),
}

} // verus!
