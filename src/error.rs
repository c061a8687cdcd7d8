//! The errors of the pool's operations.
use vstd::prelude::*;
use crate::curve::CurveError;

verus! {

/// Why a deposit, a swap or a settlement was rejected. Every error ends the
/// operation before any of its effects is applied.
#[derive(Debug, Clone, Copy, PartialEq, Eq, Structural)]
pub enum AmmError {
    /// A zero request, or a trade that would move nothing.
    InvalidAmount,
    /// The pool is locked against deposits and swaps.
    PoolLocked,
    /// The deposit would take more of asset X than the caller allowed.
    SlippageExceededX,
    /// The deposit would take more of asset Y than the caller allowed.
    SlippageExceededY,
    /// The swap would pay out less than the caller's minimum.
    SlippageExceeded,
    /// The pool is empty, or the trade would drain it.
    InsufficientLiquidity,
    /// An amount does not fit in a `u64`.
    Overflow,
    /// A transfer could not be applied to the balances.
    TransferFailed,
    /// A share mint could not be applied to the supply.
    MintFailed,
}

/// The operation error that reports a curve error.
pub open spec fn curve_error_to_amm(e: CurveError) -> AmmError {
    match e {
        CurveError::Overflow => AmmError::Overflow,
        CurveError::ZeroAmount => AmmError::InvalidAmount,
        CurveError::InsufficientLiquidity => AmmError::InsufficientLiquidity,
    }
}

impl AmmError {
    /// Reports a curve error as an operation error.
    pub fn from_curve(e: CurveError) -> (r: AmmError)
        ensures
            r == curve_error_to_amm(e),
    {
        match e {
            CurveError::Overflow => AmmError::Overflow,
            CurveError::ZeroAmount => AmmError::InvalidAmount,
            CurveError::InsufficientLiquidity => AmmError::InsufficientLiquidity,
        }
    }
}

} // verus!
