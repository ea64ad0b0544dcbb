use vstd::prelude::*;

pub mod accrual;
pub mod contract;
pub mod engine;
pub mod tier;

verus! {

/// Scale of the fixed-point reward-per-share accumulator.
pub const PRECISION: i128 = 1_000_000_000;

/// Why an operation was refused. A refused operation changes nothing.
#[derive(Debug, Clone, Copy, PartialEq, Eq, Structural)]
pub enum StakingError {
    AlreadyInitialized,
    NotInitialized,
    Unauthorized,
    InvalidAmount,
    TierViolation,
    PositionNotFound,
    InsufficientBalance,
    IncompatibleCompound,
    ZeroBalance,
    /// An intermediate value left the range of `i128`.
    Overflow,
}

/// `x` is representable as an `i128`.
pub open spec fn fits(x: int) -> bool {
    i128::MIN <= x <= i128::MAX
}

/// Division of `x` by a positive `d`, rounding toward zero as `i128` division does.
pub open spec fn trunc_div(x: int, d: int) -> int {
    if x >= 0 {
        x / d
    } else {
        -((-x) / d)
    }
}

/// Checked `x * y`.
pub fn mul_checked(x: i128, y: i128) -> (r: Result<i128, StakingError>)
    ensures
        match r {
            Ok(v) => fits(x * y) && v == x * y,
            Err(e) => !fits(x * y) && e == StakingError::Overflow,
        },
{
    match x.checked_mul(y) {
        Some(v) => Ok(v),
        None => Err(StakingError::Overflow),
    }
}

/// Checked `x + y`.
pub fn add_checked(x: i128, y: i128) -> (r: Result<i128, StakingError>)
    ensures
        match r {
            Ok(v) => fits(x + y) && v == x + y,
            Err(e) => !fits(x + y) && e == StakingError::Overflow,
        },
{
    match x.checked_add(y) {
        Some(v) => Ok(v),
        None => Err(StakingError::Overflow),
    }
}

/// Checked `x - y`.
pub fn sub_checked(x: i128, y: i128) -> (r: Result<i128, StakingError>)
    ensures
        match r {
            Ok(v) => fits(x - y) && v == x - y,
            Err(e) => !fits(x - y) && e == StakingError::Overflow,
        },
{
    match x.checked_sub(y) {
        Some(v) => Ok(v),
        None => Err(StakingError::Overflow),
    }
}

/// `x / d` rounded toward zero, for a positive divisor.
pub fn div_toward_zero(x: i128, d: i128) -> (r: i128)
    requires
        d > 0,
    ensures
        r == trunc_div(x as int, d as int),
{
    x.checked_div(d).unwrap()
}

} // verus!
