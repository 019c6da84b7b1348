//! Strict-mode assertions for development and staging builds.
//!
//! The library is the production build: strict mode is off, every assertion
//! below is a no-op, and `is_enabled` reports `false`.  The preconditions state
//! what a strict build would demand before it panics; with strict mode off they
//! hold for every input.
use vstd::prelude::*;

verus! {

/// Whether this build carries the strict-mode checks.
pub const STRICT_MODE_ENABLED: bool = false;

/// Returns `true` exactly when the library was built with strict mode.
pub fn is_enabled() -> (r: bool)
    ensures
        r == STRICT_MODE_ENABLED,
        !r,
{
    STRICT_MODE_ENABLED
}

/// Asserts `condition` in strict builds; a no-op otherwise.
pub fn strict_assert(condition: bool, message: &str)
    requires
        STRICT_MODE_ENABLED ==> condition,
{
}

/// Asserts `left == right` in strict builds; a no-op otherwise.
pub fn strict_assert_eq<T: PartialEq + core::fmt::Debug>(left: T, right: T, context: &str)
    requires
        STRICT_MODE_ENABLED ==> left == right,
{
}

/// Whether an escrow balance pair is sane: both non-negative and
/// `remaining <= total`.
pub open spec fn balance_sane(total: i128, remaining: i128) -> bool {
    total >= 0 && remaining >= 0 && remaining <= total
}

/// Asserts that `remaining <= total` and both are non-negative in strict
/// builds; a no-op otherwise.
pub fn strict_assert_balance_sane(total: i128, remaining: i128, context: &str)
    requires
        STRICT_MODE_ENABLED ==> balance_sane(total, remaining),
{
}

/// Asserts that `current + delta` stays inside `i128` in strict builds; a
/// no-op otherwise.
pub fn strict_assert_no_overflow(current: i128, delta: i128, context: &str)
    requires
        STRICT_MODE_ENABLED ==> i128::MIN <= current + delta <= i128::MAX,
{
}

} // verus!
