//! Parts-per-billion and parts-per-million fractions, as `sp_runtime` computes them.

use vstd::prelude::*;

verus! {

/// Parts of a whole in a `Perbill`.
pub const PERBILL_ACCURACY: u32 = 1_000_000_000u32;

/// Parts of a whole in a `Permill`.
pub const PERMILL_ACCURACY: u32 = 1_000_000u32;

/// The parts that `from_rational(p, q)` gives a fraction with `accuracy` parts: `p/q`
/// rounded down, or the whole where `q` is zero or `p` exceeds `q`.
pub open spec fn rational_parts(p: nat, q: nat, accuracy: nat) -> nat {
    if q == 0 || p > q {
        accuracy
    } else {
        p * accuracy / q
    }
}

/// `x` times `parts / accuracy`, rounded down.
pub open spec fn mul_floor_parts(parts: nat, accuracy: nat, x: nat) -> nat {
    x * parts / accuracy
}

/// Calls `sp_runtime::Perbill::from_rational(p, q)` and returns its parts per billion.
#[verifier::external_body]
pub(crate) fn perbill_from_rational(p: u128, q: u128) -> (parts: u32)
    ensures
        parts as nat == rational_parts(p as nat, q as nat, PERBILL_ACCURACY as nat),
{
    sp_runtime::Perbill::from_rational(p, q).deconstruct()
}

/// Calls `sp_runtime::Perbill::mul_floor` on the `Perbill` of `parts` parts per billion:
/// `x * parts / 1_000_000_000`, rounded down.
#[verifier::external_body]
pub(crate) fn perbill_mul_floor(parts: u32, x: u128) -> (r: u128)
    requires
        parts <= PERBILL_ACCURACY,
    ensures
        r as nat == mul_floor_parts(parts as nat, PERBILL_ACCURACY as nat, x as nat),
{
    sp_runtime::Perbill::from_parts(parts).mul_floor(x)
}

/// Calls `sp_runtime::Permill::from_rational(p, q)` and returns its parts per million.
#[verifier::external_body]
pub(crate) fn permill_from_rational(p: u128, q: u128) -> (parts: u32)
    ensures
        parts as nat == rational_parts(p as nat, q as nat, PERMILL_ACCURACY as nat),
{
    sp_runtime::Permill::from_rational(p, q).deconstruct()
}

/// Calls `sp_runtime::Permill::mul_floor` on the `Permill` of `parts` parts per million:
/// `x * parts / 1_000_000`, rounded down.
#[verifier::external_body]
pub(crate) fn permill_mul_floor(parts: u32, x: u128) -> (r: u128)
    requires
        parts <= PERMILL_ACCURACY,
    ensures
        r as nat == mul_floor_parts(parts as nat, PERMILL_ACCURACY as nat, x as nat),
{
    sp_runtime::Permill::from_parts(parts).mul_floor(x)
}

} // verus!
