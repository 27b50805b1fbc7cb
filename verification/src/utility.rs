//! Helpers on single scalars.
use vstd::prelude::*;
use crate::scalar::Scalar;

verus! {

/// `x` held to the interval from `min` to `max`: `min` where `x` is below
/// it, else `max` where `x` is above it, else `x` itself (a NaN passes
/// through).
pub open spec fn clamped(x: Scalar, min: Scalar, max: Scalar) -> Scalar {
    if x.less(min) {
        min
    } else if max.less(x) {
        max
    } else {
        x
    }
}

/// Holds `x` to the interval from `min` to `max`.
pub fn clamp(x: Scalar, min: Scalar, max: Scalar) -> (r: Scalar)
    ensures
        r == clamped(x, min, max),
{
    if x.lt(min) {
        return min;
    }
    if x.gt(max) {
        return max;
    }
    x
}

/// What a uniform draw from the unit interval can be: one of the `2^53`
/// quotients `k / 2^53`.
pub open spec fn unit_draw(r: Scalar) -> bool {
    exists|k: nat| k < 0x20_0000_0000_0000 && #[trigger] r.is_dyadic(k, 53)
}

/// Sixty-four bits from the calling thread's generator, through
/// `rand::random::<u64>()`. Nothing is claimed of the word: any may come.
/// The generator is seeded from the operating system on a thread's first
/// draw and gives up where that source is missing.
#[verifier::external_body]
fn random_word() -> (w: u64) {
    rand::random::<u64>()
}

/// A uniform draw from zero up to, but not including, one: the upper 53
/// bits of a random word, over `2^53`.
pub fn random_unit() -> (r: Scalar)
    ensures
        unit_draw(r),
        Scalar::spec_zero().at_most(r),
        r.less(Scalar::spec_one()),
{
    let w: u64 = random_word();
    let k: u64 = w >> 11;
    assert(k < 0x20_0000_0000_0000) by (bit_vector)
        requires
            k == w >> 11,
    ;
    let r = Scalar::unit_fraction(k);
    assert(r.is_dyadic(k as nat, 53));
    r
}

/// A clamped number lies in the interval, provided the interval is one.
pub proof fn lemma_clamped_within(x: Scalar, min: Scalar, max: Scalar)
    requires
        !x.nan(),
        min.at_most(max),
    ensures
        min.at_most(clamped(x, min, max)),
        clamped(x, min, max).at_most(max),
{
}

/// Clamping changes nothing that already lies in the interval, so clamping
/// twice is clamping once.
pub proof fn lemma_clamped_idempotent(x: Scalar, min: Scalar, max: Scalar)
    requires
        min.at_most(max),
    ensures
        min.at_most(x) && x.at_most(max) ==> clamped(x, min, max) == x,
        clamped(clamped(x, min, max), min, max) == clamped(x, min, max),
{
}

} // verus!
