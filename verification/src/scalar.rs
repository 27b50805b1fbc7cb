//! Binary64 values held by their encoding, with the IEEE 754 order on them.
use vstd::prelude::*;
use vstd::arithmetic::power2::{
    lemma2_to64, lemma2_to64_rest, lemma_pow2_pos, lemma_pow2_strictly_increases,
    lemma_pow2_unfold, pow2,
};

verus! {

/// The encoding's sign bit.
pub const SIGN_BIT: u64 = 0x8000_0000_0000_0000;

/// The encoding of positive infinity; every larger magnitude is a NaN.
pub const INFINITY_BITS: u64 = 0x7FF0_0000_0000_0000;

/// The encoding of `1`.
pub const ONE_BITS: u64 = 0x3FF0_0000_0000_0000;

/// Two to the fifty-second: the number of encodings that share an exponent.
pub const FRACTION_SPAN: u64 = 0x10_0000_0000_0000;

/// A binary64 value, held by its encoding: one sign bit, eleven exponent
/// bits, fifty-two fraction bits.
#[derive(Clone, Copy, Debug)]
pub struct Scalar {
    pub bits: u64,
}

impl Scalar {
    /// The encoding without its sign bit.
    pub open spec fn magnitude(self) -> int {
        if self.bits >= SIGN_BIT {
            self.bits - SIGN_BIT
        } else {
            self.bits as int
        }
    }

    /// Whether the sign bit is set (true of `-0` and of some NaNs too).
    pub open spec fn sign(self) -> bool {
        self.bits >= SIGN_BIT
    }

    /// Whether the value is not a number.
    pub open spec fn nan(self) -> bool {
        self.magnitude() > INFINITY_BITS
    }

    /// The place of a number on the number line: for two numbers `a` and `b`,
    /// `a` is less than `b` exactly when `a.rank() < b.rank()`. Both zeros
    /// have rank 0; the infinities have the two extreme ranks.
    pub open spec fn rank(self) -> int {
        if self.sign() {
            -self.magnitude()
        } else {
            self.magnitude()
        }
    }

    /// `self < other` in the IEEE 754 order: false when either is a NaN.
    pub open spec fn less(self, other: Scalar) -> bool {
        !self.nan() && !other.nan() && self.rank() < other.rank()
    }

    /// `self <= other` in the IEEE 754 order: false when either is a NaN.
    pub open spec fn at_most(self, other: Scalar) -> bool {
        !self.nan() && !other.nan() && self.rank() <= other.rank()
    }

    /// `self == other` in the IEEE 754 sense: the zeros are equal, a NaN
    /// equals nothing.
    pub open spec fn same(self, other: Scalar) -> bool {
        !self.nan() && !other.nan() && self.rank() == other.rank()
    }

    /// The value with its sign bit flipped.
    pub open spec fn negated(self) -> Scalar {
        if self.bits >= SIGN_BIT {
            Scalar { bits: (self.bits - SIGN_BIT) as u64 }
        } else {
            Scalar { bits: (self.bits + SIGN_BIT) as u64 }
        }
    }

    /// The value with its sign bit cleared.
    pub open spec fn absolute(self) -> Scalar {
        Scalar { bits: self.magnitude() as u64 }
    }

    /// The exponent field of the encoding.
    pub open spec fn exponent(self) -> int {
        self.magnitude() / (FRACTION_SPAN as int)
    }

    /// The fraction field of the encoding.
    pub open spec fn fraction(self) -> int {
        self.magnitude() % (FRACTION_SPAN as int)
    }

    /// The digits of a finite value as a whole number: its absolute value
    /// is `significand() * 2^scale()`. A zero exponent field marks the
    /// values without the leading one.
    pub open spec fn significand(self) -> int {
        if self.exponent() == 0 {
            self.fraction()
        } else {
            FRACTION_SPAN + self.fraction()
        }
    }

    /// The power of two that a finite value's significand counts in.
    pub open spec fn scale(self) -> int {
        if self.exponent() == 0 {
            -1074
        } else {
            self.exponent() - 1075
        }
    }

    /// The whole part of `|self| * 2^up`, for a finite value.
    pub open spec fn floor_scaled(self, up: nat) -> int {
        let by = self.scale() + up;
        if by >= 0 {
            self.significand() * pow2(by as nat)
        } else {
            self.significand() / (pow2((-by) as nat) as int)
        }
    }

    /// Whether `|self| < |other|`, for two values that are not NaNs:
    /// `significand * 2^scale` compared after bringing both to the smaller
    /// scale. An infinity counts as `2^1024`.
    pub open spec fn smaller_than(self, other: Scalar) -> bool {
        if self.scale() <= other.scale() {
            self.significand() < other.significand() * pow2(
                (other.scale() - self.scale()) as nat,
            )
        } else {
            self.significand() * pow2((self.scale() - other.scale()) as nat)
                < other.significand()
        }
    }

    /// Whether the value is exactly `k / 2^down`.
    pub open spec fn is_dyadic(self, k: nat, down: nat) -> bool {
        let by = self.scale() + down;
        &&& !self.sign()
        &&& self.magnitude() < INFINITY_BITS
        &&& if by >= 0 {
            self.significand() * pow2(by as nat) == k
        } else {
            self.significand() == k * pow2((-by) as nat)
        }
    }

    /// Positive zero.
    pub open spec fn spec_zero() -> Scalar {
        Scalar { bits: 0 }
    }

    /// One.
    pub open spec fn spec_one() -> Scalar {
        Scalar { bits: ONE_BITS }
    }

    /// Positive infinity.
    pub open spec fn spec_infinity() -> Scalar {
        Scalar { bits: INFINITY_BITS }
    }

    /// The scalar with the given encoding.
    pub fn from_bits(bits: u64) -> (s: Scalar)
        ensures
            s.bits == bits,
    {
        Scalar { bits }
    }

    /// The encoding.
    pub fn to_bits(self) -> (bits: u64)
        ensures
            bits == self.bits,
    {
        self.bits
    }

    /// Positive zero.
    pub fn zero() -> (s: Scalar)
        ensures
            s == Scalar::spec_zero(),
    {
        Scalar { bits: 0 }
    }

    /// One.
    pub fn one() -> (s: Scalar)
        ensures
            s == Scalar::spec_one(),
    {
        Scalar { bits: ONE_BITS }
    }

    /// Positive infinity.
    pub fn infinity() -> (s: Scalar)
        ensures
            s == Scalar::spec_infinity(),
    {
        Scalar { bits: INFINITY_BITS }
    }

    /// The value `k / 2^53`, for `k` below `2^53`: a number from zero up to,
    /// but not including, one. Every such quotient has an encoding of its
    /// own, so nothing is rounded.
    pub fn unit_fraction(k: u64) -> (r: Scalar)
        requires
            k < 0x20_0000_0000_0000,
        ensures
            r.is_dyadic(k as nat, 53),
            Scalar::spec_zero().at_most(r),
            r.less(Scalar::spec_one()),
            (k == 0) == (r.bits == 0),
    {
        if k == 0 {
            return Scalar { bits: 0 };
        }
        let mut sig: u64 = k;
        let mut e: u64 = 1022;
        proof {
            lemma2_to64();
            assert(k * pow2(0) == k) by (nonlinear_arith)
                requires
                    pow2(0) == 1,
            ;
        }
        while sig < FRACTION_SPAN
            invariant
                0 < k,
                0 < sig < 0x20_0000_0000_0000,
                e <= 1022,
                1022 - e <= 52,
                sig == k * pow2((1022 - e) as nat),
            decreases e,
        {
            proof {
                let n = (1022 - e) as nat;
                lemma_pow2_unfold(n + 1);
                assert(pow2(n + 1) == 2 * pow2(n));
                assert(k * pow2(n + 1) == 2 * (k * pow2(n))) by (nonlinear_arith)
                    requires
                        pow2(n + 1) == 2 * pow2(n),
                ;
                if n >= 52 {
                    lemma2_to64_rest();
                    assert(pow2(52) == 0x10_0000_0000_0000);
                    assert(k * pow2(n) >= pow2(n)) by (nonlinear_arith)
                        requires
                            k >= 1,
                    ;
                }
            }
            sig = sig * 2;
            e = e - 1;
        }
        let r = Scalar { bits: e * FRACTION_SPAN + (sig - FRACTION_SPAN) };
        proof {
            lemma2_to64();
            assert(r.magnitude() == e * FRACTION_SPAN + (sig - FRACTION_SPAN));
            assert(r.exponent() == e);
            assert(r.fraction() == sig - FRACTION_SPAN);
            assert(r.significand() == sig);
            assert(r.scale() + 53 == e - 1022);
            if e == 1022 {
                assert(sig * pow2(0) == sig) by (nonlinear_arith)
                    requires
                        pow2(0) == 1,
                ;
                assert(k * pow2(0) == k) by (nonlinear_arith)
                    requires
                        pow2(0) == 1,
                ;
            }
        }
        r
    }

    /// The encoding without its sign bit.
    pub fn magnitude_bits(self) -> (m: u64)
        ensures
            m == self.magnitude(),
    {
        if self.bits >= SIGN_BIT {
            self.bits - SIGN_BIT
        } else {
            self.bits
        }
    }

    /// Whether the value is not a number.
    pub fn is_nan(self) -> (r: bool)
        ensures
            r == self.nan(),
    {
        self.magnitude_bits() > INFINITY_BITS
    }

    /// `self < other`.
    pub fn lt(self, other: Scalar) -> (r: bool)
        ensures
            r == self.less(other),
    {
        if self.is_nan() || other.is_nan() {
            return false;
        }
        let a: u64 = self.magnitude_bits();
        let b: u64 = other.magnitude_bits();
        if self.bits >= SIGN_BIT {
            if other.bits >= SIGN_BIT {
                b < a
            } else {
                a > 0 || b > 0
            }
        } else {
            if other.bits >= SIGN_BIT {
                false
            } else {
                a < b
            }
        }
    }

    /// `self > other`.
    pub fn gt(self, other: Scalar) -> (r: bool)
        ensures
            r == other.less(self),
    {
        other.lt(self)
    }

    /// `self <= other`.
    pub fn le(self, other: Scalar) -> (r: bool)
        ensures
            r == self.at_most(other),
    {
        if self.is_nan() || other.is_nan() {
            return false;
        }
        !other.lt(self)
    }

    /// `self == other` as numbers.
    pub fn eq_value(self, other: Scalar) -> (r: bool)
        ensures
            r == self.same(other),
    {
        self.le(other) && other.le(self)
    }

    /// `-self`: the sign bit flipped, whatever the value, a NaN included.
    pub fn neg(self) -> (r: Scalar)
        ensures
            r == self.negated(),
    {
        if self.bits >= SIGN_BIT {
            Scalar { bits: self.bits - SIGN_BIT }
        } else {
            Scalar { bits: self.bits + SIGN_BIT }
        }
    }

    /// `|self|`: the sign bit cleared.
    pub fn abs(self) -> (r: Scalar)
        ensures
            r == self.absolute(),
    {
        Scalar { bits: self.magnitude_bits() }
    }
}

/// A smaller encoding is a smaller absolute value.
proof fn lemma_smaller_encoding(a: Scalar, b: Scalar)
    requires
        !a.nan(),
        !b.nan(),
        a.magnitude() < b.magnitude(),
    ensures
        a.scale() <= b.scale(),
        a.significand() < b.significand() * pow2((b.scale() - a.scale()) as nat),
{
    let d = (b.scale() - a.scale()) as nat;
    let p = pow2(d) as int;
    let sb = b.significand();
    lemma2_to64();
    lemma_pow2_pos(d);
    if a.exponent() == b.exponent() {
        assert(sb * p == sb) by (nonlinear_arith)
            requires
                p == 1,
        ;
    } else {
        assert(a.exponent() < b.exponent());
        assert(sb >= FRACTION_SPAN);
        if d >= 1 {
            lemma_pow2_strictly_increases(0, d);
        }
        assert(sb * p >= sb) by (nonlinear_arith)
            requires
                p >= 1,
                sb >= 0,
        ;
        if a.exponent() >= 1 {
            assert(sb * p >= 2 * sb) by (nonlinear_arith)
                requires
                    p >= 2,
                    sb >= 0,
            ;
        }
    }
}

/// The order of the encodings is the order of the absolute values: of two
/// values that are not NaNs, the one with the smaller magnitude bits is the
/// one with the smaller `significand * 2^scale`, and equal magnitude bits
/// mean equal absolute values. This is what makes `rank` a place on the
/// number line.
pub proof fn lemma_rank_orders_values(a: Scalar, b: Scalar)
    requires
        !a.nan(),
        !b.nan(),
    ensures
        (a.magnitude() < b.magnitude()) == a.smaller_than(b),
        (a.magnitude() == b.magnitude()) == (!a.smaller_than(b) && !b.smaller_than(a)),
{
    lemma2_to64();
    let sa = a.significand();
    let sb = b.significand();
    assert(sa * pow2(0) == sa && sb * pow2(0) == sb) by (nonlinear_arith)
        requires
            pow2(0) == 1,
    ;
    if a.magnitude() < b.magnitude() {
        lemma_smaller_encoding(a, b);
    } else if b.magnitude() < a.magnitude() {
        lemma_smaller_encoding(b, a);
    }
}

/// Negation mirrors the number line: it keeps NaNs NaN, negates the rank,
/// and undoes itself.
pub proof fn lemma_negated(a: Scalar)
    ensures
        a.negated().nan() == a.nan(),
        a.negated().rank() == -a.rank(),
        a.negated().negated() == a,
        a.negated().sign() != a.sign(),
{
}

/// Negation reverses the order.
pub proof fn lemma_negated_reverses(a: Scalar, b: Scalar)
    ensures
        a.less(b) == b.negated().less(a.negated()),
        a.at_most(b) == b.negated().at_most(a.negated()),
{
    lemma_negated(a);
    lemma_negated(b);
}

/// On numbers the order is total, and `<` is the strict part of `<=`.
pub proof fn lemma_order_total(a: Scalar, b: Scalar)
    requires
        !a.nan(),
        !b.nan(),
    ensures
        a.at_most(b) || b.at_most(a),
        a.less(b) == !b.at_most(a),
        a.same(b) == (a.at_most(b) && b.at_most(a)),
{
}

/// The order is transitive.
pub proof fn lemma_order_transitive(a: Scalar, b: Scalar, c: Scalar)
    ensures
        a.at_most(b) && b.at_most(c) ==> a.at_most(c),
        a.less(b) && b.at_most(c) ==> a.less(c),
        a.at_most(b) && b.less(c) ==> a.less(c),
{
}

/// A NaN compares false with everything, itself included.
pub proof fn lemma_nan_unordered(a: Scalar, b: Scalar)
    requires
        a.nan(),
    ensures
        !a.less(b),
        !b.less(a),
        !a.at_most(b),
        !b.at_most(a),
        !a.same(a),
{
}

/// An absolute value is a number at or above zero, unless it is a NaN.
pub proof fn lemma_absolute(a: Scalar)
    ensures
        a.absolute().nan() == a.nan(),
        !a.nan() ==> Scalar::spec_zero().at_most(a.absolute()),
        !a.nan() ==> (a.absolute().rank() == a.rank() || a.absolute().rank() == -a.rank()),
{
}

} // verus!
