//! Double-precision numbers, held as their 64-bit interchange encoding.
//!
//! The library never computes with a weight; it only compares weights and picks
//! one of them. Both need nothing but the encoding, so a number is carried as
//! its bits, and its order is proved to be the order of the number encoded.
use vstd::arithmetic::power2::{lemma_pow2_adds, lemma_pow2_pos, lemma_pow2_strictly_increases, pow2};
use vstd::prelude::*;

verus! {

/// The sign bit of an encoding.
pub const SIGN_BIT: u64 = 0x8000_0000_0000_0000;

/// The encoding of positive infinity; a larger magnitude is not a number.
pub const INFINITY_BITS: u64 = 0x7ff0_0000_0000_0000;

/// The number of fractions that share one exponent.
pub const FRACTIONS: u64 = 0x10_0000_0000_0000;

/// The encoding of positive zero.
pub const ZERO_BITS: u64 = 0;

/// The encoding of one.
pub const ONE_BITS: u64 = 0x3ff0_0000_0000_0000;

/// A double-precision number in its interchange encoding: a sign bit, eleven
/// bits of exponent and fifty-two bits of fraction.
#[derive(Clone, Copy, Debug)]
pub struct Binary64 {
    /// The encoding.
    pub bits: u64,
}

/// The absolute value of the number whose encoding, without the sign bit, is
/// `magnitude`, counted in units of two to the power -1074 (the smallest
/// positive number). Infinity counts as the power of two that follows the
/// largest finite number.
pub open spec fn absolute(magnitude: int) -> nat
    recommends
        0 <= magnitude <= INFINITY_BITS,
{
    let exponent = magnitude / (FRACTIONS as int);
    let fraction = magnitude % (FRACTIONS as int);
    if exponent == 0 {
        fraction as nat
    } else {
        ((FRACTIONS + fraction) * pow2((exponent - 1) as nat)) as nat
    }
}

impl Binary64 {
    /// The encoding without its sign bit.
    pub open spec fn magnitude(self) -> int {
        if self.bits >= SIGN_BIT {
            self.bits - SIGN_BIT
        } else {
            self.bits as int
        }
    }

    /// The encoding is that of no number.
    pub open spec fn is_nan(self) -> bool {
        self.magnitude() > INFINITY_BITS
    }

    /// The number encoded, in units of two to the power -1074. It means nothing
    /// where the encoding is that of no number.
    pub open spec fn value(self) -> int {
        if self.bits >= SIGN_BIT {
            -(absolute(self.magnitude()) as int)
        } else {
            absolute(self.magnitude()) as int
        }
    }

    /// Both encode numbers, and the first is smaller.
    pub open spec fn lt(self, other: Self) -> bool {
        !self.is_nan() && !other.is_nan() && self.value() < other.value()
    }

    /// The larger of two numbers, where something that is not a number gives way
    /// to the other; `self` where neither is larger.
    pub open spec fn larger(self, other: Self) -> Self {
        if self.is_nan() || self.lt(other) {
            other
        } else {
            self
        }
    }

    /// The nearest number from `low` to `high`; something that is not a number
    /// is kept.
    pub open spec fn limited(self, low: Self, high: Self) -> Self {
        if self.lt(low) {
            low
        } else if high.lt(self) {
            high
        } else {
            self
        }
    }

    /// A number from zero to one.
    pub open spec fn in_unit_interval(self) -> bool {
        !self.is_nan() && 0 <= self.value() <= one().value()
    }

    /// Whether both encode numbers and `self` is the smaller.
    pub fn less_than(self, other: Self) -> (r: bool)
        ensures
            r == self.lt(other),
    {
        let negative = self.bits >= SIGN_BIT;
        let other_negative = other.bits >= SIGN_BIT;
        let magnitude: u64 = if negative { self.bits - SIGN_BIT } else { self.bits };
        let other_magnitude: u64 = if other_negative { other.bits - SIGN_BIT } else { other.bits };
        if magnitude > INFINITY_BITS || other_magnitude > INFINITY_BITS {
            return false;
        }
        proof {
            lemma_value_order(self, other);
        }
        if negative {
            if other_negative {
                other_magnitude < magnitude
            } else {
                magnitude != 0 || other_magnitude != 0
            }
        } else {
            !other_negative && magnitude < other_magnitude
        }
    }

    /// The larger of two numbers; see [`Binary64::larger`].
    pub fn max(self, other: Self) -> (r: Self)
        ensures
            r == self.larger(other),
    {
        let magnitude: u64 = if self.bits >= SIGN_BIT { self.bits - SIGN_BIT } else { self.bits };
        if magnitude > INFINITY_BITS || self.less_than(other) {
            other
        } else {
            self
        }
    }

    /// The nearest number from `min` to `max`; see [`Binary64::limited`].
    pub fn clamp(self, min: Self, max: Self) -> (r: Self)
        requires
            !min.is_nan(),
            !max.is_nan(),
            min.value() <= max.value(),
        ensures
            r == self.limited(min, max),
    {
        if self.less_than(min) {
            min
        } else if max.less_than(self) {
            max
        } else {
            self
        }
    }
}

/// Positive zero.
pub open spec fn zero() -> Binary64 {
    Binary64 { bits: ZERO_BITS }
}

/// One.
pub open spec fn one() -> Binary64 {
    Binary64 { bits: ONE_BITS }
}

/// A larger magnitude encodes a larger absolute value.
pub proof fn lemma_absolute_increases(a: int, b: int)
    requires
        0 <= a < b,
    ensures
        absolute(a) < absolute(b),
{
    let f = FRACTIONS as int;
    let (ea, fa) = (a / f, a % f);
    let (eb, fb) = (b / f, b % f);
    assert(a == f * ea + fa && b == f * eb + fb && 0 <= fa < f && 0 <= fb < f && 0 <= ea <= eb);
    if ea == eb {
        assert(fa < fb);
        if ea != 0 {
            let p = pow2((ea - 1) as nat) as int;
            lemma_pow2_pos((ea - 1) as nat);
            assert((f + fa) * p < (f + fb) * p) by (nonlinear_arith)
                requires
                    fa < fb,
                    p > 0,
            ;
        }
    } else {
        let q = pow2((eb - 1) as nat) as int;
        lemma_pow2_pos((eb - 1) as nat);
        assert((f + fb) * q >= f * q) by (nonlinear_arith)
            requires
                fb >= 0,
                q > 0,
        ;
        if ea == 0 {
            assert(f * q >= f) by (nonlinear_arith)
                requires
                    q >= 1,
                    f > 0,
            ;
        } else {
            let p = pow2((ea - 1) as nat) as int;
            lemma_pow2_pos((ea - 1) as nat);
            lemma_pow2_adds(1, (ea - 1) as nat);
            vstd::arithmetic::power2::lemma2_to64();
            if ea < eb - 1 {
                lemma_pow2_strictly_increases(ea as nat, (eb - 1) as nat);
            }
            assert(pow2(ea as nat) == 2 * p);
            assert(2 * p <= q);
            assert((f + fa) * p < f * q) by (nonlinear_arith)
                requires
                    0 <= fa < f,
                    p > 0,
                    2 * p <= q,
            ;
        }
    }
}

/// The order of two numbers follows from their signs and magnitudes.
pub proof fn lemma_value_order(a: Binary64, b: Binary64)
    ensures
        a.magnitude() < b.magnitude() ==> absolute(a.magnitude()) < absolute(b.magnitude()),
        b.magnitude() < a.magnitude() ==> absolute(b.magnitude()) < absolute(a.magnitude()),
        absolute(0) == 0,
        a.magnitude() > 0 ==> absolute(a.magnitude()) > 0,
        b.magnitude() > 0 ==> absolute(b.magnitude()) > 0,
{
    if a.magnitude() < b.magnitude() {
        lemma_absolute_increases(a.magnitude(), b.magnitude());
    }
    if b.magnitude() < a.magnitude() {
        lemma_absolute_increases(b.magnitude(), a.magnitude());
    }
    if a.magnitude() > 0 {
        lemma_absolute_increases(0, a.magnitude());
    }
    if b.magnitude() > 0 {
        lemma_absolute_increases(0, b.magnitude());
    }
}

/// Zero and one encode what they are named after.
pub proof fn lemma_unit_bounds()
    ensures
        !zero().is_nan(),
        !one().is_nan(),
        zero().value() == 0,
        one().value() == pow2(1074),
        zero().value() < one().value(),
{
    vstd::arithmetic::power2::lemma2_to64_rest();
    lemma_pow2_adds(52, 1022);
    lemma_pow2_pos(1074);
}

} // verus!
