//! Binary32 numbers by their encoding: classification, order, sign and
//! truncation to an integer.

use vstd::prelude::*;
use vstd::arithmetic::power2::pow2;
use vstd::arithmetic::power2::lemma2_to64;
use vstd::arithmetic::power2::lemma_pow2_adds;
use vstd::arithmetic::power2::lemma_pow2_pos;
use vstd::arithmetic::power2::lemma_pow2_strictly_increases;
use vstd::arithmetic::power2::lemma_pow2_unfold;
use vstd::arithmetic::div_mod::lemma_div_denominator;
use vstd::arithmetic::div_mod::lemma_div_multiples_vanish;

verus! {

/// The weight of the sign bit in an encoding.
pub const SIGN: u32 = 0x8000_0000;

/// The encoding of positive infinity; larger magnitudes encode no number.
pub const INFINITY: u32 = 0x7f80_0000;

/// The weight of the lowest exponent bit, one more than the largest fraction.
pub const HIDDEN: u32 = 0x0080_0000;

/// The encoding of the number one.
pub const ONE: u32 = 0x3f80_0000;

/// Two to the power `k`.
fn power_of_two(k: u32) -> (p: u64)
    requires
        k <= 32,
    ensures
        p == pow2(k as nat),
{
    let mut p: u64 = 1;
    let mut i: u32 = 0;
    proof {
        lemma2_to64();
    }
    while i < k
        invariant
            i <= k <= 32,
            p == pow2(i as nat),
            p <= 0x1_0000_0000,
        decreases k - i,
    {
        proof {
            lemma2_to64();
            lemma_pow2_unfold((i + 1) as nat);
            if i + 1 < 32 {
                lemma_pow2_strictly_increases((i + 1) as nat, 32);
            }
        }
        p = p * 2;
        i = i + 1;
    }
    p
}

/// An IEEE 754 binary32 number, held by its 32-bit encoding.
#[derive(Clone, Copy, Debug)]
pub struct Scalar {
    pub bits: u32,
}

impl Scalar {
    /// The encoding with the sign bit cleared.
    pub open spec fn magnitude(self) -> nat {
        (self.bits % SIGN) as nat
    }

    /// Whether the sign bit is set (true of `-0.0` and of some NaNs too).
    pub open spec fn is_negative(self) -> bool {
        self.bits >= SIGN
    }

    /// Whether the encoding stands for no number.
    pub open spec fn is_nan_spec(self) -> bool {
        self.magnitude() > INFINITY
    }

    /// Whether the encoding stands for a number other than an infinity.
    pub open spec fn is_finite(self) -> bool {
        self.magnitude() < INFINITY
    }

    /// The biased exponent field.
    pub open spec fn exponent(self) -> nat {
        self.magnitude() / (HIDDEN as nat)
    }

    /// The fraction field.
    pub open spec fn fraction(self) -> nat {
        self.magnitude() % (HIDDEN as nat)
    }

    /// The integer significand: the fraction, with the hidden bit for normal numbers.
    pub open spec fn significand(self) -> nat {
        if self.exponent() == 0 {
            self.fraction()
        } else {
            HIDDEN as nat + self.fraction()
        }
    }

    /// The power of two, counted from 2^-149, that scales the significand.
    pub open spec fn scale(self) -> nat {
        if self.exponent() == 0 {
            0
        } else {
            (self.exponent() - 1) as nat
        }
    }

    /// The absolute value of the number that a finite encoding stands for,
    /// in units of 2^-149.
    pub open spec fn size(self) -> nat {
        self.significand() * pow2(self.scale())
    }

    /// The number that a finite encoding stands for, in units of 2^-149.
    pub open spec fn value(self) -> int {
        if self.is_negative() {
            -(self.size() as int)
        } else {
            self.size() as int
        }
    }

    /// The place of an encoding in the order of the numbers: the magnitude,
    /// counted downwards from zero under a set sign bit.
    pub open spec fn rank(self) -> int {
        if self.is_negative() {
            -(self.magnitude() as int)
        } else {
            self.magnitude() as int
        }
    }

    /// IEEE `<`: both operands are numbers and the left one is the smaller.
    pub open spec fn lt_spec(self, other: Scalar) -> bool {
        !self.is_nan_spec() && !other.is_nan_spec() && self.rank() < other.rank()
    }

    /// IEEE `>`: `other < self`.
    pub open spec fn gt_spec(self, other: Scalar) -> bool {
        other.lt_spec(self)
    }

    /// The whole part of the absolute value.
    pub open spec fn whole(self) -> nat {
        self.size() / pow2(149)
    }

    /// The number cut to its whole part and kept to the range of `i32`;
    /// zero where the encoding stands for no number.
    pub open spec fn truncate_spec(self) -> int {
        if self.is_nan_spec() {
            0
        } else if self.is_negative() {
            if self.whole() >= 0x8000_0000 {
                i32::MIN as int
            } else {
                -(self.whole() as int)
            }
        } else {
            if self.whole() > i32::MAX {
                i32::MAX as int
            } else {
                self.whole() as int
            }
        }
    }

    /// Whether the number lies in `[0, 1)`.
    pub open spec fn is_unit(self) -> bool {
        !self.lt_spec(Scalar::zero_spec()) && self.lt_spec(Scalar::one_spec())
    }

    /// The encoding with the sign bit flipped.
    pub open spec fn neg_spec(self) -> Scalar {
        if self.bits >= SIGN {
            Scalar { bits: (self.bits - SIGN) as u32 }
        } else {
            Scalar { bits: (self.bits + SIGN) as u32 }
        }
    }

    /// The number with the given encoding.
    pub open spec fn encoded(bits: u32) -> Scalar {
        Scalar { bits }
    }

    pub open spec fn zero_spec() -> Scalar {
        Scalar { bits: 0 }
    }

    pub open spec fn one_spec() -> Scalar {
        Scalar { bits: ONE }
    }

    /// The number with the given encoding.
    #[verifier::when_used_as_spec(encoded)]
    pub fn from_bits(bits: u32) -> (r: Scalar)
        ensures
            r == Scalar::encoded(bits),
    {
        Scalar { bits }
    }

    /// The encoding of the number.
    pub fn to_bits(self) -> (r: u32)
        ensures
            r == self.bits,
    {
        self.bits
    }

    /// Positive zero.
    #[verifier::when_used_as_spec(zero_spec)]
    pub fn zero() -> (r: Scalar)
        ensures
            r == Scalar::zero_spec(),
    {
        Scalar { bits: 0 }
    }

    /// The number one.
    #[verifier::when_used_as_spec(one_spec)]
    pub fn one() -> (r: Scalar)
        ensures
            r == Scalar::one_spec(),
    {
        Scalar { bits: ONE }
    }

    #[verifier::when_used_as_spec(is_nan_spec)]
    pub fn is_nan(self) -> (r: bool)
        ensures
            r == self.is_nan_spec(),
    {
        self.bits % SIGN > INFINITY
    }

    /// IEEE `<` on the encodings.
    #[verifier::when_used_as_spec(lt_spec)]
    pub fn lt(self, other: Scalar) -> (r: bool)
        ensures
            r == self.lt_spec(other),
    {
        if self.is_nan() || other.is_nan() {
            return false;
        }
        let a: u32 = self.bits % SIGN;
        let b: u32 = other.bits % SIGN;
        if self.bits >= SIGN {
            if other.bits >= SIGN {
                b < a
            } else {
                a > 0 || b > 0
            }
        } else {
            other.bits < SIGN && a < b
        }
    }

    /// IEEE `>` on the encodings.
    #[verifier::when_used_as_spec(gt_spec)]
    pub fn gt(self, other: Scalar) -> (r: bool)
        ensures
            r == self.gt_spec(other),
    {
        other.lt(self)
    }

    /// IEEE negation: the sign bit flips and nothing else changes.
    #[verifier::when_used_as_spec(neg_spec)]
    pub fn neg(self) -> (r: Scalar)
        ensures
            r == self.neg_spec(),
            r.magnitude() == self.magnitude(),
            r.is_negative() == !self.is_negative(),
            r.rank() == -self.rank(),
            r.value() == -self.value(),
    {
        if self.bits >= SIGN {
            Scalar { bits: self.bits - SIGN }
        } else {
            Scalar { bits: self.bits + SIGN }
        }
    }

    /// Cuts the number to its whole part, towards zero. What lies outside
    /// the range of `i32` becomes the nearest end of the range, and what is
    /// no number becomes zero.
    pub fn truncate(self) -> (r: i32)
        ensures
            r == self.truncate_spec(),
    {
        let m: u32 = self.bits % SIGN;
        if m > INFINITY {
            return 0;
        }
        let negative: bool = self.bits >= SIGN;
        let e: u32 = m / HIDDEN;
        let f: u32 = m % HIDDEN;
        proof {
            lemma2_to64();
            lemma_pow2_pos(149);
            lemma_pow2_pos(self.scale());
        }
        if e < 127 {
            proof {
                // Below one, the size stays under 2^149.
                let below = Scalar { bits: ONE };
                assert(below.exponent() == 127 && below.fraction() == 0);
                assert(self.magnitude() < below.magnitude());
                lemma_size_increases(self, below);
                lemma_pow2_adds(23, 126);
                assert(below.size() == pow2(23) * pow2(126));
                vstd::arithmetic::div_mod::lemma_basic_div(self.size() as int, pow2(149) as int);
            }
            return 0;
        }
        if e >= 158 {
            proof {
                // From 2^31 on, the whole part is beyond every `i32`.
                let least = Scalar { bits: 0x4f00_0000 };
                assert(least.exponent() == 158 && least.fraction() == 0);
                lemma_pow2_adds(23, 157);
                lemma_pow2_adds(149, 31);
                assert(least.size() == pow2(23) * pow2(157));
                assert(least.size() == pow2(149) * pow2(31));
                lemma_div_multiples_vanish(pow2(31) as int, pow2(149) as int);
                if self.magnitude() > least.magnitude() {
                    lemma_size_increases(least, self);
                }
                vstd::arithmetic::div_mod::lemma_div_is_ordered(
                    least.size() as int,
                    self.size() as int,
                    pow2(149) as int,
                );
            }
            return if negative {
                i32::MIN
            } else {
                i32::MAX
            };
        }
        let sig: u64 = (HIDDEN + f) as u64;
        let whole: u64 = if e >= 150 {
            let p: u64 = power_of_two(e - 150);
            proof {
                lemma_pow2_adds((e - 150) as nat, 149);
                if e < 157 {
                    lemma_pow2_strictly_increases((e - 150) as nat, 7);
                }
                assert(sig * p < 0x100_0000 * 0x80) by (nonlinear_arith)
                    requires
                        sig < 0x100_0000,
                        p <= 0x80,
                ;
                assert(self.size() == pow2(149) * (sig * p)) by (nonlinear_arith)
                    requires
                        self.size() == sig * pow2((e - 1) as nat),
                        pow2((e - 1) as nat) == p * pow2(149),
                ;
                lemma_div_multiples_vanish((sig * p) as int, pow2(149) as int);
            }
            sig * p
        } else {
            let p: u64 = power_of_two(150 - e);
            proof {
                lemma_pow2_adds((e - 1) as nat, (150 - e) as nat);
                lemma_pow2_pos((150 - e) as nat);
                lemma_pow2_pos((e - 1) as nat);
                assert(self.size() == pow2((e - 1) as nat) * sig) by (nonlinear_arith)
                    requires
                        self.size() == sig * pow2((e - 1) as nat),
                ;
                lemma_div_multiples_vanish(sig as int, pow2((e - 1) as nat) as int);
                lemma_div_denominator(
                    self.size() as int,
                    pow2((e - 1) as nat) as int,
                    pow2((150 - e) as nat) as int,
                );
            }
            assert(sig / p <= sig) by (nonlinear_arith)
                requires
                    p >= 1,
            ;
            sig / p
        };
        if negative {
            -(whole as i32)
        } else {
            whole as i32
        }
    }
}

/// A larger magnitude stands for a number of larger absolute value.
pub proof fn lemma_size_increases(a: Scalar, b: Scalar)
    requires
        a.magnitude() < b.magnitude(),
    ensures
        a.size() < b.size(),
{
    let h = HIDDEN as nat;
    let pa = pow2(a.scale());
    let pb = pow2(b.scale());
    lemma_pow2_pos(a.scale());
    lemma_pow2_pos(b.scale());
    assert(a.exponent() <= b.exponent());
    if a.exponent() == b.exponent() {
        assert(a.significand() < b.significand());
        assert(a.significand() * pa < b.significand() * pa) by (nonlinear_arith)
            requires
                a.significand() < b.significand(),
                pa > 0,
        ;
    } else {
        assert(h * 1 <= b.significand() * pb) by (nonlinear_arith)
            requires
                h <= b.significand(),
                1 <= pb,
        ;
        if a.exponent() == 0 {
            lemma2_to64();
            assert(a.size() == a.fraction() * 1);
        } else {
            lemma_pow2_unfold(a.exponent());
            if a.exponent() < b.scale() {
                lemma_pow2_strictly_increases(a.exponent(), b.scale());
            }
            assert(a.significand() * pa < (2 * h) * pa) by (nonlinear_arith)
                requires
                    a.significand() < 2 * h,
                    pa > 0,
            ;
            assert((2 * h) * pa == h * (2 * pa)) by (nonlinear_arith);
            assert(h * (2 * pa) <= b.significand() * pb) by (nonlinear_arith)
                requires
                    h <= b.significand(),
                    2 * pa <= pb,
            ;
        }
    }
}

/// Encodings that stand for numbers of the same absolute value differ in
/// the sign bit at most.
pub proof fn lemma_size_pins_magnitude(a: Scalar, b: Scalar)
    requires
        a.size() == b.size(),
    ensures
        a.magnitude() == b.magnitude(),
{
    if a.magnitude() < b.magnitude() {
        lemma_size_increases(a, b);
    }
    if b.magnitude() < a.magnitude() {
        lemma_size_increases(b, a);
    }
}

/// Among finite numbers, `<` on the encodings is `<` on the numbers they stand for.
pub proof fn lemma_order_is_numeric(a: Scalar, b: Scalar)
    requires
        a.is_finite(),
        b.is_finite(),
    ensures
        a.lt_spec(b) <==> a.value() < b.value(),
{
    if a.magnitude() < b.magnitude() {
        lemma_size_increases(a, b);
    }
    if b.magnitude() < a.magnitude() {
        lemma_size_increases(b, a);
    }
    lemma_size_of_zero(a);
    lemma_size_of_zero(b);
}

/// Only the two zeros stand for the number zero.
pub proof fn lemma_size_of_zero(a: Scalar)
    ensures
        a.size() == 0 <==> a.magnitude() == 0,
{
    lemma_pow2_pos(a.scale());
    if a.magnitude() > 0 {
        lemma_size_increases(Scalar { bits: 0 }, a);
    }
    assert(0 * pow2(0) == 0);
}

/// Every finite number lies strictly between the two infinities.
pub proof fn lemma_infinities_bound(a: Scalar)
    requires
        a.is_finite(),
    ensures
        a.lt_spec(Scalar::encoded(INFINITY)),
        Scalar::encoded(INFINITY).neg_spec().lt_spec(a),
{
}

} // verus!
