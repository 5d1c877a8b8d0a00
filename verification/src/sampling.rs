//! The random source: uniform numbers in `[0, 1)` and the rejection test
//! for points of the unit ball.

use vstd::prelude::*;
use vstd::arithmetic::power2::pow2;
use vstd::arithmetic::power2::lemma2_to64;
use vstd::arithmetic::power2::lemma_pow2_adds;
use vstd::arithmetic::power2::lemma_pow2_unfold;
use rand::rngs::StdRng;
use rand::Rng;
use crate::scalar::Scalar;
use crate::scalar::HIDDEN;

verus! {

#[verifier::external_type_specification]
#[verifier::external_body]
pub struct ExStdRng(rand::rngs::StdRng);

/// Draws the next 32-bit word from the generator: `Rng::gen::<u32>` of
/// rand, which forwards to `RngCore::next_u32`. Nothing is claimed of the
/// word, nor of the generator's state afterwards.
#[verifier::external_body]
fn next_word(rng: &mut StdRng) -> (word: u32) {
    rng.gen::<u32>()
}

/// Whether `r` is the number `k / 2^24`, with a clear sign bit, where `k`
/// is the upper 24 bits of `word`.
pub open spec fn is_unit_fraction(r: Scalar, word: u32) -> bool {
    &&& !r.is_negative()
    &&& r.is_finite()
    &&& r.value() == (word / 256) * pow2(125)
}

/// The number `k / 2^24`, where `k` is the upper 24 bits of `word`: an
/// equidistributed word gives an equidistributed point of `[0, 1)`.
pub fn unit_fraction(word: u32) -> (r: Scalar)
    ensures
        is_unit_fraction(r, word),
        !r.is_negative(),
        r.is_finite(),
        r.value() == (word / 256) * pow2(125),
        r.is_unit(),
{
    let k: u32 = word / 256;
    if k == 0 {
        proof {
            lemma2_to64();
            assert(0 * pow2(0) == 0);
        }
        return Scalar::from_bits(0);
    }
    let mut m: u32 = k;
    let mut e: u32 = 126;
    proof {
        lemma2_to64();
        assert(k * pow2(0) == k);
    }
    while m < HIDDEN
        invariant
            1 <= k < 0x100_0000,
            103 <= e <= 126,
            m == k * pow2((126 - e) as nat),
            m < 0x100_0000,
        decreases e,
    {
        proof {
            lemma2_to64();
            lemma_pow2_unfold((127 - e) as nat);
            assert(k * (2 * pow2((126 - e) as nat)) == 2 * (k * pow2((126 - e) as nat)))
                by (nonlinear_arith);
            if e == 103 {
                assert(k * 0x80_0000 >= 0x80_0000) by (nonlinear_arith)
                    requires
                        k >= 1,
                ;
            }
        }
        m = m * 2;
        e = e - 1;
    }
    let r = Scalar::from_bits(e * HIDDEN + (m - HIDDEN));
    proof {
        assert(r.magnitude() == e * HIDDEN + (m - HIDDEN));
        assert(r.exponent() == e);
        assert(r.fraction() == m - HIDDEN);
        assert(r.significand() == m);
        assert(r.scale() == e - 1);
        lemma_pow2_adds((126 - e) as nat, (e - 1) as nat);
        assert((k * pow2((126 - e) as nat)) * pow2((e - 1) as nat) == k * (pow2((126 - e) as nat)
            * pow2((e - 1) as nat))) by (nonlinear_arith);
    }
    r
}

/// A uniform draw from `[0, 1)`: the next word of the generator, kept to
/// its upper 24 bits. Whatever the word, the draw is a multiple of 2^-24
/// below one.
pub fn draw_unit(rng: &mut StdRng) -> (r: Scalar)
    ensures
        exists|word: u32| is_unit_fraction(r, word),
        r.is_unit(),
{
    let word: u32 = next_word(rng);
    let r = unit_fraction(word);
    assert(is_unit_fraction(r, word));
    r
}

/// The rejection test of the samplers for the unit disk and the unit ball:
/// a candidate is kept when its squared length is below one.
pub fn inside_unit_ball(squared_length: Scalar) -> (r: bool)
    ensures
        r == squared_length.lt_spec(Scalar::one()),
{
    squared_length.lt(Scalar::one())
}

} // verus!
