//! IEEE 754 binary64 values, held and examined as their 64-bit patterns.
//!
//! A pattern is a sign bit, eleven exponent bits and fifty-two fraction bits.
//! Everything here is integer arithmetic on the pattern.
use vstd::prelude::*;
use vstd::arithmetic::power2::{pow2, lemma_pow2_pos, lemma_pow2_strictly_increases, lemma2_to64_rest};
use vstd::bits::lemma_u64_shr_is_div;

verus! {

/// The sign bit.
pub const SIGN: u64 = 0x8000_0000_0000_0000;

/// Positive infinity: every exponent bit set, no fraction bit.
pub const INFINITY: u64 = 0x7ff0_0000_0000_0000;

/// Negative infinity.
pub const NEG_INFINITY: u64 = 0xfff0_0000_0000_0000;

/// The one not-a-number the library keeps: positive and quiet, with no payload.
pub const NAN: u64 = 0x7ff8_0000_0000_0000;

/// Two to the fifty-second: the weight of the hidden bit of a significand.
pub const HIDDEN: u64 = 0x0010_0000_0000_0000;

/// The exponent field of the value one.
pub const BIAS: u64 = 1023;

/// The pattern without its sign bit.
pub open spec fn magnitude(bits: u64) -> int {
    if bits >= SIGN {
        bits - SIGN
    } else {
        bits as int
    }
}

/// Whether the sign bit is set.
pub open spec fn negative(bits: u64) -> bool {
    bits >= SIGN
}

/// Whether the pattern is a not-a-number.
pub open spec fn nan(bits: u64) -> bool {
    magnitude(bits) > INFINITY
}

/// Whether the pattern is one of the two infinities.
pub open spec fn infinite(bits: u64) -> bool {
    magnitude(bits) == INFINITY
}

/// Whether the pattern is neither an infinity nor a not-a-number.
pub open spec fn finite(bits: u64) -> bool {
    magnitude(bits) < INFINITY
}

/// The exponent field.
pub open spec fn exponent(bits: u64) -> int {
    magnitude(bits) / (HIDDEN as int)
}

/// The fraction field.
pub open spec fn fraction(bits: u64) -> int {
    magnitude(bits) % (HIDDEN as int)
}

/// The significand of a finite pattern: the fraction, with the hidden bit
/// unless the exponent field is zero.
pub open spec fn significand(bits: u64) -> int {
    if exponent(bits) == 0 {
        fraction(bits)
    } else {
        HIDDEN + fraction(bits)
    }
}

/// The power of two that scales the significand of a finite pattern: the
/// value is `significand * 2^scale`, negated when the sign bit is set.
pub open spec fn scale(bits: u64) -> int {
    if exponent(bits) == 0 {
        -1074
    } else {
        exponent(bits) - 1075
    }
}

/// The integer part of the absolute value of a finite pattern.
pub open spec fn whole_magnitude(bits: u64) -> nat {
    if scale(bits) >= 0 {
        (significand(bits) * pow2(scale(bits) as nat)) as nat
    } else {
        (significand(bits) / (pow2((-scale(bits)) as nat) as int)) as nat
    }
}

/// The value of a finite pattern truncated toward zero.
pub open spec fn truncated(bits: u64) -> int {
    if negative(bits) {
        -(whole_magnitude(bits) as int)
    } else {
        whole_magnitude(bits) as int
    }
}

/// A number by which the patterns other than not-a-number are ordered as
/// their values are: the magnitude, negated when the sign bit is set. Both
/// zeros have rank zero.
pub open spec fn rank(bits: u64) -> int {
    if negative(bits) {
        -magnitude(bits)
    } else {
        magnitude(bits)
    }
}

/// The pattern kept for `bits`: the one not-a-number for every not-a-number,
/// `bits` itself otherwise.
pub open spec fn canonical(bits: u64) -> u64 {
    if nan(bits) {
        NAN
    } else {
        bits
    }
}

/// Computes [`magnitude`].
pub fn magnitude_of(bits: u64) -> (m: u64)
    ensures
        m == magnitude(bits),
        m < SIGN,
{
    if bits >= SIGN {
        bits - SIGN
    } else {
        bits
    }
}

/// Computes [`negative`].
pub fn is_negative(bits: u64) -> (b: bool)
    ensures
        b == negative(bits),
{
    bits >= SIGN
}

/// Computes [`nan`].
pub fn is_nan(bits: u64) -> (b: bool)
    ensures
        b == nan(bits),
{
    magnitude_of(bits) > INFINITY
}

/// Computes [`infinite`].
pub fn is_infinite(bits: u64) -> (b: bool)
    ensures
        b == infinite(bits),
{
    magnitude_of(bits) == INFINITY
}

/// Computes [`finite`].
pub fn is_finite(bits: u64) -> (b: bool)
    ensures
        b == finite(bits),
{
    magnitude_of(bits) < INFINITY
}

/// Computes [`canonical`].
pub fn canonicalize(bits: u64) -> (c: u64)
    ensures
        c == canonical(bits),
        nan(c) ==> c == NAN,
        nan(c) == nan(bits),
{
    if is_nan(bits) {
        NAN
    } else {
        bits
    }
}

/// Computes [`rank`].
pub fn rank_of(bits: u64) -> (r: i64)
    ensures
        r == rank(bits),
{
    let m = magnitude_of(bits);
    if bits >= SIGN {
        -(m as i64)
    } else {
        m as i64
    }
}

/// The integer part of the absolute value of a finite pattern, or `cap` where
/// that part is larger.
pub fn whole_magnitude_capped(bits: u64, cap: u64) -> (r: u64)
    requires
        finite(bits),
        cap <= HIDDEN,
    ensures
        r == (if whole_magnitude(bits) <= cap { whole_magnitude(bits) } else { cap as nat }),
{
    let m = magnitude_of(bits);
    let e = m / HIDDEN;
    let f = m % HIDDEN;
    assert(e == exponent(bits) && f == fraction(bits));
    assert(e < 2047);
    if e < BIAS {
        proof {
            let k = (-scale(bits)) as nat;
            assert(k >= 53);
            lemma2_to64_rest();
            if k > 53 {
                lemma_pow2_strictly_increases(53, k);
            }
            assert(significand(bits) < pow2(k));
            assert(significand(bits) / (pow2(k) as int) == 0) by {
                vstd::arithmetic::div_mod::lemma_basic_div(significand(bits), pow2(k) as int);
            }
        }
        0
    } else if e >= 1075 {
        proof {
            let k = scale(bits) as nat;
            lemma_pow2_pos(k);
            assert(significand(bits) * pow2(k) >= significand(bits)) by (nonlinear_arith)
                requires
                    significand(bits) >= 0,
                    pow2(k) >= 1,
            ;
        }
        cap
    } else {
        let s = HIDDEN + f;
        let shift = 1075 - e;
        let q = s >> shift;
        proof {
            lemma_u64_shr_is_div(s, shift);
            assert(q == whole_magnitude(bits));
        }
        if q <= cap {
            q
        } else {
            cap
        }
    }
}

/// The number of binary digits of a significand.
pub const PRECISION: u32 = 53;

/// The least scale of a pattern: that of the subnormal ones.
pub const LEAST_SCALE: i32 = -1074;

/// The greatest scale of a finite pattern.
pub const GREATEST_SCALE: i32 = 971;

/// The pattern of the value `s * 2^e`, negated where `minus` holds: an
/// infinity where the scale is beyond the format, and otherwise the pattern
/// with that significand and that scale. A significand without the hidden
/// bit makes a subnormal pattern.
pub open spec fn pattern(minus: bool, s: nat, e: int) -> u64 {
    let magnitude: int = if e > GREATEST_SCALE {
        INFINITY as int
    } else if s >= HIDDEN {
        (e + 1075) * HIDDEN + (s - HIDDEN)
    } else {
        s as int
    };
    if minus {
        (SIGN + magnitude) as u64
    } else {
        magnitude as u64
    }
}

/// The pattern of the float nearest to the integer `i`, a tie going to the
/// even significand.
pub open spec fn of_integer(i: int) -> u64 {
    let magnitude: nat = if i < 0 {
        (-i) as nat
    } else {
        i as nat
    };
    let rounded = crate::rounding::nearest(magnitude, 0, PRECISION as nat, LEAST_SCALE as int);
    pattern(i < 0, rounded.0, rounded.1)
}

/// Computes [`pattern`].
pub fn pack(minus: bool, s: u64, e: i32) -> (bits: u64)
    requires
        s < 0x0020_0000_0000_0000,
        LEAST_SCALE <= e <= 8192,
    ensures
        bits == pattern(minus, s as nat, e as int),
        e <= GREATEST_SCALE && s >= HIDDEN ==> finite(bits) && significand(bits) == s && scale(bits)
            == e && negative(bits) == minus,
        e <= GREATEST_SCALE && s < HIDDEN ==> finite(bits) && significand(bits) == s && scale(bits)
            == LEAST_SCALE && negative(bits) == minus,
{
    let magnitude: u64 = if e > GREATEST_SCALE {
        INFINITY
    } else if s >= HIDDEN {
        let field: u64 = (e + 1075) as u64;
        assert(1 <= field <= 2046);
        let m = field * HIDDEN + (s - HIDDEN);
        assert(m / HIDDEN == field && m % HIDDEN == s - HIDDEN) by {
            vstd::arithmetic::div_mod::lemma_fundamental_div_mod_converse(
                m as int,
                HIDDEN as int,
                field as int,
                (s - HIDDEN) as int,
            );
        }
        m
    } else {
        assert(s / HIDDEN == 0 && s % HIDDEN == s);
        s
    };
    if minus {
        SIGN + magnitude
    } else {
        magnitude
    }
}

/// The pattern of the float nearest to an integer, given as its sign and
/// its magnitude: see [`of_integer`].
pub fn from_integer(minus: bool, magnitude: u64) -> (bits: u64)
    ensures
        bits == pattern(
            minus,
            crate::rounding::nearest(magnitude as nat, 0, PRECISION as nat, LEAST_SCALE as int).0,
            crate::rounding::nearest(magnitude as nat, 0, PRECISION as nat, LEAST_SCALE as int).1,
        ),
{
    let rounded = crate::rounding::round_to(magnitude, 0, PRECISION, LEAST_SCALE);
    proof {
        lemma2_to64_rest();
    }
    pack(minus, rounded.0, rounded.1)
}

/// The significand and the scale of a finite pattern.
pub fn parts(bits: u64) -> (r: (u64, i32))
    requires
        finite(bits),
    ensures
        r.0 == significand(bits),
        r.1 == scale(bits),
        r.0 < 0x0020_0000_0000_0000,
        LEAST_SCALE <= r.1 <= GREATEST_SCALE,
{
    let m = magnitude_of(bits);
    let field = m / HIDDEN;
    let fraction = m % HIDDEN;
    if field == 0 {
        (fraction, LEAST_SCALE)
    } else {
        (HIDDEN + fraction, (field as i32) - 1075)
    }
}

} // verus!
