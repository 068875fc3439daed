//! IEEE 754 binary32 values, examined as their 32-bit patterns.
use vstd::prelude::*;
use crate::binary64;
use crate::rounding::{nearest, round_to};

verus! {

/// The sign bit.
pub const SIGN: u32 = 0x8000_0000;

/// Positive infinity: every exponent bit set, no fraction bit.
pub const INFINITY: u32 = 0x7f80_0000;

/// The pattern without its sign bit.
pub open spec fn magnitude(bits: u32) -> int {
    if bits >= SIGN {
        bits - SIGN
    } else {
        bits as int
    }
}

/// Whether the sign bit is set.
pub open spec fn negative(bits: u32) -> bool {
    bits >= SIGN
}

/// Whether the pattern is a not-a-number.
pub open spec fn nan(bits: u32) -> bool {
    magnitude(bits) > INFINITY
}

/// Whether the pattern is one of the two infinities.
pub open spec fn infinite(bits: u32) -> bool {
    magnitude(bits) == INFINITY
}

/// Computes [`negative`].
pub fn is_negative(bits: u32) -> (b: bool)
    ensures
        b == negative(bits),
{
    bits >= SIGN
}

/// Computes [`nan`].
pub fn is_nan(bits: u32) -> (b: bool)
    ensures
        b == nan(bits),
{
    if bits >= SIGN {
        bits - SIGN > INFINITY
    } else {
        bits > INFINITY
    }
}

/// Computes [`infinite`].
pub fn is_infinite(bits: u32) -> (b: bool)
    ensures
        b == infinite(bits),
{
    if bits >= SIGN {
        bits - SIGN == INFINITY
    } else {
        bits == INFINITY
    }
}

/// The one not-a-number that conversions give: positive and quiet.
pub const NAN: u32 = 0x7fc0_0000;

/// Two to the twenty-third: the weight of the hidden bit of a significand.
pub const HIDDEN: u32 = 0x0080_0000;

/// The number of binary digits of a significand.
pub const PRECISION: u32 = 24;

/// The least scale of a pattern: that of the subnormal ones.
pub const LEAST_SCALE: i32 = -149;

/// The greatest scale of a finite pattern.
pub const GREATEST_SCALE: i32 = 104;

/// The pattern of the value `s * 2^e`, negated where `minus` holds: an
/// infinity where the scale is beyond the format, and otherwise the pattern
/// with that significand and that scale. A significand without the hidden
/// bit makes a subnormal pattern.
pub open spec fn pattern(minus: bool, s: nat, e: int) -> u32 {
    let magnitude: int = if e > GREATEST_SCALE {
        INFINITY as int
    } else if s >= HIDDEN {
        (e + 150) * HIDDEN + (s - HIDDEN)
    } else {
        s as int
    };
    if minus {
        (SIGN + magnitude) as u32
    } else {
        magnitude as u32
    }
}

/// The pattern of the binary32 float nearest to the integer `i`, a tie going
/// to the even significand.
pub open spec fn of_integer(i: int) -> u32 {
    let magnitude: nat = if i < 0 {
        (-i) as nat
    } else {
        i as nat
    };
    let rounded = nearest(magnitude, 0, PRECISION as nat, LEAST_SCALE as int);
    pattern(i < 0, rounded.0, rounded.1)
}

/// The binary32 pattern nearest to the binary64 pattern `bits`, a tie going
/// to the even significand: a not-a-number stays one, an infinity stays
/// itself, and a finite value beyond the format becomes an infinity.
pub open spec fn narrowed(bits: u64) -> u32 {
    if binary64::nan(bits) {
        NAN
    } else if binary64::infinite(bits) {
        if binary64::negative(bits) {
            (SIGN + INFINITY) as u32
        } else {
            INFINITY
        }
    } else {
        let rounded = nearest(
            binary64::significand(bits) as nat,
            binary64::scale(bits),
            PRECISION as nat,
            LEAST_SCALE as int,
        );
        pattern(binary64::negative(bits), rounded.0, rounded.1)
    }
}

/// Computes [`pattern`].
pub fn pack(minus: bool, s: u32, e: i32) -> (bits: u32)
    requires
        s < 0x0100_0000,
        LEAST_SCALE <= e <= 8192,
    ensures
        bits == pattern(minus, s as nat, e as int),
{
    let magnitude: u32 = if e > GREATEST_SCALE {
        INFINITY
    } else if s >= HIDDEN {
        let field: u32 = (e + 150) as u32;
        assert(1 <= field <= 254);
        field * HIDDEN + (s - HIDDEN)
    } else {
        s
    };
    if minus {
        SIGN + magnitude
    } else {
        magnitude
    }
}

/// The pattern of the binary32 float nearest to an integer, given as its
/// sign and its magnitude: see [`of_integer`].
pub fn from_integer(minus: bool, magnitude: u64) -> (bits: u32)
    ensures
        bits == pattern(
            minus,
            nearest(magnitude as nat, 0, PRECISION as nat, LEAST_SCALE as int).0,
            nearest(magnitude as nat, 0, PRECISION as nat, LEAST_SCALE as int).1,
        ),
{
    let rounded = round_to(magnitude, 0, PRECISION, LEAST_SCALE);
    proof {
        vstd::arithmetic::power2::lemma2_to64();
    }
    pack(minus, rounded.0 as u32, rounded.1)
}

/// Computes [`narrowed`].
pub fn narrow(bits: u64) -> (r: u32)
    ensures
        r == narrowed(bits),
{
    if binary64::is_nan(bits) {
        NAN
    } else if binary64::is_infinite(bits) {
        if binary64::is_negative(bits) {
            SIGN + INFINITY
        } else {
            INFINITY
        }
    } else {
        let (s, e) = binary64::parts(bits);
        let rounded = round_to(s, e, PRECISION, LEAST_SCALE);
        proof {
            vstd::arithmetic::power2::lemma2_to64();
        }
        pack(binary64::is_negative(bits), rounded.0 as u32, rounded.1)
    }
}

} // verus!
