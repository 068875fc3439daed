//! Rounding to the nearest value that a binary format can hold, ties going
//! to the even significand: the rounding of IEEE 754, done on integers.
use vstd::prelude::*;
use vstd::arithmetic::power2::{pow2, lemma_pow2_pos, lemma_pow2_unfold, lemma_pow2_adds, lemma_pow2_strictly_increases};

verus! {

/// How many binary digits `n` takes: none for zero.
pub open spec fn bit_length(n: nat) -> nat
    decreases n,
{
    if n == 0 {
        0
    } else {
        1 + bit_length(n / 2)
    }
}

/// `sig` divided by two to the `k`, rounded to the nearest whole number;
/// a tie goes to the even one.
pub open spec fn round_half_even(sig: nat, k: nat) -> nat {
    let unit = pow2(k);
    let q = sig / unit;
    let r = sig % unit;
    if 2 * r > unit || (2 * r == unit && q % 2 == 1) {
        q + 1
    } else {
        q
    }
}

/// The scale at which a format of `precision` binary digits, whose scales
/// begin at `least`, holds the value `sig * 2^scale`: the one at which the
/// significand fills the precision, but no less than `least`.
pub open spec fn grain(sig: nat, scale: int, precision: nat, least: int) -> int {
    let full = scale + bit_length(sig) - precision;
    if full >= least {
        full
    } else {
        least
    }
}

/// The value `sig * 2^scale` rounded to a format of `precision` binary
/// digits whose scales begin at `least`: the significand and the scale of
/// the nearest value that the format holds, a tie going to the even
/// significand. A value that the format holds is kept exactly.
pub open spec fn nearest(sig: nat, scale: int, precision: nat, least: int) -> (nat, int) {
    let e = grain(sig, scale, precision, least);
    if e <= scale {
        (sig * pow2((scale - e) as nat), e)
    } else {
        let s = round_half_even(sig, (e - scale) as nat);
        if s == pow2(precision) {
            (pow2((precision - 1) as nat), e + 1)
        } else {
            (s, e)
        }
    }
}

/// A number below a power of two with at least half of it has as many
/// binary digits as the exponent says.
pub proof fn lemma_bit_length(n: nat, l: nat)
    requires
        l >= 1,
        pow2((l - 1) as nat) <= n < pow2(l),
    ensures
        bit_length(n) == l,
    decreases l,
{
    lemma_pow2_pos((l - 1) as nat);
    lemma_pow2_unfold(l);
    if l == 1 {
        vstd::arithmetic::power2::lemma2_to64();
        assert(n == 1);
        assert(bit_length(1) == 1 + bit_length(0));
    } else {
        lemma_pow2_unfold((l - 1) as nat);
        lemma_bit_length(n / 2, (l - 1) as nat);
    }
}

/// Two to the `k`.
pub fn power_of_two(k: u32) -> (p: u128)
    requires
        k <= 127,
    ensures
        p == pow2(k as nat),
        p >= 1,
{
    let mut p: u128 = 1;
    let mut i: u32 = 0;
    proof {
        vstd::arithmetic::power2::lemma2_to64();
    }
    while i < k
        invariant
            i <= k <= 127,
            p == pow2(i as nat),
            p >= 1,
        decreases k - i,
    {
        proof {
            lemma_pow2_unfold((i + 1) as nat);
            lemma_pow2_strictly_increases((i + 1) as nat, 128);
            lemma_pow2_adds(64, 64);
            vstd::arithmetic::power2::lemma2_to64_rest();
        }
        p = p * 2;
        i += 1;
    }
    p
}

/// Computes [`bit_length`].
pub fn length_of(n: u64) -> (l: u32)
    ensures
        l == bit_length(n as nat),
        l <= 64,
        n > 0 ==> l >= 1 && pow2((l - 1) as nat) <= n < pow2(l as nat),
{
    if n == 0 {
        return 0;
    }
    let mut l: u32 = 1;
    proof {
        vstd::arithmetic::power2::lemma2_to64();
        vstd::arithmetic::power2::lemma2_to64_rest();
    }
    while l < 64 && (n as u128) >= power_of_two(l)
        invariant
            1 <= l <= 64,
            pow2((l - 1) as nat) <= n,
        decreases 64 - l,
    {
        l += 1;
    }
    proof {
        if l == 64 {
            assert(n < pow2(64));
        }
        lemma_bit_length(n as nat, l as nat);
    }
    l
}

/// Powers of two grow with their exponents.
pub proof fn lemma_pow2_monotonic(a: nat, b: nat)
    requires
        a <= b,
    ensures
        pow2(a) <= pow2(b),
{
    if a < b {
        lemma_pow2_strictly_increases(a, b);
    }
}

/// A number with `l` binary digits, scaled up by `d` more, stays below two
/// to the `l + d`.
pub proof fn lemma_scaled_up(sig: nat, l: nat, d: nat)
    requires
        sig < pow2(l),
    ensures
        sig * pow2(d) < pow2(l + d),
{
    lemma_pow2_adds(l, d);
    lemma_pow2_pos(d);
    assert(sig * pow2(d) < pow2(l) * pow2(d)) by (nonlinear_arith)
        requires
            sig < pow2(l),
            pow2(d) > 0,
    ;
}

/// A number below two to the `k + p`, divided by two to the `k`, is below
/// two to the `p`.
pub proof fn lemma_scaled_down(sig: nat, k: nat, p: nat)
    requires
        sig < pow2(k + p),
    ensures
        sig / pow2(k) < pow2(p),
{
    lemma_pow2_adds(k, p);
    lemma_pow2_pos(k);
    let unit = pow2(k) as int;
    assert(sig < unit * pow2(p));
    vstd::arithmetic::div_mod::lemma_fundamental_div_mod(sig as int, unit);
    let q = sig as int / unit;
    assert(sig as int % unit >= 0) by {
        vstd::arithmetic::div_mod::lemma_mod_bound(sig as int, unit);
    }
    assert(q < pow2(p)) by (nonlinear_arith)
        requires
            unit > 0,
            unit * q <= sig,
            sig < unit * pow2(p),
    ;
}

/// A number with no more than `k - 1` binary digits is less than half of
/// two to the `k`: divided by it, it rounds to zero.
pub proof fn lemma_rounds_to_zero(sig: nat, k: nat)
    requires
        k >= 1,
        sig < pow2((k - 1) as nat),
    ensures
        round_half_even(sig, k) == 0,
{
    lemma_pow2_unfold(k);
    let unit = pow2(k) as int;
    vstd::arithmetic::div_mod::lemma_basic_div(sig as int, unit);
    vstd::arithmetic::div_mod::lemma_small_mod(sig, pow2(k));
}

/// Rounds the value `sig * 2^scale` to a format of `precision` binary
/// digits whose scales begin at `least`: see [`nearest`].
pub fn round_to(sig: u64, scale: i32, precision: u32, least: i32) -> (r: (u64, i32))
    requires
        1 <= precision <= 53,
        -4096 <= scale <= 4096,
        -4096 <= least <= 4096,
    ensures
        (r.0 as nat, r.1 as int) == nearest(
            sig as nat,
            scale as int,
            precision as nat,
            least as int,
        ),
        r.0 < pow2(precision as nat),
        r.1 >= least,
        r.1 <= scale + 65 || r.1 <= least + 1,
{
    let l = length_of(sig);
    let full: i32 = scale + (l as i32) - (precision as i32);
    let e: i32 = if full >= least {
        full
    } else {
        least
    };
    assert(e as int == grain(sig as nat, scale as int, precision as nat, least as int));
    proof {
        if sig == 0 {
            lemma_pow2_pos(0);
        }
        assert(sig < pow2(l as nat)) by {
            if sig == 0 {
                lemma_pow2_pos(l as nat);
            }
        }
    }
    if e <= scale {
        let d: u32 = (scale - e) as u32;
        assert(l + d <= precision);
        let p = power_of_two(d);
        proof {
            lemma_scaled_up(sig as nat, l as nat, d as nat);
            lemma_pow2_monotonic((l + d) as nat, precision as nat);
            lemma_pow2_monotonic(precision as nat, 53);
            vstd::arithmetic::power2::lemma2_to64_rest();
        }
        let s: u128 = (sig as u128) * p;
        (s as u64, e)
    } else {
        let wide: i32 = e - scale;
        if wide > 64 {
            proof {
                vstd::arithmetic::power2::lemma2_to64_rest();
                lemma_pow2_monotonic(64, (wide - 1) as nat);
                lemma_rounds_to_zero(sig as nat, wide as nat);
                lemma_pow2_pos(precision as nat);
            }
            return (0, e);
        }
        let k: u32 = wide as u32;
        let unit = power_of_two(k);
        let q: u128 = (sig as u128) / unit;
        let rest: u128 = (sig as u128) % unit;
        proof {
            assert(l <= k + precision);
            lemma_pow2_monotonic(l as nat, (k + precision) as nat);
            lemma_scaled_down(sig as nat, k as nat, precision as nat);
            lemma_pow2_monotonic(precision as nat, 53);
            vstd::arithmetic::power2::lemma2_to64_rest();
            lemma_pow2_unfold(precision as nat);
            lemma_pow2_monotonic(k as nat, 64);
            assert(unit <= 0x1_0000_0000_0000_0000);
            assert(rest < unit);
        }
        let up = 2 * rest > unit || (2 * rest == unit && q % 2 == 1);
        let s: u128 = if up {
            q + 1
        } else {
            q
        };
        assert(s == round_half_even(sig as nat, k as nat));
        let top = power_of_two(precision);
        if s == top {
            ((top / 2) as u64, e + 1)
        } else {
            (s as u64, e)
        }
    }
}

/// The distance between two numbers.
pub open spec fn distance(a: int, b: int) -> int {
    if a >= b {
        a - b
    } else {
        b - a
    }
}

/// Rounding to the nearest whole number misses by half a unit at most.
pub proof fn lemma_round_half_even_is_close(sig: nat, k: nat)
    ensures
        2 * distance(sig as int, (round_half_even(sig, k) * pow2(k)) as int) <= pow2(k),
{
    lemma_pow2_pos(k);
    let unit = pow2(k) as int;
    let q = sig as int / unit;
    let r = sig as int % unit;
    vstd::arithmetic::div_mod::lemma_fundamental_div_mod(sig as int, unit);
    vstd::arithmetic::div_mod::lemma_mod_bound(sig as int, unit);
    assert((q + 1) * unit == q * unit + unit) by (nonlinear_arith);
    assert(unit * q == q * unit) by (nonlinear_arith);
}

/// What rounding keeps: a value that the format holds at its grain is kept
/// exactly, and any other value is missed by half a unit of the result at
/// most. So the result is a nearest value of the format.
pub proof fn lemma_nearest_is_close(sig: nat, scale: int, precision: nat, least: int)
    requires
        precision >= 1,
    ensures
        ({
            let (s, e) = nearest(sig, scale, precision, least);
            if e <= scale {
                s == sig * pow2((scale - e) as nat)
            } else {
                2 * distance(sig as int, (s * pow2((e - scale) as nat)) as int) <= pow2(
                    (e - scale) as nat,
                )
            }
        }),
{
    let g = grain(sig, scale, precision, least);
    if g > scale {
        let k = (g - scale) as nat;
        lemma_round_half_even_is_close(sig, k);
        let rounded = round_half_even(sig, k);
        if rounded == pow2(precision) {
            lemma_pow2_unfold(precision);
            lemma_pow2_unfold(k + 1);
            lemma_pow2_pos(k);
            let half = pow2((precision - 1) as nat);
            assert(half * pow2(k + 1) == rounded * pow2(k)) by (nonlinear_arith)
                requires
                    rounded == 2 * half,
                    pow2(k + 1) == 2 * pow2(k),
            ;
        }
    }
}

/// What rounding gives lies in the format: the significand has no more
/// binary digits than the precision, the scale is no less than the least,
/// and above the least scale the significand fills the precision.
pub proof fn lemma_nearest_in_format(sig: nat, scale: int, precision: nat, least: int)
    requires
        precision >= 1,
        sig > 0,
    ensures
        ({
            let (s, e) = nearest(sig, scale, precision, least);
            &&& s < pow2(precision)
            &&& e >= least
            &&& e > least ==> s >= pow2((precision - 1) as nat)
        }),
{
    let l = bit_length(sig);
    lemma_bit_length_bounds(sig);
    let g = grain(sig, scale, precision, least);
    lemma_pow2_unfold(precision);
    if g <= scale {
        let d = (scale - g) as nat;
        lemma_scaled_up(sig, l, d);
        lemma_pow2_monotonic(l + d, precision);
        if g > least {
            assert(l + d == precision);
            lemma_pow2_adds((l - 1) as nat, d);
            lemma_pow2_pos(d);
            assert(sig * pow2(d) >= pow2((l - 1) as nat) * pow2(d)) by (nonlinear_arith)
                requires
                    sig >= pow2((l - 1) as nat),
                    pow2(d) > 0,
            ;
        }
    } else {
        let k = (g - scale) as nat;
        lemma_pow2_monotonic(l, k + precision);
        lemma_scaled_down(sig, k, precision);
        lemma_pow2_pos(k);
        if g > least {
            assert(l == k + precision);
            lemma_pow2_adds(k, (precision - 1) as nat);
            let unit = pow2(k) as int;
            let low = pow2((precision - 1) as nat) as int;
            assert(sig >= unit * low);
            vstd::arithmetic::div_mod::lemma_div_is_ordered(unit * low, sig as int, unit);
            vstd::arithmetic::div_mod::lemma_div_multiples_vanish(low, unit);
            assert(unit * low == low * unit) by (nonlinear_arith);
        }
    }
}

/// A number that is not zero lies between the powers of two that its count
/// of binary digits names.
pub proof fn lemma_bit_length_bounds(n: nat)
    requires
        n > 0,
    ensures
        bit_length(n) >= 1,
        pow2((bit_length(n) - 1) as nat) <= n < pow2(bit_length(n)),
    decreases n,
{
    if n == 1 {
        vstd::arithmetic::power2::lemma2_to64();
        assert(bit_length(1) == 1 + bit_length(0));
    } else {
        lemma_bit_length_bounds(n / 2);
        let l = bit_length(n / 2);
        lemma_pow2_unfold(l);
        lemma_pow2_unfold(l + 1);
    }
}

} // verus!
