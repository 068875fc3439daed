//! The integer grammar of plain scalars: an optional sign, then decimal
//! digits, or `0x`, `0o` or `0b` and digits in that radix.
use vstd::prelude::*;
use crate::text::{decimal, digit_char, digits, is_digit};

verus! {

/// The value of the digit `c` in `radix`, if it is one. Letters count from
/// ten, in either case.
pub open spec fn digit_value(c: char, radix: int) -> Option<int> {
    let v: int = if '0' <= c && c <= '9' {
        c as int - '0' as int
    } else if 'a' <= c && c <= 'z' {
        c as int - 'a' as int + 10
    } else if 'A' <= c && c <= 'Z' {
        c as int - 'A' as int + 10
    } else {
        36
    };
    if v < radix {
        Some(v)
    } else {
        None
    }
}

/// Whether `s` is one or more digits of `radix`.
pub open spec fn all_digits(s: Seq<char>, radix: int) -> bool {
    s.len() > 0 && forall|i: int| 0 <= i < s.len() ==> (#[trigger] digit_value(s[i], radix)) is Some
}

/// The number that the digits `s` write in `radix`.
pub open spec fn radix_value(s: Seq<char>, radix: int) -> int
    decreases s.len(),
{
    if s.len() == 0 {
        0
    } else {
        radix_value(s.drop_last(), radix) * radix + digit_value(s.last(), radix).unwrap()
    }
}

/// Where the text starts after one leading `+`, if it has one.
pub open spec fn after_plus(s: Seq<char>) -> int {
    if s.len() > 0 && s[0] == '+' {
        1
    } else {
        0
    }
}

/// Whether `0` and `letter` stand at `at` in `s`.
pub open spec fn radix_prefix(s: Seq<char>, at: int, letter: char) -> bool {
    s.len() >= at + 2 && s[at] == '0' && s[at + 1] == letter
}

/// Whether `s`, after one optional sign, is a zero followed by one or more
/// decimal digits. Such a text has digits but is no number: it is a string.
pub open spec fn leading_zero_digits(s: Seq<char>) -> bool {
    let k: int = if s.len() > 0 && (s[0] == '-' || s[0] == '+') {
        1
    } else {
        0
    };
    &&& s.len() - k > 1
    &&& s[k] == '0'
    &&& forall|i: int| k + 1 <= i < s.len() ==> is_digit(#[trigger] s[i])
}

/// The rest of `s` from `from` on.
pub open spec fn tail(s: Seq<char>, from: int) -> Seq<char> {
    s.subrange(from, s.len() as int)
}

/// The integer that `s` writes, of whatever size, if `s` follows the integer
/// grammar:
/// - `0x`, `0o` or `0b` and digits of radix sixteen, eight or two, after an
///   optional `+` or after a `-`;
/// - decimal digits after an optional `+` or `-`, unless the text is a zero
///   followed by more digits.
pub open spec fn integer_value(s: Seq<char>) -> Option<int> {
    let p = after_plus(s);
    if radix_prefix(s, p, 'x') && all_digits(tail(s, p + 2), 16) {
        Some(radix_value(tail(s, p + 2), 16))
    } else if radix_prefix(s, p, 'o') && all_digits(tail(s, p + 2), 8) {
        Some(radix_value(tail(s, p + 2), 8))
    } else if radix_prefix(s, p, 'b') && all_digits(tail(s, p + 2), 2) {
        Some(radix_value(tail(s, p + 2), 2))
    } else if s.len() > 0 && s[0] == '-' && radix_prefix(s, 1, 'x') && all_digits(tail(s, 3), 16) {
        Some(-radix_value(tail(s, 3), 16))
    } else if s.len() > 0 && s[0] == '-' && radix_prefix(s, 1, 'o') && all_digits(tail(s, 3), 8) {
        Some(-radix_value(tail(s, 3), 8))
    } else if s.len() > 0 && s[0] == '-' && radix_prefix(s, 1, 'b') && all_digits(tail(s, 3), 2) {
        Some(-radix_value(tail(s, 3), 2))
    } else if leading_zero_digits(s) {
        None
    } else if all_digits(tail(s, p), 10) {
        Some(radix_value(tail(s, p), 10))
    } else if s.len() > 0 && s[0] == '-' && all_digits(tail(s, 1), 10) {
        Some(-radix_value(tail(s, 1), 10))
    } else {
        None
    }
}

/// What a run of characters is, read as digits.
#[derive(Clone, Copy, Debug, PartialEq, Eq, Structural)]
pub enum Digits {
    /// Not one or more digits of the radix.
    Invalid,
    /// Digits of a number above `u128::MAX`.
    TooLarge,
    /// Digits of this number.
    Value(u128),
}

/// One more digit multiplies the number by the radix and adds the digit.
pub proof fn lemma_radix_value_push(s: Seq<char>, c: char, radix: int)
    ensures
        radix_value(s.push(c), radix) == radix_value(s, radix) * radix + digit_value(
            c,
            radix,
        ).unwrap(),
{
    assert(s.push(c).drop_last() == s);
    assert(s.push(c).last() == c);
}

/// Computes [`digit_value`].
pub fn digit_of(c: char, radix: u32) -> (r: Option<u32>)
    requires
        2 <= radix <= 36,
    ensures
        match digit_value(c, radix as int) {
            Some(v) => r == Some(v as u32),
            None => r is None,
        },
{
    let v: u32 = if '0' <= c && c <= '9' {
        (c as u32) - ('0' as u32)
    } else if 'a' <= c && c <= 'z' {
        (c as u32) - ('a' as u32) + 10
    } else if 'A' <= c && c <= 'Z' {
        (c as u32) - ('A' as u32) + 10
    } else {
        36
    };
    if v < radix {
        Some(v)
    } else {
        None
    }
}

/// Reads `v[from..]` as digits of `radix`.
pub fn read_digits(v: &Vec<char>, from: usize, radix: u32) -> (r: Digits)
    requires
        from <= v.len(),
        2 <= radix <= 36,
    ensures
        match r {
            Digits::Invalid => !all_digits(tail(v@, from as int), radix as int),
            Digits::TooLarge => all_digits(tail(v@, from as int), radix as int) && radix_value(
                tail(v@, from as int),
                radix as int,
            ) > u128::MAX,
            Digits::Value(x) => all_digits(tail(v@, from as int), radix as int) && radix_value(
                tail(v@, from as int),
                radix as int,
            ) == x,
        },
{
    if from == v.len() {
        return Digits::Invalid;
    }
    let mut acc: Option<u128> = Some(0);
    let mut i: usize = from;
    assert(v@.subrange(from as int, from as int) =~= Seq::<char>::empty());
    while i < v.len()
        invariant
            from <= i <= v.len(),
            from < v.len(),
            2 <= radix <= 36,
            forall|j: int| from <= j < i ==> (#[trigger] digit_value(v@[j], radix as int)) is Some,
            radix_value(v@.subrange(from as int, i as int), radix as int) >= 0,
            match acc {
                Some(x) => radix_value(v@.subrange(from as int, i as int), radix as int) == x,
                None => radix_value(v@.subrange(from as int, i as int), radix as int) > u128::MAX,
            },
        decreases v.len() - i,
    {
        let d = match digit_of(v[i], radix) {
            Some(d) => d,
            None => {
                assert(tail(v@, from as int)[i - from] == v@[i as int]);
                return Digits::Invalid;
            },
        };
        proof {
            let before = v@.subrange(from as int, i as int);
            assert(v@.subrange(from as int, i + 1) =~= before.push(v@[i as int]));
            lemma_radix_value_push(before, v@[i as int], radix as int);
            assert(radix_value(before, radix as int) * radix >= radix_value(before, radix as int))
                by (nonlinear_arith)
                requires
                    radix_value(before, radix as int) >= 0,
                    radix >= 2,
            ;
        }
        acc = match acc {
            Some(x) => match x.checked_mul(radix as u128) {
                Some(m) => m.checked_add(d as u128),
                None => None,
            },
            None => None,
        };
        i += 1;
    }
    proof {
        assert(v@.subrange(from as int, v.len() as int) == tail(v@, from as int));
        assert forall|k: int| 0 <= k < tail(v@, from as int).len() implies (#[trigger] digit_value(
            tail(v@, from as int)[k],
            radix as int,
        )) is Some by {
            assert(tail(v@, from as int)[k] == v@[from + k]);
        }
    }
    match acc {
        Some(x) => Digits::Value(x),
        None => Digits::TooLarge,
    }
}

/// Computes [`leading_zero_digits`].
pub fn digits_but_not_number(v: &Vec<char>) -> (b: bool)
    ensures
        b == leading_zero_digits(v@),
{
    let k: usize = if v.len() > 0 && (v[0] == '-' || v[0] == '+') {
        1
    } else {
        0
    };
    if v.len() - k <= 1 || v[k] != '0' {
        return false;
    }
    let mut i: usize = k + 1;
    while i < v.len()
        invariant
            k + 1 <= i <= v.len(),
            forall|j: int| k + 1 <= j < i ==> is_digit(#[trigger] v@[j]),
        decreases v.len() - i,
    {
        if !('0' <= v[i] && v[i] <= '9') {
            return false;
        }
        i += 1;
    }
    true
}

/// An integer as the grammar reads it: a sign and a magnitude.
#[derive(Clone, Copy, Debug, PartialEq, Eq, Structural)]
pub enum Reading {
    /// The text does not follow the integer grammar.
    NotInteger,
    /// The text writes an integer whose magnitude is above `u128::MAX`.
    TooLarge,
    /// The text writes this magnitude, negated where `negative` holds.
    Value { negative: bool, magnitude: u128 },
}

impl Reading {
    /// What this reading says of the text `s`.
    pub open spec fn reads(self, s: Seq<char>) -> bool {
        match self {
            Reading::NotInteger => integer_value(s) is None,
            Reading::TooLarge => integer_value(s) matches Some(i) && (i > u128::MAX || i
                < -(u128::MAX as int)),
            Reading::Value { negative, magnitude } => integer_value(s) == Some(
                if negative {
                    -(magnitude as int)
                } else {
                    magnitude as int
                },
            ),
        }
    }
}

/// What reading digits from `from` on gives, with a sign.
fn signed(d: Digits, negative: bool) -> (r: Reading)
    requires
        d != Digits::Invalid,
    ensures
        d == Digits::TooLarge ==> r == Reading::TooLarge,
        d matches Digits::Value(x) ==> r == (Reading::Value { negative, magnitude: x }),
{
    match d {
        Digits::Value(x) => Reading::Value { negative, magnitude: x },
        _ => Reading::TooLarge,
    }
}

/// Whether `0` and `letter` stand at `at` in `v`.
fn has_radix_prefix(v: &Vec<char>, at: usize, letter: char) -> (b: bool)
    requires
        at <= 1,
    ensures
        b == radix_prefix(v@, at as int, letter),
{
    v.len() >= at + 2 && v[at] == '0' && v[at + 1] == letter
}

/// Reads `v` by the integer grammar: see [`integer_value`].
pub fn read_integer(v: &Vec<char>) -> (r: Reading)
    ensures
        r.reads(v@),
{
    let p: usize = if v.len() > 0 && v[0] == '+' {
        1
    } else {
        0
    };
    let minus = v.len() > 0 && v[0] == '-';
    if has_radix_prefix(v, p, 'x') {
        let d = read_digits(v, p + 2, 16);
        if d != Digits::Invalid {
            return signed(d, false);
        }
    }
    if has_radix_prefix(v, p, 'o') {
        let d = read_digits(v, p + 2, 8);
        if d != Digits::Invalid {
            return signed(d, false);
        }
    }
    if has_radix_prefix(v, p, 'b') {
        let d = read_digits(v, p + 2, 2);
        if d != Digits::Invalid {
            return signed(d, false);
        }
    }
    if minus && has_radix_prefix(v, 1, 'x') {
        let d = read_digits(v, 3, 16);
        if d != Digits::Invalid {
            return signed(d, true);
        }
    }
    if minus && has_radix_prefix(v, 1, 'o') {
        let d = read_digits(v, 3, 8);
        if d != Digits::Invalid {
            return signed(d, true);
        }
    }
    if minus && has_radix_prefix(v, 1, 'b') {
        let d = read_digits(v, 3, 2);
        if d != Digits::Invalid {
            return signed(d, true);
        }
    }
    if digits_but_not_number(v) {
        return Reading::NotInteger;
    }
    let d = read_digits(v, p, 10);
    if d != Digits::Invalid {
        return signed(d, false);
    }
    if minus {
        let d = read_digits(v, 1, 10);
        if d != Digits::Invalid {
            return signed(d, true);
        }
    }
    Reading::NotInteger
}

/// The character that writes a digit is a decimal digit of that value.
pub proof fn lemma_digit_char(d: nat)
    requires
        d < 10,
    ensures
        is_digit(digit_char(d)),
        digit_value(digit_char(d), 10) == Some(d as int),
        digit_char(d) == '0' <==> d == 0,
{
}

/// The decimal digits of a number are digits, they write the number, and
/// they begin with a zero only where the number is zero.
pub proof fn lemma_digits(n: nat)
    ensures
        all_digits(digits(n), 10),
        radix_value(digits(n), 10) == n,
        digits(n).len() >= 1,
        digits(n)[0] == '0' <==> n == 0,
        n == 0 ==> digits(n).len() == 1,
        forall|i: int| 0 <= i < digits(n).len() ==> is_digit(#[trigger] digits(n)[i]),
    decreases n,
{
    if n < 10 {
        lemma_digit_char(n);
        let s = digits(n);
        assert(s =~= seq![digit_char(n)]);
        assert(s.drop_last() =~= Seq::<char>::empty());
        assert(radix_value(s.drop_last(), 10) == 0);
        assert(s.last() == digit_char(n));
    } else {
        lemma_digits(n / 10);
        lemma_digit_char(n % 10);
        let head = digits(n / 10);
        let s = digits(n);
        assert(s =~= head.push(digit_char(n % 10)));
        lemma_radix_value_push(head, digit_char(n % 10), 10);
        assert(s[0] == head[0]);
        assert forall|i: int| 0 <= i < s.len() implies (#[trigger] digit_value(s[i], 10)) is Some by {
            if i < head.len() {
                assert(s[i] == head[i]);
            }
        }
        assert forall|i: int| 0 <= i < s.len() implies is_digit(#[trigger] s[i]) by {
            if i < head.len() {
                assert(s[i] == head[i]);
            }
        }
    }
}

/// The minimal decimal form of an integer reads back as that integer.
pub proof fn lemma_decimal_reads_back(i: int)
    ensures
        integer_value(decimal(i)) == Some(i),
{
    let s = decimal(i);
    if i >= 0 {
        lemma_digits(i as nat);
        assert(s == digits(i as nat));
        assert(is_digit(s[0]));
        assert(after_plus(s) == 0);
        assert(tail(s, 0) =~= s);
        if s.len() >= 2 {
            assert(is_digit(s[1]));
        }
        assert(!leading_zero_digits(s));
    } else {
        let m = (-i) as nat;
        lemma_digits(m);
        let d = digits(m);
        assert(s =~= seq!['-'] + d);
        assert(s[0] == '-');
        assert(after_plus(s) == 0);
        assert(tail(s, 1) =~= d);
        assert(s[1] == d[0]);
        assert(d[0] != '0');
        if s.len() >= 3 {
            assert(s[2] == d[1]);
            assert(is_digit(d[1]));
        }
        assert(tail(s, 0) =~= s);
        assert(!all_digits(tail(s, 0), 10)) by {
            assert(digit_value(s[0], 10) is None);
        }
        assert(!leading_zero_digits(s));
    }
}

} // verus!
