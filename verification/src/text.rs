//! Text as sequences of characters: conversions, comparisons and the decimal
//! form of integers.
use vstd::prelude::*;
use vstd::string::StringExecFns;

verus! {

/// `String::push` appends one character.
pub assume_specification[ std::string::String::push ](s: &mut std::string::String, c: char)
    ensures
        final(s)@ == old(s)@.push(c),
;

/// The characters of `s`, in order.
pub fn chars_of(s: &str) -> (v: Vec<char>)
    ensures
        v@ == s@,
{
    let mut v: Vec<char> = Vec::new();
    for c in it: s.chars()
        invariant
            it.seq() == s@,
            v@ == it.seq().take(it.index()),
    {
        v.push(c);
    }
    v
}

/// Whether `v[from..]` holds exactly the characters of `word`.
pub fn is_word_from(v: &Vec<char>, from: usize, word: &str) -> (b: bool)
    requires
        from <= v.len(),
    ensures
        b == (v@.subrange(from as int, v.len() as int) == word@),
{
    let w = chars_of(word);
    let n = v.len() - from;
    if n != w.len() {
        return false;
    }
    let ghost t = v@.subrange(from as int, v.len() as int);
    let mut i: usize = 0;
    while i < n
        invariant
            i <= n,
            n == w.len(),
            n == v.len() - from,
            w@ == word@,
            t == v@.subrange(from as int, v.len() as int),
            t.take(i as int) == w@.take(i as int),
        decreases n - i,
    {
        if v[from + i] != w[i] {
            assert(t[i as int] != w@[i as int]);
            return false;
        }
        assert(t.take(i + 1) == t.take(i as int).push(t[i as int]));
        assert(w@.take(i + 1) == w@.take(i as int).push(w@[i as int]));
        i += 1;
    }
    assert(t.take(n as int) == t);
    assert(w@.take(n as int) == w@);
    true
}

/// Whether `v` holds exactly the characters of `word`.
pub fn is_word(v: &Vec<char>, word: &str) -> (b: bool)
    ensures
        b == (v@ == word@),
{
    assert(v@.subrange(0, v.len() as int) == v@);
    is_word_from(v, 0, word)
}

/// An upper-case ASCII letter folded to lower case; any other character as it is.
pub open spec fn lower_char(c: char) -> char {
    if 'A' <= c && c <= 'Z' {
        ((c as u8) + 32) as char
    } else {
        c
    }
}

/// `s` with every upper-case ASCII letter folded to lower case.
pub open spec fn lower(s: Seq<char>) -> Seq<char> {
    Seq::new(s.len(), |i: int| lower_char(s[i]))
}

/// Computes [`lower_char`].
pub fn to_lower_char(c: char) -> (r: char)
    ensures
        r == lower_char(c),
{
    if 'A' <= c && c <= 'Z' {
        ((c as u8) + 32) as char
    } else {
        c
    }
}

/// Computes [`lower`].
pub fn to_lower(v: &Vec<char>) -> (r: Vec<char>)
    ensures
        r@ == lower(v@),
{
    let mut r: Vec<char> = Vec::new();
    let mut i: usize = 0;
    while i < v.len()
        invariant
            i <= v.len(),
            r@ == lower(v@).take(i as int),
        decreases v.len() - i,
    {
        r.push(to_lower_char(v[i]));
        i += 1;
    }
    r
}

/// Whether `c` is one of `0` to `9`.
pub open spec fn is_digit(c: char) -> bool {
    '0' <= c && c <= '9'
}

/// The character that writes the digit `d`.
pub open spec fn digit_char(d: nat) -> char
    recommends
        d < 10,
{
    (('0' as u8) + (d as u8)) as char
}

/// The decimal digits of `n`, most significant first, without leading zeros.
pub open spec fn digits(n: nat) -> Seq<char>
    decreases n,
{
    if n < 10 {
        seq![digit_char(n)]
    } else {
        digits(n / 10).push(digit_char(n % 10))
    }
}

/// The minimal decimal form of `i`: a minus sign for a negative number, then
/// the digits of its magnitude.
pub open spec fn decimal(i: int) -> Seq<char> {
    if i < 0 {
        seq!['-'] + digits((-i) as nat)
    } else {
        digits(i as nat)
    }
}

/// Decimal text of an unsigned integer, as `itoa::Buffer::format` writes it:
/// the digits of the value, most significant first, without leading zeros,
/// and nothing else.
#[verifier::external_body]
pub(crate) fn format_unsigned(v: u128) -> (s: String)
    ensures
        s@ == decimal(v as int),
{
    itoa::Buffer::new().format(v).to_owned()
}

/// The minimal decimal form of a signed integer: a minus sign for a
/// negative number, then the digits of its magnitude.
pub fn format_signed(v: i128) -> (s: String)
    ensures
        s@ == decimal(v as int),
{
    if v >= 0 {
        format_unsigned(v as u128)
    } else {
        let magnitude: u128 = if v == i128::MIN {
            0x8000_0000_0000_0000_0000_0000_0000_0000
        } else {
            (-v) as u128
        };
        let mut s = "-".to_owned();
        proof {
            reveal_strlit("-");
        }
        s.append(format_unsigned(magnitude).as_str());
        assert(s@ =~= seq!['-'] + digits(magnitude as nat));
        s
    }
}

} // verus!
