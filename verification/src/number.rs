//! A YAML number: an integer or a binary64 float, with one not-a-number, a
//! total order and saturating conversions.
use std::cmp::Ordering;
use vstd::prelude::*;
use vstd::std_specs::cmp::{PartialEqSpecImpl, PartialOrdSpecImpl};
use vstd::std_specs::convert::FromSpecImpl;
use crate::binary64;
use crate::binary64::{nan, infinite, finite, negative, rank, truncated};
use crate::error::Error;
use crate::integer::{after_plus, tail, integer_value, leading_zero_digits, read_integer, digits_but_not_number, Reading};
use crate::text::{decimal, format_signed, format_unsigned, chars_of, is_word, is_word_from};

verus! {

/// What a [`Number`] stands for.
pub enum NumberView {
    /// An integer between `i64::MIN` and `u64::MAX`.
    Integer(int),
    /// A binary64 value, by its bit pattern.
    Float(u64),
}

/// `i` kept within `lo` and `hi`.
pub open spec fn clamp(i: int, lo: int, hi: int) -> int {
    if i < lo {
        lo
    } else if i > hi {
        hi
    } else {
        i
    }
}

/// How two integers compare.
pub open spec fn int_order(x: int, y: int) -> Ordering {
    if x < y {
        Ordering::Less
    } else if x == y {
        Ordering::Equal
    } else {
        Ordering::Greater
    }
}

/// The order of two floats: by value, the two zeros equal, not-a-number
/// after every other float and equal to itself.
pub open spec fn float_order(x: u64, y: u64) -> Ordering {
    if nan(x) {
        if nan(y) {
            Ordering::Equal
        } else {
            Ordering::Greater
        }
    } else if nan(y) {
        Ordering::Less
    } else {
        int_order(rank(x), rank(y))
    }
}

/// The total order of numbers: integers by value, floats by
/// [`float_order`], and every integer before every float, whatever their
/// values.
pub open spec fn order(a: NumberView, b: NumberView) -> Ordering {
    match (a, b) {
        (NumberView::Integer(x), NumberView::Integer(y)) => int_order(x, y),
        (NumberView::Float(x), NumberView::Float(y)) => float_order(x, y),
        (NumberView::Integer(_), NumberView::Float(_)) => Ordering::Less,
        (NumberView::Float(_), NumberView::Integer(_)) => Ordering::Greater,
    }
}

/// The order that the comparison operators go by: [`order`], for every two
/// numbers. A not-a-number is greater than every other number, as in the
/// total order, so that `<`, `==` and `>` leave no pair undecided.
pub open spec fn partial_order(a: NumberView, b: NumberView) -> Option<Ordering> {
    Some(order(a, b))
}

/// Whether two numbers are equal: the same integer, or two floats of the
/// same value, the two zeros being one value and every not-a-number being
/// equal to every other. An integer never equals a float.
pub open spec fn same(a: NumberView, b: NumberView) -> bool {
    match (a, b) {
        (NumberView::Integer(x), NumberView::Integer(y)) => x == y,
        (NumberView::Float(x), NumberView::Float(y)) => if nan(x) || nan(y) {
            nan(x) && nan(y)
        } else {
            rank(x) == rank(y)
        },
        _ => false,
    }
}

impl NumberView {
    /// Whether the number is an integer or a float whose not-a-number, if it
    /// is one, is the canonical one.
    pub open spec fn well_formed(self) -> bool {
        match self {
            NumberView::Integer(i) => i64::MIN <= i <= u64::MAX,
            NumberView::Float(b) => nan(b) ==> b == binary64::NAN,
        }
    }

    /// The number narrowed to the integers from `lo` to `hi`: an integer is
    /// clamped; a float is truncated toward zero, then clamped; an infinity
    /// goes to the bound on its side; not-a-number goes to zero.
    pub open spec fn saturated(self, lo: int, hi: int) -> int {
        match self {
            NumberView::Integer(i) => clamp(i, lo, hi),
            NumberView::Float(b) => if nan(b) {
                0
            } else if infinite(b) {
                if negative(b) {
                    lo
                } else {
                    hi
                }
            } else {
                clamp(truncated(b), lo, hi)
            },
        }
    }

    /// The text of the number, where it has one that needs no float
    /// formatting: the minimal decimal form of an integer, `.nan`, `.inf`
    /// or `-.inf`. A finite float has none here.
    pub open spec fn text(self) -> Option<Seq<char>> {
        match self {
            NumberView::Integer(i) => Some(decimal(i)),
            NumberView::Float(b) => if nan(b) {
                Some(".nan"@)
            } else if infinite(b) {
                if negative(b) {
                    Some("-.inf"@)
                } else {
                    Some(".inf"@)
                }
            } else {
                None
            },
        }
    }
}

#[derive(Copy, Clone, Debug, Hash)]
enum N {
    PositiveInteger(u64),
    NegativeInteger(i64),
    Float(u64),
}

/// A YAML number: an integer, positive or negative, or a binary64 float.
///
/// A float is held as its bit pattern. Every not-a-number is stored as the
/// one pattern [`binary64::NAN`].
#[derive(Copy, Clone, Debug, Hash)]
pub struct Number {
    n: N,
}

impl View for Number {
    type V = NumberView;

    closed spec fn view(&self) -> NumberView {
        match self.n {
            N::PositiveInteger(u) => NumberView::Integer(u as int),
            N::NegativeInteger(i) => NumberView::Integer(i as int),
            N::Float(b) => NumberView::Float(b),
        }
    }
}

impl Number {
    #[verifier::type_invariant]
    closed spec fn inv(self) -> bool {
        match self.n {
            N::PositiveInteger(_) => true,
            N::NegativeInteger(i) => i < 0,
            N::Float(b) => nan(b) ==> b == binary64::NAN,
        }
    }

    /// The number `n`.
    pub fn from_i64(n: i64) -> (r: Self)
        ensures
            r@ == NumberView::Integer(n as int),
            r == Number::of_int(n as int),
    {
        if n < 0 {
            Number { n: N::NegativeInteger(n) }
        } else {
            Number { n: N::PositiveInteger(n as u64) }
        }
    }

    /// The number `n`.
    pub fn from_u64(n: u64) -> (r: Self)
        ensures
            r@ == NumberView::Integer(n as int),
            r == Number::of_int(n as int),
    {
        Number { n: N::PositiveInteger(n) }
    }

    /// The float with the bit pattern `bits`, a not-a-number replaced by the
    /// canonical one.
    pub fn from_bits(bits: u64) -> (r: Self)
        ensures
            r@ == NumberView::Float(binary64::canonical(bits)),
    {
        Number { n: N::Float(binary64::canonicalize(bits)) }
    }

    /// Whether the number is an integer between `i64::MIN` and `i64::MAX`.
    pub fn is_i64(&self) -> (b: bool)
        ensures
            b == (self@ matches NumberView::Integer(i) && i <= i64::MAX),
    {
        match self.n {
            N::PositiveInteger(v) => v <= i64::MAX as u64,
            N::NegativeInteger(_) => true,
            N::Float(_) => false,
        }
    }

    /// Whether the number is an integer between zero and `u64::MAX`.
    pub fn is_u64(&self) -> (b: bool)
        ensures
            b == (self@ matches NumberView::Integer(i) && i >= 0),
    {
        proof {
            use_type_invariant(self);
        }
        match self.n {
            N::PositiveInteger(_) => true,
            N::NegativeInteger(_) | N::Float(_) => false,
        }
    }

    /// Whether the number is a float.
    pub fn is_f64(&self) -> (b: bool)
        ensures
            b == (self@ is Float),
    {
        match self.n {
            N::Float(_) => true,
            N::PositiveInteger(_) | N::NegativeInteger(_) => false,
        }
    }

    /// The number as an `i64`, if it is an integer in that range.
    pub fn as_i64(&self) -> (r: Option<i64>)
        ensures
            self@.well_formed(),
            match self@ {
                NumberView::Integer(i) => if i <= i64::MAX {
                    r == Some(i as i64)
                } else {
                    r is None
                },
                NumberView::Float(_) => r is None,
            },
    {
        proof {
            use_type_invariant(self);
        }
        match self.n {
            N::PositiveInteger(n) => {
                if n <= i64::MAX as u64 {
                    Some(n as i64)
                } else {
                    None
                }
            },
            N::NegativeInteger(n) => Some(n),
            N::Float(_) => None,
        }
    }

    /// The number as a `u64`, if it is an integer that is not negative.
    pub fn as_u64(&self) -> (r: Option<u64>)
        ensures
            self@.well_formed(),
            match self@ {
                NumberView::Integer(i) => if i >= 0 {
                    r == Some(i as u64)
                } else {
                    r is None
                },
                NumberView::Float(_) => r is None,
            },
    {
        proof {
            use_type_invariant(self);
        }
        match self.n {
            N::PositiveInteger(n) => Some(n),
            N::NegativeInteger(_) | N::Float(_) => None,
        }
    }

    /// The bit pattern of the number, if it is a float. Every not-a-number
    /// has the one canonical pattern.
    pub fn as_bits(&self) -> (r: Option<u64>)
        ensures
            self@.well_formed(),
            match self@ {
                NumberView::Integer(_) => r is None,
                NumberView::Float(b) => r == Some(b),
            },
    {
        proof {
            use_type_invariant(self);
        }
        match self.n {
            N::PositiveInteger(_) | N::NegativeInteger(_) => None,
            N::Float(b) => Some(b),
        }
    }

    /// Whether the number is not-a-number.
    pub fn is_nan(&self) -> (b: bool)
        ensures
            b == (self@ matches NumberView::Float(f) && nan(f)),
    {
        match self.n {
            N::PositiveInteger(_) | N::NegativeInteger(_) => false,
            N::Float(f) => binary64::is_nan(f),
        }
    }

    /// Whether the number is positive or negative infinity.
    pub fn is_infinite(&self) -> (b: bool)
        ensures
            b == (self@ matches NumberView::Float(f) && infinite(f)),
    {
        match self.n {
            N::PositiveInteger(_) | N::NegativeInteger(_) => false,
            N::Float(f) => binary64::is_infinite(f),
        }
    }

    /// Whether the number is neither infinite nor not-a-number.
    pub fn is_finite(&self) -> (b: bool)
        ensures
            b == (self@ matches NumberView::Float(f) ==> finite(f)),
    {
        match self.n {
            N::PositiveInteger(_) | N::NegativeInteger(_) => true,
            N::Float(f) => binary64::is_finite(f),
        }
    }

    /// The number as an `i32`, saturating at the bounds: see
    /// [`NumberView::saturated`].
    pub fn to_i32_saturating(&self) -> (r: i32)
        ensures
            r == self@.saturated(i32::MIN as int, i32::MAX as int),
    {
        proof {
            use_type_invariant(self);
        }
        match self.n {
            N::PositiveInteger(u) => {
                if u > i32::MAX as u64 {
                    i32::MAX
                } else {
                    u as i32
                }
            },
            N::NegativeInteger(i) => {
                if i < i32::MIN as i64 {
                    i32::MIN
                } else {
                    i as i32
                }
            },
            N::Float(f) => {
                if binary64::is_nan(f) {
                    0
                } else if binary64::is_infinite(f) {
                    if binary64::is_negative(f) {
                        i32::MIN
                    } else {
                        i32::MAX
                    }
                } else {
                    let whole = binary64::whole_magnitude_capped(f, 0x8000_0000);
                    if binary64::is_negative(f) {
                        if whole >= 0x8000_0000 {
                            i32::MIN
                        } else {
                            -(whole as i32)
                        }
                    } else if whole > i32::MAX as u64 {
                        i32::MAX
                    } else {
                        whole as i32
                    }
                }
            },
        }
    }

    /// The number as a `u32`, saturating at the bounds: see
    /// [`NumberView::saturated`]. Every negative number gives zero.
    pub fn to_u32_saturating(&self) -> (r: u32)
        ensures
            r == self@.saturated(0, u32::MAX as int),
    {
        proof {
            use_type_invariant(self);
        }
        match self.n {
            N::PositiveInteger(u) => {
                if u > u32::MAX as u64 {
                    u32::MAX
                } else {
                    u as u32
                }
            },
            N::NegativeInteger(_) => 0,
            N::Float(f) => {
                if binary64::is_nan(f) || binary64::is_negative(f) {
                    0
                } else if binary64::is_infinite(f) {
                    u32::MAX
                } else {
                    let whole = binary64::whole_magnitude_capped(f, 0xffff_ffff);
                    whole as u32
                }
            },
        }
    }

    /// The number as an `i16`, saturating at the bounds: see
    /// [`NumberView::saturated`].
    pub fn to_i16_saturating(&self) -> (r: i16)
        ensures
            r == self@.saturated(i16::MIN as int, i16::MAX as int),
    {
        proof {
            use_type_invariant(self);
        }
        match self.n {
            N::PositiveInteger(u) => {
                if u > i16::MAX as u64 {
                    i16::MAX
                } else {
                    u as i16
                }
            },
            N::NegativeInteger(i) => {
                if i < i16::MIN as i64 {
                    i16::MIN
                } else {
                    i as i16
                }
            },
            N::Float(f) => {
                if binary64::is_nan(f) {
                    0
                } else if binary64::is_infinite(f) {
                    if binary64::is_negative(f) {
                        i16::MIN
                    } else {
                        i16::MAX
                    }
                } else {
                    let whole = binary64::whole_magnitude_capped(f, 0x8000);
                    if binary64::is_negative(f) {
                        if whole >= 0x8000 {
                            i16::MIN
                        } else {
                            -(whole as i16)
                        }
                    } else if whole > i16::MAX as u64 {
                        i16::MAX
                    } else {
                        whole as i16
                    }
                }
            },
        }
    }

    /// The text of the number, for every number but a finite float: the
    /// minimal decimal form of an integer, `.nan`, `.inf` or `-.inf`.
    /// `None` for a finite float exactly, whose shortest decimal form is the
    /// work of a float formatter.
    pub fn text(&self) -> (r: Option<String>)
        ensures
            match self@.text() {
                Some(t) => r matches Some(s) && s@ == t,
                None => r is None,
            },
    {
        match self.n {
            N::PositiveInteger(u) => Some(format_unsigned(u as u128)),
            N::NegativeInteger(i) => Some(format_signed(i as i128)),
            N::Float(f) => {
                if binary64::is_nan(f) {
                    Some(".nan".to_owned())
                } else if binary64::is_infinite(f) {
                    if binary64::is_negative(f) {
                        Some("-.inf".to_owned())
                    } else {
                        Some(".inf".to_owned())
                    }
                } else {
                    None
                }
            },
        }
    }

    /// Where the number stands in the total order of numbers: see [`order`].
    pub fn total_cmp(&self, other: &Number) -> (r: Ordering)
        ensures
            r == order(self@, other@),
    {
        proof {
            use_type_invariant(self);
            use_type_invariant(other);
        }
        match (self.n, other.n) {
            (N::PositiveInteger(a), N::PositiveInteger(b)) => {
                if a < b {
                    Ordering::Less
                } else if a == b {
                    Ordering::Equal
                } else {
                    Ordering::Greater
                }
            },
            (N::NegativeInteger(a), N::NegativeInteger(b)) => {
                if a < b {
                    Ordering::Less
                } else if a == b {
                    Ordering::Equal
                } else {
                    Ordering::Greater
                }
            },
            (N::NegativeInteger(_), N::PositiveInteger(_)) => Ordering::Less,
            (N::PositiveInteger(_), N::NegativeInteger(_)) => Ordering::Greater,
            (N::Float(a), N::Float(b)) => {
                if binary64::is_nan(a) {
                    if binary64::is_nan(b) {
                        Ordering::Equal
                    } else {
                        Ordering::Greater
                    }
                } else if binary64::is_nan(b) {
                    Ordering::Less
                } else {
                    let x = binary64::rank_of(a);
                    let y = binary64::rank_of(b);
                    if x < y {
                        Ordering::Less
                    } else if x == y {
                        Ordering::Equal
                    } else {
                        Ordering::Greater
                    }
                }
            },
            (_, N::Float(_)) => Ordering::Less,
            (N::Float(_), _) => Ordering::Greater,
        }
    }
}

impl PartialEq for Number {
    fn eq(&self, other: &Number) -> (r: bool) {
        proof {
            use_type_invariant(self);
            use_type_invariant(other);
        }
        match (self.n, other.n) {
            (N::PositiveInteger(a), N::PositiveInteger(b)) => a == b,
            (N::NegativeInteger(a), N::NegativeInteger(b)) => a == b,
            (N::Float(a), N::Float(b)) => {
                if binary64::is_nan(a) || binary64::is_nan(b) {
                    binary64::is_nan(a) && binary64::is_nan(b)
                } else {
                    binary64::rank_of(a) == binary64::rank_of(b)
                }
            },
            _ => false,
        }
    }
}

impl PartialEqSpecImpl for Number {
    open spec fn obeys_eq_spec() -> bool {
        true
    }

    open spec fn eq_spec(&self, other: &Number) -> bool {
        same(self@, other@)
    }
}

impl PartialOrd for Number {
    fn partial_cmp(&self, other: &Number) -> (r: Option<Ordering>) {
        Some(self.total_cmp(other))
    }
}

impl PartialOrdSpecImpl for Number {
    open spec fn obeys_partial_cmp_spec() -> bool {
        true
    }

    open spec fn partial_cmp_spec(&self, other: &Number) -> Option<Ordering> {
        partial_order(self@, other@)
    }
}

/// The order is total. Two numbers compare the same way from either side:
/// one is less exactly when the other is greater, and equal exactly when the
/// other is equal. They compare equal exactly when they are the same number.
pub proof fn lemma_order_total(a: NumberView, b: NumberView)
    ensures
        order(a, b) == Ordering::Less <==> order(b, a) == Ordering::Greater,
        order(a, b) == Ordering::Equal <==> order(b, a) == Ordering::Equal,
        order(a, b) == Ordering::Greater <==> order(b, a) == Ordering::Less,
        order(a, b) == Ordering::Equal <==> same(a, b),
        order(a, a) == Ordering::Equal,
{
}

/// The order is transitive: what is not after `b`, when `b` is not after
/// `c`, is not after `c`; and it is before `c` when one of the two steps is
/// strict.
pub proof fn lemma_order_transitive(a: NumberView, b: NumberView, c: NumberView)
    requires
        order(a, b) != Ordering::Greater,
        order(b, c) != Ordering::Greater,
    ensures
        order(a, c) != Ordering::Greater,
        order(a, b) == Ordering::Less || order(b, c) == Ordering::Less ==> order(a, c)
            == Ordering::Less,
{
}

/// Of `<`, `==` and `>` exactly one holds of every two numbers: the
/// operators agree with the total order, and equality with [`same`]. Two
/// not-a-numbers are equal, and a not-a-number is greater than any other
/// number.
pub proof fn lemma_operators_trichotomy(a: NumberView, b: NumberView)
    ensures
        partial_order(a, b) == Some(order(a, b)),
        partial_order(a, b) == Some(Ordering::Equal) <==> same(a, b),
        partial_order(a, b) == Some(Ordering::Less) || same(a, b) || partial_order(a, b) == Some(
            Ordering::Greater,
        ),
        !(partial_order(a, b) == Some(Ordering::Less) && same(a, b)),
        !(partial_order(a, b) == Some(Ordering::Greater) && same(a, b)),
        (a matches NumberView::Float(x) && b matches NumberView::Float(y) && nan(x) && nan(y))
            ==> same(a, b),
        (a matches NumberView::Float(x) && nan(x) && !(b matches NumberView::Float(y) && nan(y)))
            ==> partial_order(a, b) == Some(Ordering::Greater),
{
}

/// The float that `s` writes, if it writes one. `decimal` is what a reader of
/// decimal float literals made of `s` without its leading `+`: the bit
/// pattern of the value, or nothing where `s` is no such literal.
/// - After a leading `+` no second sign may follow.
/// - `.inf`, `.Inf` and `.INF`, with or without a `+`, write positive
///   infinity; `-.inf`, `-.Inf` and `-.INF` negative infinity; `.nan`,
///   `.NaN` and `.NAN` not-a-number.
/// - Any other text writes `decimal`, if that is finite.
pub open spec fn float_reading(s: Seq<char>, decimal: Option<u64>) -> Option<u64> {
    let p = after_plus(s);
    let u = tail(s, p);
    if p == 1 && u.len() > 0 && (u[0] == '+' || u[0] == '-') {
        None
    } else if u == ".inf"@ || u == ".Inf"@ || u == ".INF"@ {
        Some(binary64::INFINITY)
    } else if s == "-.inf"@ || s == "-.Inf"@ || s == "-.INF"@ {
        Some(binary64::NEG_INFINITY)
    } else if s == ".nan"@ || s == ".NaN"@ || s == ".NAN"@ {
        Some(binary64::NAN)
    } else {
        match decimal {
            Some(b) => if finite(b) {
                Some(b)
            } else {
                None
            },
            None => None,
        }
    }
}

/// The number that the text `s` writes, or why it writes none.
/// - A text that follows the integer grammar writes its integer, if that lies
///   between `i64::MIN` and `u64::MAX`. An integer outside that range that
///   still fits 128 bits is no number. A larger one is left to the float
///   reading.
/// - A text that is a zero followed by more digits is no number.
/// - Any other text is a float by [`float_reading`], or not a float.
pub open spec fn parsed(s: Seq<char>, decimal: Option<u64>) -> Result<NumberView, Error> {
    let i = integer_value(s);
    if i is Some && i128::MIN <= i.unwrap() <= u128::MAX {
        if i64::MIN <= i.unwrap() <= u64::MAX {
            Ok(NumberView::Integer(i.unwrap()))
        } else {
            Err(Error::NotANumber)
        }
    } else if leading_zero_digits(s) {
        Err(Error::NotANumber)
    } else {
        match float_reading(s, decimal) {
            Some(b) => Ok(NumberView::Float(b)),
            None => Err(Error::NotAFloat),
        }
    }
}

/// Computes [`float_reading`].
pub fn read_float(v: &Vec<char>, decimal: Option<u64>) -> (r: Option<u64>)
    ensures
        r == float_reading(v@, decimal),
{
    let p: usize = if v.len() > 0 && v[0] == '+' {
        1
    } else {
        0
    };
    assert(tail(v@, p as int).len() == v.len() - p);
    if p == 1 && v.len() > 1 && (v[1] == '+' || v[1] == '-') {
        assert(tail(v@, 1)[0] == v@[1]);
        return None;
    }
    assert(v@.subrange(0, v.len() as int) == v@);
    if is_word_from(v, p, ".inf") || is_word_from(v, p, ".Inf") || is_word_from(v, p, ".INF") {
        Some(binary64::INFINITY)
    } else if is_word(v, "-.inf") || is_word(v, "-.Inf") || is_word(v, "-.INF") {
        Some(binary64::NEG_INFINITY)
    } else if is_word(v, ".nan") || is_word(v, ".NaN") || is_word(v, ".NAN") {
        Some(binary64::NAN)
    } else {
        match decimal {
            Some(b) => if binary64::is_finite(b) {
                Some(b)
            } else {
                None
            },
            None => None,
        }
    }
}

/// The integer of a reading as a number, if it lies between `i64::MIN` and
/// `u64::MAX`.
fn integer_number(negative: bool, magnitude: u128) -> (r: Option<Number>)
    ensures
        ({
            let i: int = if negative {
                -(magnitude as int)
            } else {
                magnitude as int
            };
            if i64::MIN <= i <= u64::MAX {
                r matches Some(n) && n@ == NumberView::Integer(i)
            } else {
                r is None
            }
        }),
{
    if !negative || magnitude == 0 {
        if magnitude <= u64::MAX as u128 {
            Some(Number::from_u64(magnitude as u64))
        } else {
            None
        }
    } else if magnitude <= i64::MAX as u128 {
        Some(Number::from_i64(-(magnitude as i64)))
    } else if magnitude == 0x8000_0000_0000_0000 {
        Some(Number::from_i64(i64::MIN))
    } else {
        None
    }
}

impl Number {
    /// The number that the text `repr` writes: see [`parsed`].
    ///
    /// `decimal` is what a reader of decimal float literals makes of `repr`
    /// without its leading `+`: the bit pattern of the value, or nothing
    /// where the text is no such literal. It is looked at only where the text
    /// is neither an integer nor one of the words for infinity and
    /// not-a-number.
    pub fn from_str(repr: &str, decimal: Option<u64>) -> (r: Result<Number, Error>)
        ensures
            match parsed(repr@, decimal) {
                Ok(n) => r matches Ok(x) && x@ == n,
                Err(e) => r == Err::<Number, Error>(e),
            },
    {
        let v = chars_of(repr);
        match read_integer(&v) {
            Reading::Value { negative, magnitude } => {
                if !negative || magnitude <= 0x8000_0000_0000_0000_0000_0000_0000_0000 {
                    return match integer_number(negative, magnitude) {
                        Some(n) => Ok(n),
                        None => Err(Error::NotANumber),
                    };
                }
            },
            _ => {},
        }
        if digits_but_not_number(&v) {
            return Err(Error::NotANumber);
        }
        match read_float(&v, decimal) {
            Some(b) => {
                let n = Number::from_bits(b);
                proof {
                    assert(binary64::canonical(b) == b);
                }
                Ok(n)
            },
            None => Err(Error::NotAFloat),
        }
    }
}

/// The text of a number reads back as the number: the minimal decimal form
/// of every integer, and `.nan`, `.inf` and `-.inf`. This holds whatever a
/// reader of decimal float literals makes of the text.
pub proof fn lemma_text_reads_back(n: NumberView, decimal_reading: Option<u64>)
    requires
        n.well_formed(),
        n.text() is Some,
    ensures
        parsed(n.text().unwrap(), decimal_reading) == Ok::<NumberView, Error>(n),
{
    let s = n.text().unwrap();
    match n {
        NumberView::Integer(i) => {
            crate::integer::lemma_decimal_reads_back(i);
        },
        NumberView::Float(b) => {
            reveal_strlit(".nan");
            reveal_strlit(".inf");
            reveal_strlit("-.inf");
            reveal_strlit(".Inf");
            reveal_strlit(".INF");
            reveal_strlit("-.Inf");
            reveal_strlit("-.INF");
            reveal_strlit(".NaN");
            reveal_strlit(".NAN");
            assert(s.len() >= 4);
            assert(s[0] == '.' || (s[0] == '-' && s[1] == '.'));
            assert(after_plus(s) == 0);
            assert(tail(s, 0) =~= s);
            assert(crate::integer::digit_value('.', 16) is None);
            assert(crate::integer::digit_value('.', 10) is None);
            assert(crate::integer::digit_value('-', 10) is None);
            assert(!crate::integer::all_digits(tail(s, 0), 10)) by {
                assert(tail(s, 0)[0] == s[0]);
            }
            if s[0] == '-' {
                assert(!crate::integer::all_digits(tail(s, 1), 10)) by {
                    assert(tail(s, 1)[0] == s[1]);
                }
            }
            assert(integer_value(s) is None);
            assert(!leading_zero_digits(s));
            assert(".inf"@[1] == 'i' && ".Inf"@[1] == 'I' && ".INF"@[1] == 'I');
            assert("-.inf"@[0] == '-' && "-.Inf"@[0] == '-' && "-.INF"@[0] == '-');
            assert("-.inf"@[2] == 'i' && "-.Inf"@[2] == 'I' && "-.INF"@[2] == 'I');
            assert(".nan"@[1] == 'n' && ".NaN"@[1] == 'N' && ".NAN"@[1] == 'N');
            assert(".nan"@[0] == '.' && ".inf"@[0] == '.');
            if nan(b) {
                assert(s == ".nan"@);
                assert(tail(s, 0) == ".nan"@);
                assert(float_reading(s, decimal_reading) == Some(binary64::NAN));
            } else if negative(b) {
                assert(s == "-.inf"@);
                assert(float_reading(s, decimal_reading) == Some(binary64::NEG_INFINITY));
                assert(b == binary64::NEG_INFINITY);
            } else {
                assert(s == ".inf"@);
                assert(float_reading(s, decimal_reading) == Some(binary64::INFINITY));
            }
        },
    }
}

impl Number {
    /// The number that the integer `i` is.
    pub closed spec fn of_int(i: int) -> Number {
        Number {
            n: if i < 0 {
                N::NegativeInteger(i as i64)
            } else {
                N::PositiveInteger(i as u64)
            },
        }
    }

    /// The number that an integer is stands for that integer.
    pub proof fn lemma_of_int(i: int)
        requires
            i64::MIN <= i <= u64::MAX,
        ensures
            Number::of_int(i)@ == NumberView::Integer(i),
    {
    }
}

impl From<i8> for Number {
    fn from(i: i8) -> (r: Number) {
        Number::from_i64(i as i64)
    }
}

impl FromSpecImpl<i8> for Number {
    open spec fn obeys_from_spec() -> bool {
        true
    }

    open spec fn from_spec(i: i8) -> Number {
        Number::of_int(i as int)
    }
}

impl From<i16> for Number {
    fn from(i: i16) -> (r: Number) {
        Number::from_i64(i as i64)
    }
}

impl FromSpecImpl<i16> for Number {
    open spec fn obeys_from_spec() -> bool {
        true
    }

    open spec fn from_spec(i: i16) -> Number {
        Number::of_int(i as int)
    }
}

impl From<i32> for Number {
    fn from(i: i32) -> (r: Number) {
        Number::from_i64(i as i64)
    }
}

impl FromSpecImpl<i32> for Number {
    open spec fn obeys_from_spec() -> bool {
        true
    }

    open spec fn from_spec(i: i32) -> Number {
        Number::of_int(i as int)
    }
}

impl From<i64> for Number {
    fn from(i: i64) -> (r: Number) {
        Number::from_i64(i as i64)
    }
}

impl FromSpecImpl<i64> for Number {
    open spec fn obeys_from_spec() -> bool {
        true
    }

    open spec fn from_spec(i: i64) -> Number {
        Number::of_int(i as int)
    }
}

impl From<isize> for Number {
    fn from(i: isize) -> (r: Number) {
        Number::from_i64(i as i64)
    }
}

impl FromSpecImpl<isize> for Number {
    open spec fn obeys_from_spec() -> bool {
        true
    }

    open spec fn from_spec(i: isize) -> Number {
        Number::of_int(i as int)
    }
}

impl From<u8> for Number {
    fn from(u: u8) -> (r: Number) {
        Number::from_u64(u as u64)
    }
}

impl FromSpecImpl<u8> for Number {
    open spec fn obeys_from_spec() -> bool {
        true
    }

    open spec fn from_spec(u: u8) -> Number {
        Number::of_int(u as int)
    }
}

impl From<u16> for Number {
    fn from(u: u16) -> (r: Number) {
        Number::from_u64(u as u64)
    }
}

impl FromSpecImpl<u16> for Number {
    open spec fn obeys_from_spec() -> bool {
        true
    }

    open spec fn from_spec(u: u16) -> Number {
        Number::of_int(u as int)
    }
}

impl From<u32> for Number {
    fn from(u: u32) -> (r: Number) {
        Number::from_u64(u as u64)
    }
}

impl FromSpecImpl<u32> for Number {
    open spec fn obeys_from_spec() -> bool {
        true
    }

    open spec fn from_spec(u: u32) -> Number {
        Number::of_int(u as int)
    }
}

impl From<u64> for Number {
    fn from(u: u64) -> (r: Number) {
        Number::from_u64(u as u64)
    }
}

impl FromSpecImpl<u64> for Number {
    open spec fn obeys_from_spec() -> bool {
        true
    }

    open spec fn from_spec(u: u64) -> Number {
        Number::of_int(u as int)
    }
}

impl From<usize> for Number {
    fn from(u: usize) -> (r: Number) {
        Number::from_u64(u as u64)
    }
}

impl FromSpecImpl<usize> for Number {
    open spec fn obeys_from_spec() -> bool {
        true
    }

    open spec fn from_spec(u: usize) -> Number {
        Number::of_int(u as int)
    }
}

impl NumberView {
    /// The number as a binary64 float, by its bit pattern: a float is
    /// itself, and an integer the float nearest to it.
    pub open spec fn double(self) -> u64 {
        match self {
            NumberView::Integer(i) => binary64::of_integer(i),
            NumberView::Float(b) => b,
        }
    }

    /// The number as a binary32 float, by its bit pattern: the float
    /// nearest to it. A float beyond the format is an infinity.
    pub open spec fn single(self) -> u32 {
        match self {
            NumberView::Integer(i) => crate::binary32::of_integer(i),
            NumberView::Float(b) => crate::binary32::narrowed(b),
        }
    }
}

/// The magnitude of a negative integer.
fn magnitude_of(i: i64) -> (m: u64)
    requires
        i < 0,
    ensures
        m == -i,
{
    if i == i64::MIN {
        0x8000_0000_0000_0000
    } else {
        (-i) as u64
    }
}

impl Number {
    /// The number as a binary64 float, by its bit pattern: see
    /// [`NumberView::double`]. Every number has one.
    pub fn as_f64(&self) -> (r: Option<u64>)
        ensures
            r == Some(self@.double()),
    {
        Some(self.to_f64_lossy())
    }

    /// The number as a binary64 float, by its bit pattern: see
    /// [`NumberView::double`]. An integer of more than fifty-three binary
    /// digits loses the low ones.
    pub fn to_f64_lossy(&self) -> (r: u64)
        ensures
            r == self@.double(),
    {
        proof {
            use_type_invariant(self);
        }
        match self.n {
            N::PositiveInteger(u) => binary64::from_integer(false, u),
            N::NegativeInteger(i) => binary64::from_integer(true, magnitude_of(i)),
            N::Float(b) => b,
        }
    }

    /// The number as a binary32 float, by its bit pattern: see
    /// [`NumberView::single`]. A float beyond the format becomes an
    /// infinity; infinities and not-a-number stay what they are.
    pub fn to_f32_lossy(&self) -> (r: u32)
        ensures
            r == self@.single(),
    {
        proof {
            use_type_invariant(self);
        }
        match self.n {
            N::PositiveInteger(u) => crate::binary32::from_integer(false, u),
            N::NegativeInteger(i) => crate::binary32::from_integer(true, magnitude_of(i)),
            N::Float(b) => crate::binary32::narrow(b),
        }
    }
}

} // verus!
