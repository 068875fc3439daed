//! How a reader takes a scalar that is written plain: as a null, a boolean,
//! an integer, a float, or else as the string it is.
use vstd::prelude::*;
use crate::binary64::finite;
use crate::integer::{Reading, after_plus, all_digits, digit_value, integer_value, leading_zero_digits, radix_prefix, read_integer, tail, digits_but_not_number};
use crate::number::{float_reading, read_float};
use crate::scalar::{ScalarStyle, is_ambiguous, string_style};
use crate::text::{chars_of, is_digit, is_word, lower, lower_char};
use crate::value::{Value, ValueView};

verus! {

/// Whether `s` writes a null: it is empty, or `null`, `Null`, `NULL` or `~`.
pub open spec fn is_null_word(s: Seq<char>) -> bool {
    s.len() == 0 || s == "null"@ || s == "Null"@ || s == "NULL"@ || s == "~"@
}

/// Whether `s` writes the boolean `true`.
pub open spec fn is_true_word(s: Seq<char>) -> bool {
    s == "true"@ || s == "True"@ || s == "TRUE"@
}

/// Whether `s` writes the boolean `false`.
pub open spec fn is_false_word(s: Seq<char>) -> bool {
    s == "false"@ || s == "False"@ || s == "FALSE"@
}

/// The value that a reader takes the plain scalar `s` for. `decimal` is what
/// a reader of decimal float literals makes of `s` without its leading `+`:
/// the bit pattern of the value, or nothing.
/// - A null word is a null, and a boolean word a boolean.
/// - A text that follows the integer grammar is its integer, where that
///   fits 128 bits: unsigned where it is not negative, and of the narrower
///   kind where it fits 64 bits.
/// - Any other text that is not a zero followed by more digits, and that
///   writes a float, is that float.
/// - Everything else is the string itself.
pub open spec fn plain_reading(s: Seq<char>, decimal: Option<u64>) -> ValueView {
    if is_null_word(s) {
        ValueView::Null
    } else if is_true_word(s) {
        ValueView::Bool(true)
    } else if is_false_word(s) {
        ValueView::Bool(false)
    } else if integer_value(s) is Some && i128::MIN <= integer_value(s).unwrap() <= u128::MAX {
        let i = integer_value(s).unwrap();
        if 0 <= i <= u64::MAX {
            ValueView::U64(i as u64)
        } else if i64::MIN <= i < 0 {
            ValueView::I64(i as i64)
        } else if i >= 0 {
            ValueView::U128(i as u128)
        } else {
            ValueView::I128(i as i128)
        }
    } else if !leading_zero_digits(s) && float_reading(s, decimal) is Some {
        ValueView::Float(float_reading(s, decimal).unwrap(), s)
    } else {
        ValueView::String(s)
    }
}

/// Reads a plain scalar as a reader does: see [`plain_reading`].
pub fn untagged_scalar(text: &str, decimal: Option<u64>) -> (v: Value)
    ensures
        v@ == plain_reading(text@, decimal),
{
    let s = chars_of(text);
    if s.len() == 0 || is_word(&s, "null") || is_word(&s, "Null") || is_word(&s, "NULL") || is_word(
        &s,
        "~",
    ) {
        return Value::Null;
    }
    if is_word(&s, "true") || is_word(&s, "True") || is_word(&s, "TRUE") {
        return Value::Bool(true);
    }
    if is_word(&s, "false") || is_word(&s, "False") || is_word(&s, "FALSE") {
        return Value::Bool(false);
    }
    match read_integer(&s) {
        Reading::Value { negative, magnitude } => {
            if !negative || magnitude == 0 {
                return if magnitude <= u64::MAX as u128 {
                    Value::U64(magnitude as u64)
                } else {
                    Value::U128(magnitude)
                };
            } else if magnitude <= i64::MAX as u128 {
                return Value::I64(-(magnitude as i64));
            } else if magnitude == 0x8000_0000_0000_0000 {
                return Value::I64(i64::MIN);
            } else if magnitude <= i128::MAX as u128 {
                return Value::I128(-(magnitude as i128));
            } else if magnitude == 0x8000_0000_0000_0000_0000_0000_0000_0000 {
                return Value::I128(i128::MIN);
            }
        },
        _ => {},
    }
    if !digits_but_not_number(&s) {
        match read_float(&s, decimal) {
            Some(bits) => {
                return Value::Float(bits, text.to_owned());
            },
            None => {},
        }
    }
    Value::String(text.to_owned())
}

/// A text that follows the integer grammar starts with a digit or a sign.
pub proof fn lemma_integer_starts_like_a_number(s: Seq<char>)
    requires
        integer_value(s) is Some,
    ensures
        s.len() > 0,
        is_digit(s[0]) || s[0] == '-' || s[0] == '+',
{
    let p = after_plus(s);
    if p == 0 && !(s.len() > 0 && s[0] == '-') {
        if radix_prefix(s, 0, 'x') || radix_prefix(s, 0, 'o') || radix_prefix(s, 0, 'b') {
        } else {
            assert(all_digits(tail(s, 0), 10));
            assert(tail(s, 0)[0] == s[0]);
            assert(digit_value(tail(s, 0)[0], 10) is Some);
        }
    }
}

/// Whether `s` begins as a decimal float literal does: with a digit, a sign
/// or a dot.
pub open spec fn starts_like_a_number(s: Seq<char>) -> bool {
    s.len() > 0 && (is_digit(s[0]) || s[0] == '-' || s[0] == '+' || s[0] == '.')
}

/// A string that is written plain is read back as itself, whatever a reader
/// of decimal float literals makes of it, as long as that reader finds a
/// finite float only in a text that begins with a digit, a sign or a dot:
/// the string is no null, no boolean, no integer, no float and none of the
/// words for infinity and not-a-number. So every string that would be
/// misread is quoted or written as a block.
pub proof fn lemma_plain_strings_read_back(s: Seq<char>, decimal: Option<u64>)
    requires
        string_style(s) == ScalarStyle::Plain,
        decimal matches Some(b) && finite(b) ==> starts_like_a_number(s),
    ensures
        plain_reading(s, decimal) == ValueView::String(s),
{
    reveal_strlit("null");
    reveal_strlit("Null");
    reveal_strlit("NULL");
    reveal_strlit("~");
    reveal_strlit("true");
    reveal_strlit("True");
    reveal_strlit("TRUE");
    reveal_strlit("false");
    reveal_strlit("False");
    reveal_strlit("FALSE");
    reveal_strlit(".inf");
    reveal_strlit(".Inf");
    reveal_strlit(".INF");
    reveal_strlit("-.inf");
    reveal_strlit("-.Inf");
    reveal_strlit("-.INF");
    reveal_strlit(".nan");
    reveal_strlit(".NaN");
    reveal_strlit(".NAN");
    assert(!is_ambiguous(s));
    assert(s.len() > 0);
    let l = lower(s);
    assert(forall|i: int| 0 <= i < s.len() ==> l[i] == lower_char(s[i]));
    if is_null_word(s) {
        if s.len() == 4 {
            assert(l =~= "null"@);
        } else {
            assert(l =~= "~"@);
        }
    }
    if is_true_word(s) {
        assert(l =~= "true"@);
    }
    if is_false_word(s) {
        assert(l =~= "false"@);
    }
    if integer_value(s) is Some {
        lemma_integer_starts_like_a_number(s);
    }
    if float_reading(s, decimal) is Some {
        let p = after_plus(s);
        let u = tail(s, p);
        if p == 0 {
            assert(u =~= s);
        }
    }
}

} // verus!
