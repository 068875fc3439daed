//! How a string scalar must be written so that a reader takes it for a string.
use vstd::prelude::*;
use crate::text::{chars_of, is_word, to_lower, lower, is_digit};

verus! {

/// The rendering of a scalar.
#[derive(Clone, Copy, Debug, PartialEq, Eq, Structural)]
pub enum ScalarStyle {
    /// Written bare.
    Plain,
    /// Written between single quotes.
    SingleQuoted,
    /// Written as a literal block, line by line.
    Literal,
}

/// Whether `s` is one of the boolean-like words in one of the three usual
/// spellings: lower case, capitalised, upper case.
pub open spec fn is_boolean_token(s: Seq<char>) -> bool {
    ||| s == "y"@ || s == "Y"@ || s == "yes"@ || s == "Yes"@ || s == "YES"@
    ||| s == "n"@ || s == "N"@ || s == "no"@ || s == "No"@ || s == "NO"@
    ||| s == "true"@ || s == "True"@ || s == "TRUE"@
    ||| s == "false"@ || s == "False"@ || s == "FALSE"@
    ||| s == "on"@ || s == "On"@ || s == "ON"@
    ||| s == "off"@ || s == "Off"@ || s == "OFF"@
}

/// Whether a lower-case text is a word that some reader takes for a boolean,
/// a null or a not-a-number.
pub open spec fn is_reserved_word(l: Seq<char>) -> bool {
    ||| l == "true"@ || l == "false"@
    ||| l == "null"@ || l == "~"@ || l == "nil"@
    ||| l == "y"@ || l == "yes"@ || l == "n"@ || l == "no"@
    ||| l == "on"@ || l == "off"@
    ||| l == "nan"@
}

/// Whether an unquoted `s` could be read as something else than a string: it
/// is empty, it starts like a number (a digit, a sign or a dot), or it is a
/// reserved word in any mix of upper and lower case.
pub open spec fn is_ambiguous(s: Seq<char>) -> bool {
    ||| s.len() == 0
    ||| is_digit(s[0])
    ||| s[0] == '-'
    ||| s[0] == '.'
    ||| s[0] == '+'
    ||| is_reserved_word(lower(s))
}

/// The style in which the string `s` is written:
/// single-quoted for a boolean-like word, else literal when it holds a line
/// break, else single-quoted when it is ambiguous, else plain.
pub open spec fn string_style(s: Seq<char>) -> ScalarStyle {
    if is_boolean_token(s) {
        ScalarStyle::SingleQuoted
    } else if s.contains('\n') {
        ScalarStyle::Literal
    } else if is_ambiguous(s) {
        ScalarStyle::SingleQuoted
    } else {
        ScalarStyle::Plain
    }
}

/// Computes [`is_boolean_token`].
pub fn boolean_token(v: &Vec<char>) -> (b: bool)
    ensures
        b == is_boolean_token(v@),
{
    is_word(v, "y") || is_word(v, "Y") || is_word(v, "yes") || is_word(v, "Yes") || is_word(v, "YES")
        || is_word(v, "n") || is_word(v, "N") || is_word(v, "no") || is_word(v, "No") || is_word(v, "NO")
        || is_word(v, "true") || is_word(v, "True") || is_word(v, "TRUE")
        || is_word(v, "false") || is_word(v, "False") || is_word(v, "FALSE")
        || is_word(v, "on") || is_word(v, "On") || is_word(v, "ON")
        || is_word(v, "off") || is_word(v, "Off") || is_word(v, "OFF")
}

/// Computes [`is_reserved_word`].
pub fn reserved_word(l: &Vec<char>) -> (b: bool)
    ensures
        b == is_reserved_word(l@),
{
    is_word(l, "true") || is_word(l, "false")
        || is_word(l, "null") || is_word(l, "~") || is_word(l, "nil")
        || is_word(l, "y") || is_word(l, "yes") || is_word(l, "n") || is_word(l, "no")
        || is_word(l, "on") || is_word(l, "off")
        || is_word(l, "nan")
}

/// Computes [`is_ambiguous`].
pub fn ambiguous_string(v: &Vec<char>) -> (b: bool)
    ensures
        b == is_ambiguous(v@),
{
    if v.len() == 0 {
        return true;
    }
    let c = v[0];
    if ('0' <= c && c <= '9') || c == '-' || c == '.' || c == '+' {
        return true;
    }
    let l = to_lower(v);
    reserved_word(&l)
}

/// Whether `v` holds a line break.
pub fn has_line_break(v: &Vec<char>) -> (b: bool)
    ensures
        b == v@.contains('\n'),
{
    let mut i: usize = 0;
    while i < v.len()
        invariant
            i <= v.len(),
            forall|j: int| 0 <= j < i ==> v@[j] != '\n',
        decreases v.len() - i,
    {
        if v[i] == '\n' {
            return true;
        }
        i += 1;
    }
    false
}

/// The style in which the string `value` is written. The result depends on
/// the text alone.
pub fn classify(value: &str) -> (style: ScalarStyle)
    ensures
        style == string_style(value@),
{
    let v = chars_of(value);
    if boolean_token(&v) {
        ScalarStyle::SingleQuoted
    } else if has_line_break(&v) {
        ScalarStyle::Literal
    } else if ambiguous_string(&v) {
        ScalarStyle::SingleQuoted
    } else {
        ScalarStyle::Plain
    }
}

/// A boolean-like word is ambiguous and holds no line break, so the first
/// rule of [`string_style`] never disagrees with the two after it: a string
/// is literal exactly when it holds a line break, and otherwise quoted
/// exactly when it is ambiguous.
pub proof fn lemma_style_by_line_break_and_ambiguity(s: Seq<char>)
    ensures
        string_style(s) == (if s.contains('\n') {
            ScalarStyle::Literal
        } else if is_ambiguous(s) {
            ScalarStyle::SingleQuoted
        } else {
            ScalarStyle::Plain
        }),
{
    if is_boolean_token(s) {
        lemma_boolean_token_shape(s);
    }
}

/// A boolean-like word is ambiguous and holds no line break.
pub proof fn lemma_boolean_token_shape(s: Seq<char>)
    requires
        is_boolean_token(s),
    ensures
        is_ambiguous(s),
        !s.contains('\n'),
{
    reveal_strlit("y"); reveal_strlit("Y"); reveal_strlit("yes"); reveal_strlit("Yes"); reveal_strlit("YES");
    reveal_strlit("n"); reveal_strlit("N"); reveal_strlit("no"); reveal_strlit("No"); reveal_strlit("NO");
    reveal_strlit("true"); reveal_strlit("True"); reveal_strlit("TRUE");
    reveal_strlit("false"); reveal_strlit("False"); reveal_strlit("FALSE");
    reveal_strlit("on"); reveal_strlit("On"); reveal_strlit("ON");
    reveal_strlit("off"); reveal_strlit("Off"); reveal_strlit("OFF");
    let l = lower(s);
    assert(forall|i: int| 0 <= i < s.len() ==> l[i] == crate::text::lower_char(s[i]));
    if s.len() == 1 {
        assert(l =~= "y"@ || l =~= "n"@);
    } else if s.len() == 2 {
        assert(l =~= "no"@ || l =~= "on"@);
    } else if s.len() == 3 {
        assert(l =~= "yes"@ || l =~= "off"@);
    } else if s.len() == 4 {
        assert(l =~= "true"@);
    } else {
        assert(l =~= "false"@);
    }
}

} // verus!
