//! The failures that encoding, decoding and number parsing report.
use vstd::prelude::*;

verus! {

/// The first failure of an operation. An operation that fails stops at once
/// and hands back exactly one of these.
#[derive(Clone, Copy, Debug, PartialEq, Eq, Structural)]
pub enum Error {
    /// Two tags claim one structural position.
    NestedEnumTag,
    /// The value has no form in the output, as a raw byte payload.
    UnsupportedConstruct,
    /// The text has digits but is neither an integer nor a float.
    NotANumber,
    /// The text is not a float.
    NotAFloat,
    /// A singleton map was expected, or the payload of a variant has another
    /// shape than the variant asks for.
    ShapeMismatch,
}

impl Error {
    /// The message that describes this failure.
    pub fn message(&self) -> (s: String)
        ensures
            s@ == self.message_spec(),
    {
        match self {
            Error::NestedEnumTag => "serializing nested enums in YAML is not supported yet".to_owned(),
            Error::UnsupportedConstruct => "serialization and deserialization of bytes in YAML is not implemented".to_owned(),
            Error::NotANumber => "failed to parse YAML number".to_owned(),
            Error::NotAFloat => "failed to parse YAML float".to_owned(),
            Error::ShapeMismatch => "expected single-key map".to_owned(),
        }
    }

    /// The text of [`Error::message`].
    pub open spec fn message_spec(&self) -> Seq<char> {
        match self {
            Error::NestedEnumTag => "serializing nested enums in YAML is not supported yet"@,
            Error::UnsupportedConstruct => "serialization and deserialization of bytes in YAML is not implemented"@,
            Error::NotANumber => "failed to parse YAML number"@,
            Error::NotAFloat => "failed to parse YAML float"@,
            Error::ShapeMismatch => "expected single-key map"@,
        }
    }
}

} // verus!
