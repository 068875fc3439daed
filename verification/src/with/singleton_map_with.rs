//! The singleton map of an enum, under a name that goes with other
//! customisations of a field.
use vstd::prelude::*;
use crate::de::{decode, reads};
use crate::document::Convention;
use crate::encode::{encode, fits, nesting};
use crate::error::Error;
use crate::ser::Serializer;
use crate::shape::Shape;
use crate::value::Value;
use crate::with::rewritten;
use crate::with::singleton_map::encodes;

verus! {

/// Encodes `value` with its enum as a singleton map.
pub fn serialize(value: &Value, serializer: &mut Serializer) -> (r: Result<(), Error>)
    requires
        fits(old(serializer)@, nesting(rewritten(value@, Convention::SingletonMap))),
    ensures
        encodes(
            r,
            final(serializer)@,
            encode(old(serializer)@, rewritten(value@, Convention::SingletonMap)),
        ),
{
    crate::with::singleton_map::serialize(value, serializer)
}

/// Reads a typed value from the document `node`, by `shape`, where its enum
/// is a singleton map.
pub fn deserialize(node: &Value, shape: &Shape) -> (r: Result<Value, Error>)
    ensures
        reads(r, decode(node@, shape@, Convention::SingletonMap)),
{
    crate::with::singleton_map::deserialize(node, shape)
}

} // verus!
