//! Every enum of a value as a singleton map, at every depth.
use vstd::prelude::*;
use crate::de::{decode, reads};
use crate::document::Convention;
use crate::encode::{encode, fits, nesting};
use crate::error::Error;
use crate::ser::Serializer;
use crate::shape::Shape;
use crate::value::Value;
use crate::with::rewritten;
use crate::with::singleton_map::encodes;

verus! {

/// Encodes `value` with every enum in it as a singleton map.
pub fn serialize(value: &Value, serializer: &mut Serializer) -> (r: Result<(), Error>)
    requires
        fits(old(serializer)@, nesting(rewritten(value@, Convention::SingletonMapRecursive))),
    ensures
        encodes(
            r,
            final(serializer)@,
            encode(old(serializer)@, rewritten(value@, Convention::SingletonMapRecursive)),
        ),
{
    crate::with::singleton_map_recursive::serialize(value, serializer)
}

/// Reads a typed value from the document `node`, by `shape`, where every
/// enum is a singleton map.
pub fn deserialize(node: &Value, shape: &Shape) -> (r: Result<Value, Error>)
    ensures
        reads(r, decode(node@, shape@, Convention::SingletonMapRecursive)),
{
    crate::with::singleton_map_recursive::deserialize(node, shape)
}

} // verus!
