//! An optional enum as a singleton map: a null where it is absent, the map
//! of one entry where it is present.
use vstd::prelude::*;
use crate::de::decode;
use crate::document::Convention;
use crate::encode::{encode, fits, nesting};
use crate::error::Error;
use crate::ser::Serializer;
use crate::shape::Shape;
use crate::value::Value;
use crate::with::rewritten;
use crate::with::singleton_map::encodes;

verus! {

/// Encodes an optional value: a null where it is absent; where it is
/// present, what it holds, with its enum as a singleton map.
pub fn serialize(value: &Option<Value>, serializer: &mut Serializer) -> (r: Result<(), Error>)
    requires
        match value {
            Some(v) => fits(old(serializer)@, nesting(rewritten(v@, Convention::SingletonMap))),
            None => old(serializer)@.has_room(),
        },
    ensures
        encodes(
            r,
            final(serializer)@,
            match value {
                Some(v) => encode(old(serializer)@, rewritten(v@, Convention::SingletonMap)),
                None => Ok(old(serializer)@.emit_plain("null"@)),
            },
        ),
{
    match value {
        Some(v) => crate::with::singleton_map::serialize(v, serializer),
        None => serializer.serialize_none(),
    }
}

/// Reads an optional typed value from the document `node`: nothing where the
/// node is a null; otherwise the value that the node holds by `shape`, its
/// enum being a singleton map.
pub fn deserialize(node: &Value, shape: &Shape) -> (r: Result<Option<Value>, Error>)
    ensures
        if node@ is Null {
            r matches Ok(None)
        } else {
            match decode(node@, shape@, Convention::SingletonMap) {
                Ok(v) => r matches Ok(Some(x)) && x@ == v,
                Err(e) => r matches Err(x) && x == e,
            }
        },
{
    match node {
        Value::Null => Ok(None),
        _ => match crate::with::singleton_map::deserialize(node, shape) {
            Ok(v) => Ok(Some(v)),
            Err(e) => Err(e),
        },
    }
}

} // verus!
