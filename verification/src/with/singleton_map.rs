//! An enum as a map of one entry, from the name of its variant to its
//! payload, at the place where this is asked for. What lies deeper is
//! written under tags.
use vstd::prelude::*;
use crate::de::{decode, read_enum, reads};
use crate::document::{Convention, document, to_value};
use crate::encode::{encode, fits, nesting};
use crate::error::Error;
use crate::ser::{Serializer, SerializerView};
use crate::shape::{Payload, Shape, ShapeView, variants_view};
use crate::value::{Value, ValueView, items_view, entries_view};
use crate::with::{rewrite, rewritten, singleton};

verus! {

/// A wrapper that asks for an enum as a singleton map: around a value that
/// is to be written or read so, or around the encoder that writes it.
#[derive(Debug)]
pub struct SingletonMap<D> {
    /// What is wrapped.
    pub delegate: D,
}

/// A tuple variant in the writing: the map that is left open for it, and
/// its values so far, as documents.
#[derive(Debug)]
pub struct SerializeTupleVariantAsSingletonMap<M> {
    /// The encoder, in the map of the variant.
    pub map: M,
    /// The values so far.
    pub sequence: Vec<Value>,
}

/// A struct variant in the writing: the map that is left open for it, and
/// its fields so far, as documents under their names.
#[derive(Debug)]
pub struct SerializeStructVariantAsSingletonMap<M> {
    /// The encoder, in the map of the variant.
    pub map: M,
    /// The fields so far.
    pub mapping: Vec<(Value, Value)>,
}

/// Whether `r` and the encoder `t` are what `expected` says: the encoder
/// after a success, or the failure.
pub open spec fn encodes(
    r: Result<(), Error>,
    t: SerializerView,
    expected: Result<SerializerView, Error>,
) -> bool {
    match expected {
        Ok(s) => r is Ok && t == s,
        Err(e) => r matches Err(x) && x == e,
    }
}

/// A singleton map goes out as its one entry between the start and the end
/// of a map of one entry.
pub proof fn lemma_encode_singleton(s: SerializerView, name: Seq<char>, payload: ValueView)
    ensures
        encode(s, singleton(name, payload)) == (match crate::encode::encode_entry(
            s.serialize_map(Some(1usize)),
            (ValueView::String(name), payload),
        ) {
            Ok(t) => Ok::<SerializerView, Error>(t.end_map()),
            Err(e) => Err(e),
        }),
{
    let entries = seq![(ValueView::String(name), payload)];
    let start = s.serialize_map(Some(1usize));
    assert(entries.len() == 1);
    assert(crate::encode::encode_entries(start, entries, 0) == (match crate::encode::encode_entry(
        start,
        entries[0],
    ) {
        Ok(t) => crate::encode::encode_entries(t, entries, 1),
        Err(e) => Err(e),
    }));
    assert(forall|t: SerializerView| crate::encode::encode_entries(t, entries, 1) == Ok::<
        SerializerView,
        Error,
    >(t));
}

/// Encodes `value` with its enum as a singleton map: what goes out is what
/// goes out for the value that [`rewritten`] hands on.
pub fn serialize(value: &Value, serializer: &mut Serializer) -> (r: Result<(), Error>)
    requires
        fits(old(serializer)@, nesting(rewritten(value@, Convention::SingletonMap))),
    ensures
        encodes(
            r,
            final(serializer)@,
            encode(old(serializer)@, rewritten(value@, Convention::SingletonMap)),
        ),
{
    let wrapped = SingletonMap { delegate: value };
    wrapped.serialize(serializer)
}

/// Reads a typed value from the document `node`, by `shape`, where its enum
/// is a singleton map: a string for a variant without payload, or a map of
/// exactly one entry from the name of the variant to its payload. A map of
/// no entry or of several entries is a mismatch.
pub fn deserialize(node: &Value, shape: &Shape) -> (r: Result<Value, Error>)
    ensures
        reads(r, decode(node@, shape@, Convention::SingletonMap)),
{
    crate::de::deserialize(node, shape, Convention::SingletonMap)
}

impl<'a> SingletonMap<&'a Value> {
    /// Encodes the wrapped value with its enum as a singleton map.
    pub fn serialize(&self, serializer: &mut Serializer) -> (r: Result<(), Error>)
        requires
            fits(old(serializer)@, nesting(rewritten(self.delegate@, Convention::SingletonMap))),
        ensures
            encodes(
                r,
                final(serializer)@,
                encode(old(serializer)@, rewritten(self.delegate@, Convention::SingletonMap)),
            ),
    {
        let handed = rewrite(self.delegate, Convention::SingletonMap);
        handed.serialize(serializer)
    }
}

impl<'a> SingletonMap<&'a Value> {
    /// Reads the wrapped document where an enum of `variants` is expected: a
    /// string for a variant without payload, or a map of exactly one entry
    /// from the name of the variant to its payload.
    pub fn deserialize_enum(&self, name: &str, variants: &Vec<(String, Payload)>) -> (r: Result<
        Value,
        Error,
    >)
        ensures
            reads(
                r,
                decode(self.delegate@, ShapeView::Enum(variants_view(variants@)), Convention::SingletonMap),
            ),
    {
        read_enum(self.delegate, variants, Convention::SingletonMap)
    }

    /// Reads the wrapped document where an optional of `shape` is expected:
    /// a null is the absent one; anything else is read as what the optional
    /// holds, with its enum as a singleton map.
    pub fn deserialize_option(&self, shape: &Shape) -> (r: Result<Value, Error>)
        ensures
            reads(r, decode(self.delegate@, ShapeView::Optional(Box::new(shape@)), Convention::SingletonMap)),
    {
        match self.delegate {
            Value::Null => Ok(Value::Null),
            _ => match crate::de::deserialize(self.delegate, shape, Convention::SingletonMap) {
                Ok(v) => Ok(Value::Present(Box::new(v))),
                Err(e) => Err(e),
            },
        }
    }
}

impl<'a> SingletonMap<&'a mut Serializer> {
    /// A unit variant is handed on as it is. Where that fails, the encoder
    /// is left as it was.
    pub fn serialize_unit_variant(self, name: &str, variant_index: u32, variant: &str) -> (r: Result<
        (),
        Error,
    >)
        requires
            old(self.delegate)@.has_room(),
        ensures
            encodes(
                r,
                final(self.delegate)@,
                old(self.delegate)@.serialize_unit_variant(variant@),
            ),
            r is Err ==> *final(self.delegate) == *old(self.delegate),
    {
        self.delegate.serialize_unit_variant(name, variant_index, variant)
    }

    /// A newtype variant goes out as the map of one entry from its name to
    /// what it holds.
    pub fn serialize_newtype_variant(
        self,
        name: &str,
        variant_index: u32,
        variant: &str,
        value: &Value,
    ) -> (r: Result<(), Error>)
        requires
            fits(old(self.delegate)@, 1 + nesting(value@)),
        ensures
            encodes(
                r,
                final(self.delegate)@,
                encode(old(self.delegate)@, singleton(variant@, value@)),
            ),
    {
        let key = Value::String(variant.to_owned());
        proof {
            lemma_encode_singleton(self.delegate@, variant@, value@);
        }
        let _ = self.delegate.serialize_map(Some(1));
        match self.delegate.serialize_entry(&key, value) {
            Err(e) => Err(e),
            Ok(()) => self.delegate.end_map(),
        }
    }

    /// An optional that is present goes out as what it holds, with the enum
    /// in it as a singleton map.
    pub fn serialize_some(self, value: &Value) -> (r: Result<(), Error>)
        requires
            fits(old(self.delegate)@, nesting(rewritten(value@, Convention::SingletonMap))),
        ensures
            encodes(
                r,
                final(self.delegate)@,
                encode(old(self.delegate)@, rewritten(value@, Convention::SingletonMap)),
            ),
    {
        serialize(value, self.delegate)
    }

    /// A tuple variant begins: the map of one entry opens and its key, the
    /// name of the variant, goes out. The values are gathered until the end.
    pub fn serialize_tuple_variant(
        self,
        name: &str,
        variant_index: u32,
        variant: &str,
        len: usize,
    ) -> (r: Result<SerializeTupleVariantAsSingletonMap<&'a mut Serializer>, Error>)
        requires
            fits(old(self.delegate)@, 2),
        ensures
            r matches Ok(open) && open.sequence@.len() == 0
                && open.map@ == old(self.delegate)@.serialize_map(Some(1usize)).serialize_str(variant@)
                && *final(open.map) == *final(self.delegate),
    {
        let _ = self.delegate.serialize_map(Some(1));
        let _ = self.delegate.serialize_str(variant);
        Ok(SerializeTupleVariantAsSingletonMap { map: self.delegate, sequence: Vec::new() })
    }

    /// A struct variant begins: the map of one entry opens and its key, the
    /// name of the variant, goes out. The fields are gathered until the end.
    pub fn serialize_struct_variant(
        self,
        name: &str,
        variant_index: u32,
        variant: &str,
        len: usize,
    ) -> (r: Result<SerializeStructVariantAsSingletonMap<&'a mut Serializer>, Error>)
        requires
            fits(old(self.delegate)@, 2),
        ensures
            r matches Ok(open) && open.mapping@.len() == 0
                && open.map@ == old(self.delegate)@.serialize_map(Some(1usize)).serialize_str(variant@)
                && *final(open.map) == *final(self.delegate),
    {
        let _ = self.delegate.serialize_map(Some(1));
        let _ = self.delegate.serialize_str(variant);
        Ok(SerializeStructVariantAsSingletonMap { map: self.delegate, mapping: Vec::new() })
    }
}

impl<'a> SerializeTupleVariantAsSingletonMap<&'a mut Serializer> {
    /// One more value of the tuple: it is kept, as a document in which
    /// enums are tagged, until the end.
    pub fn serialize_field(&mut self, field: &Value) -> (r: Result<(), Error>)
        ensures
            r is Ok,
            items_view(final(self).sequence@) == items_view(old(self).sequence@).push(
                document(field@, Convention::Tagged),
            ),
            final(self).map == old(self).map,
    {
        let ghost before = items_view(self.sequence@);
        let kept = to_value(field, Convention::Tagged);
        self.sequence.push(kept);
        assert(items_view(self.sequence@) =~= before.push(document(field@, Convention::Tagged)));
        Ok(())
    }

    /// The tuple ends: its values go out as one sequence, the value of the
    /// one entry, and the map ends.
    pub fn end(self) -> (r: Result<(), Error>)
        requires
            fits(old(self.map)@, nesting(ValueView::Sequence(items_view(self.sequence@)))),
        ensures
            encodes(
                r,
                final(self.map)@,
                match encode(old(self.map)@, ValueView::Sequence(items_view(self.sequence@))) {
                    Ok(s) => Ok(s.end_map()),
                    Err(e) => Err(e),
                },
            ),
    {
        let payload = Value::Sequence(self.sequence);
        match self.map.serialize_value(&payload) {
            Err(e) => Err(e),
            Ok(()) => self.map.end_map(),
        }
    }
}

impl<'a> SerializeStructVariantAsSingletonMap<&'a mut Serializer> {
    /// One more field of the struct: it is kept under its name, as a
    /// document in which enums are tagged, until the end.
    pub fn serialize_field(&mut self, name: &str, field: &Value) -> (r: Result<(), Error>)
        ensures
            r is Ok,
            entries_view(final(self).mapping@) == entries_view(old(self).mapping@).push(
                (ValueView::String(name@), document(field@, Convention::Tagged)),
            ),
            final(self).map == old(self).map,
    {
        let ghost before = entries_view(self.mapping@);
        let kept = to_value(field, Convention::Tagged);
        self.mapping.push((Value::String(name.to_owned()), kept));
        assert(entries_view(self.mapping@) =~= before.push(
            (ValueView::String(name@), document(field@, Convention::Tagged)),
        ));
        Ok(())
    }

    /// The struct ends: its fields go out as one map, the value of the one
    /// entry, and the map of the variant ends.
    pub fn end(self) -> (r: Result<(), Error>)
        requires
            fits(old(self.map)@, nesting(ValueView::Mapping(entries_view(self.mapping@)))),
        ensures
            encodes(
                r,
                final(self.map)@,
                match encode(old(self.map)@, ValueView::Mapping(entries_view(self.mapping@))) {
                    Ok(s) => Ok(s.end_map()),
                    Err(e) => Err(e),
                },
            ),
    {
        let payload = Value::Mapping(self.mapping);
        match self.map.serialize_value(&payload) {
            Err(e) => Err(e),
            Ok(()) => self.map.end_map(),
        }
    }
}

} // verus!
