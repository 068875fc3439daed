//! The document that a value becomes under each convention for enums: the
//! tree of scalars, sequences, mappings and tags that a reader gets back.
use vstd::prelude::*;
use crate::value::{Value, ValueView, items_view, entries_view, fields_view, duplicate_bytes};

verus! {

/// How enums are written.
#[derive(Clone, Copy, Debug, PartialEq, Eq, Structural)]
pub enum Convention {
    /// A variant is a tag on its payload. This is the default.
    Tagged,
    /// A variant is a map of one entry, from its name to its payload. What
    /// lies deeper is tagged again.
    SingletonMap,
    /// A variant is a map of one entry, from its name to its payload, at
    /// every depth.
    SingletonMapRecursive,
}

impl Convention {
    /// The convention for what lies one level deeper.
    pub open spec fn below(self) -> Convention {
        match self {
            Convention::SingletonMapRecursive => Convention::SingletonMapRecursive,
            _ => Convention::Tagged,
        }
    }

    /// Computes [`Convention::below`].
    pub fn deeper(self) -> (c: Convention)
        ensures
            c == self.below(),
    {
        match self {
            Convention::SingletonMapRecursive => Convention::SingletonMapRecursive,
            _ => Convention::Tagged,
        }
    }
}

/// A variant in the document: its payload under its name as a tag, or the
/// map of one entry from its name to its payload.
pub open spec fn wrap(name: Seq<char>, payload: ValueView, c: Convention) -> ValueView {
    if c == Convention::Tagged {
        ValueView::Tagged(name, Box::new(payload))
    } else {
        ValueView::Mapping(seq![(ValueView::String(name), payload)])
    }
}

/// The document that `v` becomes under the convention `c`.
/// - A scalar stays. A sequence, a map and a tagged value keep their form;
///   their parts become documents one level deeper.
/// - A struct becomes a map from the names of its fields.
/// - An optional that is present becomes what it holds.
/// - A unit variant becomes its name, a string. Every other variant becomes
///   its payload, wrapped as the convention says: see [`wrap`]. The payload
///   of a tuple variant is a sequence, that of a struct variant a map.
pub open spec fn document(v: ValueView, c: Convention) -> ValueView
    decreases v,
{
    match v {
        ValueView::Sequence(items) => ValueView::Sequence(document_items(items, c.below())),
        ValueView::Mapping(entries) => ValueView::Mapping(document_entries(entries, c.below())),
        ValueView::Struct(fields) => ValueView::Mapping(document_fields(fields, c.below())),
        ValueView::Tagged(tag, value) => ValueView::Tagged(
            tag,
            Box::new(document(*value, c.below())),
        ),
        ValueView::Present(value) => document(*value, c),
        ValueView::UnitVariant(name) => ValueView::String(name),
        ValueView::NewtypeVariant(name, value) => wrap(name, document(*value, c.below()), c),
        ValueView::TupleVariant(name, items) => wrap(
            name,
            ValueView::Sequence(document_items(items, c.below())),
            c,
        ),
        ValueView::StructVariant(name, fields) => wrap(
            name,
            ValueView::Mapping(document_fields(fields, c.below())),
            c,
        ),
        _ => v,
    }
}

/// The documents of the items of a sequence.
pub open spec fn document_items(items: Seq<ValueView>, c: Convention) -> Seq<ValueView>
    decreases items,
{
    Seq::new(
        items.len(),
        |i: int|
            if 0 <= i < items.len() {
                document(items[i], c)
            } else {
                ValueView::Null
            },
    )
}

/// The documents of the entries of a map.
pub open spec fn document_entries(entries: Seq<(ValueView, ValueView)>, c: Convention) -> Seq<
    (ValueView, ValueView),
>
    decreases entries,
{
    Seq::new(
        entries.len(),
        |i: int|
            if 0 <= i < entries.len() {
                (document(entries[i].0, c), document(entries[i].1, c))
            } else {
                (ValueView::Null, ValueView::Null)
            },
    )
}

/// The documents of the fields of a struct, each under its name as a string.
pub open spec fn document_fields(fields: Seq<(Seq<char>, ValueView)>, c: Convention) -> Seq<
    (ValueView, ValueView),
>
    decreases fields,
{
    Seq::new(
        fields.len(),
        |i: int|
            if 0 <= i < fields.len() {
                (ValueView::String(fields[i].0), document(fields[i].1, c))
            } else {
                (ValueView::Null, ValueView::Null)
            },
    )
}

/// Builds a variant of the document: see [`wrap`].
fn wrapped(name: &String, payload: Value, c: Convention) -> (r: Value)
    ensures
        r@ == wrap(name@, payload@, c),
{
    match c {
        Convention::Tagged => Value::Tagged(name.clone(), Box::new(payload)),
        _ => {
            let mut entries: Vec<(Value, Value)> = Vec::new();
            entries.push((Value::String(name.clone()), payload));
            assert(entries_view(entries@) =~= seq![(ValueView::String(name@), payload@)]);
            Value::Mapping(entries)
        },
    }
}

/// The document that `value` becomes under the convention `c`: see
/// [`document`].
pub fn to_value(value: &Value, c: Convention) -> (r: Value)
    ensures
        r@ == document(value@, c),
    decreases value,
{
    match value {
        Value::Null => Value::Null,
        Value::Bool(b) => Value::Bool(*b),
        Value::I64(i) => Value::I64(*i),
        Value::U64(u) => Value::U64(*u),
        Value::I128(i) => Value::I128(*i),
        Value::U128(u) => Value::U128(*u),
        Value::Char(c) => Value::Char(*c),
        Value::Bytes(bytes) => Value::Bytes(duplicate_bytes(bytes)),
        Value::Float(bits, text) => Value::Float(*bits, text.clone()),
        Value::String(text) => Value::String(text.clone()),
        Value::Sequence(items) => Value::Sequence(to_values(items, c.deeper())),
        Value::Mapping(entries) => Value::Mapping(to_entries(entries, c.deeper())),
        Value::Struct(fields) => Value::Mapping(to_field_entries(fields, c.deeper())),
        Value::Tagged(tag, inner) => Value::Tagged(
            tag.clone(),
            Box::new(to_value(inner, c.deeper())),
        ),
        Value::Present(inner) => to_value(inner, c),
        Value::UnitVariant(name) => Value::String(name.clone()),
        Value::NewtypeVariant(name, inner) => wrapped(name, to_value(inner, c.deeper()), c),
        Value::TupleVariant(name, items) => wrapped(
            name,
            Value::Sequence(to_values(items, c.deeper())),
            c,
        ),
        Value::StructVariant(name, fields) => wrapped(
            name,
            Value::Mapping(to_field_entries(fields, c.deeper())),
            c,
        ),
    }
}

/// The documents of the items of a sequence: see [`document_items`].
pub fn to_values(items: &Vec<Value>, c: Convention) -> (r: Vec<Value>)
    ensures
        items_view(r@) == document_items(items_view(items@), c),
    decreases items,
{
    let mut r: Vec<Value> = Vec::new();
    let mut i: usize = 0;
    while i < items.len()
        invariant
            i <= items.len(),
            r.len() == i,
            forall|j: int| 0 <= j < i ==> r@[j]@ == document(items@[j]@, c),
        decreases items.len() - i,
    {
        r.push(to_value(&items[i], c));
        i += 1;
    }
    assert(items_view(r@) =~= document_items(items_view(items@), c));
    r
}

/// The documents of the entries of a map: see [`document_entries`].
pub fn to_entries(entries: &Vec<(Value, Value)>, c: Convention) -> (r: Vec<(Value, Value)>)
    ensures
        entries_view(r@) == document_entries(entries_view(entries@), c),
    decreases entries,
{
    let mut r: Vec<(Value, Value)> = Vec::new();
    let mut i: usize = 0;
    while i < entries.len()
        invariant
            i <= entries.len(),
            r.len() == i,
            forall|j: int|
                0 <= j < i ==> r@[j].0@ == document(entries@[j].0@, c) && r@[j].1@ == document(
                    entries@[j].1@,
                    c,
                ),
        decreases entries.len() - i,
    {
        let entry = &entries[i];
        r.push((to_value(&entry.0, c), to_value(&entry.1, c)));
        i += 1;
    }
    assert(entries_view(r@) =~= document_entries(entries_view(entries@), c));
    r
}

/// The documents of the fields of a struct: see [`document_fields`].
pub fn to_field_entries(fields: &Vec<(String, Value)>, c: Convention) -> (r: Vec<(Value, Value)>)
    ensures
        entries_view(r@) == document_fields(fields_view(fields@), c),
    decreases fields,
{
    let mut r: Vec<(Value, Value)> = Vec::new();
    let mut i: usize = 0;
    while i < fields.len()
        invariant
            i <= fields.len(),
            r.len() == i,
            forall|j: int|
                0 <= j < i ==> r@[j].0@ == ValueView::String(fields@[j].0@) && r@[j].1@
                    == document(fields@[j].1@, c),
        decreases fields.len() - i,
    {
        let field = &fields[i];
        r.push((Value::String(field.0.clone()), to_value(&field.1, c)));
        i += 1;
    }
    assert(entries_view(r@) =~= document_fields(fields_view(fields@), c));
    r
}

} // verus!
