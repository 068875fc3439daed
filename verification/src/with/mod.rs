//! Other ways to write enums than as tags: as maps of one entry from the
//! name of the variant to its payload, at the place where this is asked for
//! or at every depth.
use vstd::prelude::*;
use crate::de::{is_plain, lemma_plain_is_document};
use crate::document::{Convention, document, document_items, document_entries, document_fields, to_values, to_field_entries};
use crate::value::{Value, ValueView, items_view, entries_view, fields_view};

pub mod singleton_map;
pub mod singleton_map_optional;
pub mod singleton_map_with;
pub mod singleton_map_recursive;
pub mod nested_singleton_map;

verus! {

/// The map of one entry from `name` to `payload`.
pub open spec fn singleton(name: Seq<char>, payload: ValueView) -> ValueView {
    ValueView::Mapping(seq![(ValueView::String(name), payload)])
}

/// The value that is handed to the encoder in place of `v` under the
/// convention `c`. Where enums are tagged it is `v` itself. Otherwise:
/// - a newtype variant is the map of one entry from its name to what it
///   holds;
/// - a tuple variant and a struct variant are the map of one entry from
///   their name to their payload, a sequence or a map, which is handed on as
///   a document;
/// - a unit variant and every scalar are handed on as they are;
/// - an optional that is present holds what is handed on for what it held,
///   under the same convention;
/// - a sequence, a map, a struct and a tagged value keep their form; their
///   parts are handed on one level deeper.
pub open spec fn rewritten(v: ValueView, c: Convention) -> ValueView
    decreases v,
{
    if c == Convention::Tagged {
        v
    } else {
        match v {
            ValueView::Sequence(items) => ValueView::Sequence(rewritten_items(items, c.below())),
            ValueView::Mapping(entries) => ValueView::Mapping(
                rewritten_entries(entries, c.below()),
            ),
            ValueView::Struct(fields) => ValueView::Struct(rewritten_fields(fields, c.below())),
            ValueView::Tagged(tag, value) => ValueView::Tagged(
                tag,
                Box::new(rewritten(*value, c.below())),
            ),
            ValueView::Present(value) => ValueView::Present(Box::new(rewritten(*value, c))),
            ValueView::NewtypeVariant(name, value) => singleton(
                name,
                rewritten(*value, c.below()),
            ),
            ValueView::TupleVariant(name, items) => singleton(
                name,
                ValueView::Sequence(document_items(items, c.below())),
            ),
            ValueView::StructVariant(name, fields) => singleton(
                name,
                ValueView::Mapping(document_fields(fields, c.below())),
            ),
            _ => v,
        }
    }
}

/// What is handed on for the items of a sequence.
pub open spec fn rewritten_items(items: Seq<ValueView>, c: Convention) -> Seq<ValueView>
    decreases items,
{
    Seq::new(
        items.len(),
        |i: int|
            if 0 <= i < items.len() {
                rewritten(items[i], c)
            } else {
                ValueView::Null
            },
    )
}

/// What is handed on for the entries of a map.
pub open spec fn rewritten_entries(entries: Seq<(ValueView, ValueView)>, c: Convention) -> Seq<
    (ValueView, ValueView),
>
    decreases entries,
{
    Seq::new(
        entries.len(),
        |i: int|
            if 0 <= i < entries.len() {
                (rewritten(entries[i].0, c), rewritten(entries[i].1, c))
            } else {
                (ValueView::Null, ValueView::Null)
            },
    )
}

/// What is handed on for the fields of a struct.
pub open spec fn rewritten_fields(fields: Seq<(Seq<char>, ValueView)>, c: Convention) -> Seq<
    (Seq<char>, ValueView),
>
    decreases fields,
{
    Seq::new(
        fields.len(),
        |i: int|
            if 0 <= i < fields.len() {
                (fields[i].0, rewritten(fields[i].1, c))
            } else {
                (Seq::<char>::empty(), ValueView::Null)
            },
    )
}

/// Builds the map of one entry from `name` to `payload`.
pub fn singleton_of(name: &String, payload: Value) -> (r: Value)
    ensures
        r@ == singleton(name@, payload@),
{
    let mut entries: Vec<(Value, Value)> = Vec::new();
    entries.push((Value::String(name.clone()), payload));
    assert(entries_view(entries@) =~= seq![(ValueView::String(name@), payload@)]);
    Value::Mapping(entries)
}

/// Builds the value that is handed to the encoder in place of `value` under
/// the convention `c`: see [`rewritten`].
pub fn rewrite(value: &Value, c: Convention) -> (r: Value)
    ensures
        r@ == rewritten(value@, c),
    decreases value,
{
    if let Convention::Tagged = c {
        return value.duplicate();
    }
    match value {
        Value::Sequence(items) => Value::Sequence(rewrite_items(items, c.deeper())),
        Value::Mapping(entries) => Value::Mapping(rewrite_entries(entries, c.deeper())),
        Value::Struct(fields) => Value::Struct(rewrite_fields(fields, c.deeper())),
        Value::Tagged(tag, inner) => Value::Tagged(tag.clone(), Box::new(rewrite(inner, c.deeper()))),
        Value::Present(inner) => Value::Present(Box::new(rewrite(inner, c))),
        Value::NewtypeVariant(name, inner) => singleton_of(name, rewrite(inner, c.deeper())),
        Value::TupleVariant(name, items) => singleton_of(
            name,
            Value::Sequence(to_values(items, c.deeper())),
        ),
        Value::StructVariant(name, fields) => singleton_of(
            name,
            Value::Mapping(to_field_entries(fields, c.deeper())),
        ),
        _ => value.duplicate(),
    }
}

/// What is handed on for the items of a sequence: see [`rewritten_items`].
pub fn rewrite_items(items: &Vec<Value>, c: Convention) -> (r: Vec<Value>)
    ensures
        items_view(r@) == rewritten_items(items_view(items@), c),
    decreases items,
{
    let mut r: Vec<Value> = Vec::new();
    let mut i: usize = 0;
    while i < items.len()
        invariant
            i <= items.len(),
            r.len() == i,
            forall|j: int| 0 <= j < i ==> r@[j]@ == rewritten(items@[j]@, c),
        decreases items.len() - i,
    {
        r.push(rewrite(&items[i], c));
        i += 1;
    }
    assert(items_view(r@) =~= rewritten_items(items_view(items@), c));
    r
}

/// What is handed on for the entries of a map: see [`rewritten_entries`].
pub fn rewrite_entries(entries: &Vec<(Value, Value)>, c: Convention) -> (r: Vec<(Value, Value)>)
    ensures
        entries_view(r@) == rewritten_entries(entries_view(entries@), c),
    decreases entries,
{
    let mut r: Vec<(Value, Value)> = Vec::new();
    let mut i: usize = 0;
    while i < entries.len()
        invariant
            i <= entries.len(),
            r.len() == i,
            forall|j: int|
                0 <= j < i ==> r@[j].0@ == rewritten(entries@[j].0@, c) && r@[j].1@ == rewritten(
                    entries@[j].1@,
                    c,
                ),
        decreases entries.len() - i,
    {
        let entry = &entries[i];
        r.push((rewrite(&entry.0, c), rewrite(&entry.1, c)));
        i += 1;
    }
    assert(entries_view(r@) =~= rewritten_entries(entries_view(entries@), c));
    r
}

/// What is handed on for the fields of a struct: see [`rewritten_fields`].
pub fn rewrite_fields(fields: &Vec<(String, Value)>, c: Convention) -> (r: Vec<(String, Value)>)
    ensures
        fields_view(r@) == rewritten_fields(fields_view(fields@), c),
    decreases fields,
{
    let mut r: Vec<(String, Value)> = Vec::new();
    let mut i: usize = 0;
    while i < fields.len()
        invariant
            i <= fields.len(),
            r.len() == i,
            forall|j: int|
                0 <= j < i ==> r@[j].0@ == fields@[j].0@ && r@[j].1@ == rewritten(
                    fields@[j].1@,
                    c,
                ),
        decreases fields.len() - i,
    {
        let field = &fields[i];
        r.push((field.0.clone(), rewrite(&field.1, c)));
        i += 1;
    }
    assert(fields_view(r@) =~= rewritten_fields(fields_view(fields@), c));
    r
}

/// A variant of a document is a document, where its payload is one.
pub proof fn lemma_wrap_is_plain(name: Seq<char>, payload: ValueView, c: Convention)
    requires
        is_plain(payload),
    ensures
        is_plain(crate::document::wrap(name, payload, c)),
{
    let entries = seq![(ValueView::String(name), payload)];
    assert forall|i: int| 0 <= i < entries.len() implies is_plain((#[trigger] entries[i]).0)
        && is_plain(entries[i].1) by {}
}

/// A document is a document already: it holds nothing that only a typed
/// value has.
pub proof fn lemma_document_is_plain(v: ValueView, c: Convention)
    ensures
        is_plain(document(v, c)),
    decreases v,
{
    match v {
        ValueView::Sequence(items) => {
            lemma_documents_are_plain(items, c.below());
        },
        ValueView::TupleVariant(name, items) => {
            lemma_documents_are_plain(items, c.below());
            lemma_wrap_is_plain(name, ValueView::Sequence(document_items(items, c.below())), c);
        },
        ValueView::Mapping(entries) => {
            let documents = document_entries(entries, c.below());
            assert forall|i: int| 0 <= i < documents.len() implies is_plain(
                (#[trigger] documents[i]).0,
            ) && is_plain(documents[i].1) by {
                lemma_document_is_plain(entries[i].0, c.below());
                lemma_document_is_plain(entries[i].1, c.below());
            }
        },
        ValueView::Struct(fields) => {
            lemma_field_documents_are_plain(fields, c.below());
        },
        ValueView::StructVariant(name, fields) => {
            lemma_field_documents_are_plain(fields, c.below());
            lemma_wrap_is_plain(name, ValueView::Mapping(document_fields(fields, c.below())), c);
        },
        ValueView::Tagged(_, value) => {
            lemma_document_is_plain(*value, c.below());
        },
        ValueView::Present(value) => {
            lemma_document_is_plain(*value, c);
        },
        ValueView::NewtypeVariant(name, value) => {
            lemma_document_is_plain(*value, c.below());
            lemma_wrap_is_plain(name, document(*value, c.below()), c);
        },
        _ => {},
    }
}

/// The documents of the items of a sequence are documents already.
pub proof fn lemma_documents_are_plain(items: Seq<ValueView>, c: Convention)
    ensures
        is_plain(ValueView::Sequence(document_items(items, c))),
    decreases items,
{
    let documents = document_items(items, c);
    assert forall|i: int| 0 <= i < documents.len() implies is_plain(#[trigger] documents[i]) by {
        lemma_document_is_plain(items[i], c);
    }
}

/// The documents of the fields of a struct are documents already.
pub proof fn lemma_field_documents_are_plain(fields: Seq<(Seq<char>, ValueView)>, c: Convention)
    ensures
        is_plain(ValueView::Mapping(document_fields(fields, c))),
    decreases fields,
{
    let documents = document_fields(fields, c);
    assert forall|i: int| 0 <= i < documents.len() implies is_plain((#[trigger] documents[i]).0)
        && is_plain(documents[i].1) by {
        lemma_document_is_plain(fields[i].1, c);
    }
}

/// What is handed to the encoder under a convention is, read as a document
/// in which enums are tagged, the document of the value under that
/// convention: the encoder writes what the reader of that convention
/// expects.
pub proof fn lemma_rewritten_document(v: ValueView, c: Convention)
    ensures
        document(rewritten(v, c), Convention::Tagged) == document(v, c),
    decreases v,
{
    if c == Convention::Tagged {
        return ;
    }
    let t = Convention::Tagged;
    match v {
        ValueView::Sequence(items) => {
            assert forall|i: int| 0 <= i < items.len() implies document_items(
                rewritten_items(items, c.below()),
                t,
            )[i] == document_items(items, c.below())[i] by {
                lemma_rewritten_document(items[i], c.below());
            }
            assert(document_items(rewritten_items(items, c.below()), t) =~= document_items(
                items,
                c.below(),
            ));
        },
        ValueView::Mapping(entries) => {
            assert forall|i: int| 0 <= i < entries.len() implies document_entries(
                rewritten_entries(entries, c.below()),
                t,
            )[i] == document_entries(entries, c.below())[i] by {
                lemma_rewritten_document(entries[i].0, c.below());
                lemma_rewritten_document(entries[i].1, c.below());
            }
            assert(document_entries(rewritten_entries(entries, c.below()), t) =~= document_entries(
                entries,
                c.below(),
            ));
        },
        ValueView::Struct(fields) => {
            assert forall|i: int| 0 <= i < fields.len() implies document_fields(
                rewritten_fields(fields, c.below()),
                t,
            )[i] == document_fields(fields, c.below())[i] by {
                lemma_rewritten_document(fields[i].1, c.below());
            }
            assert(document_fields(rewritten_fields(fields, c.below()), t) =~= document_fields(
                fields,
                c.below(),
            ));
        },
        ValueView::Tagged(_, value) => {
            lemma_rewritten_document(*value, c.below());
        },
        ValueView::Present(value) => {
            lemma_rewritten_document(*value, c);
        },
        ValueView::NewtypeVariant(name, value) => {
            lemma_rewritten_document(*value, c.below());
            let handed = seq![(ValueView::String(name), rewritten(*value, c.below()))];
            assert(document_entries(handed, t) =~= seq![
                (ValueView::String(name), document(*value, c.below())),
            ]);
        },
        ValueView::TupleVariant(name, items) => {
            let payload = ValueView::Sequence(document_items(items, c.below()));
            lemma_documents_are_plain(items, c.below());
            lemma_plain_is_document(payload, t);
            let handed = seq![(ValueView::String(name), payload)];
            assert(document_entries(handed, t) =~= seq![(ValueView::String(name), payload)]);
        },
        ValueView::StructVariant(name, fields) => {
            let payload = ValueView::Mapping(document_fields(fields, c.below()));
            lemma_field_documents_are_plain(fields, c.below());
            lemma_plain_is_document(payload, t);
            let handed = seq![(ValueView::String(name), payload)];
            assert(document_entries(handed, t) =~= seq![(ValueView::String(name), payload)]);
        },
        _ => {},
    }
}

} // verus!
