//! Reading typed values back from a document, by the shape that the reader
//! expects and the convention under which enums were written.
use vstd::prelude::*;
use crate::document::{Convention, document, document_items, document_entries, document_fields};
use crate::error::Error;
use crate::shape::{Payload, PayloadView, Shape, ShapeView, find_variant, lookup, shapes_view, field_shapes_view, variants_view};
use crate::value::{Value, ValueView, items_view, entries_view, fields_view};

verus! {

/// The name of the variant that `node` writes under the convention `c`, and
/// the payload it carries, if `node` has the form of a variant:
/// - a string is a variant without payload, under every convention;
/// - a tagged value is the variant named by its tag, where enums are tagged;
/// - a map of exactly one entry whose key is a string is the variant named
///   by that key, where enums are singleton maps.
/// Nothing else is a variant: no map of no entry or of several entries is.
pub open spec fn named(node: ValueView, c: Convention) -> Option<(Seq<char>, Option<ValueView>)> {
    match node {
        ValueView::String(name) => Some((name, None)),
        ValueView::Tagged(tag, payload) => if c == Convention::Tagged {
            Some((tag, Some(*payload)))
        } else {
            None
        },
        ValueView::Mapping(entries) => if c != Convention::Tagged && entries.len() == 1
            && entries[0].0 is String {
            Some((entries[0].0->String_0, Some(entries[0].1)))
        } else {
            None
        },
        _ => None,
    }
}

/// The typed value that the document `node` holds for a reader who expects
/// `shape`, enums being written under the convention `c`; or the mismatch.
/// - Where anything is expected, the node is taken as it stands.
/// - Where a scalar is expected, the node must be one of its kind. An
///   integer is taken as signed or as unsigned, as the reader expects, where
///   it fits.
/// - Where an optional is expected, a null is the absent one; anything else
///   is read as what the optional holds, under the same convention.
/// - A sequence, a tuple, a map and a struct are read part by part, one
///   level deeper. A tuple must have as many items as positions; a struct
///   must be a map of its fields, by name and in order.
/// - Where an enum is expected, the node must have the form of a variant
///   (see [`named`]) that the enum has, and its payload that of the variant.
pub open spec fn decode(node: ValueView, shape: ShapeView, c: Convention) -> Result<
    ValueView,
    Error,
>
    decreases shape, 1nat, 0nat,
{
    match shape {
        ShapeView::Any => Ok(node),
        ShapeView::Unit => if node is Null {
            Ok(node)
        } else {
            Err(Error::ShapeMismatch)
        },
        ShapeView::Bool => if node is Bool {
            Ok(node)
        } else {
            Err(Error::ShapeMismatch)
        },
        ShapeView::I64 => match node {
            ValueView::I64(_) => Ok(node),
            ValueView::U64(u) => if u <= i64::MAX {
                Ok(ValueView::I64(u as i64))
            } else {
                Err(Error::ShapeMismatch)
            },
            _ => Err(Error::ShapeMismatch),
        },
        ShapeView::U64 => match node {
            ValueView::U64(_) => Ok(node),
            ValueView::I64(i) => if i >= 0 {
                Ok(ValueView::U64(i as u64))
            } else {
                Err(Error::ShapeMismatch)
            },
            _ => Err(Error::ShapeMismatch),
        },
        ShapeView::Float => if node is Float {
            Ok(node)
        } else {
            Err(Error::ShapeMismatch)
        },
        ShapeView::String => if node is String {
            Ok(node)
        } else {
            Err(Error::ShapeMismatch)
        },
        ShapeView::Optional(inner) => if node is Null {
            Ok(ValueView::Null)
        } else {
            match decode(node, *inner, c) {
                Ok(v) => Ok(ValueView::Present(Box::new(v))),
                Err(e) => Err(e),
            }
        },
        ShapeView::Sequence(item) => match node {
            ValueView::Sequence(items) => match decode_items(
                items,
                *item,
                c.below(),
                0,
                Seq::empty(),
            ) {
                Ok(vs) => Ok(ValueView::Sequence(vs)),
                Err(e) => Err(e),
            },
            _ => Err(Error::ShapeMismatch),
        },
        ShapeView::Tuple(shapes) => match node {
            ValueView::Sequence(items) => match decode_tuple(
                items,
                shapes,
                c.below(),
                0,
                Seq::empty(),
            ) {
                Ok(vs) => Ok(ValueView::Sequence(vs)),
                Err(e) => Err(e),
            },
            _ => Err(Error::ShapeMismatch),
        },
        ShapeView::Mapping(key, value) => match node {
            ValueView::Mapping(entries) => match decode_entries(
                entries,
                shape,
                c.below(),
                0,
                Seq::empty(),
            ) {
                Ok(es) => Ok(ValueView::Mapping(es)),
                Err(e) => Err(e),
            },
            _ => Err(Error::ShapeMismatch),
        },
        ShapeView::Struct(fields) => match node {
            ValueView::Mapping(entries) => match decode_fields(
                entries,
                fields,
                c.below(),
                0,
                Seq::empty(),
            ) {
                Ok(fs) => Ok(ValueView::Struct(fs)),
                Err(e) => Err(e),
            },
            _ => Err(Error::ShapeMismatch),
        },
        ShapeView::Enum(variants) => match named(node, c) {
            Some((name, body)) => match find_variant(variants, name, 0) {
                Some(i) => if 0 <= i < variants.len() {
                    decode_variant(name, body, variants[i].1, c.below())
                } else {
                    Err(Error::ShapeMismatch)
                },
                None => Err(Error::ShapeMismatch),
            },
            None => Err(Error::ShapeMismatch),
        },
    }
}

/// The variant `name` with its payload read from `body`, or the mismatch: a
/// unit variant has no body; every other variant has one, of its own form.
pub open spec fn decode_variant(
    name: Seq<char>,
    body: Option<ValueView>,
    payload: PayloadView,
    c: Convention,
) -> Result<ValueView, Error>
    decreases payload, 1nat, 0nat,
{
    match payload {
        PayloadView::Unit => match body {
            None => Ok(ValueView::UnitVariant(name)),
            Some(_) => Err(Error::ShapeMismatch),
        },
        PayloadView::Newtype(shape) => match body {
            Some(b) => match decode(b, *shape, c) {
                Ok(v) => Ok(ValueView::NewtypeVariant(name, Box::new(v))),
                Err(e) => Err(e),
            },
            None => Err(Error::ShapeMismatch),
        },
        PayloadView::Tuple(shapes) => match body {
            Some(ValueView::Sequence(items)) => match decode_tuple(
                items,
                shapes,
                c,
                0,
                Seq::empty(),
            ) {
                Ok(vs) => Ok(ValueView::TupleVariant(name, vs)),
                Err(e) => Err(e),
            },
            _ => Err(Error::ShapeMismatch),
        },
        PayloadView::Struct(fields) => match body {
            Some(ValueView::Mapping(entries)) => match decode_fields(
                entries,
                fields,
                c,
                0,
                Seq::empty(),
            ) {
                Ok(fs) => Ok(ValueView::StructVariant(name, fs)),
                Err(e) => Err(e),
            },
            _ => Err(Error::ShapeMismatch),
        },
    }
}

/// `done`, then `items[from..]` read one by one, each by `shape`.
pub open spec fn decode_items(
    items: Seq<ValueView>,
    shape: ShapeView,
    c: Convention,
    from: int,
    done: Seq<ValueView>,
) -> Result<Seq<ValueView>, Error>
    decreases shape, 2nat, items.len() - from,
{
    if 0 <= from < items.len() {
        match decode(items[from], shape, c) {
            Ok(v) => decode_items(items, shape, c, from + 1, done.push(v)),
            Err(e) => Err(e),
        }
    } else {
        Ok(done)
    }
}

/// `done`, then `items[from..]` read one by one, each by the shape of its
/// position. There must be as many items as shapes.
pub open spec fn decode_tuple(
    items: Seq<ValueView>,
    shapes: Seq<ShapeView>,
    c: Convention,
    from: int,
    done: Seq<ValueView>,
) -> Result<Seq<ValueView>, Error>
    decreases shapes, 0nat, shapes.len() - from,
{
    if items.len() != shapes.len() {
        Err(Error::ShapeMismatch)
    } else if 0 <= from < shapes.len() {
        match decode(items[from], shapes[from], c) {
            Ok(v) => decode_tuple(items, shapes, c, from + 1, done.push(v)),
            Err(e) => Err(e),
        }
    } else {
        Ok(done)
    }
}

/// `done`, then `entries[from..]` read one by one, each key and each value
/// by the shape that the map shape `shape` gives for it.
pub open spec fn decode_entries(
    entries: Seq<(ValueView, ValueView)>,
    shape: ShapeView,
    c: Convention,
    from: int,
    done: Seq<(ValueView, ValueView)>,
) -> Result<Seq<(ValueView, ValueView)>, Error>
    decreases shape, 0nat, entries.len() - from,
{
    match shape {
        ShapeView::Mapping(key, value) => if 0 <= from < entries.len() {
            match decode(entries[from].0, *key, c) {
                Ok(k) => match decode(entries[from].1, *value, c) {
                    Ok(v) => decode_entries(entries, shape, c, from + 1, done.push((k, v))),
                    Err(e) => Err(e),
                },
                Err(e) => Err(e),
            }
        } else {
            Ok(done)
        },
        _ => Err(Error::ShapeMismatch),
    }
}

/// `done`, then `entries[from..]` read one by one as the fields of a struct:
/// each key must be the name of the field of its position, and each value
/// is read by the shape of that field. There must be as many entries as
/// fields.
pub open spec fn decode_fields(
    entries: Seq<(ValueView, ValueView)>,
    fields: Seq<(Seq<char>, ShapeView)>,
    c: Convention,
    from: int,
    done: Seq<(Seq<char>, ValueView)>,
) -> Result<Seq<(Seq<char>, ValueView)>, Error>
    decreases fields, 0nat, fields.len() - from,
{
    if entries.len() != fields.len() {
        Err(Error::ShapeMismatch)
    } else if 0 <= from < fields.len() {
        if entries[from].0 == ValueView::String(fields[from].0) {
            match decode(entries[from].1, fields[from].1, c) {
                Ok(v) => decode_fields(entries, fields, c, from + 1, done.push((fields[from].0, v))),
                Err(e) => Err(e),
            }
        } else {
            Err(Error::ShapeMismatch)
        }
    } else {
        Ok(done)
    }
}

/// Whether `r` is the typed value, or the mismatch, that `expected` says.
pub open spec fn reads(r: Result<Value, Error>, expected: Result<ValueView, Error>) -> bool {
    match expected {
        Ok(v) => r matches Ok(x) && x@ == v,
        Err(e) => r matches Err(x) && x == e,
    }
}

/// Reads the typed value that the document `node` holds for a reader who
/// expects `shape`, enums being written under the convention `c`: see
/// [`decode`].
pub fn deserialize(node: &Value, shape: &Shape, c: Convention) -> (r: Result<Value, Error>)
    ensures
        reads(r, decode(node@, shape@, c)),
    decreases shape, 1nat, 0nat,
{
    match shape {
        Shape::Any => Ok(node.duplicate()),
        Shape::Unit => read_scalar(node, shape),
        Shape::Bool => read_scalar(node, shape),
        Shape::I64 => read_scalar(node, shape),
        Shape::U64 => read_scalar(node, shape),
        Shape::Float => read_scalar(node, shape),
        Shape::String => read_scalar(node, shape),
        Shape::Optional(inner) => match node {
            Value::Null => Ok(Value::Null),
            _ => match deserialize(node, inner, c) {
                Ok(v) => Ok(Value::Present(Box::new(v))),
                Err(e) => Err(e),
            },
        },
        Shape::Sequence(item) => match node {
            Value::Sequence(items) => match read_items(items, item, c.deeper()) {
                Ok(vs) => Ok(Value::Sequence(vs)),
                Err(e) => Err(e),
            },
            _ => Err(Error::ShapeMismatch),
        },
        Shape::Tuple(shapes) => match node {
            Value::Sequence(items) => match read_tuple(items, shapes, c.deeper()) {
                Ok(vs) => Ok(Value::Sequence(vs)),
                Err(e) => Err(e),
            },
            _ => Err(Error::ShapeMismatch),
        },
        Shape::Mapping(_, _) => match node {
            Value::Mapping(entries) => match read_entries(entries, shape, c.deeper()) {
                Ok(es) => Ok(Value::Mapping(es)),
                Err(e) => Err(e),
            },
            _ => Err(Error::ShapeMismatch),
        },
        Shape::Struct(fields) => match node {
            Value::Mapping(entries) => match read_fields(entries, fields, c.deeper()) {
                Ok(fs) => Ok(Value::Struct(fs)),
                Err(e) => Err(e),
            },
            _ => Err(Error::ShapeMismatch),
        },
        Shape::Enum(variants) => read_enum(node, variants, c),
    }
}

/// Reads a variant of an enum: finds which variant the node writes, looks
/// it up among `variants`, and reads its payload.
pub fn read_enum(node: &Value, variants: &Vec<(String, Payload)>, c: Convention) -> (r: Result<
    Value,
    Error,
>)
    ensures
        reads(r, decode(node@, ShapeView::Enum(variants_view(variants@)), c)),
    decreases variants, 0nat, 1nat,
{
    let name = match variant_seed(node, c) {
        Err(e) => {
            return Err(e);
        },
        Ok(name) => name,
    };
    let body = variant_body(node, c);
    match lookup(variants, &name) {
        None => Err(Error::ShapeMismatch),
        Some(i) => {
            assert(variants_view(variants@)[i as int].1 == variants@[i as int].1@);
            read_variant(name, body, &variants[i].1, c.deeper())
        },
    }
}

/// Reads a scalar of the kind that `shape` names: see [`decode`].
pub fn read_scalar(node: &Value, shape: &Shape) -> (r: Result<Value, Error>)
    requires
        shape is Unit || shape is Bool || shape is I64 || shape is U64 || shape is Float
            || shape is String,
    ensures
        forall|c: Convention| reads(r, #[trigger] decode(node@, shape@, c)),
{
    match shape {
        Shape::Unit => match node {
            Value::Null => Ok(Value::Null),
            _ => Err(Error::ShapeMismatch),
        },
        Shape::Bool => match node {
            Value::Bool(b) => Ok(Value::Bool(*b)),
            _ => Err(Error::ShapeMismatch),
        },
        Shape::I64 => match node {
            Value::I64(i) => Ok(Value::I64(*i)),
            Value::U64(u) => {
                if *u <= i64::MAX as u64 {
                    Ok(Value::I64(*u as i64))
                } else {
                    Err(Error::ShapeMismatch)
                }
            },
            _ => Err(Error::ShapeMismatch),
        },
        Shape::U64 => match node {
            Value::U64(u) => Ok(Value::U64(*u)),
            Value::I64(i) => {
                if *i >= 0 {
                    Ok(Value::U64(*i as u64))
                } else {
                    Err(Error::ShapeMismatch)
                }
            },
            _ => Err(Error::ShapeMismatch),
        },
        Shape::Float => match node {
            Value::Float(bits, text) => Ok(Value::Float(*bits, text.clone())),
            _ => Err(Error::ShapeMismatch),
        },
        Shape::String => match node {
            Value::String(text) => Ok(Value::String(text.clone())),
            _ => Err(Error::ShapeMismatch),
        },
        _ => Err(Error::ShapeMismatch),
    }
}

/// Finds which variant the document `node` writes: see [`named`]. A node
/// that has not the form of a variant is a mismatch: so is every map of no
/// entry or of several entries.
pub fn variant_seed(node: &Value, c: Convention) -> (r: Result<String, Error>)
    ensures
        match r {
            Ok(name) => named(node@, c) matches Some(found) && found.0 == name@,
            Err(e) => named(node@, c) is None && e == Error::ShapeMismatch,
        },
{
    let tagged = match c {
        Convention::Tagged => true,
        _ => false,
    };
    match node {
        Value::String(name) => Ok(name.clone()),
        Value::Tagged(tag, _) => {
            if tagged {
                Ok(tag.clone())
            } else {
                Err(Error::ShapeMismatch)
            }
        },
        Value::Mapping(entries) => {
            assert(entries_view(entries@).len() == entries@.len());
            if !tagged && entries.len() == 1 {
                assert(entries_view(entries@)[0] == (entries@[0].0@, entries@[0].1@));
                match &entries[0].0 {
                    Value::String(name) => Ok(name.clone()),
                    _ => Err(Error::ShapeMismatch),
                }
            } else {
                Err(Error::ShapeMismatch)
            }
        },
        _ => Err(Error::ShapeMismatch),
    }
}

/// What `node` carries as a payload under the convention `c`: what stands
/// under the tag, where enums are tagged; the value of the one entry of a
/// map of one entry, where enums are singleton maps; nothing otherwise.
pub open spec fn payload_of(node: ValueView, c: Convention) -> Option<ValueView> {
    match node {
        ValueView::Tagged(_, payload) => if c == Convention::Tagged {
            Some(*payload)
        } else {
            None
        },
        ValueView::Mapping(entries) => if c != Convention::Tagged && entries.len() == 1 {
            Some(entries[0].1)
        } else {
            None
        },
        _ => None,
    }
}

/// The payload that the document `node` carries: see [`payload_of`]. Where
/// the node has the form of a variant, this is the payload of the variant.
pub fn variant_body<'a>(node: &'a Value, c: Convention) -> (r: Option<&'a Value>)
    ensures
        body_view(r) == payload_of(node@, c),
        named(node@, c) matches Some(found) ==> found.1 == payload_of(node@, c),
{
    let tagged = match c {
        Convention::Tagged => true,
        _ => false,
    };
    match node {
        Value::Tagged(_, payload) => {
            if tagged {
                Some(&**payload)
            } else {
                None
            }
        },
        Value::Mapping(entries) => {
            assert(entries_view(entries@).len() == entries@.len());
            if !tagged && entries.len() == 1 {
                assert(entries_view(entries@)[0] == (entries@[0].0@, entries@[0].1@));
                Some(&entries[0].1)
            } else {
                None
            }
        },
        _ => None,
    }
}

/// What the body of a variant stands for.
pub open spec fn body_view(body: Option<&Value>) -> Option<ValueView> {
    match body {
        Some(b) => Some(b@),
        None => None,
    }
}

/// Reads the payload of the variant `name`: see [`decode_variant`].
pub fn read_variant(name: String, body: Option<&Value>, payload: &Payload, c: Convention) -> (r:
    Result<Value, Error>)
    ensures
        reads(r, decode_variant(name@, body_view(body), payload@, c)),
    decreases payload, 1nat, 0nat,
{
    match payload {
        Payload::Unit => unit_variant(name, body),
        Payload::Newtype(shape) => newtype_variant_seed(name, body, shape, c),
        Payload::Tuple(shapes) => tuple_variant(name, body, shapes, c),
        Payload::Struct(fields) => struct_variant(name, body, fields, c),
    }
}

/// A variant without payload: it must have no body.
pub fn unit_variant(name: String, body: Option<&Value>) -> (r: Result<Value, Error>)
    ensures
        match body {
            None => r matches Ok(x) && x@ == ValueView::UnitVariant(name@),
            Some(_) => r matches Err(e) && e == Error::ShapeMismatch,
        },
{
    match body {
        None => Ok(Value::UnitVariant(name)),
        Some(_) => Err(Error::ShapeMismatch),
    }
}

/// The body of a variant that holds one value: there must be one.
pub fn newtype_body<'a>(body: Option<&'a Value>) -> (r: Result<&'a Value, Error>)
    ensures
        match body {
            Some(b) => r matches Ok(found) && found == b,
            None => r matches Err(e) && e == Error::ShapeMismatch,
        },
{
    match body {
        Some(b) => Ok(b),
        None => Err(Error::ShapeMismatch),
    }
}

/// The body of a variant that holds a tuple: it must be a sequence, and
/// its items are what the tuple is read from.
pub fn tuple_body<'a>(body: Option<&'a Value>) -> (r: Result<&'a Vec<Value>, Error>)
    ensures
        match body_view(body) {
            Some(ValueView::Sequence(items)) => r matches Ok(found) && items_view(found@) == items,
            _ => r matches Err(e) && e == Error::ShapeMismatch,
        },
{
    match body {
        Some(Value::Sequence(items)) => Ok(items),
        _ => Err(Error::ShapeMismatch),
    }
}

/// The body of a variant that holds named fields: it must be a map, and its
/// entries are what the fields are read from.
pub fn struct_body<'a>(body: Option<&'a Value>) -> (r: Result<&'a Vec<(Value, Value)>, Error>)
    ensures
        match body_view(body) {
            Some(ValueView::Mapping(entries)) => r matches Ok(found) && entries_view(found@)
                == entries,
            _ => r matches Err(e) && e == Error::ShapeMismatch,
        },
{
    match body {
        Some(Value::Mapping(entries)) => Ok(entries),
        _ => Err(Error::ShapeMismatch),
    }
}

/// A variant that holds one value: its body, read by `shape`.
pub fn newtype_variant_seed(name: String, body: Option<&Value>, shape: &Shape, c: Convention) -> (r:
    Result<Value, Error>)
    ensures
        reads(
            r,
            match body {
                Some(b) => match decode(b@, shape@, c) {
                    Ok(v) => Ok(ValueView::NewtypeVariant(name@, Box::new(v))),
                    Err(e) => Err(e),
                },
                None => Err(Error::ShapeMismatch),
            },
        ),
    decreases shape, 1nat, 1nat,
{
    match newtype_body(body) {
        Ok(b) => match deserialize(b, shape, c) {
            Ok(v) => Ok(Value::NewtypeVariant(name, Box::new(v))),
            Err(e) => Err(e),
        },
        Err(e) => Err(e),
    }
}

/// A variant that holds a tuple: its body must be a sequence, whose items
/// are read by the shapes of their positions.
pub fn tuple_variant(name: String, body: Option<&Value>, shapes: &Vec<Shape>, c: Convention) -> (r:
    Result<Value, Error>)
    ensures
        reads(
            r,
            match body_view(body) {
                Some(ValueView::Sequence(items)) => match decode_tuple(
                    items,
                    shapes_view(shapes@),
                    c,
                    0,
                    Seq::empty(),
                ) {
                    Ok(vs) => Ok(ValueView::TupleVariant(name@, vs)),
                    Err(e) => Err(e),
                },
                _ => Err(Error::ShapeMismatch),
            },
        ),
    decreases shapes, 0nat, 1nat,
{
    match tuple_body(body) {
        Ok(items) => match read_tuple(items, shapes, c) {
            Ok(vs) => Ok(Value::TupleVariant(name, vs)),
            Err(e) => Err(e),
        },
        Err(e) => Err(e),
    }
}

/// A variant that holds named fields: its body must be a map, whose
/// entries are read as the fields.
pub fn struct_variant(
    name: String,
    body: Option<&Value>,
    fields: &Vec<(String, Shape)>,
    c: Convention,
) -> (r: Result<Value, Error>)
    ensures
        reads(
            r,
            match body_view(body) {
                Some(ValueView::Mapping(entries)) => match decode_fields(
                    entries,
                    field_shapes_view(fields@),
                    c,
                    0,
                    Seq::empty(),
                ) {
                    Ok(fs) => Ok(ValueView::StructVariant(name@, fs)),
                    Err(e) => Err(e),
                },
                _ => Err(Error::ShapeMismatch),
            },
        ),
    decreases fields, 0nat, 1nat,
{
    match struct_body(body) {
        Ok(entries) => match read_fields(entries, fields, c) {
            Ok(fs) => Ok(Value::StructVariant(name, fs)),
            Err(e) => Err(e),
        },
        Err(e) => Err(e),
    }
}

/// Reads the items of a sequence, each by `shape`: see [`decode_items`].
#[verifier::loop_isolation(false)]
pub fn read_items(items: &Vec<Value>, shape: &Shape, c: Convention) -> (r: Result<Vec<Value>, Error>)
    ensures
        match decode_items(items_view(items@), shape@, c, 0, Seq::empty()) {
            Ok(vs) => r matches Ok(xs) && items_view(xs@) == vs,
            Err(e) => r matches Err(x) && x == e,
        },
    decreases shape, 2nat, 0nat,
{
    let ghost all = items_view(items@);
    let mut done: Vec<Value> = Vec::new();
    let mut i: usize = 0;
    assert(items_view(done@) =~= Seq::<ValueView>::empty());
    while i < items.len()
        invariant
            i <= items.len(),
            decode_items(all, shape@, c, 0, Seq::empty()) == decode_items(
                all,
                shape@,
                c,
                i as int,
                items_view(done@),
            ),
        decreases items.len() - i,
    {
        assert(all[i as int] == items@[i as int]@);
        match deserialize(&items[i], shape, c) {
            Err(e) => {
                return Err(e);
            },
            Ok(v) => {
                let ghost before = items_view(done@);
                done.push(v);
                assert(items_view(done@) =~= before.push(v@));
            },
        }
        i += 1;
    }
    Ok(done)
}

/// Reads the items of a tuple, each by the shape of its position: see
/// [`decode_tuple`].
#[verifier::loop_isolation(false)]
pub fn read_tuple(items: &Vec<Value>, shapes: &Vec<Shape>, c: Convention) -> (r: Result<
    Vec<Value>,
    Error,
>)
    ensures
        match decode_tuple(items_view(items@), shapes_view(shapes@), c, 0, Seq::empty()) {
            Ok(vs) => r matches Ok(xs) && items_view(xs@) == vs,
            Err(e) => r matches Err(x) && x == e,
        },
    decreases shapes, 0nat, 0nat,
{
    if items.len() != shapes.len() {
        return Err(Error::ShapeMismatch);
    }
    let ghost all = items_view(items@);
    let ghost positions = shapes_view(shapes@);
    let mut done: Vec<Value> = Vec::new();
    let mut i: usize = 0;
    assert(items_view(done@) =~= Seq::<ValueView>::empty());
    while i < items.len()
        invariant
            i <= items.len(),
            decode_tuple(all, positions, c, 0, Seq::empty()) == decode_tuple(
                all,
                positions,
                c,
                i as int,
                items_view(done@),
            ),
        decreases items.len() - i,
    {
        assert(all[i as int] == items@[i as int]@);
        assert(positions[i as int] == shapes@[i as int]@);
        match deserialize(&items[i], &shapes[i], c) {
            Err(e) => {
                return Err(e);
            },
            Ok(v) => {
                let ghost before = items_view(done@);
                done.push(v);
                assert(items_view(done@) =~= before.push(v@));
            },
        }
        i += 1;
    }
    Ok(done)
}

/// Reads the entries of a map, by the map shape `shape`: see
/// [`decode_entries`].
#[verifier::loop_isolation(false)]
pub fn read_entries(entries: &Vec<(Value, Value)>, shape: &Shape, c: Convention) -> (r: Result<
    Vec<(Value, Value)>,
    Error,
>)
    ensures
        match decode_entries(entries_view(entries@), shape@, c, 0, Seq::empty()) {
            Ok(es) => r matches Ok(xs) && entries_view(xs@) == es,
            Err(e) => r matches Err(x) && x == e,
        },
    decreases shape, 0nat, 0nat,
{
    let (key, value) = match shape {
        Shape::Mapping(key, value) => (key, value),
        _ => {
            return Err(Error::ShapeMismatch);
        },
    };
    let ghost all = entries_view(entries@);
    let mut done: Vec<(Value, Value)> = Vec::new();
    let mut i: usize = 0;
    assert(entries_view(done@) =~= Seq::<(ValueView, ValueView)>::empty());
    while i < entries.len()
        invariant
            i <= entries.len(),
            decode_entries(all, shape@, c, 0, Seq::empty()) == decode_entries(
                all,
                shape@,
                c,
                i as int,
                entries_view(done@),
            ),
        decreases entries.len() - i,
    {
        assert(all[i as int] == (entries@[i as int].0@, entries@[i as int].1@));
        let entry = &entries[i];
        let k = match deserialize(&entry.0, key, c) {
            Err(e) => {
                return Err(e);
            },
            Ok(k) => k,
        };
        let v = match deserialize(&entry.1, value, c) {
            Err(e) => {
                return Err(e);
            },
            Ok(v) => v,
        };
        let ghost before = entries_view(done@);
        let ghost pair = (k@, v@);
        done.push((k, v));
        assert(entries_view(done@) =~= before.push(pair));
        i += 1;
    }
    Ok(done)
}

/// Reads the entries of a map as the fields of a struct: see
/// [`decode_fields`].
#[verifier::loop_isolation(false)]
pub fn read_fields(entries: &Vec<(Value, Value)>, fields: &Vec<(String, Shape)>, c: Convention) -> (r:
    Result<Vec<(String, Value)>, Error>)
    ensures
        match decode_fields(entries_view(entries@), field_shapes_view(fields@), c, 0, Seq::empty()) {
            Ok(fs) => r matches Ok(xs) && fields_view(xs@) == fs,
            Err(e) => r matches Err(x) && x == e,
        },
    decreases fields, 0nat, 0nat,
{
    if entries.len() != fields.len() {
        return Err(Error::ShapeMismatch);
    }
    let ghost all = entries_view(entries@);
    let ghost expected = field_shapes_view(fields@);
    let mut done: Vec<(String, Value)> = Vec::new();
    let mut i: usize = 0;
    assert(fields_view(done@) =~= Seq::<(Seq<char>, ValueView)>::empty());
    while i < entries.len()
        invariant
            i <= entries.len(),
            decode_fields(all, expected, c, 0, Seq::empty()) == decode_fields(
                all,
                expected,
                c,
                i as int,
                fields_view(done@),
            ),
        decreases entries.len() - i,
    {
        assert(all[i as int] == (entries@[i as int].0@, entries@[i as int].1@));
        assert(expected[i as int] == (fields@[i as int].0@, fields@[i as int].1@));
        let entry = &entries[i];
        let field = &fields[i];
        let named = match &entry.0 {
            Value::String(key) => *key == field.0,
            _ => false,
        };
        if !named {
            return Err(Error::ShapeMismatch);
        }
        let v = match deserialize(&entry.1, &field.1, c) {
            Err(e) => {
                return Err(e);
            },
            Ok(v) => v,
        };
        let ghost before = fields_view(done@);
        let ghost pair = (field.0@, v@);
        done.push((field.0.clone(), v));
        assert(fields_view(done@) =~= before.push(pair));
        i += 1;
    }
    Ok(done)
}

/// Whether `v` is a document already: scalars, sequences, maps and tags, and
/// nothing that only a typed value has.
pub open spec fn is_plain(v: ValueView) -> bool
    decreases v,
{
    match v {
        ValueView::Sequence(items) => forall|i: int|
            0 <= i < items.len() ==> is_plain(#[trigger] items[i]),
        ValueView::Mapping(entries) => forall|i: int|
            0 <= i < entries.len() ==> is_plain((#[trigger] entries[i]).0) && is_plain(
                entries[i].1,
            ),
        ValueView::Tagged(_, value) => is_plain(*value),
        ValueView::Struct(_) => false,
        ValueView::Present(_) => false,
        ValueView::UnitVariant(_) => false,
        ValueView::NewtypeVariant(_, _) => false,
        ValueView::TupleVariant(_, _) => false,
        ValueView::StructVariant(_, _) => false,
        _ => true,
    }
}

/// Whether `v` is written as a null: it is one, or an optional that holds
/// one. Such an optional reads back as absent.
pub open spec fn null_like(v: ValueView) -> bool
    decreases v,
{
    match v {
        ValueView::Null => true,
        ValueView::Present(value) => null_like(*value),
        _ => false,
    }
}

/// The name of the variant that `v` is, if it is one.
pub open spec fn variant_name(v: ValueView) -> Option<Seq<char>> {
    match v {
        ValueView::UnitVariant(name) => Some(name),
        ValueView::NewtypeVariant(name, _) => Some(name),
        ValueView::TupleVariant(name, _) => Some(name),
        ValueView::StructVariant(name, _) => Some(name),
        _ => None,
    }
}

/// Whether the typed value `v` is of the shape `shape`:
/// - anything that is a document already is of the shape that takes
///   anything; a scalar is of the shape of its kind;
/// - an optional is absent, or holds a value of its shape that is not
///   written as a null;
/// - a sequence, a tuple, a map and a struct are of their shape part by
///   part;
/// - a variant is of the shape of an enum that has it, by its name, with a
///   payload of the form and the shape that the enum gives it.
pub open spec fn conforms(v: ValueView, shape: ShapeView) -> bool
    decreases shape, 1nat,
{
    match shape {
        ShapeView::Any => is_plain(v),
        ShapeView::Unit => v is Null,
        ShapeView::Bool => v is Bool,
        ShapeView::I64 => v is I64,
        ShapeView::U64 => v is U64,
        ShapeView::Float => v is Float,
        ShapeView::String => v is String,
        ShapeView::Optional(inner) => v is Null || (v matches ValueView::Present(value)
            && conforms(*value, *inner) && !null_like(*value)),
        ShapeView::Sequence(item) => v matches ValueView::Sequence(items) && forall|i: int|
            0 <= i < items.len() ==> conforms(#[trigger] items[i], *item),
        ShapeView::Tuple(shapes) => v matches ValueView::Sequence(items) && conforms_positions(
            items,
            shapes,
        ),
        ShapeView::Mapping(key, value) => v matches ValueView::Mapping(entries) && forall|i: int|
            0 <= i < entries.len() ==> conforms((#[trigger] entries[i]).0, *key) && conforms(
                entries[i].1,
                *value,
            ),
        ShapeView::Struct(fields) => v matches ValueView::Struct(fs) && conforms_fields(fs, fields),
        ShapeView::Enum(variants) => match variant_name(v) {
            Some(name) => match find_variant(variants, name, 0) {
                Some(i) => 0 <= i < variants.len() && conforms_payload(v, variants[i].1),
                None => false,
            },
            None => false,
        },
    }
}

/// Whether the items are of the shapes, position by position.
pub open spec fn conforms_positions(items: Seq<ValueView>, shapes: Seq<ShapeView>) -> bool
    decreases shapes, 0nat,
{
    items.len() == shapes.len() && forall|i: int|
        0 <= i < shapes.len() ==> conforms(items[i], #[trigger] shapes[i])
}

/// Whether the fields have the names and are of the shapes, one by one.
pub open spec fn conforms_fields(
    fs: Seq<(Seq<char>, ValueView)>,
    fields: Seq<(Seq<char>, ShapeView)>,
) -> bool
    decreases fields, 0nat,
{
    fs.len() == fields.len() && forall|i: int|
        0 <= i < fields.len() ==> fs[i].0 == (#[trigger] fields[i]).0 && conforms(
            fs[i].1,
            fields[i].1,
        )
}

/// Whether the variant `v` carries what `payload` says.
pub open spec fn conforms_payload(v: ValueView, payload: PayloadView) -> bool
    decreases payload, 1nat,
{
    match payload {
        PayloadView::Unit => v is UnitVariant,
        PayloadView::Newtype(shape) => v matches ValueView::NewtypeVariant(_, value) && conforms(
            *value,
            *shape,
        ),
        PayloadView::Tuple(shapes) => v matches ValueView::TupleVariant(_, items)
            && conforms_positions(items, shapes),
        PayloadView::Struct(fields) => v matches ValueView::StructVariant(_, fs)
            && conforms_fields(fs, fields),
    }
}

/// Where a singleton map is expected, a map of no entry or of several
/// entries is a mismatch, whatever the variants of the enum are.
pub proof fn lemma_singleton_map_has_one_key(
    entries: Seq<(ValueView, ValueView)>,
    variants: Seq<(Seq<char>, PayloadView)>,
    c: Convention,
)
    requires
        c != Convention::Tagged,
        entries.len() != 1,
    ensures
        decode(ValueView::Mapping(entries), ShapeView::Enum(variants), c) == Err::<
            ValueView,
            Error,
        >(Error::ShapeMismatch),
{
}

/// A value that is a document already is its own document.
pub proof fn lemma_plain_is_document(v: ValueView, c: Convention)
    requires
        is_plain(v),
    ensures
        document(v, c) == v,
    decreases v,
{
    match v {
        ValueView::Sequence(items) => {
            assert forall|i: int| 0 <= i < items.len() implies document_items(items, c.below())[i]
                == items[i] by {
                lemma_plain_is_document(items[i], c.below());
            }
            assert(document_items(items, c.below()) =~= items);
        },
        ValueView::Mapping(entries) => {
            assert forall|i: int| 0 <= i < entries.len() implies document_entries(
                entries,
                c.below(),
            )[i] == entries[i] by {
                lemma_plain_is_document(entries[i].0, c.below());
                lemma_plain_is_document(entries[i].1, c.below());
            }
            assert(document_entries(entries, c.below()) =~= entries);
        },
        ValueView::Tagged(_, value) => {
            lemma_plain_is_document(*value, c.below());
        },
        _ => {},
    }
}

/// The document of a value is a null exactly when the value is written as
/// one.
pub proof fn lemma_null_document(v: ValueView, c: Convention)
    ensures
        document(v, c) is Null <==> null_like(v),
    decreases v,
{
    match v {
        ValueView::Present(value) => {
            lemma_null_document(*value, c);
        },
        _ => {},
    }
}

/// Reading back what was written gives the value again: a typed value of
/// the shape that the reader expects, written as a document under any of
/// the conventions and read under the same, is read as itself. This holds
/// of all four shapes of variants, of optionals, and of enums within
/// sequences, tuples, maps, structs and optionals.
pub proof fn lemma_round_trip(v: ValueView, shape: ShapeView, c: Convention)
    requires
        conforms(v, shape),
    ensures
        decode(document(v, c), shape, c) == Ok::<ValueView, Error>(v),
    decreases shape, 1nat, 0nat,
{
    match shape {
        ShapeView::Any => {
            lemma_plain_is_document(v, c);
        },
        ShapeView::Unit => {},
        ShapeView::Bool => {},
        ShapeView::I64 => {},
        ShapeView::U64 => {},
        ShapeView::Float => {},
        ShapeView::String => {},
        ShapeView::Optional(inner) => {
            if let ValueView::Present(value) = v {
                lemma_null_document(*value, c);
                lemma_round_trip(*value, *inner, c);
            }
        },
        ShapeView::Sequence(item) => {
            let items = v->Sequence_0;
            lemma_round_trip_items(items, *item, c.below(), 0, Seq::empty());
            assert(Seq::<ValueView>::empty() + items.subrange(0, items.len() as int) =~= items);
        },
        ShapeView::Tuple(shapes) => {
            let items = v->Sequence_0;
            lemma_round_trip_tuple(items, shapes, c.below(), 0, Seq::empty());
            assert(Seq::<ValueView>::empty() + items.subrange(0, items.len() as int) =~= items);
        },
        ShapeView::Mapping(key, value) => {
            let entries = v->Mapping_0;
            lemma_round_trip_entries(entries, shape, c.below(), 0, Seq::empty());
            assert(Seq::<(ValueView, ValueView)>::empty() + entries.subrange(
                0,
                entries.len() as int,
            ) =~= entries);
        },
        ShapeView::Struct(fields) => {
            let fs = v->Struct_0;
            lemma_round_trip_fields(fs, fields, c.below(), 0, Seq::empty());
            assert(Seq::<(Seq<char>, ValueView)>::empty() + fs.subrange(0, fs.len() as int)
                =~= fs);
        },
        ShapeView::Enum(variants) => {
            let name = variant_name(v).unwrap();
            let i = find_variant(variants, name, 0).unwrap();
            lemma_round_trip_variant(v, variants[i].1, c);
        },
    }
}

/// The payload of a variant reads back as it was written.
pub proof fn lemma_round_trip_variant(v: ValueView, payload: PayloadView, c: Convention)
    requires
        conforms_payload(v, payload),
    ensures
        named(document(v, c), c) matches Some((name, body)) && name == variant_name(v).unwrap()
            && decode_variant(name, body, payload, c.below()) == Ok::<ValueView, Error>(v),
    decreases payload, 1nat, 0nat,
{
    match payload {
        PayloadView::Unit => {},
        PayloadView::Newtype(shape) => {
            let value = v->NewtypeVariant_1;
            lemma_round_trip(*value, *shape, c.below());
        },
        PayloadView::Tuple(shapes) => {
            let items = v->TupleVariant_1;
            lemma_round_trip_tuple(items, shapes, c.below(), 0, Seq::empty());
            assert(Seq::<ValueView>::empty() + items.subrange(0, items.len() as int) =~= items);
        },
        PayloadView::Struct(fields) => {
            let fs = v->StructVariant_1;
            lemma_round_trip_fields(fs, fields, c.below(), 0, Seq::empty());
            assert(Seq::<(Seq<char>, ValueView)>::empty() + fs.subrange(0, fs.len() as int)
                =~= fs);
        },
    }
}

/// The items of a sequence read back as they were written.
pub proof fn lemma_round_trip_items(
    items: Seq<ValueView>,
    shape: ShapeView,
    c: Convention,
    from: int,
    done: Seq<ValueView>,
)
    requires
        0 <= from <= items.len(),
        forall|i: int| 0 <= i < items.len() ==> conforms(#[trigger] items[i], shape),
    ensures
        decode_items(document_items(items, c), shape, c, from, done) == Ok::<
            Seq<ValueView>,
            Error,
        >(done + items.subrange(from, items.len() as int)),
    decreases shape, 2nat, items.len() - from,
{
    if from < items.len() {
        lemma_round_trip(items[from], shape, c);
        lemma_round_trip_items(items, shape, c, from + 1, done.push(items[from]));
        assert(done.push(items[from]) + items.subrange(from + 1, items.len() as int) =~= done
            + items.subrange(from, items.len() as int));
    } else {
        assert(done + items.subrange(from, items.len() as int) =~= done);
    }
}

/// The items of a tuple read back as they were written.
pub proof fn lemma_round_trip_tuple(
    items: Seq<ValueView>,
    shapes: Seq<ShapeView>,
    c: Convention,
    from: int,
    done: Seq<ValueView>,
)
    requires
        0 <= from <= items.len(),
        conforms_positions(items, shapes),
    ensures
        decode_tuple(document_items(items, c), shapes, c, from, done) == Ok::<
            Seq<ValueView>,
            Error,
        >(done + items.subrange(from, items.len() as int)),
    decreases shapes, 0nat, shapes.len() - from,
{
    if from < items.len() {
        lemma_round_trip(items[from], shapes[from], c);
        lemma_round_trip_tuple(items, shapes, c, from + 1, done.push(items[from]));
        assert(done.push(items[from]) + items.subrange(from + 1, items.len() as int) =~= done
            + items.subrange(from, items.len() as int));
    } else {
        assert(done + items.subrange(from, items.len() as int) =~= done);
    }
}

/// The entries of a map read back as they were written.
pub proof fn lemma_round_trip_entries(
    entries: Seq<(ValueView, ValueView)>,
    shape: ShapeView,
    c: Convention,
    from: int,
    done: Seq<(ValueView, ValueView)>,
)
    requires
        0 <= from <= entries.len(),
        shape matches ShapeView::Mapping(key, value) && forall|i: int|
            0 <= i < entries.len() ==> conforms((#[trigger] entries[i]).0, *key) && conforms(
                entries[i].1,
                *value,
            ),
    ensures
        decode_entries(document_entries(entries, c), shape, c, from, done) == Ok::<
            Seq<(ValueView, ValueView)>,
            Error,
        >(done + entries.subrange(from, entries.len() as int)),
    decreases shape, 0nat, entries.len() - from,
{
    if from < entries.len() {
        let entry = entries[from];
        lemma_round_trip(entry.0, *shape->Mapping_0, c);
        lemma_round_trip(entry.1, *shape->Mapping_1, c);
        lemma_round_trip_entries(entries, shape, c, from + 1, done.push(entry));
        assert(done.push(entry) + entries.subrange(from + 1, entries.len() as int) =~= done
            + entries.subrange(from, entries.len() as int));
    } else {
        assert(done + entries.subrange(from, entries.len() as int) =~= done);
    }
}

/// The fields of a struct read back as they were written.
pub proof fn lemma_round_trip_fields(
    fs: Seq<(Seq<char>, ValueView)>,
    fields: Seq<(Seq<char>, ShapeView)>,
    c: Convention,
    from: int,
    done: Seq<(Seq<char>, ValueView)>,
)
    requires
        0 <= from <= fs.len(),
        conforms_fields(fs, fields),
    ensures
        decode_fields(document_fields(fs, c), fields, c, from, done) == Ok::<
            Seq<(Seq<char>, ValueView)>,
            Error,
        >(done + fs.subrange(from, fs.len() as int)),
    decreases fields, 0nat, fields.len() - from,
{
    if from < fs.len() {
        let field = fs[from];
        assert(fields[from].0 == field.0);
        lemma_round_trip(field.1, fields[from].1, c);
        lemma_round_trip_fields(fs, fields, c, from + 1, done.push(field));
        assert(done.push((fields[from].0, field.1)) == done.push(field));
        assert(done.push(field) + fs.subrange(from + 1, fs.len() as int) =~= done + fs.subrange(
            from,
            fs.len() as int,
        ));
    } else {
        assert(done + fs.subrange(from, fs.len() as int) =~= done);
    }
}

} // verus!
