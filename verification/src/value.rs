//! Values as they describe themselves to an encoder: scalars, sequences,
//! mappings, structs and the four shapes of enum variants.
use vstd::prelude::*;

verus! {

/// A value as it describes itself to an encoder.
#[derive(Debug, PartialEq)]
pub enum Value {
    /// Nothing: a unit, or an optional that is absent.
    Null,
    /// A boolean.
    Bool(bool),
    /// A signed integer.
    I64(i64),
    /// An unsigned integer.
    U64(u64),
    /// A signed integer of the widest kind.
    I128(i128),
    /// An unsigned integer of the widest kind.
    U128(u128),
    /// A character.
    Char(char),
    /// Raw bytes. They have no form in a document: encoding them fails.
    Bytes(Vec<u8>),
    /// A binary64 float: its bit pattern, and its shortest decimal text as a
    /// float formatter wrote it. The text is used when the float is finite.
    Float(u64, String),
    /// A string.
    String(String),
    /// A sequence of values: also a tuple or a tuple struct.
    Sequence(Vec<Value>),
    /// A map, entry by entry, in the order in which they are written.
    Mapping(Vec<(Value, Value)>),
    /// A struct, field by field: the name of each field and its value.
    Struct(Vec<(String, Value)>),
    /// A value under a tag.
    Tagged(String, Box<Value>),
    /// An optional that is present.
    Present(Box<Value>),
    /// A variant of an enum that carries nothing.
    UnitVariant(String),
    /// A variant of an enum that carries one value.
    NewtypeVariant(String, Box<Value>),
    /// A variant of an enum that carries a tuple.
    TupleVariant(String, Vec<Value>),
    /// A variant of an enum that carries named fields.
    StructVariant(String, Vec<(String, Value)>),
}

/// What a [`Value`] stands for: the same tree over mathematical sequences.
pub enum ValueView {
    Null,
    Bool(bool),
    I64(i64),
    U64(u64),
    I128(i128),
    U128(u128),
    Char(char),
    Bytes(Seq<u8>),
    Float(u64, Seq<char>),
    String(Seq<char>),
    Sequence(Seq<ValueView>),
    Mapping(Seq<(ValueView, ValueView)>),
    Struct(Seq<(Seq<char>, ValueView)>),
    Tagged(Seq<char>, Box<ValueView>),
    Present(Box<ValueView>),
    UnitVariant(Seq<char>),
    NewtypeVariant(Seq<char>, Box<ValueView>),
    TupleVariant(Seq<char>, Seq<ValueView>),
    StructVariant(Seq<char>, Seq<(Seq<char>, ValueView)>),
}

impl View for Value {
    type V = ValueView;

    open spec fn view(&self) -> ValueView {
        value_view(*self)
    }
}

/// What `v` stands for.
pub open spec fn value_view(v: Value) -> ValueView
    decreases v,
{
    match v {
        Value::Null => ValueView::Null,
        Value::Bool(b) => ValueView::Bool(b),
        Value::I64(i) => ValueView::I64(i),
        Value::U64(u) => ValueView::U64(u),
        Value::I128(i) => ValueView::I128(i),
        Value::U128(u) => ValueView::U128(u),
        Value::Char(c) => ValueView::Char(c),
        Value::Bytes(bytes) => ValueView::Bytes(bytes@),
        Value::Float(b, t) => ValueView::Float(b, t@),
        Value::String(s) => ValueView::String(s@),
        Value::Sequence(items) => ValueView::Sequence(items_view(items@)),
        Value::Mapping(entries) => ValueView::Mapping(entries_view(entries@)),
        Value::Struct(fields) => ValueView::Struct(fields_view(fields@)),
        Value::Tagged(tag, value) => ValueView::Tagged(tag@, Box::new(value_view(*value))),
        Value::Present(value) => ValueView::Present(Box::new(value_view(*value))),
        Value::UnitVariant(name) => ValueView::UnitVariant(name@),
        Value::NewtypeVariant(name, value) => ValueView::NewtypeVariant(
            name@,
            Box::new(value_view(*value)),
        ),
        Value::TupleVariant(name, items) => ValueView::TupleVariant(name@, items_view(items@)),
        Value::StructVariant(name, fields) => ValueView::StructVariant(
            name@,
            fields_view(fields@),
        ),
    }
}

/// The items of a sequence, each by what it stands for.
pub open spec fn items_view(items: Seq<Value>) -> Seq<ValueView>
    decreases items,
{
    Seq::new(
        items.len(),
        |i: int|
            if 0 <= i < items.len() {
                value_view(items[i])
            } else {
                ValueView::Null
            },
    )
}

/// The entries of a map, each key and value by what it stands for.
pub open spec fn entries_view(entries: Seq<(Value, Value)>) -> Seq<(ValueView, ValueView)>
    decreases entries,
{
    Seq::new(
        entries.len(),
        |i: int|
            if 0 <= i < entries.len() {
                (value_view(entries[i].0), value_view(entries[i].1))
            } else {
                (ValueView::Null, ValueView::Null)
            },
    )
}

/// The fields of a struct, each name and value by what it stands for.
pub open spec fn fields_view(fields: Seq<(String, Value)>) -> Seq<(Seq<char>, ValueView)>
    decreases fields,
{
    Seq::new(
        fields.len(),
        |i: int|
            if 0 <= i < fields.len() {
                (fields[i].0@, value_view(fields[i].1))
            } else {
                (Seq::<char>::empty(), ValueView::Null)
            },
    )
}

impl Value {
    /// A copy of the value: the same tree, part by part.
    pub fn duplicate(&self) -> (r: Value)
        ensures
            r@ == self@,
        decreases self,
    {
        match self {
            Value::Null => Value::Null,
            Value::Bool(b) => Value::Bool(*b),
            Value::I64(i) => Value::I64(*i),
            Value::U64(u) => Value::U64(*u),
            Value::I128(i) => Value::I128(*i),
            Value::U128(u) => Value::U128(*u),
            Value::Char(c) => Value::Char(*c),
            Value::Bytes(bytes) => Value::Bytes(duplicate_bytes(bytes)),
            Value::Float(bits, text) => Value::Float(*bits, text.clone()),
            Value::String(text) => Value::String(text.clone()),
            Value::Sequence(items) => Value::Sequence(duplicate_items(items)),
            Value::Mapping(entries) => Value::Mapping(duplicate_entries(entries)),
            Value::Struct(fields) => Value::Struct(duplicate_fields(fields)),
            Value::Tagged(tag, value) => Value::Tagged(tag.clone(), Box::new(value.duplicate())),
            Value::Present(value) => Value::Present(Box::new(value.duplicate())),
            Value::UnitVariant(name) => Value::UnitVariant(name.clone()),
            Value::NewtypeVariant(name, value) => Value::NewtypeVariant(
                name.clone(),
                Box::new(value.duplicate()),
            ),
            Value::TupleVariant(name, items) => Value::TupleVariant(
                name.clone(),
                duplicate_items(items),
            ),
            Value::StructVariant(name, fields) => Value::StructVariant(
                name.clone(),
                duplicate_fields(fields),
            ),
        }
    }
}

/// A copy of a run of bytes.
pub fn duplicate_bytes(bytes: &Vec<u8>) -> (r: Vec<u8>)
    ensures
        r@ == bytes@,
{
    let mut r: Vec<u8> = Vec::new();
    let mut i: usize = 0;
    while i < bytes.len()
        invariant
            i <= bytes.len(),
            r@ == bytes@.take(i as int),
        decreases bytes.len() - i,
    {
        r.push(bytes[i]);
        i += 1;
    }
    r
}

/// A copy of a run of values.
pub fn duplicate_items(items: &Vec<Value>) -> (r: Vec<Value>)
    ensures
        items_view(r@) == items_view(items@),
    decreases items,
{
    let mut r: Vec<Value> = Vec::new();
    let mut i: usize = 0;
    while i < items.len()
        invariant
            i <= items.len(),
            r.len() == i,
            forall|j: int| 0 <= j < i ==> r@[j]@ == items@[j]@,
        decreases items.len() - i,
    {
        r.push(items[i].duplicate());
        i += 1;
    }
    assert(items_view(r@) =~= items_view(items@));
    r
}

/// A copy of the entries of a map.
pub fn duplicate_entries(entries: &Vec<(Value, Value)>) -> (r: Vec<(Value, Value)>)
    ensures
        entries_view(r@) == entries_view(entries@),
    decreases entries,
{
    let mut r: Vec<(Value, Value)> = Vec::new();
    let mut i: usize = 0;
    while i < entries.len()
        invariant
            i <= entries.len(),
            r.len() == i,
            forall|j: int|
                0 <= j < i ==> r@[j].0@ == entries@[j].0@ && r@[j].1@ == entries@[j].1@,
        decreases entries.len() - i,
    {
        let entry = &entries[i];
        r.push((entry.0.duplicate(), entry.1.duplicate()));
        i += 1;
    }
    assert(entries_view(r@) =~= entries_view(entries@));
    r
}

/// A copy of the fields of a struct.
pub fn duplicate_fields(fields: &Vec<(String, Value)>) -> (r: Vec<(String, Value)>)
    ensures
        fields_view(r@) == fields_view(fields@),
    decreases fields,
{
    let mut r: Vec<(String, Value)> = Vec::new();
    let mut i: usize = 0;
    while i < fields.len()
        invariant
            i <= fields.len(),
            r.len() == i,
            forall|j: int|
                0 <= j < i ==> r@[j].0@ == fields@[j].0@ && r@[j].1@ == fields@[j].1@,
        decreases fields.len() - i,
    {
        let field = &fields[i];
        r.push((field.0.clone(), field.1.duplicate()));
        i += 1;
    }
    assert(fields_view(r@) =~= fields_view(fields@));
    r
}

} // verus!
