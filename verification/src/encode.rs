//! How a whole value is encoded: the walk over a [`Value`] that makes the
//! calls of the encoder, and what that walk emits.
use vstd::prelude::*;
use crate::error::Error;
use crate::event::{Event, EventView, events_view};
use crate::number::{Number, NumberView};
use crate::ser::{MaybeTag, MaybeTagView, Serializer, SerializerView, State, StateView, double_text};
use crate::text::decimal;
use crate::value::{Value, ValueView, items_view, entries_view, fields_view};

verus! {

/// The larger of two numbers.
pub open spec fn larger(a: nat, b: nat) -> nat {
    if a >= b {
        a
    } else {
        b
    }
}

/// How deep a value nests: one for a scalar, one more than its deepest part
/// for anything that has parts.
pub open spec fn nesting(v: ValueView) -> nat
    decreases v, 0nat,
{
    match v {
        ValueView::Sequence(items) => 1 + items_nesting(items, 0),
        ValueView::TupleVariant(_, items) => 1 + items_nesting(items, 0),
        ValueView::Mapping(entries) => 1 + entries_nesting(entries, 0),
        ValueView::Struct(fields) => 1 + fields_nesting(fields, 0),
        ValueView::StructVariant(_, fields) => 1 + fields_nesting(fields, 0),
        ValueView::Tagged(_, value) => 1 + nesting(*value),
        ValueView::Present(value) => 1 + nesting(*value),
        ValueView::NewtypeVariant(_, value) => 1 + nesting(*value),
        _ => 1,
    }
}

/// The deepest nesting among `items[from..]`.
pub open spec fn items_nesting(items: Seq<ValueView>, from: int) -> nat
    decreases items, items.len() - from,
{
    if 0 <= from < items.len() {
        larger(nesting(items[from]), items_nesting(items, from + 1))
    } else {
        0
    }
}

/// The deepest nesting among the keys and values of `entries[from..]`.
pub open spec fn entries_nesting(entries: Seq<(ValueView, ValueView)>, from: int) -> nat
    decreases entries, entries.len() - from,
{
    if 0 <= from < entries.len() {
        larger(
            larger(nesting(entries[from].0), nesting(entries[from].1)),
            entries_nesting(entries, from + 1),
        )
    } else {
        0
    }
}

/// The deepest nesting among the values of `fields[from..]`.
pub open spec fn fields_nesting(fields: Seq<(Seq<char>, ValueView)>, from: int) -> nat
    decreases fields, fields.len() - from,
{
    if 0 <= from < fields.len() {
        larger(nesting(fields[from].1), fields_nesting(fields, from + 1))
    } else {
        0
    }
}

/// The number of entries that a map of `n` entries declares when it
/// begins: `n`, where a machine can count it.
pub open spec fn declared(n: nat) -> Option<usize> {
    if n <= usize::MAX {
        Some(n as usize)
    } else {
        None
    }
}

/// The encoder after it has taken the value `v`, or the failure that stops
/// the encoding.
/// - A scalar goes out as one scalar event: `null`, `true` or `false`, the
///   decimal form of an integer, the text of a float, all plain; a
///   character between single quotes; a string in the style that its text
///   asks for. Raw bytes have no form: they fail.
/// - A sequence goes out between its start and its end, item by item. A
///   struct goes out as a mapping, each field as its name and its value.
/// - A map goes out entry by entry, as [`SerializerView::serialize_map`]
///   begins and [`SerializerView::end_map`] ends it.
/// - A tagged value is a map of one entry whose key is the tag.
/// - An optional that is present goes out as what it holds.
/// - A unit variant goes out as [`SerializerView::serialize_unit_variant`]
///   says. Every other variant makes its name the waiting tag, and fails
///   where a tag waits already; then its payload goes out: the value, a
///   sequence of the values, or a mapping of the fields.
pub open spec fn encode(s: SerializerView, v: ValueView) -> Result<SerializerView, Error>
    decreases v, 0nat,
{
    match v {
        ValueView::Null => Ok(s.emit_plain("null"@)),
        ValueView::Bool(b) => Ok(
            s.emit_plain(
                if b {
                    "true"@
                } else {
                    "false"@
                },
            ),
        ),
        ValueView::I64(i) => Ok(s.emit_plain(decimal(i as int))),
        ValueView::U64(u) => Ok(s.emit_plain(decimal(u as int))),
        ValueView::I128(i) => Ok(s.emit_plain(decimal(i as int))),
        ValueView::U128(u) => Ok(s.emit_plain(decimal(u as int))),
        ValueView::Char(c) => Ok(s.emit_scalar(None, seq![c], crate::scalar::ScalarStyle::SingleQuoted)),
        ValueView::Bytes(_) => Err(Error::UnsupportedConstruct),
        ValueView::Float(bits, text) => Ok(s.emit_plain(double_text(bits, text))),
        ValueView::String(text) => Ok(s.serialize_str(text)),
        ValueView::Sequence(items) => match encode_items(s.emit_sequence_start(), items, 0) {
            Ok(s) => Ok(s.emit_sequence_end()),
            Err(e) => Err(e),
        },
        ValueView::Mapping(entries) => match encode_entries(
            s.serialize_map(declared(entries.len())),
            entries,
            0,
        ) {
            Ok(s) => Ok(s.end_map()),
            Err(e) => Err(e),
        },
        ValueView::Struct(fields) => match encode_fields(s.emit_mapping_start(), fields, 0) {
            Ok(s) => Ok(s.emit_mapping_end()),
            Err(e) => Err(e),
        },
        ValueView::Tagged(tag, value) => match s.serialize_map(Some(1usize)).collect_str(
            MaybeTagView::Tag(tag),
        ) {
            Ok(s) => match encode(s, *value) {
                Ok(s) => Ok(s.with_state(StateView::AlreadyTagged).end_map()),
                Err(e) => Err(e),
            },
            Err(e) => Err(e),
        },
        ValueView::Present(value) => encode(s, *value),
        ValueView::UnitVariant(name) => s.serialize_unit_variant(name),
        ValueView::NewtypeVariant(name, value) => match s.found_tag(name) {
            Ok(s) => encode(s, *value),
            Err(e) => Err(e),
        },
        ValueView::TupleVariant(name, items) => match s.found_tag(name) {
            Ok(s) => match encode_items(s.emit_sequence_start(), items, 0) {
                Ok(s) => Ok(s.emit_sequence_end()),
                Err(e) => Err(e),
            },
            Err(e) => Err(e),
        },
        ValueView::StructVariant(name, fields) => match s.found_tag(name) {
            Ok(s) => match encode_fields(s.emit_mapping_start(), fields, 0) {
                Ok(s) => Ok(s.emit_mapping_end()),
                Err(e) => Err(e),
            },
            Err(e) => Err(e),
        },
    }
}

/// The encoder after it has taken `items[from..]`, one after the other.
pub open spec fn encode_items(s: SerializerView, items: Seq<ValueView>, from: int) -> Result<
    SerializerView,
    Error,
>
    decreases items, items.len() - from,
{
    if 0 <= from < items.len() {
        match encode(s, items[from]) {
            Ok(s) => encode_items(s, items, from + 1),
            Err(e) => Err(e),
        }
    } else {
        Ok(s)
    }
}

/// The encoder after it has taken one entry of a map: the key, then the
/// value. Where the key left a tag waiting, the value went out under it, and
/// the entry is marked as tagged.
pub open spec fn encode_entry(s: SerializerView, entry: (ValueView, ValueView)) -> Result<
    SerializerView,
    Error,
>
    decreases entry, 1nat,
{
    match encode(s, entry.0) {
        Ok(s1) => match encode(s1, entry.1) {
            Ok(s2) => Ok(
                if s1.state is FoundTag {
                    s2.with_state(StateView::AlreadyTagged)
                } else {
                    s2
                },
            ),
            Err(e) => Err(e),
        },
        Err(e) => Err(e),
    }
}

/// The encoder after it has taken `entries[from..]`, one after the other.
pub open spec fn encode_entries(
    s: SerializerView,
    entries: Seq<(ValueView, ValueView)>,
    from: int,
) -> Result<SerializerView, Error>
    decreases entries, entries.len() - from,
{
    if 0 <= from < entries.len() {
        match encode_entry(s, entries[from]) {
            Ok(s) => encode_entries(s, entries, from + 1),
            Err(e) => Err(e),
        }
    } else {
        Ok(s)
    }
}

/// The encoder after it has taken one field of a struct: the name as a
/// string, then the value.
pub open spec fn encode_field(s: SerializerView, field: (Seq<char>, ValueView)) -> Result<
    SerializerView,
    Error,
>
    decreases field, 1nat,
{
    encode(s.serialize_str(field.0), field.1)
}

/// The encoder after it has taken `fields[from..]`, one after the other.
pub open spec fn encode_fields(
    s: SerializerView,
    fields: Seq<(Seq<char>, ValueView)>,
    from: int,
) -> Result<SerializerView, Error>
    decreases fields, fields.len() - from,
{
    if 0 <= from < fields.len() {
        match encode_field(s, fields[from]) {
            Ok(s) => encode_fields(s, fields, from + 1),
            Err(e) => Err(e),
        }
    } else {
        Ok(s)
    }
}

/// A bound on how many values are open in `s` or will be once what it
/// holds back has gone out: the open values, one for a mapping whose start
/// is held back, and one for a mapping that will get no end of its own.
pub open spec fn load(s: SerializerView) -> nat {
    s.depth + (if s.state is CheckForTag {
        1nat
    } else {
        0nat
    }) + (if s.state is AlreadyTagged {
        1nat
    } else {
        0nat
    })
}

/// What holds of an encoder that, from `s`, has come to `t` by taking whole
/// values: no start of a mapping is held back any more and no tag waits, the
/// load has not grown, and the setting is the same.
pub open spec fn settled(s: SerializerView, t: SerializerView) -> bool {
    &&& !(t.state is CheckForTag)
    &&& !(t.state is FoundTag)
    &&& t.state is AlreadyTagged ==> s.state is AlreadyTagged
    &&& load(t) <= load(s)
    &&& t.tag_unit_variants == s.tag_unit_variants
}

/// Whether the count of open values of `s` can take a value that nests
/// `nesting` deep: each level opens at most two values.
pub open spec fn fits(s: SerializerView, nesting: nat) -> bool {
    load(s) + 2 * nesting <= usize::MAX
}

impl Value {
    /// Encodes the value: makes the calls by which it describes itself, part
    /// by part. See [`encode`] for what goes out and when the encoding
    /// fails.
    #[verifier::loop_isolation(false)]
    pub fn serialize(&self, serializer: &mut Serializer) -> (r: Result<(), Error>)
        requires
            fits(old(serializer)@, nesting(self@)),
        ensures
            match encode(old(serializer)@, self@) {
                Ok(s) => r is Ok && final(serializer)@ == s && settled(old(serializer)@, s),
                Err(e) => r == Err::<(), Error>(e),
            },
        decreases 4 * nesting(self@),
    {
        match self {
            Value::Null => {
                proof {
                    lemma_scalar_settles(serializer@, None, "null"@, crate::scalar::ScalarStyle::Plain);
                }
                serializer.serialize_unit()
            },
            Value::Bool(b) => {
                proof {
                    lemma_scalar_settles(
                        serializer@,
                        None,
                        if *b {
                            "true"@
                        } else {
                            "false"@
                        },
                        crate::scalar::ScalarStyle::Plain,
                    );
                }
                serializer.serialize_bool(*b)
            },
            Value::I64(i) => {
                proof {
                    lemma_scalar_settles(
                        serializer@,
                        None,
                        decimal(*i as int),
                        crate::scalar::ScalarStyle::Plain,
                    );
                }
                serializer.serialize_i64(*i)
            },
            Value::U64(u) => {
                proof {
                    lemma_scalar_settles(
                        serializer@,
                        None,
                        decimal(*u as int),
                        crate::scalar::ScalarStyle::Plain,
                    );
                }
                serializer.serialize_u64(*u)
            },
            Value::I128(i) => {
                proof {
                    lemma_scalar_settles(
                        serializer@,
                        None,
                        decimal(*i as int),
                        crate::scalar::ScalarStyle::Plain,
                    );
                }
                serializer.serialize_i128(*i)
            },
            Value::U128(u) => {
                proof {
                    lemma_scalar_settles(
                        serializer@,
                        None,
                        decimal(*u as int),
                        crate::scalar::ScalarStyle::Plain,
                    );
                }
                serializer.serialize_u128(*u)
            },
            Value::Char(c) => {
                proof {
                    lemma_scalar_settles(
                        serializer@,
                        None,
                        seq![*c],
                        crate::scalar::ScalarStyle::SingleQuoted,
                    );
                }
                serializer.serialize_char(*c)
            },
            Value::Bytes(bytes) => serializer.serialize_bytes(bytes.as_slice()),
            Value::Float(bits, text) => {
                proof {
                    lemma_scalar_settles(
                        serializer@,
                        None,
                        double_text(*bits, text@),
                        crate::scalar::ScalarStyle::Plain,
                    );
                }
                serializer.serialize_f64(*bits, text.as_str())
            },
            Value::String(text) => {
                proof {
                    lemma_scalar_settles(
                        serializer@,
                        None,
                        text@,
                        crate::scalar::string_style(text@),
                    );
                }
                serializer.serialize_str(text.as_str())
            },
            Value::Sequence(items) => serializer.sequence(items),
            Value::Mapping(entries) => serializer.mapping(entries),
            Value::Struct(fields) => serializer.structure(fields),
            Value::Tagged(tag, value) => serializer.tagged(tag, value),
            Value::Present(value) => serializer.serialize_some(value),
            Value::UnitVariant(name) => {
                proof {
                    lemma_unit_variant_settles(serializer@, name@);
                }
                serializer.serialize_unit_variant("", 0, name.as_str())
            },
            Value::NewtypeVariant(name, value) => serializer.serialize_newtype_variant(
                "",
                0,
                name.as_str(),
                value,
            ),
            Value::TupleVariant(name, items) => serializer.tuple_variant(name, items),
            Value::StructVariant(name, fields) => serializer.struct_variant(name, fields),
        }
    }
}

/// A scalar settles the encoder.
pub proof fn lemma_scalar_settles(
    s: SerializerView,
    tag: Option<Seq<char>>,
    value: Seq<char>,
    style: crate::scalar::ScalarStyle,
)
    ensures
        settled(s, s.emit_scalar(tag, value, style)),
{
}

/// A unit variant that is encoded settles the encoder.
pub proof fn lemma_unit_variant_settles(s: SerializerView, variant: Seq<char>)
    ensures
        s.serialize_unit_variant(variant) matches Ok(t) ==> settled(s, t),
{
    if !s.tag_unit_variants {
        lemma_scalar_settles(s, None, variant, crate::scalar::string_style(variant));
    } else if s.found_tag(variant) is Ok {
        lemma_scalar_settles(
            s.found_tag(variant).unwrap(),
            None,
            Seq::<char>::empty(),
            crate::scalar::ScalarStyle::Plain,
        );
    }
}

impl Serializer {
    /// A sequence: its start, its items, its end.
    fn sequence(&mut self, items: &Vec<Value>) -> (r: Result<(), Error>)
        requires
            fits(old(self)@, 1 + items_nesting(items_view(items@), 0)),
        ensures
            match encode(old(self)@, ValueView::Sequence(items_view(items@))) {
                Ok(s) => r is Ok && final(self)@ == s && settled(old(self)@, s),
                Err(e) => r == Err::<(), Error>(e),
            },
        decreases 4 * items_nesting(items_view(items@), 0) + 3,
    {
        let _ = self.serialize_seq(Some(items.len()));
        match self.serialize_elements(items) {
            Err(e) => Err(e),
            Ok(()) => self.end_sequence(),
        }
    }

    /// A tuple variant: its tag, then its values as a sequence.
    fn tuple_variant(&mut self, name: &String, items: &Vec<Value>) -> (r: Result<(), Error>)
        requires
            fits(old(self)@, 1 + items_nesting(items_view(items@), 0)),
        ensures
            match encode(old(self)@, ValueView::TupleVariant(name@, items_view(items@))) {
                Ok(s) => r is Ok && final(self)@ == s && settled(old(self)@, s),
                Err(e) => r == Err::<(), Error>(e),
            },
        decreases 4 * items_nesting(items_view(items@), 0) + 3,
    {
        match self.serialize_tuple_variant("", 0, name.as_str(), items.len()) {
            Err(e) => Err(e),
            Ok(()) => match self.serialize_elements(items) {
                Err(e) => Err(e),
                Ok(()) => self.end_sequence(),
            },
        }
    }

    /// A map: its start, its entries, its end.
    fn mapping(&mut self, entries: &Vec<(Value, Value)>) -> (r: Result<(), Error>)
        requires
            fits(old(self)@, 1 + entries_nesting(entries_view(entries@), 0)),
        ensures
            match encode(old(self)@, ValueView::Mapping(entries_view(entries@))) {
                Ok(s) => r is Ok && final(self)@ == s && settled(old(self)@, s),
                Err(e) => r == Err::<(), Error>(e),
            },
        decreases 4 * entries_nesting(entries_view(entries@), 0) + 3,
    {
        let _ = self.serialize_map(Some(entries.len()));
        match self.serialize_entries(entries) {
            Err(e) => Err(e),
            Ok(()) => self.end_map(),
        }
    }

    /// A struct: a mapping of its fields.
    fn structure(&mut self, fields: &Vec<(String, Value)>) -> (r: Result<(), Error>)
        requires
            fits(old(self)@, 1 + fields_nesting(fields_view(fields@), 0)),
        ensures
            match encode(old(self)@, ValueView::Struct(fields_view(fields@))) {
                Ok(s) => r is Ok && final(self)@ == s && settled(old(self)@, s),
                Err(e) => r == Err::<(), Error>(e),
            },
        decreases 4 * fields_nesting(fields_view(fields@), 0) + 3,
    {
        let _ = self.serialize_struct("", fields.len());
        match self.serialize_fields(fields) {
            Err(e) => Err(e),
            Ok(()) => self.end_struct(),
        }
    }

    /// A struct variant: its tag, then its fields as a mapping.
    fn struct_variant(&mut self, name: &String, fields: &Vec<(String, Value)>) -> (r: Result<
        (),
        Error,
    >)
        requires
            fits(old(self)@, 1 + fields_nesting(fields_view(fields@), 0)),
        ensures
            match encode(old(self)@, ValueView::StructVariant(name@, fields_view(fields@))) {
                Ok(s) => r is Ok && final(self)@ == s && settled(old(self)@, s),
                Err(e) => r == Err::<(), Error>(e),
            },
        decreases 4 * fields_nesting(fields_view(fields@), 0) + 3,
    {
        match self.serialize_struct_variant("", 0, name.as_str(), fields.len()) {
            Err(e) => Err(e),
            Ok(()) => match self.serialize_fields(fields) {
                Err(e) => Err(e),
                Ok(()) => self.end_struct(),
            },
        }
    }

    /// A tagged value: a map of one entry whose key is the tag.
    fn tagged(&mut self, tag: &String, value: &Value) -> (r: Result<(), Error>)
        requires
            fits(old(self)@, 1 + nesting(value@)),
        ensures
            match encode(old(self)@, ValueView::Tagged(tag@, Box::new(value@))) {
                Ok(s) => r is Ok && final(self)@ == s && settled(old(self)@, s),
                Err(e) => r == Err::<(), Error>(e),
            },
        decreases 4 * nesting(value@) + 3,
    {
        let _ = self.serialize_map(Some(1));
        match self.collect_str(MaybeTag::Tag(tag.clone())) {
            Err(e) => Err(e),
            Ok(()) => match value.serialize(self) {
                Err(e) => Err(e),
                Ok(()) => {
                    self.state = State::AlreadyTagged;
                    self.end_map()
                },
            },
        }
    }

    /// An optional that is present: what it holds.
    pub fn serialize_some(&mut self, value: &Value) -> (r: Result<(), Error>)
        requires
            fits(old(self)@, nesting(value@)),
        ensures
            match encode(old(self)@, value@) {
                Ok(s) => r is Ok && final(self)@ == s && settled(old(self)@, s),
                Err(e) => r == Err::<(), Error>(e),
            },
        decreases 4 * nesting(value@) + 1,
    {
        value.serialize(self)
    }

    /// A newtype struct: what it holds.
    pub fn serialize_newtype_struct(&mut self, name: &str, value: &Value) -> (r: Result<(), Error>)
        requires
            fits(old(self)@, nesting(value@)),
        ensures
            match encode(old(self)@, value@) {
                Ok(s) => r is Ok && final(self)@ == s && settled(old(self)@, s),
                Err(e) => r == Err::<(), Error>(e),
            },
        decreases 4 * nesting(value@) + 1,
    {
        value.serialize(self)
    }

    /// A newtype variant: what it holds, under the name of the variant as
    /// its tag. It fails where a tag waits already, leaving the encoder as
    /// it was, and where encoding the value fails.
    pub fn serialize_newtype_variant(
        &mut self,
        name: &str,
        variant_index: u32,
        variant: &str,
        value: &Value,
    ) -> (r: Result<(), Error>)
        requires
            fits(old(self)@, nesting(value@)),
        ensures
            match old(self)@.found_tag(variant@) {
                Ok(t) => match encode(t, value@) {
                    Ok(s) => r is Ok && final(self)@ == s && settled(old(self)@, s),
                    Err(e) => r == Err::<(), Error>(e),
                },
                Err(e) => r == Err::<(), Error>(e) && *final(self) == *old(self),
            },
        decreases 4 * nesting(value@) + 1,
    {
        if let State::FoundTag(_) = self.state {
            return Err(Error::NestedEnumTag);
        }
        self.state = State::FoundTag(variant.to_owned());
        value.serialize(self)
    }

    /// One item of a sequence, a tuple, a tuple struct or a tuple variant.
    pub fn serialize_element(&mut self, value: &Value) -> (r: Result<(), Error>)
        requires
            fits(old(self)@, nesting(value@)),
        ensures
            match encode(old(self)@, value@) {
                Ok(s) => r is Ok && final(self)@ == s && settled(old(self)@, s),
                Err(e) => r == Err::<(), Error>(e),
            },
        decreases 4 * nesting(value@) + 1,
    {
        value.serialize(self)
    }

    /// The items of a sequence, one after the other.
    #[verifier::loop_isolation(false)]
    pub fn serialize_elements(&mut self, items: &Vec<Value>) -> (r: Result<(), Error>)
        requires
            fits(old(self)@, items_nesting(items_view(items@), 0)),
        ensures
            match encode_items(old(self)@, items_view(items@), 0) {
                Ok(s) => r is Ok && final(self)@ == s && (items.len() > 0 ==> settled(
                    old(self)@,
                    s,
                )),
                Err(e) => r == Err::<(), Error>(e),
            },
        decreases 4 * items_nesting(items_view(items@), 0) + 2,
    {
        let ghost all = items_view(items@);
        let mut i: usize = 0;
        while i < items.len()
            invariant
                i <= items.len(),
                encode_items(old(self)@, all, 0) == encode_items(self@, all, i as int),
                items_nesting(all, i as int) <= items_nesting(all, 0),
                fits(self@, items_nesting(all, 0)),
                i > 0 ==> settled(old(self)@, self@),
                i == 0 ==> self@ == old(self)@,
            decreases items.len() - i,
        {
            assert(all[i as int] == items@[i as int]@);
            match self.serialize_element(&items[i]) {
                Err(e) => {
                    return Err(e);
                },
                Ok(()) => {},
            }
            i += 1;
        }
        Ok(())
    }

    /// The key of an entry of a map. A start that was held back goes out
    /// before it.
    pub fn serialize_key(&mut self, key: &Value) -> (r: Result<(), Error>)
        requires
            fits(old(self)@, nesting(key@)),
        ensures
            match encode(old(self)@.flush_mapping_start(), key@) {
                Ok(s) => r is Ok && final(self)@ == s && settled(old(self)@, s),
                Err(e) => r == Err::<(), Error>(e),
            },
        decreases 4 * nesting(key@) + 1,
    {
        let _ = self.flush_mapping_start();
        key.serialize(self)
    }

    /// The value of an entry of a map.
    pub fn serialize_value(&mut self, value: &Value) -> (r: Result<(), Error>)
        requires
            fits(old(self)@, nesting(value@)),
        ensures
            match encode(old(self)@, value@) {
                Ok(s) => r is Ok && final(self)@ == s && settled(old(self)@, s),
                Err(e) => r == Err::<(), Error>(e),
            },
        decreases 4 * nesting(value@) + 1,
    {
        value.serialize(self)
    }

    /// One entry of a map: the key, then the value. Where the key left a tag
    /// waiting, the value goes out under it and the entry is marked as
    /// tagged.
    pub fn serialize_entry(&mut self, key: &Value, value: &Value) -> (r: Result<(), Error>)
        requires
            fits(old(self)@, larger(nesting(key@), nesting(value@))),
        ensures
            match encode_entry(old(self)@, (key@, value@)) {
                Ok(s) => r is Ok && final(self)@ == s && settled(old(self)@, s),
                Err(e) => r == Err::<(), Error>(e),
            },
        decreases 4 * larger(nesting(key@), nesting(value@)) + 1,
    {
        match key.serialize(self) {
            Err(e) => {
                return Err(e);
            },
            Ok(()) => {},
        }
        let tagged = match self.state {
            State::FoundTag(_) => true,
            _ => false,
        };
        match value.serialize(self) {
            Err(e) => {
                return Err(e);
            },
            Ok(()) => {},
        }
        if tagged {
            self.state = State::AlreadyTagged;
        }
        Ok(())
    }

    /// The entries of a map, one after the other.
    #[verifier::loop_isolation(false)]
    pub fn serialize_entries(&mut self, entries: &Vec<(Value, Value)>) -> (r: Result<(), Error>)
        requires
            fits(old(self)@, entries_nesting(entries_view(entries@), 0)),
        ensures
            match encode_entries(old(self)@, entries_view(entries@), 0) {
                Ok(s) => r is Ok && final(self)@ == s && (entries.len() > 0 ==> settled(
                    old(self)@,
                    s,
                )),
                Err(e) => r == Err::<(), Error>(e),
            },
        decreases 4 * entries_nesting(entries_view(entries@), 0) + 2,
    {
        let ghost all = entries_view(entries@);
        let mut i: usize = 0;
        while i < entries.len()
            invariant
                i <= entries.len(),
                encode_entries(old(self)@, all, 0) == encode_entries(self@, all, i as int),
                entries_nesting(all, i as int) <= entries_nesting(all, 0),
                fits(self@, entries_nesting(all, 0)),
                i > 0 ==> settled(old(self)@, self@),
                i == 0 ==> self@ == old(self)@,
            decreases entries.len() - i,
        {
            assert(all[i as int] == (entries@[i as int].0@, entries@[i as int].1@));
            let entry = &entries[i];
            match self.serialize_entry(&entry.0, &entry.1) {
                Err(e) => {
                    return Err(e);
                },
                Ok(()) => {},
            }
            i += 1;
        }
        Ok(())
    }

    /// One field of a struct or of a struct variant: its name as a string,
    /// then its value.
    pub fn serialize_field(&mut self, key: &str, value: &Value) -> (r: Result<(), Error>)
        requires
            fits(old(self)@, nesting(value@)),
        ensures
            match encode_field(old(self)@, (key@, value@)) {
                Ok(s) => r is Ok && final(self)@ == s && settled(old(self)@, s),
                Err(e) => r == Err::<(), Error>(e),
            },
        decreases 4 * nesting(value@) + 1,
    {
        let _ = self.serialize_str(key);
        value.serialize(self)
    }

    /// The fields of a struct, one after the other.
    #[verifier::loop_isolation(false)]
    pub fn serialize_fields(&mut self, fields: &Vec<(String, Value)>) -> (r: Result<(), Error>)
        requires
            fits(old(self)@, fields_nesting(fields_view(fields@), 0)),
        ensures
            match encode_fields(old(self)@, fields_view(fields@), 0) {
                Ok(s) => r is Ok && final(self)@ == s && (fields.len() > 0 ==> settled(
                    old(self)@,
                    s,
                )),
                Err(e) => r == Err::<(), Error>(e),
            },
        decreases 4 * fields_nesting(fields_view(fields@), 0) + 2,
    {
        let ghost all = fields_view(fields@);
        let mut i: usize = 0;
        while i < fields.len()
            invariant
                i <= fields.len(),
                encode_fields(old(self)@, all, 0) == encode_fields(self@, all, i as int),
                fields_nesting(all, i as int) <= fields_nesting(all, 0),
                fits(self@, fields_nesting(all, 0)),
                i > 0 ==> settled(old(self)@, self@),
                i == 0 ==> self@ == old(self)@,
            decreases fields.len() - i,
        {
            assert(all[i as int] == (fields@[i as int].0@, fields@[i as int].1@));
            let field = &fields[i];
            match self.serialize_field(field.0.as_str(), &field.1) {
                Err(e) => {
                    return Err(e);
                },
                Ok(()) => {},
            }
            i += 1;
        }
        Ok(())
    }
}

/// The encoder as it is built with the default setting: the stream has
/// begun, no value is open and nothing waits.
pub open spec fn fresh() -> SerializerView {
    SerializerView {
        tag_unit_variants: false,
        depth: 0,
        state: StateView::NothingInParticular,
        events: seq![EventView::StreamStart],
    }
}

/// Encodes `value` as a stream of its own, under the default setting: the
/// start of the stream, what goes out for the value, and the end of the
/// stream. See [`encode`] for when the encoding fails.
pub fn to_events(value: &Value) -> (r: Result<Vec<Event>, Error>)
    requires
        2 * nesting(value@) <= usize::MAX,
    ensures
        match encode(fresh(), value@) {
            Ok(s) => r matches Ok(events) && events_view(events@) == s.events.push(
                EventView::StreamEnd,
            ),
            Err(e) => r matches Err(x) && x == e,
        },
{
    let mut serializer = Serializer::new();
    match value.serialize(&mut serializer) {
        Err(e) => Err(e),
        Ok(()) => serializer.into_inner(),
    }
}

/// The text of a number: its own where it has one, the shortest decimal
/// text that the caller brings where it is a finite float.
pub open spec fn number_text(n: NumberView, shortest: Seq<char>) -> Seq<char> {
    match n.text() {
        Some(text) => text,
        None => shortest,
    }
}

impl Number {
    /// Encodes the number: a plain scalar of its text. `shortest` is the
    /// shortest decimal text that reads back as the number; it is used where
    /// the number is a finite float.
    pub fn serialize(&self, serializer: &mut Serializer, shortest: &str) -> (r: Result<(), Error>)
        requires
            old(serializer)@.has_room(),
        ensures
            r is Ok,
            final(serializer)@ == old(serializer)@.emit_plain(number_text(self@, shortest@)),
    {
        match self.as_u64() {
            Some(u) => serializer.serialize_u64(u),
            None => match self.as_i64() {
                Some(i) => serializer.serialize_i64(i),
                None => match self.as_bits() {
                    Some(bits) => serializer.serialize_f64(bits, shortest),
                    None => serializer.serialize_unit(),
                },
            },
        }
    }

    /// The number as a value: an unsigned integer, a signed integer or a
    /// float. `shortest` is the decimal text that goes with a float.
    pub fn deserialize_any(&self, shortest: &str) -> (r: Value)
        ensures
            r@ == (match self@ {
                NumberView::Integer(i) => if i >= 0 {
                    ValueView::U64(i as u64)
                } else {
                    ValueView::I64(i as i64)
                },
                NumberView::Float(bits) => ValueView::Float(bits, shortest@),
            }),
    {
        match self.as_u64() {
            Some(u) => Value::U64(u),
            None => match self.as_i64() {
                Some(i) => Value::I64(i),
                None => match self.as_bits() {
                    Some(bits) => Value::Float(bits, shortest.to_owned()),
                    None => Value::Null,
                },
            },
        }
    }
}

/// `n`, or `usize::MAX` where `n` is larger.
pub open spec fn capped(n: nat) -> usize {
    if n <= usize::MAX {
        n as usize
    } else {
        usize::MAX
    }
}

/// One more than `n`, or `usize::MAX` where that is larger.
fn one_more(n: usize) -> (r: usize)
    ensures
        forall|m: nat| n == capped(m) ==> r == #[trigger] capped(1 + m),
{
    if n < usize::MAX {
        n + 1
    } else {
        n
    }
}

/// Computes [`nesting`], up to `usize::MAX`.
pub fn nesting_of(value: &Value) -> (r: usize)
    ensures
        r == capped(nesting(value@)),
    decreases value, 0nat,
{
    match value {
        Value::Sequence(items) => one_more(items_nesting_of(items)),
        Value::TupleVariant(_, items) => one_more(items_nesting_of(items)),
        Value::Mapping(entries) => one_more(entries_nesting_of(entries)),
        Value::Struct(fields) => one_more(fields_nesting_of(fields)),
        Value::StructVariant(_, fields) => one_more(fields_nesting_of(fields)),
        Value::Tagged(_, inner) => one_more(nesting_of(inner)),
        Value::Present(inner) => one_more(nesting_of(inner)),
        Value::NewtypeVariant(_, inner) => one_more(nesting_of(inner)),
        _ => 1,
    }
}

/// Computes [`items_nesting`], up to `usize::MAX`.
#[verifier::loop_isolation(false)]
pub fn items_nesting_of(items: &Vec<Value>) -> (r: usize)
    ensures
        r == capped(items_nesting(items_view(items@), 0)),
    decreases items, 1nat,
{
    let ghost all = items_view(items@);
    let mut deepest: usize = 0;
    let mut i: usize = items.len();
    while i > 0
        invariant
            i <= items.len(),
            deepest == capped(items_nesting(all, i as int)),
        decreases i,
    {
        i -= 1;
        assert(all[i as int] == items@[i as int]@);
        let n = nesting_of(&items[i]);
        if n > deepest {
            deepest = n;
        }
    }
    deepest
}

/// Computes [`entries_nesting`], up to `usize::MAX`.
#[verifier::loop_isolation(false)]
pub fn entries_nesting_of(entries: &Vec<(Value, Value)>) -> (r: usize)
    ensures
        r == capped(entries_nesting(entries_view(entries@), 0)),
    decreases entries, 1nat,
{
    let ghost all = entries_view(entries@);
    let mut deepest: usize = 0;
    let mut i: usize = entries.len();
    while i > 0
        invariant
            i <= entries.len(),
            deepest == capped(entries_nesting(all, i as int)),
        decreases i,
    {
        i -= 1;
        assert(all[i as int] == (entries@[i as int].0@, entries@[i as int].1@));
        let entry = &entries[i];
        let k = nesting_of(&entry.0);
        let v = nesting_of(&entry.1);
        if k > deepest {
            deepest = k;
        }
        if v > deepest {
            deepest = v;
        }
    }
    deepest
}

/// Computes [`fields_nesting`], up to `usize::MAX`.
#[verifier::loop_isolation(false)]
pub fn fields_nesting_of(fields: &Vec<(String, Value)>) -> (r: usize)
    ensures
        r == capped(fields_nesting(fields_view(fields@), 0)),
    decreases fields, 1nat,
{
    let ghost all = fields_view(fields@);
    let mut deepest: usize = 0;
    let mut i: usize = fields.len();
    while i > 0
        invariant
            i <= fields.len(),
            deepest == capped(fields_nesting(all, i as int)),
        decreases i,
    {
        i -= 1;
        assert(all[i as int] == (fields@[i as int].0@, fields@[i as int].1@));
        let n = nesting_of(&fields[i].1);
        if n > deepest {
            deepest = n;
        }
    }
    deepest
}

impl Serializer {
    /// Whether the count of open values can take `value`: see [`fits`].
    /// Encoding a value asks for this.
    pub fn can_take(&self, value: &Value) -> (b: bool)
        ensures
            b == fits(self@, nesting(value@)),
    {
        let n = nesting_of(value);
        let held: usize = match self.state {
            State::CheckForTag => 1,
            State::AlreadyTagged => 1,
            _ => 0,
        };
        if n > usize::MAX / 2 {
            return false;
        }
        let room = usize::MAX - 2 * n;
        self.depth <= room && held <= room - self.depth
    }
}

} // verus!
