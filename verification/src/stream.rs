//! What the encoder emits for a value, told directly: the events of the
//! value as a tree, in one document.
use vstd::prelude::*;
use crate::encode::{encode, encode_entries, encode_entry, encode_field, encode_fields, encode_items, fresh};
use crate::document::{Convention, document, document_items, document_entries, document_fields};
use crate::error::Error;
use crate::event::EventView;
use crate::scalar::{ScalarStyle, string_style};
use crate::ser::{SerializerView, StateView, double_text, with_bang};
use crate::text::decimal;
use crate::value::ValueView;
use crate::with::{rewritten, lemma_rewritten_document};

verus! {

/// Whether `v` is a scalar that an encoder can write: all scalars but raw
/// bytes.
pub open spec fn is_scalar(v: ValueView) -> bool {
    v is Null || v is Bool || v is I64 || v is U64 || v is I128 || v is U128 || v is Char
        || v is Float || v is String
}

/// The event of the scalar `v` under the tag `tag`.
pub open spec fn scalar_event(v: ValueView, tag: Option<Seq<char>>) -> EventView {
    match v {
        ValueView::Bool(b) => EventView::Scalar {
            tag,
            value: if b {
                "true"@
            } else {
                "false"@
            },
            style: ScalarStyle::Plain,
        },
        ValueView::I64(i) => EventView::Scalar {
            tag,
            value: decimal(i as int),
            style: ScalarStyle::Plain,
        },
        ValueView::U64(u) => EventView::Scalar {
            tag,
            value: decimal(u as int),
            style: ScalarStyle::Plain,
        },
        ValueView::I128(i) => EventView::Scalar {
            tag,
            value: decimal(i as int),
            style: ScalarStyle::Plain,
        },
        ValueView::U128(u) => EventView::Scalar {
            tag,
            value: decimal(u as int),
            style: ScalarStyle::Plain,
        },
        ValueView::Char(c) => EventView::Scalar {
            tag,
            value: seq![c],
            style: ScalarStyle::SingleQuoted,
        },
        ValueView::Float(bits, text) => EventView::Scalar {
            tag,
            value: double_text(bits, text),
            style: ScalarStyle::Plain,
        },
        ValueView::String(text) => EventView::Scalar { tag, value: text, style: string_style(text) },
        _ => EventView::Scalar { tag, value: "null"@, style: ScalarStyle::Plain },
    }
}

/// Whether encoding `v` begins by claiming a tag.
pub open spec fn claims_tag(v: ValueView) -> bool
    decreases v,
{
    match v {
        ValueView::Tagged(_, _) => true,
        ValueView::NewtypeVariant(_, _) => true,
        ValueView::TupleVariant(_, _) => true,
        ValueView::StructVariant(_, _) => true,
        ValueView::Present(value) => claims_tag(*value),
        _ => false,
    }
}

/// Whether `v` is a value whose encoding is its events as a tree: it holds
/// no raw bytes, the keys of its maps are scalars, and nothing in it claims
/// a tag right under a tag.
pub open spec fn regular(v: ValueView) -> bool
    decreases v,
{
    match v {
        ValueView::Bytes(_) => false,
        ValueView::Sequence(items) => forall|i: int|
            0 <= i < items.len() ==> regular(#[trigger] items[i]),
        ValueView::TupleVariant(_, items) => forall|i: int|
            0 <= i < items.len() ==> regular(#[trigger] items[i]),
        ValueView::Mapping(entries) => forall|i: int|
            0 <= i < entries.len() ==> is_scalar((#[trigger] entries[i]).0) && regular(
                entries[i].1,
            ),
        ValueView::Struct(fields) => forall|i: int|
            0 <= i < fields.len() ==> regular((#[trigger] fields[i]).1),
        ValueView::StructVariant(_, fields) => forall|i: int|
            0 <= i < fields.len() ==> regular((#[trigger] fields[i]).1),
        ValueView::Tagged(_, value) => !claims_tag(*value) && regular(*value),
        ValueView::NewtypeVariant(_, value) => !claims_tag(*value) && regular(*value),
        ValueView::Present(value) => regular(*value),
        _ => true,
    }
}

/// The events of `v` as a tree, its first one under the tag `tag`:
/// - a scalar is one scalar event; a unit variant is its name, a string;
/// - a sequence and a tuple are their items between the start and the end of
///   a sequence; a map and a struct are their keys and values, in turn,
///   between the start and the end of a mapping;
/// - a tagged value and a variant with a payload are the events of what
///   they hold, under their name as a tag;
/// - an optional that is present is the events of what it holds.
pub open spec fn events_of(v: ValueView, tag: Option<Seq<char>>) -> Seq<EventView>
    decreases v, 0nat,
{
    match v {
        ValueView::Bytes(_) => Seq::empty(),
        ValueView::Sequence(items) => seq![EventView::SequenceStart { tag }] + items_events(
            items,
            0,
        ) + seq![EventView::SequenceEnd],
        ValueView::Mapping(entries) => seq![EventView::MappingStart { tag }] + entries_events(
            entries,
            0,
        ) + seq![EventView::MappingEnd],
        ValueView::Struct(fields) => seq![EventView::MappingStart { tag }] + fields_events(
            fields,
            0,
        ) + seq![EventView::MappingEnd],
        ValueView::Tagged(name, value) => events_of(*value, Some(with_bang(name))),
        ValueView::Present(value) => events_of(*value, tag),
        ValueView::UnitVariant(name) => seq![scalar_event(ValueView::String(name), tag)],
        ValueView::NewtypeVariant(name, value) => events_of(*value, Some(with_bang(name))),
        ValueView::TupleVariant(name, items) => seq![
            EventView::SequenceStart { tag: Some(with_bang(name)) },
        ] + items_events(items, 0) + seq![EventView::SequenceEnd],
        ValueView::StructVariant(name, fields) => seq![
            EventView::MappingStart { tag: Some(with_bang(name)) },
        ] + fields_events(fields, 0) + seq![EventView::MappingEnd],
        _ => seq![scalar_event(v, tag)],
    }
}

/// The events of `items[from..]`, one after the other.
pub open spec fn items_events(items: Seq<ValueView>, from: int) -> Seq<EventView>
    decreases items, items.len() - from,
{
    if 0 <= from < items.len() {
        events_of(items[from], None) + items_events(items, from + 1)
    } else {
        Seq::empty()
    }
}

/// The events of `entries[from..]`: each key, then its value.
pub open spec fn entries_events(entries: Seq<(ValueView, ValueView)>, from: int) -> Seq<EventView>
    decreases entries, entries.len() - from,
{
    if 0 <= from < entries.len() {
        events_of(entries[from].0, None) + events_of(entries[from].1, None) + entries_events(
            entries,
            from + 1,
        )
    } else {
        Seq::empty()
    }
}

/// The events of `fields[from..]`: each name, a string, then its value.
pub open spec fn fields_events(fields: Seq<(Seq<char>, ValueView)>, from: int) -> Seq<EventView>
    decreases fields, fields.len() - from,
{
    if 0 <= from < fields.len() {
        seq![scalar_event(ValueView::String(fields[from].0), None)] + events_of(
            fields[from].1,
            None,
        ) + fields_events(fields, from + 1)
    } else {
        Seq::empty()
    }
}

/// `events` as one document where `top` holds, as they are otherwise.
pub open spec fn bracket(top: bool, events: Seq<EventView>) -> Seq<EventView> {
    if top {
        seq![EventView::DocumentStart] + events + seq![EventView::DocumentEnd]
    } else {
        events
    }
}

/// The encoder `s` after the events `events` of one whole value: they are a
/// document of their own where no value was open, nothing waits any more,
/// and as many values are open as before.
pub open spec fn after(s: SerializerView, events: Seq<EventView>) -> SerializerView {
    SerializerView {
        tag_unit_variants: s.tag_unit_variants,
        depth: s.depth,
        state: StateView::NothingInParticular,
        events: s.events + bracket(s.depth == 0, events),
    }
}

/// Whether the encoder `s` is about to take a whole value `v` in good
/// order: unit variants are written as strings, and either nothing waits, or
/// a tag waits and `v` claims none.
pub open spec fn ready(s: SerializerView, v: ValueView) -> bool {
    &&& !s.tag_unit_variants
    &&& s.state is NothingInParticular || (s.state is FoundTag && !claims_tag(v))
}

/// Whether a state is one in which a whole value is taken in good order:
/// nothing waits, or a tag waits.
pub open spec fn calm(s: SerializerView) -> bool {
    s.state is NothingInParticular || s.state is FoundTag
}

/// A scalar goes out as its one event, under the tag that waits.
pub proof fn lemma_scalar_goes_out(
    s: SerializerView,
    value: Seq<char>,
    style: ScalarStyle,
)
    requires
        calm(s),
    ensures
        s.emit_scalar(None, value, style) == after(
            s,
            seq![EventView::Scalar { tag: s.pending_tag(), value, style }],
        ),
{
    let event = EventView::Scalar { tag: s.pending_tag(), value, style };
    let out = s.emit_scalar(None, value, style);
    let expected = after(s, seq![event]);
    if s.depth == 0 {
        assert(out.events =~= expected.events);
    } else {
        assert(out.events =~= expected.events);
    }
}

/// The start of a collection goes out under the tag that waits, in a
/// document that opens where no value is open; one more value is open then,
/// and nothing waits.
pub proof fn lemma_start_goes_out(s: SerializerView)
    requires
        calm(s),
    ensures
        s.emit_sequence_start() == (SerializerView {
            tag_unit_variants: s.tag_unit_variants,
            depth: s.depth + 1,
            state: StateView::NothingInParticular,
            events: s.events + (if s.depth == 0 {
                seq![EventView::DocumentStart]
            } else {
                Seq::<EventView>::empty()
            }) + seq![EventView::SequenceStart { tag: s.pending_tag() }],
        }),
        s.emit_mapping_start() == (SerializerView {
            tag_unit_variants: s.tag_unit_variants,
            depth: s.depth + 1,
            state: StateView::NothingInParticular,
            events: s.events + (if s.depth == 0 {
                seq![EventView::DocumentStart]
            } else {
                Seq::<EventView>::empty()
            }) + seq![EventView::MappingStart { tag: s.pending_tag() }],
        }),
{
    assert(s.emit_sequence_start().events =~= s.events + (if s.depth == 0 {
        seq![EventView::DocumentStart]
    } else {
        Seq::<EventView>::empty()
    }) + seq![EventView::SequenceStart { tag: s.pending_tag() }]);
    assert(s.emit_mapping_start().events =~= s.events + (if s.depth == 0 {
        seq![EventView::DocumentStart]
    } else {
        Seq::<EventView>::empty()
    }) + seq![EventView::MappingStart { tag: s.pending_tag() }]);
}

/// The whole of a collection: after its start, its parts `inner` and its
/// end, the encoder is where the events of the collection as a tree bring
/// it.
pub proof fn lemma_collection_goes_out(
    s: SerializerView,
    start: EventView,
    inner: Seq<EventView>,
    end: EventView,
    opened: SerializerView,
)
    requires
        opened == (SerializerView {
            tag_unit_variants: s.tag_unit_variants,
            depth: s.depth + 1,
            state: StateView::NothingInParticular,
            events: s.events + (if s.depth == 0 {
                seq![EventView::DocumentStart]
            } else {
                Seq::<EventView>::empty()
            }) + seq![start],
        }),
    ensures
        (SerializerView { events: opened.events + inner, ..opened }).emit(end).value_end() == after(
            s,
            seq![start] + inner + seq![end],
        ),
{
    let filled = SerializerView { events: opened.events + inner, ..opened };
    let out = filled.emit(end).value_end();
    let expected = after(s, seq![start] + inner + seq![end]);
    assert(out.events =~= expected.events);
}

/// A scalar is regular, claims no tag, and is one event.
pub proof fn lemma_scalar_is_regular(v: ValueView, tag: Option<Seq<char>>)
    requires
        is_scalar(v),
    ensures
        regular(v),
        !claims_tag(v),
        events_of(v, tag) == seq![scalar_event(v, tag)],
{
}

/// A scalar that comes while the start of a mapping is held back, or while
/// a second tag is guarded against, goes out as if the mapping had started
/// before: what is held back goes out first.
pub proof fn lemma_scalar_flushes(
    s: SerializerView,
    tag: Option<Seq<char>>,
    value: Seq<char>,
    style: ScalarStyle,
)
    ensures
        s.emit_scalar(tag, value, style) == s.flush_mapping_start().emit_scalar(tag, value, style),
{
}

/// What goes out for a scalar value.
pub proof fn lemma_encode_scalar(s: SerializerView, v: ValueView)
    requires
        is_scalar(v),
    ensures
        encode(s, v) == Ok::<SerializerView, Error>(
            s.emit_scalar(
                None,
                scalar_event(v, None)->Scalar_value,
                scalar_event(v, None)->Scalar_style,
            ),
        ),
{
}

/// The law of the stream: a regular value that the encoder takes in good
/// order goes out as its events as a tree, under the tag that waits; as one
/// document of its own where no value was open. Afterwards nothing waits and
/// as many values are open as before. So every start has its one end, and a
/// whole value is one document.
pub proof fn lemma_encode_regular(s: SerializerView, v: ValueView)
    requires
        regular(v),
        ready(s, v),
    ensures
        encode(s, v) == Ok::<SerializerView, Error>(after(s, events_of(v, s.pending_tag()))),
    decreases v, 0nat,
{
    let tag = s.pending_tag();
    if is_scalar(v) {
        lemma_encode_scalar(s, v);
        lemma_scalar_goes_out(
            s,
            scalar_event(v, None)->Scalar_value,
            scalar_event(v, None)->Scalar_style,
        );
        return ;
    }
    match v {
        ValueView::Sequence(items) => {
            let opened = s.emit_sequence_start();
            lemma_start_goes_out(s);
            lemma_items_go_out(opened, items, 0);
            lemma_collection_goes_out(
                s,
                EventView::SequenceStart { tag },
                items_events(items, 0),
                EventView::SequenceEnd,
                opened,
            );
        },
        ValueView::Mapping(entries) => {
            lemma_mapping_goes_out(s, entries);
        },
        ValueView::Struct(fields) => {
            let opened = s.emit_mapping_start();
            lemma_start_goes_out(s);
            lemma_fields_go_out(opened, fields, 0);
            lemma_collection_goes_out(
                s,
                EventView::MappingStart { tag },
                fields_events(fields, 0),
                EventView::MappingEnd,
                opened,
            );
        },
        ValueView::Tagged(name, value) => {
            let tagged = s.with_state(StateView::FoundTag(name));
            lemma_encode_regular(tagged, *value);
        },
        ValueView::Present(value) => {
            lemma_encode_regular(s, *value);
        },
        ValueView::UnitVariant(name) => {
            lemma_scalar_goes_out(s, name, string_style(name));
        },
        ValueView::NewtypeVariant(name, value) => {
            let tagged = s.with_state(StateView::FoundTag(name));
            lemma_encode_regular(tagged, *value);
        },
        ValueView::TupleVariant(name, items) => {
            let tagged = s.with_state(StateView::FoundTag(name));
            let opened = tagged.emit_sequence_start();
            lemma_start_goes_out(tagged);
            lemma_items_go_out(opened, items, 0);
            lemma_collection_goes_out(
                s,
                EventView::SequenceStart { tag: Some(with_bang(name)) },
                items_events(items, 0),
                EventView::SequenceEnd,
                opened,
            );
        },
        ValueView::StructVariant(name, fields) => {
            let tagged = s.with_state(StateView::FoundTag(name));
            let opened = tagged.emit_mapping_start();
            lemma_start_goes_out(tagged);
            lemma_fields_go_out(opened, fields, 0);
            lemma_collection_goes_out(
                s,
                EventView::MappingStart { tag: Some(with_bang(name)) },
                fields_events(fields, 0),
                EventView::MappingEnd,
                opened,
            );
        },
        _ => {},
    }
}

/// Whether `s` is within a collection, with nothing waiting.
pub open spec fn within(s: SerializerView) -> bool {
    s.depth >= 1 && s.state is NothingInParticular && !s.tag_unit_variants
}

/// The encoder `s` with `events` more.
pub open spec fn with_more(s: SerializerView, events: Seq<EventView>) -> SerializerView {
    SerializerView { events: s.events + events, ..s }
}

/// The items of a sequence go out one after the other.
pub proof fn lemma_items_go_out(s: SerializerView, items: Seq<ValueView>, from: int)
    requires
        0 <= from <= items.len(),
        within(s),
        forall|i: int| 0 <= i < items.len() ==> regular(#[trigger] items[i]),
    ensures
        encode_items(s, items, from) == Ok::<SerializerView, Error>(
            with_more(s, items_events(items, from)),
        ),
    decreases items, items.len() - from,
{
    if from < items.len() {
        lemma_encode_regular(s, items[from]);
        let next = after(s, events_of(items[from], None));
        lemma_items_go_out(next, items, from + 1);
        assert(with_more(next, items_events(items, from + 1)).events =~= with_more(
            s,
            items_events(items, from),
        ).events);
    } else {
        assert(with_more(s, items_events(items, from)).events =~= s.events);
    }
}

/// One entry of a map goes out: its key, a scalar, then its value.
pub proof fn lemma_entry_goes_out(s: SerializerView, entry: (ValueView, ValueView))
    requires
        within(s),
        is_scalar(entry.0),
        regular(entry.1),
    ensures
        encode_entry(s, entry) == Ok::<SerializerView, Error>(
            with_more(s, events_of(entry.0, None) + events_of(entry.1, None)),
        ),
    decreases entry, 1nat,
{
    lemma_scalar_is_regular(entry.0, None);
    lemma_encode_regular(s, entry.0);
    let keyed = after(s, events_of(entry.0, None));
    lemma_encode_regular(keyed, entry.1);
    let done = after(keyed, events_of(entry.1, None));
    assert(done.events =~= with_more(
        s,
        events_of(entry.0, None) + events_of(entry.1, None),
    ).events);
}

/// The entries of a map go out one after the other.
pub proof fn lemma_entries_go_out(
    s: SerializerView,
    entries: Seq<(ValueView, ValueView)>,
    from: int,
)
    requires
        0 <= from <= entries.len(),
        within(s),
        forall|i: int|
            0 <= i < entries.len() ==> is_scalar((#[trigger] entries[i]).0) && regular(
                entries[i].1,
            ),
    ensures
        encode_entries(s, entries, from) == Ok::<SerializerView, Error>(
            with_more(s, entries_events(entries, from)),
        ),
    decreases entries, entries.len() - from,
{
    if from < entries.len() {
        lemma_entry_goes_out(s, entries[from]);
        let next = with_more(
            s,
            events_of(entries[from].0, None) + events_of(entries[from].1, None),
        );
        lemma_entries_go_out(next, entries, from + 1);
        assert(with_more(next, entries_events(entries, from + 1)).events =~= with_more(
            s,
            entries_events(entries, from),
        ).events);
    } else {
        assert(with_more(s, entries_events(entries, from)).events =~= s.events);
    }
}

/// The fields of a struct go out one after the other: each name, a string,
/// then its value.
pub proof fn lemma_fields_go_out(
    s: SerializerView,
    fields: Seq<(Seq<char>, ValueView)>,
    from: int,
)
    requires
        0 <= from <= fields.len(),
        within(s),
        forall|i: int| 0 <= i < fields.len() ==> regular((#[trigger] fields[i]).1),
    ensures
        encode_fields(s, fields, from) == Ok::<SerializerView, Error>(
            with_more(s, fields_events(fields, from)),
        ),
    decreases fields, fields.len() - from,
{
    if from < fields.len() {
        let field = fields[from];
        lemma_scalar_goes_out(s, field.0, string_style(field.0));
        let named = after(s, seq![scalar_event(ValueView::String(field.0), None)]);
        assert(s.serialize_str(field.0) == named);
        lemma_encode_regular(named, field.1);
        let next = after(named, events_of(field.1, None));
        assert(encode_field(s, field) == Ok::<SerializerView, Error>(next));
        lemma_fields_go_out(next, fields, from + 1);
        assert(fields_events(fields, from) =~= seq![
            scalar_event(ValueView::String(field.0), None),
        ] + events_of(field.1, None) + fields_events(fields, from + 1));
        assert(with_more(next, fields_events(fields, from + 1)).events =~= with_more(
            s,
            fields_events(fields, from),
        ).events);
    } else {
        assert(with_more(s, fields_events(fields, from)).events =~= s.events);
    }
}

/// A map goes out as its entries between the start and the end of a
/// mapping, whether its start was held back for its key or not.
pub proof fn lemma_mapping_goes_out(s: SerializerView, entries: Seq<(ValueView, ValueView)>)
    requires
        regular(ValueView::Mapping(entries)),
        ready(s, ValueView::Mapping(entries)),
    ensures
        encode(s, ValueView::Mapping(entries)) == Ok::<SerializerView, Error>(
            after(s, events_of(ValueView::Mapping(entries), s.pending_tag())),
        ),
    decreases entries, entries.len() + 1,
{
    let tag = s.pending_tag();
    let opened = s.emit_mapping_start();
    lemma_start_goes_out(s);
    if entries.len() != 1 {
        assert(s.serialize_map(crate::encode::declared(entries.len())) == opened);
        lemma_entries_go_out(opened, entries, 0);
        let filled = with_more(opened, entries_events(entries, 0));
        assert(filled.end_map() == filled.emit(EventView::MappingEnd).value_end());
        lemma_collection_goes_out(
            s,
            EventView::MappingStart { tag },
            entries_events(entries, 0),
            EventView::MappingEnd,
            opened,
        );
    } else {
        let begun = s.serialize_map(crate::encode::declared(entries.len()));
        let entry = entries[0];
        lemma_scalar_is_regular(entry.0, None);
        lemma_encode_scalar(begun, entry.0);
        lemma_encode_scalar(opened, entry.0);
        lemma_scalar_flushes(
            begun,
            None,
            scalar_event(entry.0, None)->Scalar_value,
            scalar_event(entry.0, None)->Scalar_style,
        );
        assert(begun.flush_mapping_start() == opened);
        assert(encode(begun, entry.0) == encode(opened, entry.0));
        lemma_entry_goes_out(opened, entry);
        assert(encode_entry(begun, entry) == encode_entry(opened, entry));
        let filled = with_more(opened, events_of(entry.0, None) + events_of(entry.1, None));
        assert(encode_entries(begun, entries, 0) == (match encode_entry(begun, entries[0]) {
            Ok(t) => encode_entries(t, entries, 1),
            Err(e) => Err(e),
        }));
        assert(encode_entries(filled, entries, 1) == Ok::<SerializerView, Error>(filled));
        assert(entries_events(entries, 0) =~= events_of(entry.0, None) + events_of(entry.1, None))
            by {
            assert(entries_events(entries, 1) =~= Seq::<EventView>::empty());
        }
        assert(filled.end_map() == filled.emit(EventView::MappingEnd).value_end());
        lemma_collection_goes_out(
            s,
            EventView::MappingStart { tag },
            entries_events(entries, 0),
            EventView::MappingEnd,
            opened,
        );
    }
}

/// A regular value that is encoded as a stream of its own makes the stream
/// of exactly one document: the start of the stream, the start of the
/// document, the events of the value as a tree, and the end of the document.
pub proof fn lemma_one_document(v: ValueView)
    requires
        regular(v),
    ensures
        encode(fresh(), v) matches Ok(s) && s.depth == 0 && s.state is NothingInParticular
            && s.events == seq![EventView::StreamStart, EventView::DocumentStart] + events_of(
            v,
            None,
        ) + seq![EventView::DocumentEnd],
{
    lemma_encode_regular(fresh(), v);
    let s = after(fresh(), events_of(v, None));
    assert(s.events =~= seq![EventView::StreamStart, EventView::DocumentStart] + events_of(v, None)
        + seq![EventView::DocumentEnd]);
}

/// The events of a value are the events of its document where enums are
/// tagged: a typed value and the document it becomes go out alike.
pub proof fn lemma_events_of_document(v: ValueView, tag: Option<Seq<char>>)
    ensures
        events_of(v, tag) == events_of(document(v, Convention::Tagged), tag),
    decreases v, 0nat,
{
    let t = Convention::Tagged;
    match v {
        ValueView::Sequence(items) => {
            lemma_items_events_of_document(items, 0);
        },
        ValueView::TupleVariant(name, items) => {
            lemma_items_events_of_document(items, 0);
            let payload = ValueView::Sequence(document_items(items, t));
            assert(document(v, t) == ValueView::Tagged(name, Box::new(payload)));
            assert(events_of(document(v, t), tag) == events_of(payload, Some(with_bang(name))));
        },
        ValueView::Mapping(entries) => {
            lemma_entries_events_of_document(entries, 0);
        },
        ValueView::Struct(fields) => {
            lemma_fields_events_of_document(fields, 0);
        },
        ValueView::StructVariant(name, fields) => {
            lemma_fields_events_of_document(fields, 0);
            let payload = ValueView::Mapping(document_fields(fields, t));
            assert(document(v, t) == ValueView::Tagged(name, Box::new(payload)));
            assert(events_of(document(v, t), tag) == events_of(payload, Some(with_bang(name))));
        },
        ValueView::Tagged(name, value) => {
            lemma_events_of_document(*value, Some(with_bang(name)));
        },
        ValueView::Present(value) => {
            lemma_events_of_document(*value, tag);
        },
        ValueView::NewtypeVariant(name, value) => {
            lemma_events_of_document(*value, Some(with_bang(name)));
            assert(document(v, t) == ValueView::Tagged(name, Box::new(document(*value, t))));
        },
        ValueView::UnitVariant(name) => {
            assert(document(v, t) == ValueView::String(name));
        },
        _ => {},
    }
}

/// The events of the items of a sequence are the events of their documents.
pub proof fn lemma_items_events_of_document(items: Seq<ValueView>, from: int)
    requires
        0 <= from <= items.len(),
    ensures
        items_events(items, from) == items_events(
            document_items(items, Convention::Tagged),
            from,
        ),
    decreases items, items.len() - from,
{
    if from < items.len() {
        lemma_events_of_document(items[from], None);
        lemma_items_events_of_document(items, from + 1);
    }
}

/// The events of the entries of a map are the events of their documents.
pub proof fn lemma_entries_events_of_document(entries: Seq<(ValueView, ValueView)>, from: int)
    requires
        0 <= from <= entries.len(),
    ensures
        entries_events(entries, from) == entries_events(
            document_entries(entries, Convention::Tagged),
            from,
        ),
    decreases entries, entries.len() - from,
{
    if from < entries.len() {
        lemma_events_of_document(entries[from].0, None);
        lemma_events_of_document(entries[from].1, None);
        lemma_entries_events_of_document(entries, from + 1);
    }
}

/// The events of the fields of a struct are the events of the entries that
/// they become in a document.
pub proof fn lemma_fields_events_of_document(fields: Seq<(Seq<char>, ValueView)>, from: int)
    requires
        0 <= from <= fields.len(),
    ensures
        fields_events(fields, from) == entries_events(
            document_fields(fields, Convention::Tagged),
            from,
        ),
    decreases fields, fields.len() - from,
{
    if from < fields.len() {
        lemma_events_of_document(fields[from].1, None);
        lemma_fields_events_of_document(fields, from + 1);
        let entries = document_fields(fields, Convention::Tagged);
        assert(entries[from] == (
            ValueView::String(fields[from].0),
            document(fields[from].1, Convention::Tagged),
        ));
        assert(events_of(entries[from].0, None) == seq![
            scalar_event(ValueView::String(fields[from].0), None),
        ]);
    }
}

/// Under every convention the stream of a value is the one document that
/// the value becomes under that convention: what the encoder is handed for
/// the value goes out as the events of that document. A reader who builds
/// the tree of these events has the document that reads back as the value.
pub proof fn lemma_stream_of_document(v: ValueView, c: Convention)
    requires
        regular(rewritten(v, c)),
    ensures
        encode(fresh(), rewritten(v, c)) matches Ok(s) && s.depth == 0
            && s.state is NothingInParticular && s.events == seq![
            EventView::StreamStart,
            EventView::DocumentStart,
        ] + events_of(document(v, c), None) + seq![EventView::DocumentEnd],
{
    lemma_one_document(rewritten(v, c));
    lemma_events_of_document(rewritten(v, c), None);
    lemma_rewritten_document(v, c);
}

} // verus!
