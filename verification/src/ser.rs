//! The encoder: it takes the calls by which a value describes itself and
//! answers with YAML events, bracketing each top-level value in a document
//! and deciding where a tag attaches.
use vstd::prelude::*;
use vstd::string::StringExecFns;
use crate::error::Error;
use crate::event::{Emitter, Event, EventView, Mapping, Scalar, Sequence, tag_view, events_view};
use crate::scalar::{ScalarStyle, classify, string_style};
use crate::text::{chars_of, decimal, format_signed, format_unsigned};

verus! {

/// Settings fixed when an encoder is built.
#[derive(Copy, Clone, Debug)]
pub struct SerializerConfig {
    /// Whether a unit variant is written as a tag on an empty scalar rather
    /// than as its name.
    pub tag_unit_variants: bool,
}

impl Default for SerializerConfig {
    fn default() -> (r: Self)
        ensures
            !r.tag_unit_variants,
    {
        SerializerConfig { tag_unit_variants: false }
    }
}

/// Whether the one-entry mapping that is being written is a tagged variant.
#[derive(Debug, PartialEq)]
pub enum State {
    /// No tag is pending and no mapping is held back.
    NothingInParticular,
    /// A one-entry mapping has begun and its start is held back: its key may
    /// turn out to be a tag.
    CheckForTag,
    /// A one-entry mapping has begun under a tag, so its key must not be a
    /// second tag.
    CheckForDuplicateTag,
    /// A tag waits for the next scalar or start of a collection.
    FoundTag(String),
    /// The entry of the one-entry mapping went out under its tag: the
    /// mapping has no end of its own.
    AlreadyTagged,
}

/// What a [`State`] stands for.
pub enum StateView {
    NothingInParticular,
    CheckForTag,
    CheckForDuplicateTag,
    FoundTag(Seq<char>),
    AlreadyTagged,
}

impl View for State {
    type V = StateView;

    open spec fn view(&self) -> StateView {
        match self {
            State::NothingInParticular => StateView::NothingInParticular,
            State::CheckForTag => StateView::CheckForTag,
            State::CheckForDuplicateTag => StateView::CheckForDuplicateTag,
            State::FoundTag(tag) => StateView::FoundTag(tag@),
            State::AlreadyTagged => StateView::AlreadyTagged,
        }
    }
}

/// A tag name as a tag: behind one `!`, which is added where the name brings
/// none.
pub open spec fn with_bang(tag: Seq<char>) -> Seq<char> {
    if tag.len() > 0 && tag[0] == '!' {
        tag
    } else {
        seq!['!'] + tag
    }
}

/// What a [`Serializer`] stands for: its setting, how many values are open,
/// its state, and every event it has emitted.
pub struct SerializerView {
    pub tag_unit_variants: bool,
    pub depth: nat,
    pub state: StateView,
    pub events: Seq<EventView>,
}

impl SerializerView {
    /// One more event.
    pub open spec fn emit(self, event: EventView) -> Self {
        SerializerView { events: self.events.push(event), ..self }
    }

    /// In another state.
    pub open spec fn with_state(self, state: StateView) -> Self {
        SerializerView { state, ..self }
    }

    /// A value begins: a document opens first where none is open.
    pub open spec fn value_start(self) -> Self {
        let s = if self.depth == 0 {
            self.emit(EventView::DocumentStart)
        } else {
            self
        };
        SerializerView { depth: s.depth + 1, ..s }
    }

    /// A value ends: the document closes where it was the outermost one.
    pub open spec fn value_end(self) -> Self {
        let depth: nat = if self.depth == 0 {
            0
        } else {
            (self.depth - 1) as nat
        };
        let s = SerializerView { depth, ..self };
        if depth == 0 {
            s.emit(EventView::DocumentEnd)
        } else {
            s
        }
    }

    /// The tag that waits, if one does.
    pub open spec fn pending_tag(self) -> Option<Seq<char>> {
        match self.state {
            StateView::FoundTag(tag) => Some(with_bang(tag)),
            _ => None,
        }
    }

    /// After the waiting tag was taken: nothing in particular where one
    /// waited, the same state otherwise.
    pub open spec fn without_tag(self) -> Self {
        match self.state {
            StateView::FoundTag(_) => self.with_state(StateView::NothingInParticular),
            _ => self,
        }
    }

    /// A mapping starts here and now, under the waiting tag if there is one.
    pub open spec fn open_mapping(self) -> Self {
        let s = self.value_start();
        s.without_tag().emit(EventView::MappingStart { tag: s.pending_tag() })
    }

    /// A start that was held back goes out; a guard against a second tag is
    /// lifted. Every other state stays.
    pub open spec fn flush_mapping_start(self) -> Self {
        match self.state {
            StateView::CheckForTag => self.with_state(StateView::NothingInParticular).open_mapping(),
            StateView::CheckForDuplicateTag => self.with_state(StateView::NothingInParticular),
            _ => self,
        }
    }

    /// A mapping starts.
    pub open spec fn emit_mapping_start(self) -> Self {
        self.flush_mapping_start().open_mapping()
    }

    /// A mapping ends.
    pub open spec fn emit_mapping_end(self) -> Self {
        self.emit(EventView::MappingEnd).value_end()
    }

    /// A sequence starts, under the waiting tag if there is one.
    pub open spec fn emit_sequence_start(self) -> Self {
        let s = self.flush_mapping_start().value_start();
        s.without_tag().emit(EventView::SequenceStart { tag: s.pending_tag() })
    }

    /// A sequence ends.
    pub open spec fn emit_sequence_end(self) -> Self {
        self.emit(EventView::SequenceEnd).value_end()
    }

    /// A scalar goes out, under the waiting tag if there is one and under its
    /// own otherwise. It is a whole value: it begins and ends one.
    pub open spec fn emit_scalar(
        self,
        tag: Option<Seq<char>>,
        value: Seq<char>,
        style: ScalarStyle,
    ) -> Self {
        let s = self.flush_mapping_start();
        let tag = if s.pending_tag() is Some {
            s.pending_tag()
        } else {
            tag
        };
        s.without_tag().value_start().emit(EventView::Scalar { tag, value, style }).value_end()
    }

    /// An untagged plain scalar goes out.
    pub open spec fn emit_plain(self, value: Seq<char>) -> Self {
        self.emit_scalar(None, value, ScalarStyle::Plain)
    }

    /// How many values a scalar or the start of a collection opens at most
    /// before one of them closes: itself, and a mapping that was held back.
    pub open spec fn opening(self) -> nat {
        if self.state is CheckForTag {
            2
        } else {
            1
        }
    }

    /// Whether the count of open values can take a scalar or the start of a
    /// collection.
    pub open spec fn has_room(self) -> bool {
        self.depth + self.opening() <= usize::MAX
    }
}

/// The encoder.
#[derive(Debug)]
pub struct Serializer {
    /// The setting it was built with.
    pub config: SerializerConfig,
    /// How many values are open.
    pub depth: usize,
    /// Whether a tag waits or a mapping is held back.
    pub state: State,
    /// The sink of its events.
    pub emitter: Emitter,
}

impl View for Serializer {
    type V = SerializerView;

    open spec fn view(&self) -> SerializerView {
        SerializerView {
            tag_unit_variants: self.config.tag_unit_variants,
            depth: self.depth as nat,
            state: self.state@,
            events: self.emitter@,
        }
    }
}

impl Serializer {
    /// An encoder with the default setting: see
    /// [`Serializer::new_with_config`].
    pub fn new() -> (r: Self)
        ensures
            r@ == (SerializerView {
                tag_unit_variants: false,
                depth: 0,
                state: StateView::NothingInParticular,
                events: seq![EventView::StreamStart],
            }),
    {
        Self::new_with_config(SerializerConfig::default())
    }

    /// An encoder with the setting `config`. No value is open, nothing waits,
    /// and the stream has begun: its first event is out.
    pub fn new_with_config(config: SerializerConfig) -> (r: Self)
        ensures
            r@ == (SerializerView {
                tag_unit_variants: config.tag_unit_variants,
                depth: 0,
                state: StateView::NothingInParticular,
                events: seq![EventView::StreamStart],
            }),
    {
        let mut emitter = Emitter::new();
        emitter.emit(Event::StreamStart);
        assert(emitter@ =~= seq![EventView::StreamStart]);
        Serializer { config, depth: 0, state: State::NothingInParticular, emitter }
    }

    /// Nothing is held back from the sink, so there is nothing to do: the
    /// encoder stays as it is.
    pub fn flush(&mut self) -> (r: Result<(), Error>)
        ensures
            r is Ok,
            *final(self) == *old(self),
    {
        Ok(())
    }

    /// Ends the stream and hands over every event of it, in order.
    pub fn into_inner(self) -> (r: Result<Vec<Event>, Error>)
        ensures
            r matches Ok(events) && events_view(events@) == self@.events.push(EventView::StreamEnd),
    {
        let mut emitter = self.emitter;
        emitter.emit(Event::StreamEnd);
        Ok(emitter.into_inner())
    }

    /// A value begins: opens a document where none is open, and counts the
    /// value.
    pub fn value_start(&mut self) -> (r: Result<(), Error>)
        requires
            old(self).depth < usize::MAX,
        ensures
            r is Ok,
            final(self)@ == old(self)@.value_start(),
    {
        if self.depth == 0 {
            self.emitter.emit(Event::DocumentStart);
        }
        self.depth += 1;
        Ok(())
    }

    /// A value ends: counts it off, the count staying at zero where it is
    /// zero, and closes the document where the count reaches zero.
    pub fn value_end(&mut self) -> (r: Result<(), Error>)
        ensures
            r is Ok,
            final(self)@ == old(self)@.value_end(),
    {
        self.depth = self.depth.saturating_sub(1);
        if self.depth == 0 {
            self.emitter.emit(Event::DocumentEnd);
        }
        Ok(())
    }

    /// Takes the tag that waits, if one does, behind one `!`. The state is
    /// then nothing in particular; without a waiting tag it stays.
    pub fn take_tag(&mut self) -> (tag: Option<String>)
        ensures
            tag_view(tag) == old(self)@.pending_tag(),
            final(self)@ == old(self)@.without_tag(),
    {
        let mut state = State::NothingInParticular;
        std::mem::swap(&mut self.state, &mut state);
        if let State::FoundTag(tag) = state {
            let v = chars_of(tag.as_str());
            if v.len() > 0 && v[0] == '!' {
                Some(tag)
            } else {
                let mut banged = "!".to_owned();
                proof {
                    reveal_strlit("!");
                }
                banged.append(tag.as_str());
                assert(banged@ =~= seq!['!'] + tag@);
                Some(banged)
            }
        } else {
            self.state = state;
            None
        }
    }

    fn open_mapping(&mut self)
        requires
            old(self).depth < usize::MAX,
        ensures
            final(self)@ == old(self)@.open_mapping(),
    {
        let _ = self.value_start();
        let tag = self.take_tag();
        self.emitter.emit(Event::MappingStart(Mapping { tag }));
    }

    /// Before a key or any other event: sends the start of a mapping that
    /// was held back, and lifts the guard against a second tag.
    pub fn flush_mapping_start(&mut self) -> (r: Result<(), Error>)
        requires
            old(self).state is CheckForTag ==> old(self).depth < usize::MAX,
        ensures
            r is Ok,
            final(self)@ == old(self)@.flush_mapping_start(),
    {
        match self.state {
            State::CheckForTag => {
                self.state = State::NothingInParticular;
                self.open_mapping();
            },
            State::CheckForDuplicateTag => {
                self.state = State::NothingInParticular;
            },
            _ => {},
        }
        Ok(())
    }

    /// Sends a scalar: under the waiting tag if there is one, under its own
    /// otherwise. The scalar is a whole value, so a document opens before it
    /// and closes after it where no value is open.
    pub fn emit_scalar(&mut self, scalar: Scalar) -> (r: Result<(), Error>)
        requires
            old(self)@.has_room(),
        ensures
            r is Ok,
            final(self)@ == old(self)@.emit_scalar(
                tag_view(scalar.tag),
                scalar.value@,
                scalar.style,
            ),
    {
        let mut scalar = scalar;
        let _ = self.flush_mapping_start();
        if let Some(tag) = self.take_tag() {
            scalar.tag = Some(tag);
        }
        let _ = self.value_start();
        self.emitter.emit(Event::Scalar(scalar));
        self.value_end()
    }

    /// Sends the start of a sequence, under the waiting tag if there is one.
    pub fn emit_sequence_start(&mut self) -> (r: Result<(), Error>)
        requires
            old(self)@.has_room(),
        ensures
            r is Ok,
            final(self)@ == old(self)@.emit_sequence_start(),
    {
        let _ = self.flush_mapping_start();
        let _ = self.value_start();
        let tag = self.take_tag();
        self.emitter.emit(Event::SequenceStart(Sequence { tag }));
        Ok(())
    }

    /// Sends the end of a sequence.
    pub fn emit_sequence_end(&mut self) -> (r: Result<(), Error>)
        ensures
            r is Ok,
            final(self)@ == old(self)@.emit_sequence_end(),
    {
        self.emitter.emit(Event::SequenceEnd);
        self.value_end()
    }

    /// Sends the start of a mapping, under the waiting tag if there is one.
    pub fn emit_mapping_start(&mut self) -> (r: Result<(), Error>)
        requires
            old(self)@.has_room(),
        ensures
            r is Ok,
            final(self)@ == old(self)@.emit_mapping_start(),
    {
        let _ = self.flush_mapping_start();
        self.open_mapping();
        Ok(())
    }

    /// Sends the end of a mapping.
    pub fn emit_mapping_end(&mut self) -> (r: Result<(), Error>)
        ensures
            r is Ok,
            final(self)@ == old(self)@.emit_mapping_end(),
    {
        self.emitter.emit(Event::MappingEnd);
        self.value_end()
    }
}

/// A text that was tested for the form of a tag: an exclamation mark and a
/// name, written in two pieces.
#[derive(Debug, PartialEq)]
pub enum MaybeTag {
    /// The text is a tag; this is its name, without the mark.
    Tag(String),
    /// The text is no tag; this is the whole of it.
    NotTag(String),
}

/// What a [`MaybeTag`] stands for.
pub enum MaybeTagView {
    Tag(Seq<char>),
    NotTag(Seq<char>),
}

impl View for MaybeTag {
    type V = MaybeTagView;

    open spec fn view(&self) -> MaybeTagView {
        match self {
            MaybeTag::Tag(name) => MaybeTagView::Tag(name@),
            MaybeTag::NotTag(text) => MaybeTagView::NotTag(text@),
        }
    }
}

impl MaybeTagView {
    /// The whole text: a tag has its mark in front of its name.
    pub open spec fn text(self) -> Seq<char> {
        match self {
            MaybeTagView::Tag(name) => seq!['!'] + name,
            MaybeTagView::NotTag(text) => text,
        }
    }
}

/// The text of a binary64 float: `.nan`, `.inf` or `-.inf`, and for a
/// finite float the shortest decimal text that the caller brings.
pub open spec fn double_text(bits: u64, shortest: Seq<char>) -> Seq<char> {
    if crate::binary64::nan(bits) {
        ".nan"@
    } else if crate::binary64::infinite(bits) {
        if crate::binary64::negative(bits) {
            "-.inf"@
        } else {
            ".inf"@
        }
    } else {
        shortest
    }
}

/// The text of a binary32 float: `.nan`, `.inf` or `-.inf`, and for a
/// finite float the shortest decimal text that the caller brings.
pub open spec fn single_text(bits: u32, shortest: Seq<char>) -> Seq<char> {
    if crate::binary32::nan(bits) {
        ".nan"@
    } else if crate::binary32::infinite(bits) {
        if crate::binary32::negative(bits) {
            "-.inf"@
        } else {
            ".inf"@
        }
    } else {
        shortest
    }
}

impl SerializerView {
    /// A string goes out in the style that its text asks for.
    pub open spec fn serialize_str(self, value: Seq<char>) -> Self {
        self.emit_scalar(None, value, string_style(value))
    }

    /// A variant name becomes the waiting tag. Where a tag waits already,
    /// two tags claim one position.
    pub open spec fn found_tag(self, variant: Seq<char>) -> Result<Self, Error> {
        if self.state is FoundTag {
            Err(Error::NestedEnumTag)
        } else {
            Ok(self.with_state(StateView::FoundTag(variant)))
        }
    }

    /// A unit variant: its name as a string, or, where unit variants are
    /// tagged, its name as the tag of an empty scalar.
    pub open spec fn serialize_unit_variant(self, variant: Seq<char>) -> Result<Self, Error> {
        if !self.tag_unit_variants {
            Ok(self.serialize_str(variant))
        } else {
            match self.found_tag(variant) {
                Ok(s) => Ok(s.emit_plain(Seq::<char>::empty())),
                Err(e) => Err(e),
            }
        }
    }

    /// A map of `len` entries begins, where `len` is known. The start of a
    /// map of one entry is held back, for its key may be a tag; under a
    /// waiting tag the start goes out at once, with that tag, and a second
    /// tag is guarded against.
    pub open spec fn serialize_map(self, len: Option<usize>) -> Self {
        if len == Some(1usize) {
            if self.state is FoundTag {
                self.emit_mapping_start().with_state(StateView::CheckForDuplicateTag)
            } else {
                self.with_state(StateView::CheckForTag)
            }
        } else {
            self.emit_mapping_start()
        }
    }

    /// A map ends. A start that is still held back goes out first. The end
    /// goes out unless the one entry went out under its tag.
    pub open spec fn end_map(self) -> Self {
        let s = if self.state is CheckForTag {
            self.flush_mapping_start()
        } else {
            self
        };
        let s = if s.state is AlreadyTagged {
            s
        } else {
            s.emit_mapping_end()
        };
        s.with_state(StateView::NothingInParticular)
    }

    /// A text that was tested for the form of a tag. While the key of a
    /// one-entry mapping is awaited, a tag becomes the waiting tag, or fails
    /// where a second tag is guarded against. Any other text, and every text
    /// in every other state, goes out as a string.
    pub open spec fn collect_str(self, value: MaybeTagView) -> Result<Self, Error> {
        if self.state is CheckForTag || self.state is CheckForDuplicateTag {
            match value {
                MaybeTagView::NotTag(text) => Ok(self.serialize_str(text)),
                MaybeTagView::Tag(name) => if self.state is CheckForDuplicateTag {
                    Err(Error::NestedEnumTag)
                } else {
                    Ok(self.with_state(StateView::FoundTag(name)))
                },
            }
        } else {
            Ok(self.serialize_str(value.text()))
        }
    }
}

impl Serializer {
    fn emit_plain(&mut self, value: String) -> (r: Result<(), Error>)
        requires
            old(self)@.has_room(),
        ensures
            r is Ok,
            final(self)@ == old(self)@.emit_plain(value@),
    {
        self.emit_scalar(Scalar { tag: None, value, style: ScalarStyle::Plain })
    }

    /// A boolean: `true` or `false`, plain.
    pub fn serialize_bool(&mut self, v: bool) -> (r: Result<(), Error>)
        requires
            old(self)@.has_room(),
        ensures
            r is Ok,
            final(self)@ == old(self)@.emit_plain(
                if v {
                    "true"@
                } else {
                    "false"@
                },
            ),
    {
        self.emit_plain(
            if v {
                "true".to_owned()
            } else {
                "false".to_owned()
            },
        )
    }

    /// An integer: its minimal decimal form, plain.
    pub fn serialize_i8(&mut self, v: i8) -> (r: Result<(), Error>)
        requires
            old(self)@.has_room(),
        ensures
            r is Ok,
            final(self)@ == old(self)@.emit_plain(decimal(v as int)),
    {
        self.emit_plain(format_signed(v as i128))
    }

    /// An integer: its minimal decimal form, plain.
    pub fn serialize_i16(&mut self, v: i16) -> (r: Result<(), Error>)
        requires
            old(self)@.has_room(),
        ensures
            r is Ok,
            final(self)@ == old(self)@.emit_plain(decimal(v as int)),
    {
        self.emit_plain(format_signed(v as i128))
    }

    /// An integer: its minimal decimal form, plain.
    pub fn serialize_i32(&mut self, v: i32) -> (r: Result<(), Error>)
        requires
            old(self)@.has_room(),
        ensures
            r is Ok,
            final(self)@ == old(self)@.emit_plain(decimal(v as int)),
    {
        self.emit_plain(format_signed(v as i128))
    }

    /// An integer: its minimal decimal form, plain.
    pub fn serialize_i64(&mut self, v: i64) -> (r: Result<(), Error>)
        requires
            old(self)@.has_room(),
        ensures
            r is Ok,
            final(self)@ == old(self)@.emit_plain(decimal(v as int)),
    {
        self.emit_plain(format_signed(v as i128))
    }

    /// An integer: its minimal decimal form, plain.
    pub fn serialize_i128(&mut self, v: i128) -> (r: Result<(), Error>)
        requires
            old(self)@.has_room(),
        ensures
            r is Ok,
            final(self)@ == old(self)@.emit_plain(decimal(v as int)),
    {
        self.emit_plain(format_signed(v))
    }

    /// An integer: its minimal decimal form, plain.
    pub fn serialize_u8(&mut self, v: u8) -> (r: Result<(), Error>)
        requires
            old(self)@.has_room(),
        ensures
            r is Ok,
            final(self)@ == old(self)@.emit_plain(decimal(v as int)),
    {
        self.emit_plain(format_unsigned(v as u128))
    }

    /// An integer: its minimal decimal form, plain.
    pub fn serialize_u16(&mut self, v: u16) -> (r: Result<(), Error>)
        requires
            old(self)@.has_room(),
        ensures
            r is Ok,
            final(self)@ == old(self)@.emit_plain(decimal(v as int)),
    {
        self.emit_plain(format_unsigned(v as u128))
    }

    /// An integer: its minimal decimal form, plain.
    pub fn serialize_u32(&mut self, v: u32) -> (r: Result<(), Error>)
        requires
            old(self)@.has_room(),
        ensures
            r is Ok,
            final(self)@ == old(self)@.emit_plain(decimal(v as int)),
    {
        self.emit_plain(format_unsigned(v as u128))
    }

    /// An integer: its minimal decimal form, plain.
    pub fn serialize_u64(&mut self, v: u64) -> (r: Result<(), Error>)
        requires
            old(self)@.has_room(),
        ensures
            r is Ok,
            final(self)@ == old(self)@.emit_plain(decimal(v as int)),
    {
        self.emit_plain(format_unsigned(v as u128))
    }

    /// An integer: its minimal decimal form, plain.
    pub fn serialize_u128(&mut self, v: u128) -> (r: Result<(), Error>)
        requires
            old(self)@.has_room(),
        ensures
            r is Ok,
            final(self)@ == old(self)@.emit_plain(decimal(v as int)),
    {
        self.emit_plain(format_unsigned(v))
    }

    /// A binary32 float, by its bit pattern: `.nan`, `.inf` or `-.inf`,
    /// and for a finite float `shortest`, the shortest decimal text that
    /// reads back as the value. Plain.
    pub fn serialize_f32(&mut self, bits: u32, shortest: &str) -> (r: Result<(), Error>)
        requires
            old(self)@.has_room(),
        ensures
            r is Ok,
            final(self)@ == old(self)@.emit_plain(single_text(bits, shortest@)),
    {
        let text = if crate::binary32::is_nan(bits) {
            ".nan".to_owned()
        } else if crate::binary32::is_infinite(bits) {
            if crate::binary32::is_negative(bits) {
                "-.inf".to_owned()
            } else {
                ".inf".to_owned()
            }
        } else {
            shortest.to_owned()
        };
        self.emit_plain(text)
    }

    /// A binary64 float, by its bit pattern: `.nan`, `.inf` or `-.inf`,
    /// and for a finite float `shortest`, the shortest decimal text that
    /// reads back as the value. Plain.
    pub fn serialize_f64(&mut self, bits: u64, shortest: &str) -> (r: Result<(), Error>)
        requires
            old(self)@.has_room(),
        ensures
            r is Ok,
            final(self)@ == old(self)@.emit_plain(double_text(bits, shortest@)),
    {
        let text = if crate::binary64::is_nan(bits) {
            ".nan".to_owned()
        } else if crate::binary64::is_infinite(bits) {
            if crate::binary64::is_negative(bits) {
                "-.inf".to_owned()
            } else {
                ".inf".to_owned()
            }
        } else {
            shortest.to_owned()
        };
        self.emit_plain(text)
    }

    /// A character: itself, always between single quotes.
    pub fn serialize_char(&mut self, value: char) -> (r: Result<(), Error>)
        requires
            old(self)@.has_room(),
        ensures
            r is Ok,
            final(self)@ == old(self)@.emit_scalar(None, seq![value], ScalarStyle::SingleQuoted),
    {
        let mut text = String::new();
        text.push(value);
        assert(text@ =~= seq![value]);
        self.emit_scalar(Scalar { tag: None, value: text, style: ScalarStyle::SingleQuoted })
    }

    /// A string, in the style that its text asks for: see
    /// [`string_style`].
    pub fn serialize_str(&mut self, value: &str) -> (r: Result<(), Error>)
        requires
            old(self)@.has_room(),
        ensures
            r is Ok,
            final(self)@ == old(self)@.serialize_str(value@),
    {
        let style = classify(value);
        self.emit_scalar(Scalar { tag: None, value: value.to_owned(), style })
    }

    /// Raw bytes have no scalar form: always a failure, and nothing changes.
    pub fn serialize_bytes(&mut self, value: &[u8]) -> (r: Result<(), Error>)
        ensures
            r == Err::<(), Error>(Error::UnsupportedConstruct),
            *final(self) == *old(self),
    {
        Err(Error::UnsupportedConstruct)
    }

    /// A unit: `null`, plain.
    pub fn serialize_unit(&mut self) -> (r: Result<(), Error>)
        requires
            old(self)@.has_room(),
        ensures
            r is Ok,
            final(self)@ == old(self)@.emit_plain("null"@),
    {
        self.emit_plain("null".to_owned())
    }

    /// A unit struct: as a unit.
    pub fn serialize_unit_struct(&mut self, name: &str) -> (r: Result<(), Error>)
        requires
            old(self)@.has_room(),
        ensures
            r is Ok,
            final(self)@ == old(self)@.emit_plain("null"@),
    {
        self.serialize_unit()
    }

    /// An optional that is absent: as a unit.
    pub fn serialize_none(&mut self) -> (r: Result<(), Error>)
        requires
            old(self)@.has_room(),
        ensures
            r is Ok,
            final(self)@ == old(self)@.emit_plain("null"@),
    {
        self.serialize_unit()
    }

    /// Makes `variant` the waiting tag, or fails where a tag waits already.
    fn found_tag(&mut self, variant: &str) -> (r: Result<(), Error>)
        ensures
            match old(self)@.found_tag(variant@) {
                Ok(s) => r is Ok && final(self)@ == s,
                Err(e) => r == Err::<(), Error>(e) && *final(self) == *old(self),
            },
    {
        if let State::FoundTag(_) = self.state {
            return Err(Error::NestedEnumTag);
        }
        self.state = State::FoundTag(variant.to_owned());
        Ok(())
    }

    /// A unit variant: its name as a string, or, where unit variants are
    /// tagged, its name as the tag of an empty plain scalar. With tagging it
    /// fails exactly where a tag waits already, and then leaves the encoder
    /// as it was.
    pub fn serialize_unit_variant(&mut self, name: &str, variant_index: u32, variant: &str) -> (r:
        Result<(), Error>)
        requires
            old(self)@.has_room(),
        ensures
            match old(self)@.serialize_unit_variant(variant@) {
                Ok(s) => r is Ok && final(self)@ == s,
                Err(e) => r == Err::<(), Error>(e) && *final(self) == *old(self),
            },
    {
        if !self.config.tag_unit_variants {
            self.serialize_str(variant)
        } else {
            match self.found_tag(variant) {
                Err(e) => Err(e),
                Ok(()) => self.emit_plain(String::new()),
            }
        }
    }

    /// A sequence begins.
    pub fn serialize_seq(&mut self, len: Option<usize>) -> (r: Result<(), Error>)
        requires
            old(self)@.has_room(),
        ensures
            r is Ok,
            final(self)@ == old(self)@.emit_sequence_start(),
    {
        self.emit_sequence_start()
    }

    /// A tuple begins: as a sequence.
    pub fn serialize_tuple(&mut self, len: usize) -> (r: Result<(), Error>)
        requires
            old(self)@.has_room(),
        ensures
            r is Ok,
            final(self)@ == old(self)@.emit_sequence_start(),
    {
        self.emit_sequence_start()
    }

    /// A tuple struct begins: as a sequence.
    pub fn serialize_tuple_struct(&mut self, name: &str, len: usize) -> (r: Result<(), Error>)
        requires
            old(self)@.has_room(),
        ensures
            r is Ok,
            final(self)@ == old(self)@.emit_sequence_start(),
    {
        self.emit_sequence_start()
    }

    /// A tuple variant begins: a sequence under the name of the variant as
    /// its tag. It fails exactly where a tag waits already, and then leaves
    /// the encoder as it was.
    pub fn serialize_tuple_variant(
        &mut self,
        name: &str,
        variant_index: u32,
        variant: &str,
        len: usize,
    ) -> (r: Result<(), Error>)
        requires
            old(self)@.has_room(),
        ensures
            match old(self)@.found_tag(variant@) {
                Ok(s) => r is Ok && final(self)@ == s.emit_sequence_start(),
                Err(e) => r == Err::<(), Error>(e) && *final(self) == *old(self),
            },
    {
        match self.found_tag(variant) {
            Err(e) => Err(e),
            Ok(()) => self.emit_sequence_start(),
        }
    }

    /// A map begins: see [`SerializerView::serialize_map`].
    pub fn serialize_map(&mut self, len: Option<usize>) -> (r: Result<(), Error>)
        requires
            old(self)@.has_room(),
        ensures
            r is Ok,
            final(self)@ == old(self)@.serialize_map(len),
    {
        let one = match len {
            Some(n) => n == 1,
            None => false,
        };
        if one {
            if let State::FoundTag(_) = self.state {
                let _ = self.emit_mapping_start();
                self.state = State::CheckForDuplicateTag;
            } else {
                self.state = State::CheckForTag;
            }
            Ok(())
        } else {
            self.emit_mapping_start()
        }
    }

    /// A struct begins: as a mapping.
    pub fn serialize_struct(&mut self, name: &str, len: usize) -> (r: Result<(), Error>)
        requires
            old(self)@.has_room(),
        ensures
            r is Ok,
            final(self)@ == old(self)@.emit_mapping_start(),
    {
        self.emit_mapping_start()
    }

    /// A struct variant begins: a mapping under the name of the variant as
    /// its tag. It fails exactly where a tag waits already, and then leaves
    /// the encoder as it was.
    pub fn serialize_struct_variant(
        &mut self,
        name: &str,
        variant_index: u32,
        variant: &str,
        len: usize,
    ) -> (r: Result<(), Error>)
        requires
            old(self)@.has_room(),
        ensures
            match old(self)@.found_tag(variant@) {
                Ok(s) => r is Ok && final(self)@ == s.emit_mapping_start(),
                Err(e) => r == Err::<(), Error>(e) && *final(self) == *old(self),
            },
    {
        match self.found_tag(variant) {
            Err(e) => Err(e),
            Ok(()) => self.emit_mapping_start(),
        }
    }

    /// A text that was tested for the form of a tag: see
    /// [`SerializerView::collect_str`]. It fails exactly where the text is a
    /// tag and a second tag is guarded against, and then leaves the encoder
    /// as it was.
    pub fn collect_str(&mut self, value: MaybeTag) -> (r: Result<(), Error>)
        requires
            old(self)@.has_room(),
        ensures
            match old(self)@.collect_str(value@) {
                Ok(s) => r is Ok && final(self)@ == s,
                Err(e) => r == Err::<(), Error>(e) && *final(self) == *old(self),
            },
    {
        let checking = match self.state {
            State::CheckForTag | State::CheckForDuplicateTag => true,
            _ => false,
        };
        let string = if checking {
            match value {
                MaybeTag::NotTag(string) => string,
                MaybeTag::Tag(string) => {
                    return if let State::CheckForDuplicateTag = self.state {
                        Err(Error::NestedEnumTag)
                    } else {
                        self.state = State::FoundTag(string);
                        Ok(())
                    };
                },
            }
        } else {
            match value {
                MaybeTag::NotTag(string) => string,
                MaybeTag::Tag(name) => {
                    let mut text = "!".to_owned();
                    proof {
                        reveal_strlit("!");
                    }
                    text.append(name.as_str());
                    assert(text@ =~= seq!['!'] + name@);
                    text
                },
            }
        };
        self.serialize_str(string.as_str())
    }

    /// A sequence ends.
    pub fn end_sequence(&mut self) -> (r: Result<(), Error>)
        ensures
            r is Ok,
            final(self)@ == old(self)@.emit_sequence_end(),
    {
        self.emit_sequence_end()
    }

    /// A map ends: see [`SerializerView::end_map`].
    pub fn end_map(&mut self) -> (r: Result<(), Error>)
        requires
            old(self).state is CheckForTag ==> old(self).depth < usize::MAX,
        ensures
            r is Ok,
            final(self)@ == old(self)@.end_map(),
    {
        if let State::CheckForTag = self.state {
            let _ = self.flush_mapping_start();
        }
        if let State::AlreadyTagged = self.state {
        } else {
            let _ = self.emit_mapping_end();
        }
        self.state = State::NothingInParticular;
        Ok(())
    }

    /// A struct ends: as a mapping.
    pub fn end_struct(&mut self) -> (r: Result<(), Error>)
        ensures
            r is Ok,
            final(self)@ == old(self)@.emit_mapping_end(),
    {
        self.emit_mapping_end()
    }
}

} // verus!
