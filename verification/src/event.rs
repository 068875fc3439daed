//! The events that the encoder hands to a byte emitter, and the sink that
//! keeps them in order.
use vstd::prelude::*;
use crate::scalar::ScalarStyle;

verus! {

/// What an optional tag stands for.
pub open spec fn tag_view(tag: Option<String>) -> Option<Seq<char>> {
    match tag {
        Some(t) => Some(t@),
        None => None,
    }
}

/// A leaf of a document: its text, how the text is written, and the tag
/// attached to it, if any.
#[derive(Clone, Debug, PartialEq)]
pub struct Scalar {
    /// The tag attached to the scalar.
    pub tag: Option<String>,
    /// The text.
    pub value: String,
    /// How the text is written.
    pub style: ScalarStyle,
}

/// The start of a sequence, with the tag attached to it, if any.
#[derive(Clone, Debug, PartialEq)]
pub struct Sequence {
    /// The tag attached to the sequence.
    pub tag: Option<String>,
}

/// The start of a mapping, with the tag attached to it, if any.
#[derive(Clone, Debug, PartialEq)]
pub struct Mapping {
    /// The tag attached to the mapping.
    pub tag: Option<String>,
}

/// One step of a YAML stream.
#[derive(Clone, Debug, PartialEq)]
pub enum Event {
    /// The stream begins.
    StreamStart,
    /// The stream ends.
    StreamEnd,
    /// A document begins.
    DocumentStart,
    /// A document ends.
    DocumentEnd,
    /// A scalar.
    Scalar(Scalar),
    /// A sequence begins.
    SequenceStart(Sequence),
    /// A sequence ends.
    SequenceEnd,
    /// A mapping begins.
    MappingStart(Mapping),
    /// A mapping ends.
    MappingEnd,
}

/// What an [`Event`] stands for.
pub enum EventView {
    /// The stream begins.
    StreamStart,
    /// The stream ends.
    StreamEnd,
    /// A document begins.
    DocumentStart,
    /// A document ends.
    DocumentEnd,
    /// A scalar.
    Scalar { tag: Option<Seq<char>>, value: Seq<char>, style: ScalarStyle },
    /// A sequence begins.
    SequenceStart { tag: Option<Seq<char>> },
    /// A sequence ends.
    SequenceEnd,
    /// A mapping begins.
    MappingStart { tag: Option<Seq<char>> },
    /// A mapping ends.
    MappingEnd,
}

impl View for Scalar {
    type V = EventView;

    open spec fn view(&self) -> EventView {
        EventView::Scalar { tag: tag_view(self.tag), value: self.value@, style: self.style }
    }
}

impl View for Event {
    type V = EventView;

    open spec fn view(&self) -> EventView {
        match self {
            Event::StreamStart => EventView::StreamStart,
            Event::StreamEnd => EventView::StreamEnd,
            Event::DocumentStart => EventView::DocumentStart,
            Event::DocumentEnd => EventView::DocumentEnd,
            Event::Scalar(s) => s@,
            Event::SequenceStart(s) => EventView::SequenceStart { tag: tag_view(s.tag) },
            Event::SequenceEnd => EventView::SequenceEnd,
            Event::MappingStart(m) => EventView::MappingStart { tag: tag_view(m.tag) },
            Event::MappingEnd => EventView::MappingEnd,
        }
    }
}

/// The events in `events`, each by what it stands for.
pub open spec fn events_view(events: Seq<Event>) -> Seq<EventView> {
    Seq::new(events.len(), |i: int| events[i]@)
}

/// The sink of the encoder: it keeps every event it is given, in order, for
/// a byte emitter to write out.
#[derive(Debug)]
pub struct Emitter {
    events: Vec<Event>,
}

impl View for Emitter {
    type V = Seq<EventView>;

    closed spec fn view(&self) -> Seq<EventView> {
        events_view(self.events@)
    }
}

impl Emitter {
    /// A sink that holds no event yet.
    pub fn new() -> (r: Self)
        ensures
            r@ == Seq::<EventView>::empty(),
    {
        let r = Emitter { events: Vec::new() };
        assert(events_view(r.events@) =~= Seq::<EventView>::empty());
        r
    }

    /// Takes one more event.
    pub fn emit(&mut self, event: Event)
        ensures
            final(self)@ == old(self)@.push(event@),
    {
        self.events.push(event);
        assert(events_view(self.events@) =~= events_view(old(self).events@).push(event@));
    }

    /// The number of events taken so far.
    pub fn len(&self) -> (n: usize)
        ensures
            n == self@.len(),
    {
        self.events.len()
    }

    /// The events taken so far, in order.
    pub fn events(&self) -> (events: &Vec<Event>)
        ensures
            events_view(events@) == self@,
    {
        &self.events
    }

    /// Hands the events over.
    pub fn into_inner(self) -> (events: Vec<Event>)
        ensures
            events_view(events@) == self@,
    {
        self.events
    }
}

} // verus!
