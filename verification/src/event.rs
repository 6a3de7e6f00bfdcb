//! The flat stream of events that a document is read as.

use crate::string::KdlString;
use crate::value::{KdlValue, ValueView};
use vstd::prelude::*;

verus! {

/// What follows a node's name: a positional argument or a named property.
#[derive(Clone, PartialEq, Debug)]
pub enum KdlNodeEntry<'text> {
    Argument(KdlValue<'text>),
    Property { key: KdlString<'text>, value: KdlValue<'text> },
}

/// One step of a document.
#[derive(Clone, PartialEq, Debug)]
pub enum Event<'text> {
    StartDocument,
    EndDocument,
    /// Blank space before a node, with the visual column it leaves off at.
    Indentation(usize),
    NodeName(KdlString<'text>),
    NodeEntry(KdlNodeEntry<'text>),
    NodeEnd { inline: bool },
}

/// What an entry is, apart from where its text is stored.
pub enum EntryView {
    Argument(ValueView),
    Property { key: Seq<char>, value: ValueView },
}

/// What an event is, apart from where its text is stored.
pub enum EventView {
    StartDocument,
    EndDocument,
    Indentation(nat),
    NodeName(Seq<char>),
    NodeEntry(EntryView),
    NodeEnd { inline: bool },
}

impl<'text> View for KdlNodeEntry<'text> {
    type V = EntryView;

    open spec fn view(&self) -> EntryView {
        match self {
            KdlNodeEntry::Argument(v) => EntryView::Argument(v@),
            KdlNodeEntry::Property { key, value } => EntryView::Property {
                key: key@,
                value: value@,
            },
        }
    }
}

impl<'text> View for Event<'text> {
    type V = EventView;

    open spec fn view(&self) -> EventView {
        match self {
            Event::StartDocument => EventView::StartDocument,
            Event::EndDocument => EventView::EndDocument,
            Event::Indentation(n) => EventView::Indentation(*n as nat),
            Event::NodeName(s) => EventView::NodeName(s@),
            Event::NodeEntry(e) => EventView::NodeEntry(e@),
            Event::NodeEnd { inline } => EventView::NodeEnd { inline: *inline },
        }
    }
}

impl<'text> KdlNodeEntry<'text> {
    /// The text that the entry holds is borrowed.
    pub open spec fn borrowed(&self) -> bool {
        match self {
            KdlNodeEntry::Argument(v) => v.borrowed(),
            KdlNodeEntry::Property { key, value } => key.borrowed() && value.borrowed(),
        }
    }

    /// The entry holds no borrowed text.
    pub open spec fn owned(&self) -> bool {
        match self {
            KdlNodeEntry::Argument(v) => v.owned(),
            KdlNodeEntry::Property { key, value } => !key.borrowed() && value.owned(),
        }
    }

    /// The same entry in storage of its own.
    pub fn into_static(self) -> (r: KdlNodeEntry<'static>)
        ensures
            r@ == self@,
            r.owned(),
    {
        match self {
            KdlNodeEntry::Argument(v) => KdlNodeEntry::Argument(v.into_static()),
            KdlNodeEntry::Property { key, value } => KdlNodeEntry::Property {
                key: key.into_static(),
                value: value.into_static(),
            },
        }
    }
}

impl<'text> Event<'text> {
    /// The text that the event holds is borrowed.
    pub open spec fn borrowed(&self) -> bool {
        match self {
            Event::NodeName(s) => s.borrowed(),
            Event::NodeEntry(e) => e.borrowed(),
            _ => true,
        }
    }

    /// The event holds no borrowed text.
    pub open spec fn owned(&self) -> bool {
        match self {
            Event::NodeName(s) => !s.borrowed(),
            Event::NodeEntry(e) => e.owned(),
            _ => true,
        }
    }

    /// The same event in storage of its own.
    pub fn into_static(self) -> (r: Event<'static>)
        ensures
            r@ == self@,
            r.owned(),
    {
        match self {
            Event::StartDocument => Event::StartDocument,
            Event::EndDocument => Event::EndDocument,
            Event::Indentation(n) => Event::Indentation(n),
            Event::NodeName(s) => Event::NodeName(s.into_static()),
            Event::NodeEntry(e) => Event::NodeEntry(e.into_static()),
            Event::NodeEnd { inline } => Event::NodeEnd { inline },
        }
    }
}

} // verus!
