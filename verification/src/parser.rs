//! The pull parser: a state machine over a cursor that hands out one event
//! per call, with the byte range of the source that produced it.
//!
//! What a call does is a function of four things: the source, the position of
//! the cursor, the depth of open child documents and the state. That function
//! is [`step`]; the parser's contract is stated over it.

use crate::chars::{equals, is_equals, is_newline, newline};
use crate::cursor::Acc;
use crate::error::{CauseView, ParseError, ParseErrorCause};
use crate::event::{EntryView, Event, EventView, KdlNodeEntry};
use crate::lexeme::{blank_cols, blank_end, clip, string_end, ws_end};
use crate::span::span_of;
use crate::string::KdlString;
use crate::utf8::{char_at, lemma_boundary_step, peek_at, width_at};
use crate::value::{KdlValue, ValueView};
use std::borrow::Cow;
use std::ops::Range;
use vstd::prelude::*;
use vstd::string::*;
use vstd::utf8::*;

verus! {

broadcast use {vstd::utf8::encode_utf8_valid_utf8, vstd::utf8::encode_utf8_decode_utf8};

/// What the parser looks for next.
#[derive(Clone, Copy, Debug, PartialEq, Eq, Structural)]
pub enum State {
    /// Nothing was handed out yet.
    Initial,
    /// Between nodes: a node name or the end of the document comes next.
    Document,
    /// Behind a node name: entries, a child document or the node's end come next.
    NodeEntries,
    /// The root document has ended.
    Final,
}

/// What one call hands out.
pub enum Outcome {
    Event(EventView),
    Done,
    Fail(CauseView),
}

/// What one call does. An event takes the bytes from `start` to `end`; a
/// failure was found at `start`. The cursor is left at `end`, the depth at
/// `depth`, the state at `state`.
pub struct Step {
    pub out: Outcome,
    pub start: int,
    pub end: int,
    pub depth: nat,
    pub state: State,
}

/// The text that the bytes of `s` from `a` to `b` encode.
pub open spec fn text_of(s: Seq<u8>, a: int, b: int) -> Seq<char> {
    decode_utf8(s.subrange(a, b))
}

/// Where the value that starts at `p` ends, or why none starts there. A
/// value is a string.
pub open spec fn value_end(s: Seq<u8>, p: int) -> Result<int, CauseView> {
    string_end(s, p)
}

/// The entry that starts at `p` and where it ends: a value, and if an
/// equals sign follows it at once, a second value, the first being the key.
/// Where no entry starts there, why not, and the place of the value that
/// could not be read.
pub open spec fn entry_at(s: Seq<u8>, p: int) -> Result<(EntryView, int), (CauseView, int)> {
    match value_end(s, p) {
        Err(c) => Err((c, p)),
        Ok(a) => if 0 <= a < s.len() && equals(char_at(s, a)) {
            let b = a + width_at(s, a);
            match value_end(s, b) {
                Err(c) => Err((c, b)),
                Ok(e) => Ok(
                    (
                        EntryView::Property {
                            key: text_of(s, p, a),
                            value: ValueView::String(text_of(s, b, e)),
                        },
                        e,
                    ),
                ),
            }
        } else {
            Ok((EntryView::Argument(ValueView::String(text_of(s, p, a))), a))
        },
    }
}

/// The step between nodes.
pub open spec fn document_step(s: Seq<u8>, p: int, depth: nat) -> Step {
    if p >= s.len() && depth == 0 {
        Step {
            out: Outcome::Event(EventView::EndDocument),
            start: p,
            end: p,
            depth: 0,
            state: State::Final,
        }
    } else if peek_at(s, p) == Some('}') {
        if depth == 0 {
            Step {
                out: Outcome::Fail(CauseView::ExpectedValue),
                start: p,
                end: p,
                depth,
                state: State::Document,
            }
        } else {
            Step {
                out: Outcome::Event(EventView::EndDocument),
                start: p,
                end: p + 1,
                depth: (depth - 1) as nat,
                state: State::Document,
            }
        }
    } else {
        match string_end(s, p) {
            Ok(e) => Step {
                out: Outcome::Event(EventView::NodeName(text_of(s, p, e))),
                start: p,
                end: e,
                depth,
                state: State::NodeEntries,
            },
            Err(CauseView::NeedsMoreData) => Step {
                out: Outcome::Fail(CauseView::NeedsMoreData),
                start: p,
                end: p,
                depth,
                state: State::Document,
            },
            Err(_) => Step {
                out: Outcome::Fail(CauseView::InvalidNodeName),
                start: p,
                end: p,
                depth,
                state: State::Document,
            },
        }
    }
}

/// The step behind a node name, with the cursor at `q`.
pub open spec fn entries_step(s: Seq<u8>, q: int, depth: nat) -> Step {
    match peek_at(s, q) {
        None => if depth == 0 {
            Step {
                out: Outcome::Event(EventView::NodeEnd { inline: true }),
                start: q,
                end: q,
                depth,
                state: State::Document,
            }
        } else {
            Step {
                out: Outcome::Fail(CauseView::NeedsMoreData),
                start: q,
                end: q,
                depth,
                state: State::NodeEntries,
            }
        },
        Some(c) => if c == '{' {
            Step {
                out: Outcome::Event(EventView::StartDocument),
                start: q,
                end: q + 1,
                depth: depth + 1,
                state: State::Document,
            }
        } else if newline(c) || c == '}' {
            Step {
                out: Outcome::Event(EventView::NodeEnd { inline: false }),
                start: q,
                end: q,
                depth,
                state: State::Document,
            }
        } else if c == ';' {
            Step {
                out: Outcome::Event(EventView::NodeEnd { inline: true }),
                start: q,
                end: q + 1,
                depth,
                state: State::Document,
            }
        } else {
            match entry_at(s, q) {
                Ok((entry, e)) => Step {
                    out: Outcome::Event(EventView::NodeEntry(entry)),
                    start: q,
                    end: e,
                    depth,
                    state: State::NodeEntries,
                },
                Err((c, at)) => Step {
                    out: Outcome::Fail(c),
                    start: at,
                    end: q,
                    depth,
                    state: State::NodeEntries,
                },
            }
        },
    }
}

/// What one call does with the cursor at `p` of `s`, at the given depth and
/// in the given state. Outside a node, blank space comes first: it is handed
/// out as an indentation event, which leaves depth and state as they are.
/// Within a node, whitespace is passed over.
pub open spec fn step(s: Seq<u8>, p: int, depth: nat, state: State) -> Step {
    if state != State::NodeEntries && blank_end(s, p) > p {
        Step {
            out: Outcome::Event(EventView::Indentation(clip(blank_cols(s, p, 0)) as nat)),
            start: p,
            end: blank_end(s, p),
            depth,
            state,
        }
    } else {
        match state {
            State::Initial => Step {
                out: Outcome::Event(EventView::StartDocument),
                start: p,
                end: p,
                depth: 0,
                state: State::Document,
            },
            State::Final => Step { out: Outcome::Done, start: p, end: p, depth, state },
            State::Document => document_step(s, p, depth),
            State::NodeEntries => entries_step(s, ws_end(s, p), depth),
        }
    }
}

/// The parser as its contracts see it: the bytes of the source, the position
/// of the cursor, the number of open child documents, and the state.
pub struct Machine {
    pub source: Seq<u8>,
    pub end: int,
    pub depth: nat,
    pub state: State,
}

impl Machine {
    /// The machine before the first call.
    pub open spec fn initial(source: Seq<u8>) -> Machine {
        Machine { source, end: 0, depth: 0, state: State::Initial }
    }

    /// What the next call does.
    #[verifier::opaque]
    pub open spec fn next_step(self) -> Step {
        step(self.source, self.end, self.depth, self.state)
    }

    /// The machine after the next call.
    pub open spec fn advance(self) -> Machine {
        Machine {
            source: self.source,
            end: self.next_step().end,
            depth: self.next_step().depth,
            state: self.next_step().state,
        }
    }

    /// The machine after `n` calls.
    pub open spec fn after(self, n: nat) -> Machine
        decreases n,
    {
        if n == 0 {
            self
        } else {
            self.after((n - 1) as nat).advance()
        }
    }

    /// The next call starts or ends the root document, if it starts or ends
    /// a document at all: no document is open before it, or none after it.
    pub open spec fn outer_step(self) -> bool {
        self.opened() == 0 || self.advance().opened() == 0
    }

    /// The event that call number `k` hands out.
    pub open spec fn event_at(self, k: nat) -> EventView {
        self.after(k).next_step().out->Event_0
    }

    /// Each of the first `n` calls hands out an event.
    pub open spec fn all_events(self, n: nat) -> bool {
        forall|k: nat| k < n ==> #[trigger] self.after(k).next_step().out is Event
    }

    /// `v` holds the events of the first calls, as many as it is long, each
    /// with its range.
    pub open spec fn is_trace(self, v: Seq<(Event<'_>, Range<usize>)>) -> bool {
        &&& self.all_events(v.len())
        &&& forall|k: int|
            0 <= k < v.len() ==> item_is(
                Some(#[trigger] v[k]),
                self.event_at(k as nat),
                self.after(k as nat).next_step().start,
                self.after(k as nat).next_step().end,
            )
    }

    /// The range of the event of the next call lies in the source, at or
    /// behind the cursor, and holds the text of the event.
    pub open spec fn spans(self) -> bool {
        let st = self.next_step();
        &&& self.end <= st.start <= st.end <= self.source.len()
        &&& span_of(self.source, st.out->Event_0, self.outer_step(), st.start, st.end)
    }

    /// The range of each of the first `n` events lies in the source, at or
    /// behind the one before it, and holds the text of the event.
    pub open spec fn spans_hold(self, n: nat) -> bool {
        forall|k: nat| k < n ==> (#[trigger] self.after(k)).spans()
    }

    /// The first calls hand out the events of `v`, the next call hands out
    /// nothing, and leaves the machine `last`.
    pub open spec fn done_after(self, v: Seq<(Event<'_>, Range<usize>)>, last: Machine) -> bool {
        &&& self.is_trace(v)
        &&& self.spans_hold(v.len())
        &&& self.after(v.len()).next_step().out is Done
        &&& last == self.after(v.len() + 1)
    }

    /// The first `n` calls hand out events, the next call fails with `e`, and
    /// leaves the machine `last`.
    pub open spec fn fails_after(self, n: nat, e: ParseError<'_>, last: Machine) -> bool {
        &&& self.all_events(n)
        &&& self.after(n).next_step().out == Outcome::Fail(e.cause@)
        &&& e.at == self.after(n).next_step().start
        &&& last == self.after(n + 1)
    }

    /// A bound on the number of events still to come: each event takes a
    /// byte of the source, or moves the state on towards the final one.
    pub open spec fn measure(self) -> nat {
        let left = if self.end < self.source.len() {
            (self.source.len() - self.end) as nat
        } else {
            0
        };
        4 * left + match self.state {
            State::Initial => 3nat,
            State::NodeEntries => 2nat,
            State::Document => 1nat,
            State::Final => 0nat,
        }
    }

    /// The final state is only taken at the end of the source.
    pub open spec fn inv(self) -> bool {
        self.state == State::Final ==> self.end >= self.source.len()
    }

    /// The number of documents that have started and not ended: the root
    /// document, once it has started, and the child documents in it.
    pub open spec fn opened(self) -> nat {
        match self.state {
            State::Initial => 0,
            State::Final => 0,
            _ => self.depth + 1,
        }
    }
}

/// `o` holds an event that is `ev`, with the range from `start` to `end`.
pub open spec fn item_is(
    o: Option<(Event<'_>, Range<usize>)>,
    ev: EventView,
    start: int,
    end: int,
) -> bool {
    match o {
        Some(pair) => pair.0@ == ev && pair.1.start == start && pair.1.end == end,
        None => false,
    }
}

/// `r` is what a call gives back that does `st` on the source `text`: the
/// event with its range, nothing, or the error with the place at which it
/// was found and the source.
pub open spec fn gives(
    r: Result<Option<(Event<'_>, Range<usize>)>, ParseError<'_>>,
    st: Step,
    text: Seq<char>,
) -> bool {
    match st.out {
        Outcome::Event(ev) => r is Ok && item_is(r->Ok_0, ev, st.start, st.end),
        Outcome::Done => r is Ok && r->Ok_0 is None,
        Outcome::Fail(c) => r is Err && r->Err_0.cause@ == c && r->Err_0.at == st.start
            && r->Err_0.source@ == text,
    }
}

/// The event that `o` holds, if it holds one, borrows its text.
pub open spec fn item_borrowed(o: Option<(Event<'_>, Range<usize>)>) -> bool {
    match o {
        Some(pair) => pair.0.borrowed(),
        None => true,
    }
}

/// The event that `o` holds, if it holds one, holds no borrowed text.
pub open spec fn item_owned(o: Option<(Event<'_>, Range<usize>)>) -> bool {
    match o {
        Some(pair) => pair.0.owned(),
        None => true,
    }
}

/// An event with its range.
pub fn item<T>(t: T, r: Range<usize>) -> (res: Option<(T, Range<usize>)>)
    ensures
        res == Some((t, r)),
{
    Some((t, r))
}

/// The range `r`, moved `i` bytes on.
pub fn offset_by(r: &Range<usize>, i: usize) -> (res: Range<usize>)
    requires
        r.start + i <= usize::MAX,
        r.end + i <= usize::MAX,
    ensures
        res.start == r.start + i,
        res.end == r.end + i,
{
    (r.start + i)..(r.end + i)
}

/// The key of a property: the value before the equals sign, which has to be
/// a string.
pub fn key_of<'text>(value: KdlValue<'text>) -> (r: Result<KdlString<'text>, ParseErrorCause>)
    ensures
        match value {
            KdlValue::String(k) => r == Ok::<KdlString<'text>, ParseErrorCause>(k),
            _ => r is Err && r->Err_0@ == (CauseView::InvalidKey { value: value@ }),
        },
{
    match value {
        KdlValue::String(key) => Ok(key),
        other => Err(ParseErrorCause::InvalidKey { value: other.into_static() }),
    }
}

impl<'a> Acc<'a> {
    /// The value at the cursor and its range, counted from the cursor.
    pub fn peek_value(&self) -> (r: Result<(KdlValue<'a>, Range<usize>), ParseErrorCause>)
        requires
            self.wf(),
        ensures
            match value_end(self.source(), self.end as int) {
                Ok(e) => r is Ok && r->Ok_0.1.start == 0 && self.end + r->Ok_0.1.end == e
                    && self.end < e && self.boundary(e) && r->Ok_0.0@ == ValueView::String(
                    text_of(self.source(), self.end as int, e),
                ) && encode_utf8(text_of(self.source(), self.end as int, e))
                    == self.source().subrange(self.end as int, e) && r->Ok_0.0.borrowed(),
                Err(c) => r is Err && r->Err_0@ == c,
            },
    {
        match self.peek_string() {
            Ok((string, range)) => Ok((KdlValue::String(string), range)),
            Err(cause) => Err(cause),
        }
    }

    /// Reads the value at the cursor and moves past it.
    pub fn consume_value(&mut self) -> (r: Result<KdlValue<'a>, ParseErrorCause>)
        requires
            old(self).wf(),
        ensures
            final(self).base == old(self).base,
            final(self).wf(),
            match value_end(old(self).source(), old(self).end as int) {
                Ok(e) => r is Ok && final(self).end == e && old(self).end < e && r->Ok_0@
                    == ValueView::String(text_of(old(self).source(), old(self).end as int, e))
                    && encode_utf8(text_of(old(self).source(), old(self).end as int, e))
                    == old(self).source().subrange(old(self).end as int, e) && r->Ok_0.borrowed(),
                Err(c) => r is Err && r->Err_0@ == c && final(self).end == old(self).end,
            },
    {
        match self.peek_value() {
            Ok((value, range)) => {
                self.consume_range(&range);
                Ok(value)
            },
            Err(cause) => Err(cause),
        }
    }
}

/// A pull parser over a source text.
#[derive(Clone, Copy, Debug)]
pub struct Parser<'text> {
    pub acc: Acc<'text>,
    pub document_depth: usize,
    pub state: State,
}

impl<'text> View for Parser<'text> {
    type V = Machine;

    open spec fn view(&self) -> Machine {
        Machine {
            source: self.acc.source(),
            end: self.acc.end as int,
            depth: self.document_depth as nat,
            state: self.state,
        }
    }
}

impl<'text> Parser<'text> {
    /// The cursor stands on a character boundary, every open child document
    /// has had its brace read, and the final state is only taken at the end
    /// of the source with no child document open.
    pub open spec fn wf(self) -> bool {
        &&& self.acc.wf()
        &&& self.document_depth <= self.acc.end
        &&& (self.state == State::Initial ==> self.document_depth == 0)
        &&& (self.state == State::Final ==> self.document_depth == 0 && self.acc.end
            == self.acc.source().len())
    }

    /// A parser at the start of `source`, before the start of the document.
    pub fn new(source: &'text str) -> (r: Self)
        ensures
            r.acc.base == source,
            r.acc.end == 0,
            r.document_depth == 0,
            r.state == State::Initial,
            r@ == Machine::initial(source.spec_bytes()),
            r.wf(),
    {
        Parser { acc: Acc::new(source), document_depth: 0, state: State::Initial }
    }

    pub fn is_root_document(&self) -> (r: bool)
        ensures
            r == (self.document_depth == 0),
    {
        self.document_depth == 0
    }

    fn start_document(&mut self)
        requires
            old(self).document_depth < usize::MAX,
        ensures
            final(self).acc == old(self).acc,
            final(self).state == old(self).state,
            final(self).document_depth == old(self).document_depth + 1,
    {
        self.document_depth = self.document_depth + 1;
    }

    fn end_document(&mut self)
        ensures
            final(self).acc == old(self).acc,
            final(self).state == old(self).state,
            final(self).document_depth == (if old(self).document_depth > 0 {
                old(self).document_depth - 1
            } else {
                0
            }),
    {
        if self.document_depth > 0 {
            self.document_depth = self.document_depth - 1;
        }
    }

    fn set_state(&mut self, new_state: State)
        ensures
            final(self).acc == old(self).acc,
            final(self).document_depth == old(self).document_depth,
            final(self).state == new_state,
    {
        self.state = new_state;
    }

    /// Tells whether a document ends at the cursor, and gives the range of
    /// what closes it: nothing at the end of the source, else the brace. A
    /// closing brace with no child document open is an error.
    fn check_end(&self) -> (r: Result<Option<Range<usize>>, ParseErrorCause>)
        requires
            self.wf(),
        ensures
            ({
                let s = self.acc.source();
                let p = self.acc.end as int;
                if p >= s.len() && self.document_depth == 0 {
                    r == Ok::<Option<Range<usize>>, ParseErrorCause>(Some(0..0))
                } else if peek_at(s, p) == Some('}') {
                    if self.document_depth == 0 {
                        r is Err && r->Err_0@ == CauseView::ExpectedValue
                    } else {
                        r == Ok::<Option<Range<usize>>, ParseErrorCause>(Some(0..1))
                            && self.acc.boundary(p + 1) && s[p] == 0x7du8
                    }
                } else {
                    r is Ok && r->Ok_0 is None
                }
            }),
    {
        if self.document_depth == 0 && self.acc.remaining_text().is_empty() {
            proof {
                let rem = self.acc.rest();
                if rem.len() > 0 {
                    lemma_boundary_step(self.acc.source(), self.acc.end as int);
                    decode_utf8_first_scalar(rem);
                }
            }
            return Ok(Some(0..0));
        }
        let mut sub = self.acc;
        match sub.consume_next_char() {
            Some(c) => {
                if c != '}' {
                    return Ok(None);
                }
            },
            None => {
                return Ok(None);
            },
        }
        if self.document_depth == 0 {
            return Err(ParseErrorCause::ExpectedValue);
        }
        Ok(Some(0..(sub.end - self.acc.end)))
    }

    /// Tells whether `c` ends a node, and gives the event for it with the
    /// range that it takes: a line break or a closing brace ends the node
    /// and is left unread, a semicolon ends it and is read.
    pub fn check_node_end(&self, c: char) -> (r: Result<
        Option<(Event<'text>, Range<usize>)>,
        ParseErrorCause,
    >)
        ensures
            r is Ok,
            newline(c) || c == '}' ==> item_is(
                r->Ok_0,
                EventView::NodeEnd { inline: false },
                0,
                0,
            ),
            c == ';' ==> item_is(r->Ok_0, EventView::NodeEnd { inline: true }, 0, 1),
            !(newline(c) || c == '}' || c == ';') ==> r->Ok_0 is None,
    {
        if is_newline(c) || c == '}' {
            Ok(item(Event::NodeEnd { inline: false }, 0..0))
        } else if c == ';' {
            Ok(item(Event::NodeEnd { inline: true }, 0..1))
        } else {
            Ok(None)
        }
    }

    /// Reads the entry at the cursor on a copy of it, and gives the entry
    /// with its range. The cursor itself stays where it is. An error comes
    /// with the place of the value that could not be read, counted from the
    /// cursor.
    fn peek_entry(&mut self) -> (r: Result<
        (KdlNodeEntry<'text>, Range<usize>),
        (ParseErrorCause, usize),
    >)
        requires
            old(self).wf(),
        ensures
            final(self).acc.base == old(self).acc.base,
            final(self).document_depth == old(self).document_depth,
            final(self).state == old(self).state,
            final(self).acc.wf(),
            final(self).acc.end == old(self).acc.end,
            match entry_at(old(self).acc.source(), old(self).acc.end as int) {
                Ok((entry, e)) => r is Ok && r->Ok_0.0@ == entry && r->Ok_0.1.start == 0
                    && old(self).acc.end + r->Ok_0.1.end == e && old(self).acc.end < e
                    && old(self).acc.boundary(e) && r->Ok_0.0.borrowed() && span_of(
                    old(self).acc.source(),
                    EventView::NodeEntry(entry),
                    false,
                    old(self).acc.end as int,
                    e,
                ),
                Err((c, at)) => r is Err && r->Err_0.0@ == c && old(self).acc.end + r->Err_0.1
                    == at && at <= old(self).acc.source().len(),
            },
    {
        let mut sub = self.acc;
        let first = match sub.consume_value() {
            Ok(v) => v,
            Err(cause) => {
                return Err((cause, 0));
            },
        };
        let is_property = match sub.peek_char() {
            Some(c) => is_equals(c),
            None => false,
        };
        if is_property {
            sub.consume_next_char();
            let key = match key_of(first) {
                Ok(key) => key,
                Err(cause) => {
                    self.acc.set_end(sub.end);
                    return Err((cause, 0));
                },
            };
            let value = match sub.consume_value() {
                Ok(v) => v,
                Err(cause) => {
                    return Err((cause, sub.end - self.acc.end));
                },
            };
            Ok((KdlNodeEntry::Property { key, value }, 0..(sub.end - self.acc.end)))
        } else {
            Ok((KdlNodeEntry::Argument(first), 0..(sub.end - self.acc.end)))
        }
    }

    /// Looks at what comes next and sets depth and state for it. The range of
    /// an event and the place of an error are counted from the cursor, which
    /// has only passed the whitespace within a node.
    fn peek_next_event(&mut self) -> (r: Result<
        Option<(Event<'text>, Range<usize>)>,
        (ParseErrorCause, usize),
    >)
        requires
            old(self).wf(),
        ensures
            final(self).acc.base == old(self).acc.base,
            final(self).acc.wf(),
            old(self).acc.end <= final(self).acc.end,
            final(self).state == old(self)@.next_step().state,
            final(self).document_depth == old(self)@.next_step().depth,
            r is Ok ==> item_borrowed(r->Ok_0),
            ({
                let st = old(self)@.next_step();
                match st.out {
                    Outcome::Event(ev) => {
                        &&& r is Ok
                        &&& item_is(r->Ok_0, ev, 0, st.end - st.start)
                        &&& final(self).acc.end == st.start
                        &&& final(self).acc.boundary(st.end)
                        &&& old(self)@.spans()
                        &&& old(self)@.advance().measure() < old(self)@.measure()
                    },
                    Outcome::Done => r is Ok && r->Ok_0 is None && final(self).acc.end == st.end,
                    Outcome::Fail(c) => {
                        &&& r is Err
                        &&& r->Err_0.0@ == c
                        &&& final(self).acc.end == st.end
                        &&& final(self).acc.end + r->Err_0.1 == st.start
                        &&& st.start <= old(self)@.source.len()
                    },
                }
            }),
    {
        let ghost s = self.acc.source();
        proof {
            reveal(Machine::next_step);
        }
        if !matches!(self.state, State::NodeEntries) {
            let (columns, blank) = self.acc.peek_blankspace();
            if blank.end > 0 {
                return Ok(item(Event::Indentation(columns), blank));
            }
        }
        match self.state {
            State::Initial => {
                self.set_state(State::Document);
                self.document_depth = 0;
                Ok(item(Event::StartDocument, 0..0))
            },
            State::Final => Ok(None),
            State::Document => {
                let closing = match self.check_end() {
                    Ok(c) => c,
                    Err(cause) => {
                        return Err((cause, 0));
                    },
                };
                if let Some(range) = closing {
                    let root = self.is_root_document();
                    proof {
                        let p = self.acc.end as int;
                        if !root {
                            assert(s.subrange(p, p + 1) =~= seq![0x7du8]);
                        }
                    }
                    self.end_document();
                    if root {
                        self.set_state(State::Final);
                    }
                    return Ok(item(Event::EndDocument, range));
                }
                match self.acc.peek_string() {
                    Ok((name, range)) => {
                        self.set_state(State::NodeEntries);
                        Ok(item(Event::NodeName(name), range))
                    },
                    Err(ParseErrorCause::NeedsMoreData) => Err(
                        (ParseErrorCause::NeedsMoreData, 0),
                    ),
                    Err(_) => Err((ParseErrorCause::InvalidNodeName, 0)),
                }
            },
            State::NodeEntries => {
                self.acc.consume_whitespace();
                let c = match self.acc.peek_char() {
                    Some(c) => c,
                    None => {
                        if self.document_depth == 0 {
                            self.set_state(State::Document);
                            return Ok(item(Event::NodeEnd { inline: true }, 0..0));
                        } else {
                            return Err((ParseErrorCause::NeedsMoreData, 0));
                        }
                    },
                };
                let ghost q = self.acc.end as int;
                if c == '{' {
                    self.set_state(State::Document);
                    self.start_document();
                    assert(s.subrange(q, q + 1) =~= seq![0x7bu8]);
                    return Ok(item(Event::StartDocument, 0..1));
                }
                let node_end = match self.check_node_end(c) {
                    Ok(e) => e,
                    Err(cause) => {
                        return Err((cause, 0));
                    },
                };
                if let Some(node_end) = node_end {
                    self.set_state(State::Document);
                    assert(c == ';' ==> s.subrange(q, q + 1) =~= seq![0x3bu8]);
                    return Ok(Some(node_end));
                }
                match self.peek_entry() {
                    Ok((entry, range)) => Ok(item(Event::NodeEntry(entry), range)),
                    Err(failure) => Err(failure),
                }
            },
        }
    }

    /// Hands out the next event with its range in the source, `None` once the
    /// root document has ended. The event borrows its text from the source.
    pub fn next_event_borrowed(&mut self) -> (r: Result<
        Option<(Event<'text>, Range<usize>)>,
        ParseError<'text>,
    >)
        requires
            old(self).wf(),
        ensures
            final(self).wf(),
            final(self).acc.base == old(self).acc.base,
            final(self)@ == old(self)@.advance(),
            old(self).acc.end <= final(self).acc.end,
            gives(r, old(self)@.next_step(), old(self).acc.base@),
            old(self)@.next_step().out is Event ==> old(self)@.spans() && final(self)@.measure()
                < old(self)@.measure(),
            old(self)@.next_step().out is Done ==> final(self)@ == old(self)@,
            r is Err ==> old(self).acc.end <= r->Err_0.at <= old(self)@.source.len(),
            r is Ok ==> item_borrowed(r->Ok_0),
            r is Err ==> r->Err_0.source is Borrowed,
    {
        let ghost before = self@;
        proof {
            reveal(Machine::next_step);
        }
        match self.peek_next_event() {
            Ok(Some((event, range))) => {
                let range = offset_by(&range, self.acc.end);
                self.acc.set_end(range.end);
                Ok(Some((event, range)))
            },
            Ok(None) => Ok(None),
            Err((cause, offset)) => Err(
                ParseError {
                    cause,
                    at: self.acc.end + offset,
                    source: Cow::Borrowed(self.acc.base()),
                },
            ),
        }
    }

    /// Pulls events until the parser is done, and gives them back in the order
    /// in which they came, or the error that ended the run.
    pub fn parse_to_end(&mut self) -> (r: Result<
        Vec<(Event<'text>, Range<usize>)>,
        ParseError<'text>,
    >)
        requires
            old(self).wf(),
        ensures
            final(self).wf(),
            final(self).acc.base == old(self).acc.base,
            match r {
                Ok(v) => old(self)@.done_after(v@, final(self)@) && forall|k: int|
                    0 <= k < v@.len() ==> (#[trigger] v@[k]).0.borrowed(),
                Err(e) => e.source@ == old(self).acc.base@ && exists|n: nat| #[trigger]
                    old(self)@.fails_after(n, e, final(self)@),
            },
    {
        let ghost m = self@;
        let mut events: Vec<(Event<'text>, Range<usize>)> = Vec::new();
        loop
            invariant
                self.wf(),
                self.acc.base == old(self).acc.base,
                m == old(self)@,
                self@ == m.after(events@.len()),
                m.is_trace(events@),
                m.spans_hold(events@.len()),
                forall|k: int| 0 <= k < events@.len() ==> (#[trigger] events@[k]).0.borrowed(),
            decreases self@.measure(),
        {
            let ghost n = events@.len();
            match self.next_event_borrowed() {
                Ok(Some(item)) => {
                    events.push(item);
                },
                Ok(None) => {
                    return Ok(events);
                },
                Err(e) => {
                    assert(m.fails_after(n, e, self@));
                    return Err(e);
                },
            }
        }
    }

    /// Hands out the next event as [`Parser::next_event_borrowed`] does, with
    /// event and error in storage of their own.
    pub fn next_event(&mut self) -> (r: Result<
        Option<(Event<'static>, Range<usize>)>,
        ParseError<'static>,
    >)
        requires
            old(self).wf(),
        ensures
            final(self).wf(),
            final(self).acc.base == old(self).acc.base,
            final(self)@ == old(self)@.advance(),
            old(self).acc.end <= final(self).acc.end,
            gives(r, old(self)@.next_step(), old(self).acc.base@),
            old(self)@.next_step().out is Event ==> old(self)@.spans() && final(self)@.measure()
                < old(self)@.measure(),
            old(self)@.next_step().out is Done ==> final(self)@ == old(self)@,
            r is Err ==> old(self).acc.end <= r->Err_0.at <= old(self)@.source.len(),
            r is Ok ==> item_owned(r->Ok_0),
            r is Err ==> r->Err_0.source is Owned,
    {
        match self.next_event_borrowed() {
            Ok(Some((event, range))) => Ok(Some((event.into_static(), range))),
            Ok(None) => Ok(None),
            Err(e) => Err(e.into_owned()),
        }
    }
}

} // verus!
