//! The emitter: it pulls the events of a parser and writes the document
//! again as text.

use crate::error::ParseError;
use crate::event::{EntryView, Event, EventView, KdlNodeEntry};
use crate::parser::{gives, Machine, Outcome, Parser, State};
use crate::string::KdlString;
use crate::value::{value_text, KdlValue};
use vstd::prelude::*;
use vstd::string::*;

verus! {

/// `n` spaces.
pub open spec fn spaces(n: nat) -> Seq<char>
    decreases n,
{
    if n == 0 {
        Seq::empty()
    } else {
        spaces((n - 1) as nat) + " "@
    }
}

/// An event as it is written. The root document has no braces: `outer` tells
/// that a start or an end of a document is that of the root.
pub open spec fn body(ev: EventView, outer: bool) -> Seq<char> {
    match ev {
        EventView::StartDocument => if outer {
            Seq::empty()
        } else {
            "{"@
        },
        EventView::EndDocument => if outer {
            Seq::empty()
        } else {
            "}"@
        },
        EventView::Indentation(n) => "\n"@ + spaces(n),
        EventView::NodeName(name) => name,
        EventView::NodeEntry(EntryView::Argument(v)) => value_text(v),
        EventView::NodeEntry(EntryView::Property { key, value }) => key + "="@ + value_text(
            value,
        ),
        EventView::NodeEnd { inline } => if inline {
            ";"@
        } else {
            Seq::empty()
        },
    }
}

/// A name or an entry asks for a space before what follows it.
pub open spec fn leaves_space(ev: EventView) -> bool {
    ev is NodeName || ev is NodeEntry
}

/// What is written for an event: the space that was asked for, unless the
/// event is an indentation or the end of a node, and the event itself.
pub open spec fn render(ev: EventView, outer: bool, space: bool) -> Seq<char> {
    (if space && !(ev is Indentation || ev is NodeEnd) {
        " "@
    } else {
        Seq::empty()
    }) + body(ev, outer)
}

/// Whether a space is asked for before call number `k`.
pub open spec fn space_before(m: Machine, space: bool, k: nat) -> bool {
    if k == 0 {
        space
    } else {
        leaves_space(m.event_at((k - 1) as nat))
    }
}

/// What is written for the events of the first `n` calls.
pub open spec fn emitted(m: Machine, space: bool, n: nat) -> Seq<char>
    decreases n,
{
    if n == 0 {
        Seq::empty()
    } else {
        emitted(m, space, (n - 1) as nat) + render(
            m.event_at((n - 1) as nat),
            m.after((n - 1) as nat).outer_step(),
            space_before(m, space, (n - 1) as nat),
        )
    }
}

/// An emitter: the parser that it pulls, and whether what it wrote last
/// asks for a space before what follows.
pub struct KdlEmitter<'input> {
    pub parser: Parser<'input>,
    pub space: bool,
}

/// The emitter made `n` calls that handed out events and one that did not,
/// wrote the events, and gives back what the last call said.
pub open spec fn emit_run(
    before: KdlEmitter,
    written: Seq<char>,
    n: nat,
    after: KdlEmitter,
    r: Result<(), ParseError>,
) -> bool {
    &&& before.parser@.all_events(n)
    &&& written == emitted(before.parser@, before.space, n)
    &&& after.parser@ == before.parser@.after(n + 1)
    &&& after.space == space_before(before.parser@, before.space, n)
    &&& match r {
        Ok(_) => before.parser@.after(n).next_step().out is Done,
        Err(e) => before.parser@.after(n).next_step().out == Outcome::Fail(e.cause@) && e.at
            == before.parser@.after(n).next_step().start && e.source@ == before.parser.acc.base@,
    }
}

/// The text of one event as it is written by itself: the text that its
/// range holds in a source. `outer` tells, of the start and the end of a
/// document, that the document is the root.
pub fn event_text(event: &Event, outer: bool) -> (r: String)
    ensures
        r@ == body(event@, outer),
{
    let emitter = KdlEmitter::new(Parser::new(""));
    let mut out = String::new();
    emitter.emit_body(event, outer, &mut out);
    assert(out@ =~= body(event@, outer));
    out
}

impl<'input> KdlEmitter<'input> {
    /// An emitter for what `parser` has still to hand out.
    pub fn new(parser: Parser<'input>) -> (r: Self)
        ensures
            r.parser == parser,
            !r.space,
    {
        KdlEmitter { parser, space: false }
    }

    /// Writes a value to `out`.
    fn emit_value(&self, value: &KdlValue, out: &mut String)
        ensures
            final(out)@ == old(out)@ + value_text(value@),
    {
        match value {
            KdlValue::String(string) => self.emit_string(string, out),
            KdlValue::Bool(b) => {
                if *b {
                    out.append("true");
                } else {
                    out.append("false");
                }
            },
            KdlValue::Null => {
                out.append("null");
            },
        }
    }

    /// Writes a string to `out`, as it stood in the source.
    fn emit_string(&self, string: &KdlString, out: &mut String)
        ensures
            final(out)@ == old(out)@ + string@,
    {
        out.append(string.as_str());
    }

    /// Notes that what was written asks for a space before what follows.
    fn signal_space(&mut self)
        ensures
            final(self).parser == old(self).parser,
            final(self).space,
    {
        self.space = true;
    }

    /// Writes one event to `out`, as it is written by itself.
    fn emit_body(&self, event: &Event, outer: bool, out: &mut String)
        ensures
            final(out)@ == old(out)@ + body(event@, outer),
    {
        let ghost start = out@;
        match event {
            Event::StartDocument => {
                if !outer {
                    out.append("{");
                }
            },
            Event::Indentation(amount) => {
                out.append("\n");
                let mut i: usize = 0;
                while i < *amount
                    invariant
                        i <= *amount,
                        out@ == start + "\n"@ + spaces(i as nat),
                    decreases *amount - i,
                {
                    out.append(" ");
                    i = i + 1;
                }
            },
            Event::NodeName(name) => {
                self.emit_string(name, out);
            },
            Event::NodeEntry(entry) => {
                match entry {
                    KdlNodeEntry::Argument(arg) => self.emit_value(arg, out),
                    KdlNodeEntry::Property { key, value } => {
                        self.emit_string(key, out);
                        out.append("=");
                        self.emit_value(value, out);
                    },
                }
            },
            Event::NodeEnd { inline } => {
                if *inline {
                    out.append(";");
                }
            },
            Event::EndDocument => {
                if !outer {
                    out.append("}");
                }
            },
        }
        assert(out@ =~= start + body(event@, outer));
    }

    /// Writes one event to `out`, with the space before it if one was asked
    /// for, and notes whether the event asks for one.
    fn emit_event(&mut self, event: &Event, outer: bool, out: &mut String)
        ensures
            final(self).parser == old(self).parser,
            final(self).space == leaves_space(event@),
            final(out)@ == old(out)@ + render(event@, outer, old(self).space),
    {
        let ghost start = out@;
        if self.space && !matches!(event, Event::Indentation(_) | Event::NodeEnd { .. }) {
            out.append(" ");
        }
        self.space = false;
        self.emit_body(event, outer, out);
        if matches!(event, Event::NodeName(_) | Event::NodeEntry(_)) {
            self.signal_space();
        }
        assert(out@ =~= start + render(event@, outer, old(self).space));
    }

    /// Pulls one event and writes it. Gives back `None` after an event, and
    /// else what ends the run: `Ok` when the parser is done, or its error.
    fn emit_next(&mut self, out: &mut String) -> (r: Option<Result<(), ParseError<'input>>>)
        requires
            old(self).parser.wf(),
        ensures
            final(self).parser.wf(),
            final(self).parser.acc.base == old(self).parser.acc.base,
            final(self).parser@ == old(self).parser@.advance(),
            ({
                let m = old(self).parser@;
                match m.next_step().out {
                    Outcome::Event(ev) => {
                        &&& r is None
                        &&& final(out)@ == old(out)@ + render(ev, m.outer_step(), old(self).space)
                        &&& final(self).space == leaves_space(ev)
                        &&& final(self).parser@.measure() < m.measure()
                    },
                    _ => {
                        &&& r is Some
                        &&& gives(
                            match r->0 {
                                Ok(_) => Ok(None),
                                Err(e) => Err(e),
                            },
                            m.next_step(),
                            old(self).parser.acc.base@,
                        )
                        &&& final(out)@ == old(out)@
                        &&& final(self).space == old(self).space
                    },
                }
            }),
    {
        let none_before = matches!(self.parser.state, State::Initial | State::Final);
        match self.parser.next_event_borrowed() {
            Err(e) => Some(Err(e)),
            Ok(None) => Some(Ok(())),
            Ok(Some((event, _))) => {
                let none_after = matches!(self.parser.state, State::Initial | State::Final);
                self.emit_event(&event, none_before || none_after, out);
                None
            },
        }
    }

    /// Pulls the parser until it hands out no more events, and adds to `out`
    /// the text of each event. An error of the parser ends the run; what was
    /// written before it stays in `out`.
    pub fn emit(&mut self, out: &mut String) -> (r: Result<(), ParseError<'input>>)
        requires
            old(self).parser.wf(),
        ensures
            final(self).parser.wf(),
            final(self).parser.acc.base == old(self).parser.acc.base,
            final(out)@.len() >= old(out)@.len(),
            final(out)@.take(old(out)@.len() as int) == old(out)@,
            exists|n: nat| #[trigger]
                emit_run(
                    *old(self),
                    final(out)@.skip(old(out)@.len() as int),
                    n,
                    *final(self),
                    r,
                ),
    {
        let ghost m = self.parser@;
        let ghost first = self.space;
        let ghost start = out@;
        let ghost mut n: nat = 0;
        loop
            invariant
                self.parser.wf(),
                self.parser.acc.base == old(self).parser.acc.base,
                self.parser@ == m.after(n),
                m == old(self).parser@,
                first == old(self).space,
                start == old(out)@,
                m.all_events(n),
                out@ == start + emitted(m, first, n),
                self.space == space_before(m, first, n),
            decreases self.parser@.measure(),
        {
            match self.emit_next(out) {
                Some(r) => {
                    proof {
                        assert(out@.skip(start.len() as int) =~= emitted(m, first, n));
                        assert(out@.take(start.len() as int) =~= start);
                        assert(emit_run(*old(self), out@.skip(start.len() as int), n, *self, r));
                    }
                    return r;
                },
                None => {
                    proof {
                        assert(out@ =~= start + emitted(m, first, n + 1));
                        n = n + 1;
                    }
                },
            }
        }
    }
}

} // verus!
