//! The text that an event was read from.
//!
//! [`fits`] is the table that tells, for an event and a slice of the source,
//! whether the slice is the text of that event. [`span_of`] is what the
//! parser promises of the range that it hands out with an event.

use crate::chars::equals;
use crate::event::{EntryView, Event, EventView, KdlNodeEntry};
use crate::utf8::{char_at, width_at};
use crate::value::{KdlValue, ValueView};
use std::ops::Range;
use vstd::prelude::*;
use vstd::slice::*;
use vstd::string::*;
use vstd::utf8::*;

verus! {

/// The bytes of `s` from `start` to `end` are the text of the event.
/// `outer` tells, of the start and the end of a document, that the document
/// is the root, which no brace opens or closes. A node that ends inline ends
/// at a semicolon, or at the end of the source, with nothing. Indentation
/// takes any text.
pub open spec fn fits(s: Seq<u8>, ev: EventView, outer: bool, start: int, end: int) -> bool {
    let slice = s.subrange(start, end);
    match ev {
        EventView::StartDocument => if outer {
            slice.len() == 0
        } else {
            slice == seq![0x7bu8]
        },
        EventView::EndDocument => if outer {
            slice.len() == 0
        } else {
            slice == seq![0x7du8]
        },
        EventView::NodeEnd { inline } => if inline {
            slice == seq![0x3bu8] || (slice.len() == 0 && start == s.len())
        } else {
            slice.len() == 0
        },
        EventView::Indentation(_) => true,
        EventView::NodeName(name) => slice == encode_utf8(name),
        EventView::NodeEntry(EntryView::Argument(ValueView::String(v))) => slice == encode_utf8(v),
        EventView::NodeEntry(EntryView::Property { key, value: ValueView::String(v) }) => slice
            == encode_utf8(key) + seq![0x3du8] + encode_utf8(v),
        EventView::NodeEntry(_) => true,
    }
}

/// The bytes of `s` from `start` to `end` are a property as it is written:
/// the key, one character that stands for the equals sign, and the value.
pub open spec fn property_span(
    s: Seq<u8>,
    start: int,
    end: int,
    key: Seq<char>,
    value: Seq<char>,
) -> bool {
    let a = start + encode_utf8(key).len();
    &&& s.subrange(start, a) == encode_utf8(key)
    &&& a < end <= s.len()
    &&& equals(char_at(s, a))
    &&& (char_at(s, a) == '=' ==> s[a] == 0x3du8)
    &&& a + width_at(s, a) <= end
    &&& s.subrange(a + width_at(s, a), end) == encode_utf8(value)
}

/// What the parser promises of the range from `start` to `end` that it hands
/// out with `ev`: the text of the event as [`fits`] has it, but for one
/// thing. A property is written with any character of the equals family.
pub open spec fn span_of(s: Seq<u8>, ev: EventView, outer: bool, start: int, end: int) -> bool {
    match ev {
        EventView::NodeEntry(EntryView::Property { key, value: ValueView::String(v) }) => {
            property_span(s, start, end, key, v)
        },
        _ => fits(s, ev, outer, start, end),
    }
}

/// The event at `start` is written plainly: if it is a property, its sign is
/// the plain equals sign.
pub open spec fn plain(s: Seq<u8>, ev: EventView, start: int) -> bool {
    ev matches EventView::NodeEntry(EntryView::Property { key, .. }) ==> char_at(
        s,
        start + encode_utf8(key).len(),
    ) == '='
}

/// The range that the parser hands out with an event holds the text of the
/// event, exactly as the table has it, where the event is written plainly.
pub proof fn lemma_span_fits(s: Seq<u8>, ev: EventView, outer: bool, start: int, end: int)
    requires
        span_of(s, ev, outer, start, end),
        0 <= start <= end <= s.len(),
        plain(s, ev, start),
    ensures
        fits(s, ev, outer, start, end),
{
    match ev {
        EventView::NodeEntry(EntryView::Property { key, value: ValueView::String(v) }) => {
            let a = start + encode_utf8(key).len();
            assert(s.subrange(start, end) =~= s.subrange(start, a) + seq![0x3du8] + s.subrange(
                a + 1,
                end,
            ));
        },
        _ => {},
    }
}

/// A range that is not empty and comes with the start of a document holds
/// the opening brace and nothing else, and one that comes with the end of a
/// document holds the closing brace and nothing else.
pub proof fn lemma_brace_spans(s: Seq<u8>, ev: EventView, outer: bool, start: int, end: int)
    requires
        span_of(s, ev, outer, start, end),
        0 <= start < end <= s.len(),
    ensures
        ev is StartDocument ==> s.subrange(start, end) == seq![0x7bu8],
        ev is EndDocument ==> s.subrange(start, end) == seq![0x7du8],
{
}

/// The number of documents that the first `i` events of the list leave
/// open. An end with no document open leaves none open.
pub open spec fn open_before(evs: Seq<(Event<'_>, Range<usize>)>, i: nat) -> nat
    decreases i,
{
    if i == 0 {
        0
    } else {
        let d = open_before(evs, (i - 1) as nat);
        let ev = evs[i - 1].0@;
        if ev is StartDocument {
            d + 1
        } else if ev is EndDocument && d > 0 {
            (d - 1) as nat
        } else {
            d
        }
    }
}

/// Event number `i` of the list starts or ends the root document, if it
/// starts or ends a document at all: it starts one with none open, or ends
/// the only one that is open.
pub open spec fn outer_at(evs: Seq<(Event<'_>, Range<usize>)>, i: int) -> bool {
    if evs[i].0@ is StartDocument {
        open_before(evs, i as nat) == 0
    } else {
        evs[i].0@ is EndDocument && open_before(evs, i as nat) == 1
    }
}

/// The range of event number `i` of the list lies in `s` and holds the text
/// of the event, and the event does not end a document where none is open.
pub open spec fn fit_at(s: Seq<u8>, evs: Seq<(Event<'_>, Range<usize>)>, i: int) -> bool {
    let range = evs[i].1;
    &&& range.start <= range.end <= s.len()
    &&& !(evs[i].0@ is EndDocument && open_before(evs, i as nat) == 0)
    &&& fits(s, evs[i].0@, outer_at(evs, i), range.start as int, range.end as int)
}

/// Each range of the list holds the text of its event.
pub open spec fn all_fit(s: Seq<u8>, evs: Seq<(Event<'_>, Range<usize>)>) -> bool {
    forall|i: int| 0 <= i < evs.len() ==> #[trigger] fit_at(s, evs, i)
}

/// The events among the first `n` of the list whose range does not hold
/// their text, in their order: the number of each, and whether it starts or
/// ends the root document.
pub open spec fn misfit_list(
    s: Seq<u8>,
    evs: Seq<(Event<'_>, Range<usize>)>,
    n: nat,
) -> Seq<(usize, bool)>
    decreases n,
{
    if n == 0 {
        Seq::empty()
    } else if fit_at(s, evs, n - 1) {
        misfit_list(s, evs, (n - 1) as nat)
    } else {
        misfit_list(s, evs, (n - 1) as nat).push(((n - 1) as usize, outer_at(evs, n - 1)))
    }
}

/// Every range of the first `n` events holds the text of its event exactly
/// where none of them is listed as one that does not.
pub proof fn lemma_no_misfits(s: Seq<u8>, evs: Seq<(Event<'_>, Range<usize>)>, n: nat)
    ensures
        misfit_list(s, evs, n).len() == 0 <==> forall|i: int|
            0 <= i < n ==> #[trigger] fit_at(s, evs, i),
    decreases n,
{
    if n > 0 {
        lemma_no_misfits(s, evs, (n - 1) as nat);
        if misfit_list(s, evs, n).len() == 0 {
            assert(fit_at(s, evs, n - 1));
        }
    }
}

/// Tells whether two slices hold the same bytes.
pub fn bytes_eq(a: &[u8], b: &[u8]) -> (r: bool)
    ensures
        r == (a@ == b@),
{
    if a.len() != b.len() {
        return false;
    }
    let mut i: usize = 0;
    while i < a.len()
        invariant
            i <= a.len(),
            a.len() == b.len(),
            forall|j: int| 0 <= j < i ==> a@[j] == b@[j],
        decreases a.len() - i,
    {
        if a[i] != b[i] {
            return false;
        }
        i = i + 1;
    }
    assert(a@ =~= b@);
    true
}

/// Tells whether `slice` is the one byte `b`.
fn is_byte(slice: &[u8], b: u8) -> (r: bool)
    ensures
        r == (slice@ == seq![b]),
{
    if slice.len() == 1 && slice[0] == b {
        assert(slice@ =~= seq![b]);
        true
    } else {
        assert(slice@.len() == 1 ==> slice@[0] == seq![b][0] || slice@ != seq![b]);
        false
    }
}

/// Tells whether the bytes of `source` in `range` are the text of `event`,
/// as [`fits`] has it.
pub fn span_fits(source: &str, event: &Event, outer: bool, range: &Range<usize>) -> (r: bool)
    ensures
        r == (range.start <= range.end <= source.spec_bytes().len() && fits(
            source.spec_bytes(),
            event@,
            outer,
            range.start as int,
            range.end as int,
        )),
{
    let all = source.as_bytes();
    if range.start > range.end || range.end > all.len() {
        return false;
    }
    let found = slice_subrange(all, range.start, range.end);
    match event {
        Event::StartDocument => if outer {
            found.len() == 0
        } else {
            is_byte(found, 0x7b)
        },
        Event::EndDocument => if outer {
            found.len() == 0
        } else {
            is_byte(found, 0x7d)
        },
        Event::NodeEnd { inline } => if *inline {
            is_byte(found, 0x3b) || (found.len() == 0 && range.start == all.len())
        } else {
            found.len() == 0
        },
        Event::Indentation(_) => true,
        Event::NodeName(name) => bytes_eq(found, name.as_str().as_bytes()),
        Event::NodeEntry(KdlNodeEntry::Argument(KdlValue::String(v))) => bytes_eq(
            found,
            v.as_str().as_bytes(),
        ),
        Event::NodeEntry(KdlNodeEntry::Property { key, value: KdlValue::String(v) }) => {
            let k = key.as_str().as_bytes();
            let v = v.as_str().as_bytes();
            if found.len() < k.len() || found.len() - k.len() < 1 || found.len() - k.len() - 1
                != v.len() {
                assert(found@.len() != (k@ + seq![0x3du8] + v@).len());
                return false;
            }
            let head = slice_subrange(found, 0, k.len());
            let sign = slice_subrange(found, k.len(), k.len() + 1);
            let tail = slice_subrange(found, k.len() + 1, found.len());
            let same = bytes_eq(head, k) && is_byte(sign, 0x3d) && bytes_eq(tail, v);
            proof {
                let whole = k@ + seq![0x3du8] + v@;
                if same {
                    assert(found@ =~= whole);
                } else {
                    if found@ == whole {
                        assert(head@ =~= k@);
                        assert(sign@ =~= seq![0x3du8]);
                        assert(tail@ =~= v@);
                    }
                }
            }
            same
        },
        Event::NodeEntry(_) => true,
    }
}

/// Holds event number `i` of the list against the source, with `depth`
/// documents open before it. Gives back whether its range holds its text,
/// whether it starts or ends the root document, and the number of documents
/// open behind it.
fn fit_step(source: &str, events: &Vec<(Event, Range<usize>)>, i: usize, depth: usize) -> (r: (
    bool,
    bool,
    usize,
))
    requires
        i < events@.len() <= usize::MAX,
        depth == open_before(events@, i as nat),
        depth <= i,
    ensures
        r.0 == fit_at(source.spec_bytes(), events@, i as int),
        r.1 == outer_at(events@, i as int),
        r.2 == open_before(events@, (i + 1) as nat),
        r.2 <= i + 1,
{
    let event = &events[i].0;
    let range = &events[i].1;
    match event {
        Event::StartDocument => {
            (span_fits(source, event, depth == 0, range), depth == 0, depth + 1)
        },
        Event::EndDocument => if depth == 0 {
            (false, false, 0)
        } else {
            (span_fits(source, event, depth == 1, range), depth == 1, depth - 1)
        },
        _ => (span_fits(source, event, false, range), false, depth),
    }
}

/// Walks a list of events with their ranges, and gives back those whose
/// range does not hold their text in `source`: the number of each in the
/// list, and whether it starts or ends the root document.
pub fn misfits(source: &str, events: &Vec<(Event, Range<usize>)>) -> (r: Vec<(usize, bool)>)
    ensures
        r@ == misfit_list(source.spec_bytes(), events@, events@.len()),
{
    let mut found: Vec<(usize, bool)> = Vec::new();
    let mut depth: usize = 0;
    let mut i: usize = 0;
    while i < events.len()
        invariant
            i <= events@.len(),
            depth <= i,
            depth == open_before(events@, i as nat),
            found@ == misfit_list(source.spec_bytes(), events@, i as nat),
        decreases events@.len() - i,
    {
        let (fit, outer, open) = fit_step(source, events, i, depth);
        if !fit {
            found.push((i, outer));
        }
        depth = open;
        i = i + 1;
    }
    found
}

/// Walks a list of events with their ranges, and tells whether each range
/// holds the text of its event in `source`.
pub fn spans_fit(source: &str, events: &Vec<(Event, Range<usize>)>) -> (r: bool)
    ensures
        r == all_fit(source.spec_bytes(), events@),
{
    let mut depth: usize = 0;
    let mut i: usize = 0;
    while i < events.len()
        invariant
            i <= events@.len(),
            depth <= i,
            depth == open_before(events@, i as nat),
            forall|j: int| 0 <= j < i ==> #[trigger] fit_at(source.spec_bytes(), events@, j),
        decreases events@.len() - i,
    {
        let (fit, _, open) = fit_step(source, events, i, depth);
        if !fit {
            return false;
        }
        depth = open;
        i = i + 1;
    }
    true
}

} // verus!
