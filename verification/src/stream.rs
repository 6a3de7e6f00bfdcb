//! What holds of every stream of events, whatever the source.

use crate::chars::{digit, newline, non_identifier, whitespace};
use crate::error::CauseView;
use crate::event::{Event, EventView};
use crate::lexeme::{
    blank_cols, blank_end, clip, ident_end, quoted_end, string_end, unread, ws_end,
};
use crate::parser::{item_is, Machine, Outcome, State};
use crate::span::{all_fit, fit_at, fits, lemma_span_fits, open_before, plain};
use crate::utf8::{char_at, width_at};
use std::ops::Range;
use vstd::prelude::*;

verus! {

/// The number of documents that start in the first `n` calls.
pub open spec fn starts(m: Machine, n: nat) -> nat
    decreases n,
{
    if n == 0 {
        0
    } else {
        starts(m, (n - 1) as nat) + (if m.after((n - 1) as nat).next_step().out
            == Outcome::Event(EventView::StartDocument) {
            1nat
        } else {
            0nat
        })
    }
}

/// The number of documents that end in the first `n` calls.
pub open spec fn ends(m: Machine, n: nat) -> nat
    decreases n,
{
    if n == 0 {
        0
    } else {
        ends(m, (n - 1) as nat) + (if m.after((n - 1) as nat).next_step().out
            == Outcome::Event(EventView::EndDocument) {
            1nat
        } else {
            0nat
        })
    }
}

/// A document that starts is one more open document, a document that ends is
/// one less, and no other call changes their number.
pub proof fn lemma_step_opened(m: Machine)
    ensures
        m.next_step().out == Outcome::Event(EventView::StartDocument) ==> m.advance().opened()
            == m.opened() + 1,
        m.next_step().out == Outcome::Event(EventView::EndDocument) ==> m.advance().opened() + 1
            == m.opened(),
        m.next_step().out != Outcome::Event(EventView::StartDocument) && m.next_step().out
            != Outcome::Event(EventView::EndDocument) ==> m.advance().opened() == m.opened(),
{
    reveal(Machine::next_step);
}

/// Over any number of calls, the documents that started are those that ended
/// and those that are still open.
pub proof fn lemma_opened_after(m: Machine, n: nat)
    ensures
        starts(m, n) + m.opened() == ends(m, n) + m.after(n).opened(),
    decreases n,
{
    if n > 0 {
        lemma_opened_after(m, (n - 1) as nat);
        lemma_step_opened(m.after((n - 1) as nat));
    }
}

/// From the first call on, no more documents have ended than have started,
/// and once the parser is done, as many have ended as have started.
pub proof fn lemma_documents_balance(source: Seq<u8>, n: nat)
    ensures
        starts(Machine::initial(source), n) >= ends(Machine::initial(source), n),
        Machine::initial(source).after(n).next_step().out is Done ==> starts(
            Machine::initial(source),
            n,
        ) == ends(Machine::initial(source), n),
{
    reveal(Machine::next_step);
    lemma_opened_after(Machine::initial(source), n);
}

/// Calls leave the source as it is.
pub proof fn lemma_same_source(m: Machine, n: nat)
    ensures
        m.after(n).source == m.source,
    decreases n,
{
    if n > 0 {
        lemma_same_source(m, (n - 1) as nat);
    }
}

/// Calls keep the final state at the end of the source.
pub proof fn lemma_inv_after(m: Machine, n: nat)
    requires
        m.inv(),
    ensures
        m.after(n).inv(),
    decreases n,
{
    reveal(Machine::next_step);
    if n > 0 {
        lemma_inv_after(m, (n - 1) as nat);
    }
}

/// The events of a node come in order: the name is handed out between
/// nodes, entries and the end of the node behind the name. A document starts
/// at the first call or behind the entries of a node, and ends between nodes.
/// Indentation is handed out anywhere but within a node.
pub proof fn lemma_event_order(m: Machine)
    ensures
        match m.next_step().out {
            Outcome::Event(EventView::NodeName(_)) => m.state == State::Document
                && m.advance().state == State::NodeEntries,
            Outcome::Event(EventView::NodeEntry(_)) => m.state == State::NodeEntries
                && m.advance().state == State::NodeEntries,
            Outcome::Event(EventView::NodeEnd { .. }) => m.state == State::NodeEntries
                && m.advance().state == State::Document,
            Outcome::Event(EventView::StartDocument) => (m.state == State::Initial || m.state
                == State::NodeEntries) && m.advance().state == State::Document,
            Outcome::Event(EventView::EndDocument) => m.state == State::Document && (
            m.advance().state == State::Document || m.advance().state == State::Final),
            Outcome::Event(EventView::Indentation(_)) => m.state != State::NodeEntries,
            Outcome::Done => m.state == State::Final,
            Outcome::Fail(_) => m.advance().state == m.state && m.advance().depth == m.depth,
        },
{
    reveal(Machine::next_step);
}

/// Outside a node, blank space at the cursor is handed out as an
/// indentation event: its range is the whole run of whitespace and line
/// breaks, and its number the column at which the run leaves off. Depth and
/// state stay as they are.
pub proof fn lemma_indentation_comes(m: Machine)
    requires
        m.state != State::NodeEntries,
        blank_end(m.source, m.end) > m.end,
    ensures
        m.next_step().out == Outcome::Event(
            EventView::Indentation(clip(blank_cols(m.source, m.end, 0)) as nat),
        ),
        m.next_step().start == m.end,
        m.next_step().end == blank_end(m.source, m.end),
        m.advance().state == m.state,
        m.advance().depth == m.depth,
{
    reveal(Machine::next_step);
}

/// An indentation event leaves depth and state as they are: it only moves
/// the cursor past the blank space.
pub proof fn lemma_indentation_keeps_state(m: Machine)
    ensures
        m.next_step().out matches Outcome::Event(EventView::Indentation(_))
            ==> m.advance().state == m.state && m.advance().depth == m.depth
            && m.advance().source == m.source,
{
    reveal(Machine::next_step);
}

/// The parser is fused: once a call hands out nothing, the machine stays as
/// it is, and every later call hands out nothing.
pub proof fn lemma_fused(m: Machine, n: nat)
    requires
        m.inv(),
        m.next_step().out is Done,
    ensures
        m.after(n) == m,
        m.after(n).next_step().out is Done,
    decreases n,
{
    reveal(Machine::next_step);
    if n > 0 {
        lemma_fused(m, (n - 1) as nat);
        assert(m.advance() == m);
    }
}

/// A run of whitespace does not end before it starts.
pub proof fn lemma_ws_end_forward(s: Seq<u8>, p: int)
    ensures
        ws_end(s, p) >= p,
    decreases unread(s, p),
{
    if 0 <= p < s.len() && whitespace(char_at(s, p)) {
        lemma_ws_end_forward(s, p + width_at(s, p));
    }
}

/// A run of blank space does not end before it starts.
pub proof fn lemma_blank_end_forward(s: Seq<u8>, p: int)
    ensures
        blank_end(s, p) >= p,
    decreases unread(s, p),
{
    if 0 <= p < s.len() && (whitespace(char_at(s, p)) || newline(char_at(s, p))) {
        lemma_blank_end_forward(s, p + width_at(s, p));
    }
}

/// An identifier does not end before it starts.
pub proof fn lemma_ident_end_forward(s: Seq<u8>, p: int)
    ensures
        ident_end(s, p) >= p,
    decreases unread(s, p),
{
    if 0 <= p < s.len() && !non_identifier(char_at(s, p)) {
        lemma_ident_end_forward(s, p + width_at(s, p));
    }
}

/// A quoted string does not end before it starts.
pub proof fn lemma_quoted_end_forward(s: Seq<u8>, p: int)
    ensures
        quoted_end(s, p) >= p,
    decreases unread(s, p),
{
    if 0 <= p < s.len() && char_at(s, p) != '"' {
        lemma_quoted_end_forward(s, p + width_at(s, p));
    }
}

/// A string takes at least one byte.
pub proof fn lemma_string_end_forward(s: Seq<u8>, p: int)
    ensures
        string_end(s, p) matches Ok(e) ==> e > p,
{
    if 0 <= p < s.len() {
        lemma_ident_end_forward(s, p + width_at(s, p));
        lemma_quoted_end_forward(s, p + width_at(s, p));
    }
}

/// Every event brings the run nearer to its end. No call moves the cursor
/// back, and a failure is found at the cursor or behind it.
pub proof fn lemma_step_measure(m: Machine)
    requires
        m.end >= 0,
    ensures
        m.advance().end >= m.end,
        m.next_step().out is Fail ==> m.next_step().start >= m.end,
        m.next_step().out is Event ==> m.advance().measure() < m.measure(),
{
    reveal(Machine::next_step);
    let s = m.source;
    let q = ws_end(s, m.end);
    lemma_ws_end_forward(s, m.end);
    lemma_blank_end_forward(s, m.end);
    lemma_string_end_forward(s, m.end);
    lemma_string_end_forward(s, q);
    if string_end(s, q) is Ok {
        let a = string_end(s, q)->Ok_0;
        if 0 <= a < s.len() {
            lemma_string_end_forward(s, a + width_at(s, a));
        }
    }
}

/// The calls after the first are the calls of the machine that the first
/// one leaves.
pub proof fn lemma_after_shift(m: Machine, k: nat)
    ensures
        m.advance().after(k) == m.after(k + 1),
    decreases k,
{
    if k > 0 {
        lemma_after_shift(m, (k - 1) as nat);
    } else {
        assert(m.after(1) == m.after(0).advance());
    }
}

/// Every run ends: after some number of events comes a call that hands out
/// no event.
pub proof fn lemma_run_ends(m: Machine)
    requires
        m.end >= 0,
    ensures
        exists|n: nat| m.all_events(n) && !(#[trigger] m.after(n).next_step().out is Event),
    decreases m.measure(),
{
    if m.next_step().out is Event {
        let next = m.advance();
        lemma_step_measure(m);
        lemma_run_ends(next);
        let rest = choose|n: nat|
            next.all_events(n) && !(#[trigger] next.after(n).next_step().out is Event);
        let n = rest + 1;
        assert forall|k: nat| k < n implies #[trigger] m.after(k).next_step().out is Event by {
            if k > 0 {
                lemma_after_shift(m, (k - 1) as nat);
                assert(next.after((k - 1) as nat).next_step().out is Event);
            }
        }
        lemma_after_shift(m, rest);
        assert(m.all_events(n) && !(m.after(n).next_step().out is Event));
    } else {
        assert(m.all_events(0) && !(m.after(0).next_step().out is Event));
    }
}

/// No number of calls moves the cursor back.
pub proof fn lemma_cursor_forward(m: Machine, k: nat)
    requires
        m.end >= 0,
    ensures
        m.after(k).end >= m.end,
    decreases k,
{
    if k > 0 {
        lemma_cursor_forward(m, (k - 1) as nat);
        lemma_step_measure(m.after((k - 1) as nat));
    }
}

/// The first `n` calls hand out events and the next one fails, at the
/// cursor of `m` or behind it, asking for more data exactly where it fails at
/// or behind the end of the source.
pub open spec fn fails_behind(m: Machine, n: nat) -> bool {
    let st = m.after(n).next_step();
    &&& m.all_events(n)
    &&& st.out is Fail
    &&& st.start >= m.end
    &&& (st.out == Outcome::Fail(CauseView::NeedsMoreData) <==> st.start >= m.source.len())
}

/// A run that keeps a child document open never comes to the end of the
/// root document. With `m` the machine that has read the opening brace of
/// the child: after some number of events the run fails, behind the brace,
/// and where it fails at the end of the source, it asks for more data.
pub proof fn lemma_unclosed_child(m: Machine)
    requires
        m.end >= 0,
        forall|k: nat|
            (#[trigger] m.after(k)).depth > 0 && (m.after(k).state == State::Document
                || m.after(k).state == State::NodeEntries),
    ensures
        exists|n: nat| #[trigger] fails_behind(m, n),
{
    lemma_run_ends(m);
    let n = choose|n: nat|
        m.all_events(n) && !(#[trigger] m.after(n).next_step().out is Event);
    lemma_child_keeps_open(m.after(n));
    lemma_cursor_forward(m, n);
    lemma_same_source(m, n);
    lemma_step_measure(m.after(n));
    lemma_needs_more_data(m.after(n));
    assert(fails_behind(m, n));
}

/// The parser asks for more data exactly where it fails at or behind the end
/// of the source.
pub proof fn lemma_needs_more_data(m: Machine)
    requires
        m.end >= 0,
        m.next_step().out is Fail,
    ensures
        m.next_step().out == Outcome::Fail(CauseView::NeedsMoreData) <==> m.next_step().start
            >= m.source.len(),
{
    reveal(Machine::next_step);
    lemma_ws_end_forward(m.source, m.end);
}

/// Where the parser fails on a character that cannot open a string, the
/// failure is found at that character, which is a digit or a character that
/// no identifier holds, and no quote.
pub proof fn lemma_invalid_character(m: Machine, c: char)
    requires
        m.next_step().out == (Outcome::Fail(CauseView::InvalidStringCharacter { c })),
    ensures
        0 <= m.next_step().start < m.source.len(),
        char_at(m.source, m.next_step().start) == c,
        non_identifier(c) || digit(c),
        c != '"',
{
    reveal(Machine::next_step);
}

/// While a child document is open, no call hands out nothing, and none
/// ends the root document.
pub proof fn lemma_child_keeps_open(m: Machine)
    requires
        m.depth > 0,
        m.state == State::Document || m.state == State::NodeEntries,
    ensures
        !(m.next_step().out is Done),
        m.advance().state != State::Final,
        m.advance().state != State::Initial,
{
    reveal(Machine::next_step);
}

/// Where the source ends inside a child document, the parser asks for more
/// data, at the end of the source, and goes on asking. Between nodes the
/// source has ended where the cursor stands at its end; within a node, where
/// nothing but whitespace is left.
pub proof fn lemma_unterminated(m: Machine)
    requires
        m.depth > 0,
        m.state == State::Document && m.end >= m.source.len() || m.state == State::NodeEntries
            && ws_end(m.source, m.end) >= m.source.len(),
    ensures
        m.next_step().out == Outcome::Fail(CauseView::NeedsMoreData),
        m.next_step().start >= m.source.len(),
        m.advance().depth == m.depth,
        m.advance().state == m.state,
        m.advance().next_step().out == Outcome::Fail(CauseView::NeedsMoreData),
{
    reveal(Machine::next_step);
}

/// Each of the first `n` events is written plainly.
pub open spec fn all_plain(m: Machine, n: nat) -> bool {
    forall|k: nat|
        k < n ==> plain(m.source, m.event_at(k), (#[trigger] m.after(k)).next_step().start)
}

/// The documents that a list of events leaves open are those that the
/// machine has open after handing the events out, where it had none open
/// before.
pub proof fn lemma_open_before(m: Machine, v: Seq<(Event<'_>, Range<usize>)>, k: nat)
    requires
        m.opened() == 0,
        m.is_trace(v),
        k <= v.len(),
    ensures
        open_before(v, k) == m.after(k).opened(),
    decreases k,
{
    if k > 0 {
        let j = (k - 1) as nat;
        lemma_open_before(m, v, j);
        lemma_step_opened(m.after(j));
        assert(m.after(j).next_step().out is Event);
        assert(item_is(
            Some(v[j as int]),
            m.event_at(j),
            m.after(j).next_step().start,
            m.after(j).next_step().end,
        ));
    }
}

/// The ranges that the parser hands out fit the events that it hands them
/// out with: where every event of a run from the first call on is written
/// plainly, each range of the run holds the text of its event as the table
/// has it, and no document ends that did not start.
pub proof fn lemma_trace_fits(source: Seq<u8>, v: Seq<(Event<'_>, Range<usize>)>)
    requires
        Machine::initial(source).is_trace(v),
        Machine::initial(source).spans_hold(v.len()),
        all_plain(Machine::initial(source), v.len()),
    ensures
        all_fit(source, v),
{
    let m = Machine::initial(source);
    assert forall|i: int| 0 <= i < v.len() implies #[trigger] fit_at(source, v, i) by {
        let k = i as nat;
        let a = m.after(k);
        let st = a.next_step();
        let ev = m.event_at(k);
        lemma_same_source(m, k);
        lemma_open_before(m, v, k);
        lemma_step_opened(a);
        assert(a.next_step().out is Event);
        assert(item_is(Some(v[i]), ev, st.start, st.end));
        assert(a.spans());
        assert(plain(source, ev, st.start));
        lemma_span_fits(source, ev, a.outer_step(), st.start, st.end);
        if ev is StartDocument {
            assert(a.outer_step() == (open_before(v, k) == 0));
        } else if ev is EndDocument {
            assert(open_before(v, k) >= 1);
            assert(a.outer_step() == (open_before(v, k) == 1));
        } else {
            assert(fits(source, ev, false, st.start, st.end));
        }
    }
}

} // verus!
