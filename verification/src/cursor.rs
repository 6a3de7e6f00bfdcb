//! A cursor over an immutable source text.
//!
//! The cursor holds the text and the byte index of the next unread byte. It
//! only ever stands on a character boundary. To look ahead, a caller works on
//! a copy of the cursor, or on a sub-cursor, a fresh cursor over the unread
//! text; it then either advances the cursor past what was read, or drops
//! what it worked on.

use crate::error::{CauseView, ParseErrorCause};
use crate::utf8::{
    char_at, char_len, char_width, first_char, lemma_ascii_at, lemma_boundary_step,
    lemma_boundary_unshift, lemma_width_of_char, peek_at, utf8_byte_len, width_at,
};
use std::ops::Range;
use vstd::prelude::*;
use vstd::slice::*;
use vstd::string::*;
use vstd::utf8::*;

verus! {

broadcast use {vstd::utf8::encode_utf8_valid_utf8, vstd::utf8::is_char_boundary_start_end_of_seq};

/// `pre` stands at the head of `s`.
pub open spec fn is_prefix(pre: Seq<u8>, s: Seq<u8>) -> bool {
    pre.len() <= s.len() && s.subrange(0, pre.len() as int) == pre
}

/// A cursor: the text, and the byte index of the next unread byte.
#[derive(Clone, Copy, Debug)]
pub struct Acc<'a> {
    pub base: &'a str,
    pub end: usize,
}

impl<'a> Acc<'a> {
    /// The bytes of the whole text.
    pub open spec fn source(self) -> Seq<u8> {
        self.base.spec_bytes()
    }

    /// The bytes that are still unread.
    pub open spec fn rest(self) -> Seq<u8> {
        self.source().skip(self.end as int)
    }

    /// `p` is a position of the text at which a character starts or the text ends.
    pub open spec fn boundary(self, p: int) -> bool {
        0 <= p <= self.source().len() <= usize::MAX && is_char_boundary(self.source(), p)
    }

    /// The cursor stands inside its text, on a character boundary.
    pub open spec fn wf(self) -> bool {
        self.boundary(self.end as int)
    }

    /// A cursor at the start of `base`.
    pub fn new(base: &'a str) -> (r: Self)
        ensures
            r.base == base,
            r.end == 0,
            r.wf(),
    {
        let all = base.as_bytes();
        let len: usize = all.len();
        assert(len == base.spec_bytes().len());
        Acc { base, end: 0 }
    }

    pub fn base(&self) -> (r: &'a str)
        ensures
            r == self.base,
    {
        self.base
    }

    pub fn end(&self) -> (r: usize)
        ensures
            r == self.end,
    {
        self.end
    }

    pub fn set_end(&mut self, new_end: usize)
        requires
            old(self).boundary(new_end as int),
        ensures
            final(self).base == old(self).base,
            final(self).end == new_end,
            final(self).wf(),
    {
        self.end = new_end;
    }

    /// Moves the cursor `amount` bytes on.
    pub fn advance_bytes(&mut self, amount: usize)
        requires
            old(self).boundary(old(self).end + amount),
        ensures
            final(self).base == old(self).base,
            final(self).end == old(self).end + amount,
            final(self).wf(),
    {
        self.end = self.end + amount;
    }

    /// The unread bytes.
    pub fn remaining_bytes(&self) -> (r: &'a [u8])
        requires
            self.wf(),
        ensures
            r@ == self.rest(),
    {
        let all = self.base.as_bytes();
        slice_subrange(all, self.end, all.len())
    }

    /// The unread text.
    pub fn remaining_text(&self) -> (r: &'a str)
        requires
            self.wf(),
        ensures
            r.spec_bytes() == self.rest(),
    {
        let (_, tail) = self.base.split_at(self.end);
        tail
    }

    /// The bytes that were read.
    pub fn bytes(&self) -> (r: &'a [u8])
        requires
            self.wf(),
        ensures
            r@ == self.source().take(self.end as int),
    {
        let all = self.base.as_bytes();
        slice_subrange(all, 0, self.end)
    }

    /// The text that was read.
    pub fn text(&self) -> (r: &'a str)
        requires
            self.wf(),
        ensures
            r.spec_bytes() == self.source().take(self.end as int),
    {
        let (head, _) = self.base.split_at(self.end);
        head
    }

    /// The range of what was read, from the start of the text.
    pub fn range(&self) -> (r: Range<usize>)
        ensures
            r.start == 0,
            r.end == self.end,
    {
        0..self.end
    }

    /// The next byte, `None` at the end of the text.
    pub fn peek_byte(&self) -> (r: Option<u8>)
        requires
            self.wf(),
        ensures
            r == (if self.end < self.source().len() {
                Some(self.source()[self.end as int])
            } else {
                None
            }),
    {
        let all = self.base.as_bytes();
        if self.end < all.len() {
            Some(all[self.end])
        } else {
            None
        }
    }

    /// The next character, `None` at the end of the text.
    pub fn peek_char(&self) -> (r: Option<char>)
        requires
            self.wf(),
        ensures
            r == peek_at(self.source(), self.end as int),
            r is Some ==> self.boundary(self.end + char_width(r->0)),
            r is Some ==> char_width(r->0) == width_at(self.source(), self.end as int),
            r is Some && (r->0 as u32) < 0x80 ==> self.source()[self.end as int] as u32
                == r->0 as u32,
    {
        let rem = self.remaining_bytes();
        proof {
            if self.end < self.source().len() {
                lemma_boundary_step(self.source(), self.end as int);
                lemma_width_of_char(self.rest());
                if (char_at(self.source(), self.end as int) as u32) < 0x80 {
                    lemma_ascii_at(self.source(), self.end as int);
                }
            }
        }
        first_char(rem)
    }

    /// The length in bytes of the next character, 0 at the end of the text.
    pub fn next_char_len(&self) -> (r: usize)
        requires
            self.wf(),
        ensures
            r == (if self.end < self.source().len() {
                width_at(self.source(), self.end as int)
            } else {
                0
            }),
    {
        let rem = self.remaining_bytes();
        if rem.len() > 0 {
            proof {
                lemma_boundary_step(self.source(), self.end as int);
                lemma_width_of_char(self.rest());
            }
            utf8_byte_len(rem[0]) as usize
        } else {
            0
        }
    }

    /// Reads the next character and moves past it.
    pub fn consume_next_char(&mut self) -> (r: Option<char>)
        requires
            old(self).wf(),
        ensures
            final(self).base == old(self).base,
            final(self).wf(),
            r == peek_at(old(self).source(), old(self).end as int),
            r is None ==> final(self).end == old(self).end,
            r is Some ==> final(self).end == old(self).end + char_width(r->0),
            r is Some ==> char_width(r->0) == width_at(old(self).source(), old(self).end as int),
            r is Some && (r->0 as u32) < 0x80 ==> old(self).source()[old(self).end as int] as u32
                == r->0 as u32,
    {
        match self.peek_char() {
            Some(c) => {
                self.advance_bytes(char_len(c));
                Some(c)
            },
            None => None,
        }
    }

    /// Steps back over `c`, which must be the character just read.
    pub fn unconsume_char(&mut self, c: char)
        requires
            old(self).wf(),
            old(self).boundary(old(self).end - char_width(c)),
            peek_at(old(self).source(), old(self).end - char_width(c)) == Some(c),
        ensures
            final(self).base == old(self).base,
            final(self).end == old(self).end - char_width(c),
            final(self).wf(),
    {
        self.end = self.end - char_len(c);
    }

    /// A fresh cursor over the unread text, starting `offset` bytes in.
    pub fn sub_accumulator(&self, offset: usize) -> (r: Acc<'a>)
        requires
            self.wf(),
            self.boundary(self.end + offset),
        ensures
            r.end == 0,
            r.wf(),
            r.source() == self.source().skip(self.end + offset),
    {
        let (_, tail) = self.base.split_at(self.end + offset);
        assert(self.source().subrange(self.end + offset, self.source().len() as int)
            =~= self.source().skip(self.end + offset));
        Acc { base: tail, end: 0 }
    }

    /// The text of the next `len` unread bytes.
    pub fn peek_text(&self, len: usize) -> (r: &'a str)
        requires
            self.wf(),
            self.boundary(self.end + len),
        ensures
            r.spec_bytes() == self.source().subrange(self.end as int, self.end + len),
    {
        let mut sub = self.sub_accumulator(0);
        proof {
            lemma_boundary_unshift(self.source(), self.end as int, len as int);
        }
        sub.advance_bytes(len);
        assert(self.rest().take(len as int) =~= self.source().subrange(
            self.end as int,
            self.end + len,
        ));
        sub.text()
    }

    /// Moves past a range that starts at the cursor.
    pub fn consume_range(&mut self, range: &Range<usize>)
        requires
            range.start == 0,
            old(self).boundary(old(self).end + range.end),
        ensures
            final(self).base == old(self).base,
            final(self).end == old(self).end + range.end,
            final(self).wf(),
    {
        self.advance_bytes(range.end);
    }

    /// Tells whether the unread text starts with `seq`, and gives the range
    /// that it takes there.
    pub fn expect_sequence(&self, seq: &'static str) -> (r: Result<Range<usize>, ParseErrorCause>)
        requires
            self.wf(),
        ensures
            is_prefix(seq.spec_bytes(), self.rest()) ==> r is Ok && r->Ok_0.start == 0
                && r->Ok_0.end == seq.spec_bytes().len(),
            !is_prefix(seq.spec_bytes(), self.rest()) ==> r is Err && r->Err_0@
                == (CauseView::ExpectedSequence { sequence: seq@ }),
    {
        let rem = self.remaining_bytes();
        let lit = seq.as_bytes();
        if lit.len() > rem.len() {
            return Err(ParseErrorCause::ExpectedSequence { sequence: seq });
        }
        let mut i: usize = 0;
        while i < lit.len()
            invariant
                i <= lit.len() <= rem.len(),
                rem@ == self.rest(),
                lit@ == seq.spec_bytes(),
                forall|j: int| 0 <= j < i ==> rem@[j] == lit@[j],
            decreases lit.len() - i,
        {
            if rem[i] != lit[i] {
                assert(self.rest().subrange(0, lit@.len() as int)[i as int] != lit@[i as int]);
                return Err(ParseErrorCause::ExpectedSequence { sequence: seq });
            }
            i = i + 1;
        }
        assert(self.rest().subrange(0, lit@.len() as int) =~= lit@);
        Ok(0..lit.len())
    }
}

} // verus!
