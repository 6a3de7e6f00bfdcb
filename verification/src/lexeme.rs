//! The lexeme recognizers: runs of blank space, and the two forms of string.
//!
//! A recognizer looks at the unread text of a cursor and gives back what it
//! found with the range that it takes, counted from the cursor. It never
//! moves the cursor it was called on.

use crate::chars::{
    digit, is_digit, is_newline, is_non_identifier, is_whitespace, newline, non_identifier,
    whitespace,
};
use crate::cursor::Acc;
use crate::error::{CauseView, ParseErrorCause};
use crate::string::KdlString;
use crate::utf8::{char_at, peek_at, width_at};
use std::ops::Range;
use vstd::prelude::*;
use vstd::string::*;
use vstd::utf8::*;

verus! {

broadcast use {vstd::utf8::encode_utf8_valid_utf8, vstd::utf8::encode_utf8_decode_utf8};

/// The number of bytes of `s` from position `p` on.
pub open spec fn unread(s: Seq<u8>, p: int) -> nat {
    if 0 <= p < s.len() {
        (s.len() - p) as nat
    } else {
        0
    }
}

/// Where the run of whitespace that starts at `p` ends.
pub open spec fn ws_end(s: Seq<u8>, p: int) -> int
    decreases unread(s, p),
{
    if 0 <= p < s.len() && whitespace(char_at(s, p)) {
        ws_end(s, p + width_at(s, p))
    } else {
        p
    }
}

/// How many characters the run of whitespace that starts at `p` has.
pub open spec fn ws_count(s: Seq<u8>, p: int) -> nat
    decreases unread(s, p),
{
    if 0 <= p < s.len() && whitespace(char_at(s, p)) {
        1 + ws_count(s, p + width_at(s, p))
    } else {
        0
    }
}

/// Where the run of whitespace and line breaks that starts at `p` ends.
pub open spec fn blank_end(s: Seq<u8>, p: int) -> int
    decreases unread(s, p),
{
    if 0 <= p < s.len() && (whitespace(char_at(s, p)) || newline(char_at(s, p))) {
        blank_end(s, p + width_at(s, p))
    } else {
        p
    }
}

/// The visual column at which the run of blank space from `p` leaves off,
/// when it stood at column `cols` before `p`: a tab counts four columns,
/// other whitespace one, and a line break starts again at column 0.
pub open spec fn blank_cols(s: Seq<u8>, p: int, cols: nat) -> nat
    decreases unread(s, p),
{
    if 0 <= p < s.len() && whitespace(char_at(s, p)) {
        blank_cols(
            s,
            p + width_at(s, p),
            if char_at(s, p) == '\t' {
                cols + 4
            } else {
                cols + 1
            },
        )
    } else if 0 <= p < s.len() && newline(char_at(s, p)) {
        blank_cols(s, p + width_at(s, p), 0)
    } else {
        cols
    }
}

/// Where the bare identifier that runs through `p` ends: at the first
/// character that cannot be part of one, or at the end of the text.
pub open spec fn ident_end(s: Seq<u8>, p: int) -> int
    decreases unread(s, p),
{
    if 0 <= p < s.len() && !non_identifier(char_at(s, p)) {
        ident_end(s, p + width_at(s, p))
    } else {
        p
    }
}

/// Where the quoted string whose inside runs through `p` ends: behind the
/// first quote at or after `p`, or at the end of the text.
pub open spec fn quoted_end(s: Seq<u8>, p: int) -> int
    decreases unread(s, p),
{
    if 0 <= p < s.len() {
        if char_at(s, p) == '"' {
            p + width_at(s, p)
        } else {
            quoted_end(s, p + width_at(s, p))
        }
    } else {
        p
    }
}

/// Where the string lexeme that starts at `p` ends, or why none starts there.
pub open spec fn string_end(s: Seq<u8>, p: int) -> Result<int, CauseView> {
    match peek_at(s, p) {
        None => Err(CauseView::NeedsMoreData),
        Some(c) => if c == '"' {
            Ok(quoted_end(s, p + width_at(s, p)))
        } else if non_identifier(c) || digit(c) {
            Err(CauseView::InvalidStringCharacter { c })
        } else {
            Ok(ident_end(s, p + width_at(s, p)))
        },
    }
}

/// A number of columns as a machine integer: the largest one stands for all
/// that do not fit.
pub open spec fn clip(n: nat) -> usize {
    if n <= usize::MAX {
        n as usize
    } else {
        usize::MAX
    }
}

impl<'a> Acc<'a> {
    /// The leading run of whitespace: the number of its characters, and the
    /// range of its bytes, counted from the cursor.
    pub fn peek_whitespace(&self) -> (r: (usize, Range<usize>))
        requires
            self.wf(),
        ensures
            r.0 == ws_count(self.source(), self.end as int),
            r.1.start == 0,
            self.end + r.1.end == ws_end(self.source(), self.end as int),
            self.boundary(self.end + r.1.end),
    {
        let mut acc = *self;
        let ghost s = self.source();
        let ghost start = self.end as int;
        let mut count: usize = 0;
        let mut done = false;
        while !done
            invariant
                acc.wf(),
                acc.base == self.base,
                s == self.source(),
                start == self.end,
                start + count <= acc.end,
                ws_count(s, start) == count + (if done {
                    0
                } else {
                    ws_count(s, acc.end as int)
                }),
                ws_end(s, start) == (if done {
                    acc.end as int
                } else {
                    ws_end(s, acc.end as int)
                }),
            decreases s.len() - acc.end + (if done { 0int } else { 1int }),
        {
            match acc.peek_char() {
                Some(c) => {
                    if is_whitespace(c) {
                        acc.consume_next_char();
                        count = count + 1;
                    } else {
                        done = true;
                    }
                },
                None => {
                    done = true;
                },
            }
        }
        (count, 0..(acc.end - self.end))
    }

    /// The leading run of whitespace and line breaks: the visual column of
    /// what follows it, and the range of its bytes, counted from the cursor.
    pub fn peek_blankspace(&self) -> (r: (usize, Range<usize>))
        requires
            self.wf(),
        ensures
            r.0 == clip(blank_cols(self.source(), self.end as int, 0)),
            r.1.start == 0,
            self.end + r.1.end == blank_end(self.source(), self.end as int),
            self.boundary(self.end + r.1.end),
    {
        let mut acc = *self;
        let ghost s = self.source();
        let ghost start = self.end as int;
        let ghost mut cols: nat = 0;
        let mut space_amount: usize = 0;
        let mut done = false;
        while !done
            invariant
                acc.wf(),
                acc.base == self.base,
                s == self.source(),
                start == self.end,
                start <= acc.end,
                space_amount == clip(cols),
                blank_cols(s, start, 0) == (if done {
                    cols
                } else {
                    blank_cols(s, acc.end as int, cols)
                }),
                blank_end(s, start) == (if done {
                    acc.end as int
                } else {
                    blank_end(s, acc.end as int)
                }),
            decreases s.len() - acc.end + (if done { 0int } else { 1int }),
        {
            match acc.peek_char() {
                Some(c) => {
                    if is_whitespace(c) {
                        acc.consume_next_char();
                        let step: usize = if c == '\t' {
                            4
                        } else {
                            1
                        };
                        proof {
                            cols = cols + step as nat;
                        }
                        space_amount = if space_amount <= usize::MAX - step {
                            space_amount + step
                        } else {
                            usize::MAX
                        };
                    } else if is_newline(c) {
                        acc.consume_next_char();
                        proof {
                            cols = 0;
                        }
                        space_amount = 0;
                    } else {
                        done = true;
                    }
                },
                None => {
                    done = true;
                },
            }
        }
        (space_amount, 0..(acc.end - self.end))
    }

    /// Moves past the leading run of whitespace.
    pub fn consume_whitespace(&mut self)
        requires
            old(self).wf(),
        ensures
            final(self).base == old(self).base,
            final(self).end == ws_end(old(self).source(), old(self).end as int),
            final(self).end >= old(self).end,
            final(self).wf(),
    {
        let v = self.peek_whitespace();
        self.advance_bytes(v.1.end);
    }

    /// The string lexeme at the cursor: a quoted string with its quotes, or a
    /// bare identifier, and its range counted from the cursor. Fails at the
    /// end of the text, and on a character that cannot open a string.
    pub fn peek_string(&self) -> (r: Result<(KdlString<'a>, Range<usize>), ParseErrorCause>)
        requires
            self.wf(),
        ensures
            match string_end(self.source(), self.end as int) {
                Ok(e) => r is Ok && r->Ok_0.1.start == 0 && self.end + r->Ok_0.1.end == e
                    && self.end < e && self.boundary(e) && encode_utf8(r->Ok_0.0@)
                    == self.source().subrange(self.end as int, e) && r->Ok_0.0.borrowed(),
                Err(c) => r is Err && r->Err_0@ == c,
            },
    {
        let mut acc = *self;
        let ghost s = self.source();
        let first = match acc.peek_char() {
            Some(c) => c,
            None => {
                return Err(ParseErrorCause::NeedsMoreData);
            },
        };
        let quoted = first == '"';
        if !quoted && (is_non_identifier(first) || is_digit(first)) {
            return Err(ParseErrorCause::InvalidStringCharacter { c: first });
        }
        acc.consume_next_char();
        let ghost target = string_end(s, self.end as int)->Ok_0;
        let mut done = false;
        while !done
            invariant
                acc.wf(),
                acc.base == self.base,
                s == self.source(),
                acc.end > self.end,
                quoted ==> target == (if done {
                    acc.end as int
                } else {
                    quoted_end(s, acc.end as int)
                }),
                !quoted ==> target == (if done {
                    acc.end as int
                } else {
                    ident_end(s, acc.end as int)
                }),
            decreases s.len() - acc.end + (if done { 0int } else { 1int }),
        {
            match acc.consume_next_char() {
                Some(c) => {
                    if quoted {
                        if c == '"' {
                            done = true;
                        }
                    } else if is_non_identifier(c) {
                        acc.unconsume_char(c);
                        done = true;
                    }
                },
                None => {
                    done = true;
                },
            }
        }
        let len = acc.end - self.end;
        let text = self.peek_text(len);
        Ok((KdlString::from_str(text), 0..len))
    }
}

} // verus!
