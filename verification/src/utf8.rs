//! Decoding of one UTF-8 scalar at the head of a byte slice, and the facts
//! about character boundaries that the cursor rests on.

use vstd::prelude::*;
use vstd::utf8::*;

verus! {

/// The character encoded at byte position `p` of `b`.
pub open spec fn char_at(b: Seq<u8>, p: int) -> char {
    decode_first_scalar(b.skip(p)) as char
}

/// The number of bytes that the character at byte position `p` of `b` takes.
pub open spec fn width_at(b: Seq<u8>, p: int) -> int {
    leading_width(b[p])
}

/// The character at byte position `p`, if there is one.
pub open spec fn peek_at(b: Seq<u8>, p: int) -> Option<char> {
    if 0 <= p < b.len() {
        Some(char_at(b, p))
    } else {
        None
    }
}

/// The number of bytes in the UTF-8 encoding of `c`.
pub open spec fn char_width(c: char) -> int {
    if (c as u32) < 0x80 {
        1
    } else if (c as u32) < 0x800 {
        2
    } else if (c as u32) < 0x10000 {
        3
    } else {
        4
    }
}

/// A byte that can open the encoding of a character.
pub open spec fn leading_byte(i: u8) -> bool {
    is_leading_byte_width_1(i) || is_leading_byte_width_2(i) || is_leading_byte_width_3(i)
        || is_leading_byte_width_4(i)
}

/// The length of the encoding that the leading byte `i` opens.
pub open spec fn leading_width(i: u8) -> int {
    if is_leading_byte_width_1(i) {
        1
    } else if is_leading_byte_width_2(i) {
        2
    } else if is_leading_byte_width_3(i) {
        3
    } else {
        4
    }
}

/// Calls `char::from_u32`. Claims what its documentation says: the result is
/// the character with that scalar value, and `None` exactly when the number
/// is a surrogate or lies above `0x10FFFF`.
#[verifier::external_body]
fn scalar_to_char(u: u32) -> (r: Option<char>)
    ensures
        is_scalar(u) ==> r == Some(u as char),
        !is_scalar(u) ==> r is None,
{
    char::from_u32(u)
}

/// The length of the encoding opened by the leading byte `i`.
pub fn utf8_byte_len(i: u8) -> (r: u8)
    requires
        leading_byte(i),
    ensures
        r as int == leading_width(i),
        1 <= r <= 4,
{
    if i <= 0x7f {
        1
    } else if i <= 0xdf {
        2
    } else if i <= 0xef {
        3
    } else {
        4
    }
}

/// The number of bytes in the UTF-8 encoding of `c`.
pub fn char_len(c: char) -> (r: usize)
    ensures
        r as int == char_width(c),
        1 <= r <= 4,
{
    let n: u32 = c as u32;
    if n < 0x80 {
        1
    } else if n < 0x800 {
        2
    } else if n < 0x10000 {
        3
    } else {
        4
    }
}

proof fn lemma_width_2(b0: u8, b1: u8)
    by (bit_vector)
    ensures
        (((b0 & 0x1F) as u32) << 6) | ((b1 & 0x3f) as u32) < 0x800,
{
}

proof fn lemma_width_3(b0: u8, b1: u8, b2: u8)
    by (bit_vector)
    ensures
        (((b0 & 0x0F) as u32) << 12) | (((b1 & 0x3f) as u32) << 6) | ((b2 & 0x3f) as u32)
            < 0x10000,
{
}

proof fn lemma_width_1(b0: u8)
    by (bit_vector)
    ensures
        ((b0 & 0x7F) as u32) < 0x80,
{
}

/// A well-formed encoding is as long as the width of the character it encodes.
pub proof fn lemma_width_of_char(b: Seq<u8>)
    requires
        valid_first_scalar(b),
    ensures
        length_of_first_scalar(b) == char_width(decode_first_scalar(b) as char),
        is_scalar(decode_first_scalar(b)),
        (decode_first_scalar(b) as char) as u32 == decode_first_scalar(b),
        1 <= length_of_first_scalar(b) <= b.len(),
        leading_byte(b[0]),
        length_of_first_scalar(b) == leading_width(b[0]),
{
    if is_leading_byte_width_1(b[0]) {
        lemma_width_1(b[0]);
    } else if is_leading_byte_width_2(b[0]) {
        lemma_width_2(b[0], b[1]);
    } else if is_leading_byte_width_3(b[0]) {
        lemma_width_3(b[0], b[1], b[2]);
    } else {
    }
}

proof fn lemma_low_bits(b0: u8)
    by (bit_vector)
    requires
        b0 <= 0x7f,
    ensures
        (b0 & 0x7F) == b0,
{
}

/// A character below `0x80` is encoded as the single byte of its own value.
pub proof fn lemma_ascii_at(b: Seq<u8>, p: int)
    requires
        0 <= p < b.len(),
        valid_first_scalar(b.skip(p)),
        (char_at(b, p) as u32) < 0x80,
    ensures
        width_at(b, p) == 1,
        b[p] as u32 == char_at(b, p) as u32,
{
    lemma_width_of_char(b.skip(p));
    lemma_low_bits(b[p]);
}

/// Decodes the character at the head of `seq`: `None` when `seq` is empty or
/// does not open with a well-formed encoding of a Unicode scalar.
pub fn first_char(seq: &[u8]) -> (r: Option<char>)
    ensures
        r == (if seq@.len() > 0 && valid_first_scalar(seq@) {
            Some(decode_first_scalar(seq@) as char)
        } else {
            None
        }),
{
    if seq.len() == 0 {
        return None;
    }
    let b0: u8 = seq[0];
    if b0 <= 0x7f {
        let cp: u32 = (b0 & 0x7F) as u32;
        proof {
            lemma_width_1(b0);
        }
        scalar_to_char(cp)
    } else if 0xc0 <= b0 && b0 <= 0xdf {
        if seq.len() < 2 {
            return None;
        }
        let b1: u8 = seq[1];
        if !(0x80 <= b1 && b1 <= 0xbf) {
            return None;
        }
        let cp: u32 = (((b0 & 0x1F) as u32) << 6) | ((b1 & 0x3f) as u32);
        proof {
            lemma_width_2(b0, b1);
        }
        if cp < 0x80 {
            return None;
        }
        scalar_to_char(cp)
    } else if 0xe0 <= b0 && b0 <= 0xef {
        if seq.len() < 3 {
            return None;
        }
        let b1: u8 = seq[1];
        let b2: u8 = seq[2];
        if !(0x80 <= b1 && b1 <= 0xbf) || !(0x80 <= b2 && b2 <= 0xbf) {
            return None;
        }
        let cp: u32 = (((b0 & 0x0F) as u32) << 12) | (((b1 & 0x3f) as u32) << 6) | ((b2
            & 0x3f) as u32);
        proof {
            lemma_width_3(b0, b1, b2);
        }
        if cp < 0x800 {
            return None;
        }
        scalar_to_char(cp)
    } else if 0xf0 <= b0 && b0 <= 0xf7 {
        if seq.len() < 4 {
            return None;
        }
        let b1: u8 = seq[1];
        let b2: u8 = seq[2];
        let b3: u8 = seq[3];
        if !(0x80 <= b1 && b1 <= 0xbf) || !(0x80 <= b2 && b2 <= 0xbf) || !(0x80 <= b3 && b3
            <= 0xbf) {
            return None;
        }
        let cp: u32 = (((b0 & 0x07) as u32) << 18) | (((b1 & 0x3f) as u32) << 12) | (((b2
            & 0x3f) as u32) << 6) | ((b3 & 0x3f) as u32);
        if cp < 0x10000 || cp > 0x10ffff {
            return None;
        }
        scalar_to_char(cp)
    } else {
        None
    }
}

/// In well-formed UTF-8 a character starts at every boundary before the end,
/// and the position behind it is a boundary again.
pub proof fn lemma_boundary_step(b: Seq<u8>, p: int)
    requires
        valid_utf8(b),
        is_char_boundary(b, p),
        0 <= p < b.len(),
    ensures
        valid_first_scalar(b.skip(p)),
        p + width_at(b, p) <= b.len(),
        1 <= width_at(b, p) <= 4,
        is_char_boundary(b, p + width_at(b, p)),
    decreases b.len(),
{
    valid_utf8_split(b, p);
    assert(b.skip(p) =~= b.subrange(p, b.len() as int));
    lemma_width_of_char(b.skip(p));
    let w = width_at(b, p);
    if p == 0 {
        assert(b.skip(0) =~= b);
        assert(is_char_boundary(pop_first_scalar(b), 0));
    } else {
        let w0 = length_of_first_scalar(b);
        let tail = pop_first_scalar(b);
        lemma_width_of_char(b);
        assert(0 <= p - w0 < tail.len()) by {
            reveal_with_fuel(is_char_boundary, 2);
        }
        lemma_boundary_step(tail, p - w0);
        assert(tail.skip(p - w0) =~= b.skip(p));
        assert(is_char_boundary(tail, p + w - w0));
    }
}

/// A boundary of the whole text that lies behind another one is a boundary
/// of the text behind that one.
pub proof fn lemma_boundary_unshift(b: Seq<u8>, s: int, q: int)
    requires
        valid_utf8(b),
        is_char_boundary(b, s),
        is_char_boundary(b, s + q),
        0 <= s,
        0 <= q,
        s + q <= b.len(),
    ensures
        is_char_boundary(b.skip(s), q),
    decreases b.len(),
{
    valid_utf8_split(b, s);
    assert(b.skip(s) =~= b.subrange(s, b.len() as int));
    if s == 0 {
        assert(b.skip(0) =~= b);
    } else if q > 0 {
        let w0 = length_of_first_scalar(b);
        let tail = pop_first_scalar(b);
        lemma_width_of_char(b);
        assert(s - w0 >= 0) by {
            reveal_with_fuel(is_char_boundary, 2);
        }
        assert(tail.skip(s - w0) =~= b.skip(s));
        lemma_boundary_unshift(tail, s - w0, q);
    }
}

} // verus!
