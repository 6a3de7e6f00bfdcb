//! The closed character sets that the lexeme recognizers decide by.

use vstd::prelude::*;

verus! {

/// ASCII decimal digits.
pub open spec fn digit(c: char) -> bool {
    '0' <= c <= '9'
}

/// Horizontal whitespace: characters that separate tokens within a line.
pub open spec fn whitespace(c: char) -> bool {
    ||| c == '\u{0009}'
    ||| c == '\u{000B}'
    ||| c == '\u{0020}'
    ||| c == '\u{00A0}'
    ||| c == '\u{1680}'
    ||| '\u{2000}' <= c <= '\u{200A}'
    ||| c == '\u{202F}'
    ||| c == '\u{205F}'
    ||| c == '\u{3000}'
}

/// The equals sign and the Unicode characters that stand for it.
pub open spec fn equals(c: char) -> bool {
    ||| c == '='
    ||| c == '\u{FE66}'
    ||| c == '\u{FF1D}'
    ||| c == '\u{1F7F0}'
}

/// Line breaks.
pub open spec fn newline(c: char) -> bool {
    ||| c == '\r'
    ||| c == '\n'
    ||| c == '\u{0085}'
    ||| c == '\u{000C}'
    ||| c == '\u{2028}'
    ||| c == '\u{2029}'
}

/// Code points that may not appear in a document at all.
pub open spec fn disallowed(c: char) -> bool {
    ||| c as u32 <= 8
    ||| c as u32 == 0x7F
    ||| 0xD800 <= c as u32 <= 0xDFFF
}

/// Characters that end a bare identifier.
pub open spec fn non_identifier(c: char) -> bool {
    ||| c == '('
    ||| c == ')'
    ||| c == '{'
    ||| c == '}'
    ||| c == '['
    ||| c == ']'
    ||| c == '/'
    ||| c == '\\'
    ||| c == '"'
    ||| c == '#'
    ||| c == ';'
    ||| equals(c)
    ||| whitespace(c)
    ||| newline(c)
}

#[verifier::when_used_as_spec(digit)]
pub fn is_digit(c: char) -> (r: bool)
    ensures
        r == digit(c),
{
    '0' <= c && c <= '9'
}

#[verifier::when_used_as_spec(whitespace)]
pub fn is_whitespace(c: char) -> (r: bool)
    ensures
        r == whitespace(c),
{
    c == '\u{0009}' || c == '\u{000B}' || c == '\u{0020}' || c == '\u{00A0}' || c == '\u{1680}'
        || ('\u{2000}' <= c && c <= '\u{200A}') || c == '\u{202F}' || c == '\u{205F}' || c
        == '\u{3000}'
}

#[verifier::when_used_as_spec(equals)]
pub fn is_equals(c: char) -> (r: bool)
    ensures
        r == equals(c),
{
    c == '=' || c == '\u{FE66}' || c == '\u{FF1D}' || c == '\u{1F7F0}'
}

#[verifier::when_used_as_spec(newline)]
pub fn is_newline(c: char) -> (r: bool)
    ensures
        r == newline(c),
{
    c == '\r' || c == '\n' || c == '\u{0085}' || c == '\u{000C}' || c == '\u{2028}' || c
        == '\u{2029}'
}

#[verifier::when_used_as_spec(disallowed)]
pub fn is_disallowed(c: char) -> (r: bool)
    ensures
        r == disallowed(c),
{
    let n: u32 = c as u32;
    n <= 8 || n == 0x7F || (0xD800 <= n && n <= 0xDFFF)
}

#[verifier::when_used_as_spec(non_identifier)]
pub fn is_non_identifier(c: char) -> (r: bool)
    ensures
        r == non_identifier(c),
{
    c == '(' || c == ')' || c == '{' || c == '}' || c == '[' || c == ']' || c == '/' || c == '\\'
        || c == '"' || c == '#' || c == ';' || is_equals(c) || is_whitespace(c) || is_newline(c)
}

} // verus!
