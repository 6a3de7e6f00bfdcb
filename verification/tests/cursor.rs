use pulldown_kdl::chars::{
    is_digit, is_disallowed, is_equals, is_newline, is_non_identifier, is_whitespace,
};
use pulldown_kdl::cursor::Acc;
use pulldown_kdl::utf8::{char_len, first_char, utf8_byte_len};
use pulldown_kdl::{KdlString, KdlValue, ParseErrorCause};

#[test]
fn character_classes() {
    for c in [
        '\t', '\u{0B}', ' ', '\u{A0}', '\u{1680}', '\u{2000}', '\u{2005}', '\u{200A}',
        '\u{202F}', '\u{205F}', '\u{3000}',
    ] {
        assert!(is_whitespace(c), "{c:?}");
        assert!(is_non_identifier(c));
        assert!(!is_newline(c));
    }
    for c in ['\u{200B}', '\u{1FFF}', 'a', '\n', '\u{0C}'] {
        assert!(!is_whitespace(c), "{c:?}");
    }
    for c in ['\r', '\n', '\u{85}', '\u{0C}', '\u{2028}', '\u{2029}'] {
        assert!(is_newline(c), "{c:?}");
        assert!(is_non_identifier(c));
    }
    assert!(!is_newline('\u{0B}'));
    for c in ['=', '\u{FE66}', '\u{FF1D}', '\u{1F7F0}'] {
        assert!(is_equals(c), "{c:?}");
        assert!(is_non_identifier(c));
    }
    assert!(!is_equals('-'));
    for c in ['(', ')', '{', '}', '[', ']', '/', '\\', '"', '#', ';'] {
        assert!(is_non_identifier(c), "{c:?}");
    }
    for c in ['a', 'Z', '0', '-', '_', '?', '\'', '\u{E9}', '\u{0}'] {
        assert!(!is_non_identifier(c), "{c:?}");
    }
    for c in ['\u{0}', '\u{8}', '\u{7F}'] {
        assert!(is_disallowed(c));
    }
    for c in ['\u{9}', 'a', '\u{80}', '\u{D7FF}', '\u{E000}'] {
        assert!(!is_disallowed(c));
    }
    for c in '0'..='9' {
        assert!(is_digit(c));
    }
    assert!(!is_digit('/') && !is_digit(':') && !is_digit('a'));
}

#[test]
fn first_char_decodes_one_scalar() {
    assert_eq!(first_char(b""), None);
    assert_eq!(first_char(b"abc"), Some('a'));
    assert_eq!(first_char(&[0x7F]), Some('\u{7F}'));
    assert_eq!(first_char("\u{E9}t".as_bytes()), Some('\u{E9}'));
    assert_eq!(first_char("\u{3000}".as_bytes()), Some('\u{3000}'));
    assert_eq!(first_char("\u{1F7F0}".as_bytes()), Some('\u{1F7F0}'));
    assert_eq!(first_char("\u{10FFFF}".as_bytes()), Some('\u{10FFFF}'));
    assert_eq!(first_char("\u{D7FF}".as_bytes()), Some('\u{D7FF}'));
    assert_eq!(first_char("\u{E000}".as_bytes()), Some('\u{E000}'));
    assert_eq!(first_char(&[0xC3]), None);
    assert_eq!(first_char(&[0x80]), None);
    assert_eq!(first_char(&[0xC0, 0x80]), None);
    assert_eq!(first_char(&[0xC3, 0x41]), None);
    assert_eq!(first_char(&[0xE0, 0x80, 0x80]), None);
    assert_eq!(first_char(&[0xED, 0xA0, 0x80]), None);
    assert_eq!(first_char(&[0xF0, 0x80, 0x80, 0x80]), None);
    assert_eq!(first_char(&[0xF4, 0x90, 0x80, 0x80]), None);
    assert_eq!(first_char(&[0xF8, 0x88, 0x80, 0x80]), None);
    assert_eq!(first_char(&[0xFF]), None);
}

#[test]
fn lengths_of_encodings() {
    assert_eq!(utf8_byte_len(b'a'), 1);
    assert_eq!(utf8_byte_len(0x7F), 1);
    assert_eq!(utf8_byte_len(0xC3), 2);
    assert_eq!(utf8_byte_len(0xE3), 3);
    assert_eq!(utf8_byte_len(0xF0), 4);
    for c in [
        'a', '\u{7F}', '\u{80}', '\u{7FF}', '\u{800}', '\u{FFFF}', '\u{10000}', '\u{10FFFF}',
    ] {
        assert_eq!(char_len(c), c.len_utf8());
    }
}

#[test]
fn cursor_moves_by_characters() {
    let mut acc = Acc::new("a\u{E9}\u{1F7F0}z");
    assert_eq!(acc.peek_byte(), Some(b'a'));
    assert_eq!(acc.next_char_len(), 1);
    assert_eq!(acc.consume_next_char(), Some('a'));
    assert_eq!(acc.peek_char(), Some('\u{E9}'));
    assert_eq!(acc.next_char_len(), 2);
    assert_eq!(acc.peek_byte(), Some(0xC3));
    assert_eq!(acc.end(), 1);
    assert_eq!(acc.consume_next_char(), Some('\u{E9}'));
    assert_eq!(acc.end(), 3);
    assert_eq!(acc.consume_next_char(), Some('\u{1F7F0}'));
    assert_eq!(acc.end(), 7);
    assert_eq!(acc.text(), "a\u{E9}\u{1F7F0}");
    assert_eq!(acc.bytes(), "a\u{E9}\u{1F7F0}".as_bytes());
    assert_eq!(acc.remaining_text(), "z");
    assert_eq!(acc.remaining_bytes(), b"z");
    assert_eq!(acc.range(), 0..7);
    acc.unconsume_char('\u{1F7F0}');
    assert_eq!(acc.end(), 3);
    assert_eq!(acc.peek_char(), Some('\u{1F7F0}'));
    acc.advance_bytes(5);
    assert_eq!(acc.peek_char(), None);
    assert_eq!(acc.peek_byte(), None);
    assert_eq!(acc.next_char_len(), 0);
    assert_eq!(acc.consume_next_char(), None);
    assert_eq!(acc.end(), 8);
    acc.set_end(1);
    assert_eq!(acc.base(), "a\u{E9}\u{1F7F0}z");
    assert_eq!(acc.peek_text(6), "\u{E9}\u{1F7F0}");
}

#[test]
fn sub_cursor_is_independent() {
    let mut acc = Acc::new("abc def");
    acc.advance_bytes(2);
    let mut sub = acc.sub_accumulator(2);
    assert_eq!(sub.end(), 0);
    assert_eq!(sub.base(), "def");
    assert_eq!(sub.consume_next_char(), Some('d'));
    assert_eq!(sub.range(), 0..1);
    assert_eq!(acc.end(), 2);
    acc.advance_bytes(2);
    acc.consume_range(&sub.range());
    assert_eq!(acc.remaining_text(), "ef");
}

#[test]
fn expect_sequence_looks_for_a_literal() {
    let mut acc = Acc::new("x;y");
    assert_eq!(
        acc.expect_sequence(";"),
        Err(ParseErrorCause::ExpectedSequence { sequence: ";" })
    );
    assert_eq!(acc.expect_sequence("x;"), Ok(0..2));
    assert_eq!(acc.expect_sequence(""), Ok(0..0));
    acc.advance_bytes(1);
    assert_eq!(acc.expect_sequence(";"), Ok(0..1));
    assert_eq!(acc.expect_sequence(";y"), Ok(0..2));
    assert_eq!(
        acc.expect_sequence(";yz"),
        Err(ParseErrorCause::ExpectedSequence { sequence: ";yz" })
    );
}

#[test]
fn whitespace_is_counted_in_characters_and_bytes() {
    let acc = Acc::new("\u{A0} \u{3000}x ");
    assert_eq!(acc.peek_whitespace(), (3, 0..6));
    let mut acc = Acc::new("  \n x");
    assert_eq!(acc.peek_whitespace(), (2, 0..2));
    acc.consume_whitespace();
    assert_eq!(acc.end(), 2);
    assert_eq!(acc.peek_whitespace(), (0, 0..0));
    assert_eq!(Acc::new("").peek_whitespace(), (0, 0..0));
}

#[test]
fn blank_space_gives_the_column_of_the_last_line() {
    assert_eq!(Acc::new("\t  \n \tx").peek_blankspace(), (5, 0..6));
    assert_eq!(Acc::new("   x").peek_blankspace(), (3, 0..3));
    assert_eq!(Acc::new("\t\tx").peek_blankspace(), (8, 0..2));
    assert_eq!(Acc::new("  \r\n").peek_blankspace(), (0, 0..4));
    assert_eq!(Acc::new("\u{2028}\u{3000}x").peek_blankspace(), (1, 0..6));
    assert_eq!(Acc::new("x  ").peek_blankspace(), (0, 0..0));
    assert_eq!(Acc::new("").peek_blankspace(), (0, 0..0));
}

#[test]
fn strings_of_both_forms() {
    assert_eq!(
        Acc::new("caf\u{E9}=x").peek_string(),
        Ok((KdlString::from_str("caf\u{E9}"), 0..5))
    );
    assert_eq!(
        Acc::new("\"a\u{E9}\"b").peek_string(),
        Ok((KdlString::from_str("\"a\u{E9}\""), 0..5))
    );
    assert_eq!(
        Acc::new("\"open").peek_string(),
        Ok((KdlString::from_str("\"open"), 0..5))
    );
    assert_eq!(Acc::new("a").peek_string(), Ok((KdlString::from_str("a"), 0..1)));
    assert_eq!(Acc::new("a1 ").peek_string(), Ok((KdlString::from_str("a1"), 0..2)));
    assert_eq!(
        Acc::new("").peek_string(),
        Err(ParseErrorCause::NeedsMoreData)
    );
    assert_eq!(
        Acc::new("1a").peek_string(),
        Err(ParseErrorCause::InvalidStringCharacter { c: '1' })
    );
    assert_eq!(
        Acc::new(" a").peek_string(),
        Err(ParseErrorCause::InvalidStringCharacter { c: ' ' })
    );
    assert_eq!(
        Acc::new("\u{FF1D}").peek_string(),
        Err(ParseErrorCause::InvalidStringCharacter { c: '\u{FF1D}' })
    );
}

#[test]
fn values_are_strings() {
    let mut acc = Acc::new("abc def");
    assert_eq!(
        acc.peek_value(),
        Ok((KdlValue::String(KdlString::from_str("abc")), 0..3))
    );
    assert_eq!(acc.end(), 0);
    assert_eq!(
        acc.consume_value(),
        Ok(KdlValue::String(KdlString::from_str("abc")))
    );
    assert_eq!(acc.end(), 3);
    assert_eq!(
        acc.consume_value(),
        Err(ParseErrorCause::InvalidStringCharacter { c: ' ' })
    );
    assert_eq!(acc.end(), 3);
    acc.advance_bytes(4);
    assert_eq!(acc.peek_value(), Err(ParseErrorCause::NeedsMoreData));
    assert_eq!(
        KdlValue::String(KdlString::from_str("x")).into_static(),
        KdlValue::String(KdlString::from_str("x"))
    );
    assert_eq!(KdlValue::Bool(false).into_static(), KdlValue::Bool(false));
    assert_eq!(KdlValue::Null.into_static(), KdlValue::Null);
}

#[test]
fn causes_in_words() {
    assert_eq!(
        ParseErrorCause::InvalidStringCharacter { c: '{' }.message(),
        "Got an invalid character '{' while parsing a string"
    );
    assert_eq!(
        ParseErrorCause::InvalidStringCharacter { c: '\u{FF1D}' }.message(),
        "Got an invalid character '\u{FF1D}' while parsing a string"
    );
    assert_eq!(
        ParseErrorCause::InvalidKey {
            value: KdlValue::Bool(true)
        }
        .message(),
        "Expected a valid string, but got a true instead"
    );
    assert_eq!(
        ParseErrorCause::InvalidKey {
            value: KdlValue::String(KdlString::from_str("k").into_static())
        }
        .message(),
        "Expected a valid string, but got a k instead"
    );
    assert_eq!(
        ParseErrorCause::NeedsMoreData.message(),
        "The source ended abrubtly"
    );
    assert_eq!(
        ParseErrorCause::InvalidNodeName.message(),
        "A node name was expected"
    );
    assert_eq!(
        ParseErrorCause::ExpectedSequence { sequence: ";" }.message(),
        "';' was expected"
    );
    assert_eq!(
        ParseErrorCause::ExpectedValue.message(),
        "A value was expected"
    );
    let mut parser = pulldown_kdl::Parser::new("a 1");
    let err = loop {
        if let Err(e) = parser.next_event() {
            break e;
        }
    };
    assert_eq!(
        err.message(),
        "Got an invalid character '1' while parsing a string"
    );
    assert_eq!(err.clone().message(), err.message());
    assert_eq!(err.clone().at, 2);
    assert_eq!(KdlValue::Null.text(), "null");
    assert_eq!(KdlValue::Bool(false).text(), "false");
    assert_eq!(KdlValue::String(KdlString::from_str("\"a b\"")).text(), "\"a b\"");
    assert_eq!(KdlValue::Bool(true).clone(), KdlValue::Bool(true));
}
