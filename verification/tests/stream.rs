use pulldown_kdl::emitter::event_text;
use pulldown_kdl::parser::{item, key_of, offset_by, State};
use pulldown_kdl::span::{misfits, span_fits, spans_fit};
use pulldown_kdl::{
    Event, KdlEmitter, KdlNodeEntry, KdlString, KdlValue, ParseError, ParseErrorCause, Parser,
};
use std::borrow::Cow;
use std::ops::Range;

type Ranged = (Event<'static>, Range<usize>);

fn run(input: &str) -> (Vec<Ranged>, Option<ParseError<'static>>) {
    let mut parser = Parser::new(input);
    let mut events = vec![];
    loop {
        match parser.next_event() {
            Ok(Some(item)) => events.push(item),
            Ok(None) => return (events, None),
            Err(e) => return (events, Some(e)),
        }
    }
}

fn name(text: &str, range: Range<usize>) -> Ranged {
    (
        Event::NodeName(KdlString::from_str(text).into_static()),
        range,
    )
}

fn arg(text: &str, range: Range<usize>) -> Ranged {
    (
        Event::NodeEntry(KdlNodeEntry::Argument(KdlValue::String(
            KdlString::from_str(text).into_static(),
        ))),
        range,
    )
}

fn prop(key: &str, value: &str, range: Range<usize>) -> Ranged {
    (
        Event::NodeEntry(KdlNodeEntry::Property {
            key: KdlString::from_str(key).into_static(),
            value: KdlValue::String(KdlString::from_str(value).into_static()),
        }),
        range,
    )
}

fn count(events: &[Ranged], wanted: &Event<'static>) -> usize {
    events.iter().filter(|(e, _)| e == wanted).count()
}

fn without_ranges(events: Vec<Ranged>) -> Vec<Event<'static>> {
    events.into_iter().map(|(e, _)| e).collect()
}

const NESTED: &str = "a {\n  b c\n}\n";

#[test]
fn child_document_events() {
    let (events, err) = run(NESTED);
    assert!(err.is_none());
    assert_eq!(
        events,
        vec![
            (Event::StartDocument, 0..0),
            name("a", 0..1),
            (Event::StartDocument, 2..3),
            (Event::Indentation(2), 3..6),
            name("b", 6..7),
            arg("c", 8..9),
            (Event::NodeEnd { inline: false }, 9..9),
            (Event::Indentation(0), 9..10),
            (Event::EndDocument, 10..11),
            (Event::Indentation(0), 11..12),
            (Event::EndDocument, 12..12),
        ]
    );
}

#[test]
fn parser_is_fused() {
    let mut parser = Parser::new("node a;");
    while let Some(_) = parser.next_event().unwrap() {}
    assert_eq!(parser.state, State::Final);
    for _ in 0..3 {
        assert_eq!(parser.next_event().unwrap(), None);
        assert_eq!(parser.state, State::Final);
        assert_eq!(parser.acc.end, 7);
    }
}

#[test]
fn documents_balance_at_every_prefix() {
    let (events, err) = run("a { b { c; d e=f }\n g }\nh");
    assert!(err.is_none());
    let mut open: usize = 0;
    for (event, _) in &events {
        match event {
            Event::StartDocument => open += 1,
            Event::EndDocument => {
                assert!(open > 0);
                open -= 1;
            }
            _ => {}
        }
    }
    assert_eq!(open, 0);
    assert_eq!(count(&events, &Event::StartDocument), 3);
    assert_eq!(count(&events, &Event::EndDocument), 3);
}

#[test]
fn indentation_leaves_the_structure_alone() {
    let plain: Vec<Event> = without_ranges(run("a b\nc {\nd\n}").0)
        .into_iter()
        .filter(|e| !matches!(e, Event::Indentation(_)))
        .collect();
    let indented: Vec<Event> = without_ranges(run("a b\n\n    c {\n\t\td\n  }").0)
        .into_iter()
        .filter(|e| !matches!(e, Event::Indentation(_)))
        .collect();
    assert_eq!(plain, indented);
}

#[test]
fn indentation_keeps_state_and_depth() {
    let mut parser = Parser::new("a {\n\t b\n}");
    for _ in 0..3 {
        parser.next_event().unwrap();
    }
    let before = parser;
    assert_eq!(
        parser.next_event().unwrap(),
        Some((Event::Indentation(5), 3..6))
    );
    assert_eq!(parser.state, before.state);
    assert_eq!(parser.document_depth, before.document_depth);
    assert_eq!(parser.acc.end, 6);
}

#[test]
fn whitespace_outside_a_node_is_indentation() {
    let (events, err) = run("  a   b  ");
    assert!(err.is_none());
    assert_eq!(
        events,
        vec![
            (Event::Indentation(2), 0..2),
            (Event::StartDocument, 2..2),
            name("a", 2..3),
            arg("b", 6..7),
            (Event::NodeEnd { inline: true }, 9..9),
            (Event::EndDocument, 9..9),
        ]
    );
}

#[test]
fn braces_slice_to_braces() {
    let source = "a{b}";
    let (events, err) = run(source);
    assert!(err.is_none());
    assert_eq!(
        events,
        vec![
            (Event::StartDocument, 0..0),
            name("a", 0..1),
            (Event::StartDocument, 1..2),
            name("b", 2..3),
            (Event::NodeEnd { inline: false }, 3..3),
            (Event::EndDocument, 3..4),
            (Event::EndDocument, 4..4),
        ]
    );
    for (event, range) in &events {
        if !range.is_empty() {
            match event {
                Event::StartDocument => assert_eq!(&source[range.clone()], "{"),
                Event::EndDocument => assert_eq!(&source[range.clone()], "}"),
                _ => {}
            }
        }
    }
    assert!(spans_fit(source, &events));
}

#[test]
fn closing_brace_is_taken_alone() {
    let source = "a{b;} \n c { d }\te";
    let (events, err) = run(source);
    assert!(err.is_none());
    assert_eq!(
        events,
        vec![
            (Event::StartDocument, 0..0),
            name("a", 0..1),
            (Event::StartDocument, 1..2),
            name("b", 2..3),
            (Event::NodeEnd { inline: true }, 3..4),
            (Event::EndDocument, 4..5),
            (Event::Indentation(1), 5..8),
            name("c", 8..9),
            (Event::StartDocument, 10..11),
            (Event::Indentation(1), 11..12),
            name("d", 12..13),
            (Event::NodeEnd { inline: false }, 14..14),
            (Event::EndDocument, 14..15),
            (Event::Indentation(4), 15..16),
            name("e", 16..17),
            (Event::NodeEnd { inline: true }, 17..17),
            (Event::EndDocument, 17..17),
        ]
    );
    assert!(spans_fit(source, &events));
    assert!(misfits(source, &events).is_empty());
}

#[test]
fn semicolon_behind_a_closing_brace_is_left_unread() {
    let (events, err) = run("a { b } ;c");
    assert_eq!(
        events,
        vec![
            (Event::StartDocument, 0..0),
            name("a", 0..1),
            (Event::StartDocument, 2..3),
            (Event::Indentation(1), 3..4),
            name("b", 4..5),
            (Event::NodeEnd { inline: false }, 6..6),
            (Event::EndDocument, 6..7),
            (Event::Indentation(1), 7..8),
        ]
    );
    let err = err.unwrap();
    assert_eq!(err.cause, ParseErrorCause::InvalidNodeName);
    assert_eq!(err.at, 8);
}

#[test]
fn property_with_wide_equals_sign() {
    let source = "a b\u{FF1D}c";
    let (events, err) = run(source);
    assert!(err.is_none());
    assert_eq!(events[2], prop("b", "c", 2..7));
    assert_eq!(&source[2..7], "b\u{FF1D}c");
    assert!(!span_fits(source, &events[2].0, false, &events[2].1));
}

#[test]
fn spans_of_a_parse_fit() {
    for source in [
        "node arg prop=value",
        "node arg prop=value; ",
        "\"name with spaces\" arg ;",
        "node a; node b ; node c;",
        "node \"key 1\"=val1 key2=\" double quoted \" key3=val3 ",
        "a {\n  b c=d\n  e {\n    f\n  }\n}\ng h",
        "a {\n  b c\n}\n",
    ] {
        let (events, err) = run(source);
        assert!(err.is_none());
        assert!(spans_fit(source, &events), "{source:?}");
        for (_, range) in &events {
            assert!(range.start <= range.end && range.end <= source.len());
        }
    }
}

#[test]
fn spans_that_do_not_fit() {
    let source = "node arg";
    let (mut events, _) = run(source);
    assert!(spans_fit(source, &events));
    events[1].1 = 0..3;
    assert!(!spans_fit(source, &events));
    let (mut events, _) = run(source);
    events[2].1 = 5..9;
    assert!(!spans_fit(source, &events));
    assert!(!spans_fit(source, &vec![(Event::EndDocument, 0..0)]));
    assert!(spans_fit(
        source,
        &vec![(Event::StartDocument, 0..0), (Event::EndDocument, 8..8)]
    ));
    assert!(!spans_fit(
        source,
        &vec![(Event::StartDocument, 0..0), (Event::StartDocument, 0..0)]
    ));
    assert!(span_fits("k=v", &prop("k", "v", 0..3).0, false, &(0..3)));
    assert!(!span_fits("k=w", &prop("k", "v", 0..3).0, false, &(0..3)));
    assert!(!span_fits("k:v", &prop("k", "v", 0..3).0, false, &(0..3)));
    assert!(span_fits(";", &Event::NodeEnd { inline: true }, false, &(0..1)));
    assert!(span_fits(";", &Event::NodeEnd { inline: true }, false, &(1..1)));
    assert!(!span_fits(";", &Event::NodeEnd { inline: true }, false, &(0..0)));
    assert!(span_fits("", &Event::NodeEnd { inline: true }, false, &(0..0)));
    assert!(!spans_fit(
        "node",
        &vec![(Event::NodeEnd { inline: true }, 0..0)]
    ));
    assert_eq!(
        misfits(
            "a{;",
            &vec![
                (Event::StartDocument, 0..0),
                (Event::NodeEnd { inline: true }, 1..1),
                (Event::StartDocument, 0..0),
                (Event::NodeEnd { inline: true }, 2..3),
                (Event::EndDocument, 1..2),
                (Event::EndDocument, 1..2),
                (Event::EndDocument, 3..3),
                (Event::NodeEnd { inline: true }, 3..3),
                (Event::StartDocument, 1..2),
            ]
        ),
        vec![(1, false), (2, false), (4, false), (5, true), (6, false), (8, true)]
    );
    assert!(!span_fits(";", &Event::NodeEnd { inline: false }, false, &(0..1)));
    assert!(span_fits("{", &Event::StartDocument, false, &(0..1)));
    assert!(!span_fits("{", &Event::StartDocument, true, &(0..1)));
    assert!(!span_fits("{", &Event::EndDocument, false, &(0..1)));
    assert!(span_fits("xyz", &Event::Indentation(7), false, &(0..3)));
}

#[test]
fn unterminated_child_needs_more_data() {
    for (source, brace) in [("a {", 2), ("a { b", 2), ("a {\n  b c\n", 2), ("a { b { c }", 2)] {
        let (_, err) = run(source);
        let err = err.unwrap();
        assert_eq!(err.cause, ParseErrorCause::NeedsMoreData, "{source:?}");
        assert!(err.at >= brace);
        assert_eq!(err.at, source.len());
        assert_eq!(err.source, source);
    }
}

#[test]
fn error_is_repeated() {
    let mut parser = Parser::new("a { b");
    let mut last = None;
    for _ in 0..8 {
        if let Err(e) = parser.next_event() {
            last = Some((e.cause, e.at));
        }
    }
    assert_eq!(last, Some((ParseErrorCause::NeedsMoreData, 5)));
    assert_eq!(
        parser.next_event().unwrap_err().cause,
        ParseErrorCause::NeedsMoreData
    );
}

#[test]
fn invalid_node_name() {
    let (events, err) = run("a; ;");
    assert_eq!(events.len(), 4);
    let err = err.unwrap();
    assert_eq!(err.cause, ParseErrorCause::InvalidNodeName);
    assert_eq!(err.at, 3);
    let (_, err) = run("1abc");
    assert_eq!(err.unwrap().cause, ParseErrorCause::InvalidNodeName);
}

#[test]
fn value_that_cannot_start() {
    let (events, err) = run("node 1");
    assert_eq!(events.len(), 2);
    let err = err.unwrap();
    assert_eq!(err.cause, ParseErrorCause::InvalidStringCharacter { c: '1' });
    assert_eq!(err.at, 5);
    let (_, err) = run("a b=(");
    let err = err.unwrap();
    assert_eq!(err.cause, ParseErrorCause::InvalidStringCharacter { c: '(' });
    assert_eq!(err.at, 4);
    let (_, err) = run("a  caf\u{E9}\u{FF1D}\u{FF1D}");
    let err = err.unwrap();
    assert_eq!(
        err.cause,
        ParseErrorCause::InvalidStringCharacter { c: '\u{FF1D}' }
    );
    assert_eq!(err.at, 11);
    let (_, err) = run("a b=");
    let err = err.unwrap();
    assert_eq!(err.cause, ParseErrorCause::NeedsMoreData);
    assert_eq!(err.at, 4);
    let mut parser = Parser::new("a b=(");
    for _ in 0..2 {
        parser.next_event().unwrap();
    }
    for _ in 0..3 {
        let err = parser.next_event().unwrap_err();
        assert_eq!(err.at, 4);
        assert_eq!(parser.acc.end, 2);
        assert_eq!(parser.state, State::NodeEntries);
    }
}

#[test]
fn closing_brace_outside_a_child_document() {
    let (events, err) = run("}");
    assert_eq!(events, vec![(Event::StartDocument, 0..0)]);
    let err = err.unwrap();
    assert_eq!(err.cause, ParseErrorCause::ExpectedValue);
    assert_eq!(err.at, 0);
    let (events, err) = run("a { b }\n}");
    assert_eq!(count(&events, &Event::EndDocument), 1);
    let err = err.unwrap();
    assert_eq!(err.cause, ParseErrorCause::ExpectedValue);
    assert_eq!(err.at, 8);
}

#[test]
fn key_has_to_be_a_string() {
    assert_eq!(
        key_of(KdlValue::String(KdlString::from_str("k"))),
        Ok(KdlString::from_str("k"))
    );
    assert_eq!(
        key_of(KdlValue::Bool(true)),
        Err(ParseErrorCause::InvalidKey {
            value: KdlValue::Bool(true)
        })
    );
    assert_eq!(
        key_of(KdlValue::Null),
        Err(ParseErrorCause::InvalidKey {
            value: KdlValue::Null
        })
    );
}

#[test]
fn borrowed_and_owned_payloads() {
    let source = String::from("node arg");
    let mut parser = Parser::new(&source);
    parser.next_event_borrowed().unwrap();
    match parser.next_event_borrowed().unwrap() {
        Some((Event::NodeName(name), range)) => {
            assert!(matches!(name.string, Cow::Borrowed("node")));
            assert_eq!(range, 0..4);
        }
        other => panic!("{other:?}"),
    }
    match parser.next_event().unwrap() {
        Some((Event::NodeEntry(KdlNodeEntry::Argument(KdlValue::String(v))), range)) => {
            assert!(matches!(v.string, Cow::Owned(_)));
            assert_eq!(v.string, "arg");
            assert_eq!(range, 5..8);
        }
        other => panic!("{other:?}"),
    }
    let owned = KdlString::from_str("abc").into_static();
    assert!(matches!(owned.string, Cow::Owned(_)));
    assert_eq!(owned, KdlString::from_str("abc"));
    let mut parser = Parser::new("a {");
    let err = loop {
        if let Err(e) = parser.next_event_borrowed() {
            break e;
        }
    };
    assert!(matches!(err.source, Cow::Borrowed("a {")));
    let cause = err.cause.clone();
    let owned = err.into_owned();
    assert!(matches!(owned.source, Cow::Owned(_)));
    assert_eq!(owned.source, "a {");
    assert_eq!(owned.cause, cause);
    assert_eq!(owned.at, 3);
}

#[test]
fn parse_to_end_gives_the_events() {
    let mut parser = Parser::new(NESTED);
    let events = parser.parse_to_end().unwrap();
    assert_eq!(events, run(NESTED).0);
    assert_eq!(parser.state, State::Final);
    let mut parser = Parser::new("a {");
    let err = parser.parse_to_end().unwrap_err();
    assert_eq!(err.cause, ParseErrorCause::NeedsMoreData);
    assert_eq!(err.at, 3);
}

fn emit(source: &str) -> String {
    let mut out = String::new();
    let mut emitter = KdlEmitter::new(Parser::new(source));
    emitter.emit(&mut out).unwrap();
    out
}

#[test]
fn emitter_writes_the_document() {
    assert_eq!(emit("node arg prop=value"), "node arg prop=value;");
    assert_eq!(emit("node   a ;   node  b"), "node a;\n   node b;");
    assert_eq!(emit(NESTED), "a {\n  b c\n}\n");
    assert_eq!(emit("a {\n\tb\n}"), "a {\n    b\n}");
    assert_eq!(emit("a b\u{FF1D}\"c d\""), "a b=\"c d\";");
    assert_eq!(emit(""), "");
}

#[test]
fn emitter_keeps_what_it_wrote_before_an_error() {
    let mut out = String::from("> ");
    let mut emitter = KdlEmitter::new(Parser::new("a b {\n c 1"));
    let err = emitter.emit(&mut out).unwrap_err();
    assert_eq!(err.cause, ParseErrorCause::InvalidStringCharacter { c: '1' });
    assert_eq!(err.at, 9);
    assert_eq!(out, "> a b {\n c");
}

#[test]
fn emitted_text_parses_to_the_same_events() {
    for source in [
        "node arg prop=value",
        "node a; node b ; node c;",
        "a {\n  b c=d\n  e {\n    f\n  }\n}\ng h",
        "\"name with spaces\" arg ;",
        "a {\n\tb\n}\n\n\nc",
    ] {
        let written = emit(source);
        let again = emit(&written);
        assert_eq!(written, again);
        assert_eq!(without_ranges(run(&written).0), without_ranges(run(&again).0));
        let first: Vec<Event> = without_ranges(run(source).0)
            .into_iter()
            .filter(|e| !matches!(e, Event::Indentation(_) | Event::NodeEnd { .. }))
            .collect();
        let second: Vec<Event> = without_ranges(run(&written).0)
            .into_iter()
            .filter(|e| !matches!(e, Event::Indentation(_) | Event::NodeEnd { .. }))
            .collect();
        assert_eq!(first, second);
    }
}

#[test]
fn composed_templates_balance_and_fit() {
    let templates = [
        "node arg prop=value",
        "node arg prop=value;",
        "\"name with spaces\" arg ;",
        "node a; node b ; node c;",
        "n                                                                      ;",
        "node \"key 1\"=val1 key2=\" double quoted \" key3=val3 ",
    ];
    let gaps = ["\n", "\n\n", "\n  ", "\r\n\t", " \n "];
    let mut seed: u32 = 12345;
    for _ in 0..200 {
        let mut source = String::new();
        let nodes = 1 + (seed >> 8) % 6;
        for _ in 0..nodes {
            seed = seed.wrapping_mul(1664525).wrapping_add(1013904223);
            source.push_str(templates[(seed >> 16) as usize % templates.len()]);
            seed = seed.wrapping_mul(1664525).wrapping_add(1013904223);
            source.push_str(gaps[(seed >> 16) as usize % gaps.len()]);
        }
        let (events, err) = run(&source);
        assert!(err.is_none(), "{source:?}");
        let mut open: usize = 0;
        for (event, range) in &events {
            assert!(range.start <= range.end && range.end <= source.len());
            match event {
                Event::StartDocument => open += 1,
                Event::EndDocument => {
                    assert!(open > 0);
                    open -= 1;
                }
                _ => {}
            }
        }
        assert_eq!(open, 0);
        assert!(spans_fit(&source, &events), "{source:?}");
    }
}

#[test]
fn small_helpers() {
    assert_eq!(item('x', 1..2), Some(('x', 1..2)));
    assert_eq!(offset_by(&(0..3), 4), 4..7);
    assert_eq!(offset_by(&(2..2), 0), 2..2);
    let parser = Parser::new("a {");
    assert!(parser.is_root_document());
    assert_eq!(parser.state, State::Initial);
    assert_eq!(parser.acc.end, 0);
    assert_eq!(
        parser.check_node_end('\n'),
        Ok(Some((Event::NodeEnd { inline: false }, 0..0)))
    );
    assert_eq!(
        parser.check_node_end('}'),
        Ok(Some((Event::NodeEnd { inline: false }, 0..0)))
    );
    assert_eq!(
        parser.check_node_end(';'),
        Ok(Some((Event::NodeEnd { inline: true }, 0..1)))
    );
    assert_eq!(parser.check_node_end('a'), Ok(None));
    assert_eq!(KdlString::from("abc"), KdlString::from_str("abc"));
    assert_eq!(KdlString::from_str("abc").as_str(), "abc");
    let event = Event::NodeName(KdlString::from_str("n"));
    assert_eq!(event.clone().into_static(), event);
}

#[test]
fn text_of_one_event() {
    assert_eq!(event_text(&Event::StartDocument, true), "");
    assert_eq!(event_text(&Event::StartDocument, false), "{");
    assert_eq!(event_text(&Event::EndDocument, true), "");
    assert_eq!(event_text(&Event::EndDocument, false), "}");
    assert_eq!(event_text(&Event::NodeEnd { inline: true }, false), ";");
    assert_eq!(event_text(&Event::NodeEnd { inline: false }, false), "");
    assert_eq!(event_text(&Event::Indentation(3), false), "\n   ");
    assert_eq!(event_text(&name("\"a b\"", 0..5).0, false), "\"a b\"");
    assert_eq!(event_text(&arg("x", 0..1).0, false), "x");
    assert_eq!(event_text(&prop("k", "v", 0..3).0, false), "k=v");
    assert_eq!(
        event_text(
            &Event::NodeEntry(KdlNodeEntry::Argument(KdlValue::Bool(true))),
            false
        ),
        "true"
    );
}

#[test]
fn blank_space_between_nodes_is_indentation() {
    let (events, err) = run("node arg prop=value; ");
    assert!(err.is_none());
    assert_eq!(
        events,
        vec![
            (Event::StartDocument, 0..0),
            name("node", 0..4),
            arg("arg", 5..8),
            prop("prop", "value", 9..19),
            (Event::NodeEnd { inline: true }, 19..20),
            (Event::Indentation(1), 20..21),
            (Event::EndDocument, 21..21),
        ]
    );
    let (events, err) = run("node a; node b ; node c;");
    assert!(err.is_none());
    assert_eq!(
        events,
        vec![
            (Event::StartDocument, 0..0),
            name("node", 0..4),
            arg("a", 5..6),
            (Event::NodeEnd { inline: true }, 6..7),
            (Event::Indentation(1), 7..8),
            name("node", 8..12),
            arg("b", 13..14),
            (Event::NodeEnd { inline: true }, 15..16),
            (Event::Indentation(1), 16..17),
            name("node", 17..21),
            arg("c", 22..23),
            (Event::NodeEnd { inline: true }, 23..24),
            (Event::EndDocument, 24..24),
        ]
    );
    let (events, err) = run("\t\n \ta");
    assert!(err.is_none());
    assert_eq!(events[0], (Event::Indentation(5), 0..4));
    assert_eq!(events[1], (Event::StartDocument, 4..4));
}
