//! Errors: what went wrong, and at which byte of the source.

use crate::string::push_char;
use crate::value::{value_text, KdlValue, ValueView};
use std::borrow::Cow;
use vstd::prelude::*;
use vstd::string::*;

verus! {

/// Why parsing stopped.
#[derive(PartialEq, Debug)]
pub enum ParseErrorCause {
    /// The source ended where a construct needed more input.
    NeedsMoreData,
    /// A string was required, and `c` cannot open one.
    InvalidStringCharacter { c: char },
    /// A node name was required, and no string stands there.
    InvalidNodeName,
    /// A property whose key is not a string.
    InvalidKey { value: KdlValue<'static> },
    /// A literal was required and is not there.
    ExpectedSequence { sequence: &'static str },
    /// A value was required, and nothing that can open one stands there.
    ExpectedValue,
}

/// What a cause is, apart from where its text is stored.
pub enum CauseView {
    NeedsMoreData,
    InvalidStringCharacter { c: char },
    InvalidNodeName,
    InvalidKey { value: ValueView },
    ExpectedSequence { sequence: Seq<char> },
    ExpectedValue,
}

impl View for ParseErrorCause {
    type V = CauseView;

    open spec fn view(&self) -> CauseView {
        match self {
            ParseErrorCause::NeedsMoreData => CauseView::NeedsMoreData,
            ParseErrorCause::InvalidStringCharacter { c } => CauseView::InvalidStringCharacter {
                c: *c,
            },
            ParseErrorCause::InvalidNodeName => CauseView::InvalidNodeName,
            ParseErrorCause::InvalidKey { value } => CauseView::InvalidKey { value: value@ },
            ParseErrorCause::ExpectedSequence { sequence } => CauseView::ExpectedSequence {
                sequence: sequence@,
            },
            ParseErrorCause::ExpectedValue => CauseView::ExpectedValue,
        }
    }
}

/// An error of the parser: the cause, the byte offset at which it was found,
/// and the source it was found in.
#[derive(Debug)]
pub struct ParseError<'text> {
    pub cause: ParseErrorCause,
    pub at: usize,
    pub source: Cow<'text, str>,
}

/// What a cause says of itself.
pub open spec fn message_of(cause: CauseView) -> Seq<char> {
    match cause {
        CauseView::NeedsMoreData => "The source ended abrubtly"@,
        CauseView::InvalidStringCharacter { c } => "Got an invalid character '"@.push(c)
            + "' while parsing a string"@,
        CauseView::InvalidNodeName => "A node name was expected"@,
        CauseView::InvalidKey { value } => "Expected a valid string, but got a "@ + value_text(
            value,
        ) + " instead"@,
        CauseView::ExpectedSequence { sequence } => "'"@ + sequence + "' was expected"@,
        CauseView::ExpectedValue => "A value was expected"@,
    }
}

impl ParseErrorCause {
    /// The cause in words.
    pub fn message(&self) -> (r: String)
        ensures
            r@ == message_of(self@),
    {
        match self {
            ParseErrorCause::NeedsMoreData => "The source ended abrubtly".to_owned(),
            ParseErrorCause::InvalidStringCharacter { c } => {
                let mut text = "Got an invalid character '".to_owned();
                push_char(&mut text, *c);
                text.append("' while parsing a string");
                text
            },
            ParseErrorCause::InvalidNodeName => "A node name was expected".to_owned(),
            ParseErrorCause::InvalidKey { value } => {
                let mut text = "Expected a valid string, but got a ".to_owned();
                let value = value.text();
                text.append(value.as_str());
                text.append(" instead");
                text
            },
            ParseErrorCause::ExpectedSequence { sequence } => {
                let mut text = "'".to_owned();
                text.append(sequence);
                text.append("' was expected");
                text
            },
            ParseErrorCause::ExpectedValue => "A value was expected".to_owned(),
        }
    }
}

impl Clone for ParseErrorCause {
    fn clone(&self) -> (r: Self)
        ensures
            r@ == self@,
    {
        match self {
            ParseErrorCause::NeedsMoreData => ParseErrorCause::NeedsMoreData,
            ParseErrorCause::InvalidStringCharacter { c } => {
                ParseErrorCause::InvalidStringCharacter { c: *c }
            },
            ParseErrorCause::InvalidNodeName => ParseErrorCause::InvalidNodeName,
            ParseErrorCause::InvalidKey { value } => ParseErrorCause::InvalidKey {
                value: value.clone(),
            },
            ParseErrorCause::ExpectedSequence { sequence } => ParseErrorCause::ExpectedSequence {
                sequence: *sequence,
            },
            ParseErrorCause::ExpectedValue => ParseErrorCause::ExpectedValue,
        }
    }
}

impl<'text> Clone for ParseError<'text> {
    fn clone(&self) -> (r: Self)
        ensures
            r.cause@ == self.cause@,
            r.at == self.at,
            r.source@ == self.source@,
    {
        let source = match &self.source {
            Cow::Borrowed(s) => Cow::Borrowed(*s),
            Cow::Owned(s) => Cow::Owned(s.clone()),
        };
        ParseError { cause: self.cause.clone(), at: self.at, source }
    }
}

impl<'text> ParseError<'text> {
    /// The error in words.
    pub fn message(&self) -> (r: String)
        ensures
            r@ == message_of(self.cause@),
    {
        self.cause.message()
    }

    /// The same error with a copy of the source, free of the borrow.
    pub fn into_owned(self) -> (r: ParseError<'static>)
        ensures
            r.cause == self.cause,
            r.at == self.at,
            r.source@ == self.source@,
            r.source is Owned,
    {
        let source = match self.source {
            Cow::Borrowed(s) => s.to_owned(),
            Cow::Owned(s) => s,
        };
        ParseError { cause: self.cause, at: self.at, source: Cow::Owned(source) }
    }
}

} // verus!
