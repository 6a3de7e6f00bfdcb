//! A pull parser for KDL documents, and an emitter that writes the events of
//! a document as text again.
//!
//! The parser walks a source text and hands out one event per call, each with
//! the byte range of the source that produced it. Every function is verified
//! against a mathematical model of the source, its UTF-8 bytes:
//!
//! - [`chars`] decides the character classes;
//! - [`utf8`] decodes one character and knows where characters start;
//! - [`cursor`] moves over the source from character to character;
//! - [`lexeme`] recognizes blank space and strings;
//! - [`parser`] is the state machine, and states what each call does as a
//!   function of the source, the position, the depth and the state;
//! - [`span`] tells which text belongs to which event;
//! - [`stream`] proves what holds of every run of the parser;
//! - [`emitter`] writes events as text.

pub mod chars;
pub mod cursor;
pub mod emitter;
pub mod error;
pub mod event;
pub mod lexeme;
pub mod parser;
pub mod span;
pub mod stream;
pub mod string;
pub mod utf8;
pub mod value;

pub use emitter::KdlEmitter;
pub use error::{ParseError, ParseErrorCause};
pub use event::{Event, KdlNodeEntry};
pub use parser::Parser;
pub use string::KdlString;
pub use value::KdlValue;
