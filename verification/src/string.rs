//! The string type that event payloads carry.

use std::borrow::Cow;
use vstd::prelude::*;
use vstd::string::*;

verus! {

/// Calls `String::push`. Claims what its documentation says: the character
/// is appended to the end of the string.
#[verifier::external_body]
pub(crate) fn push_char(s: &mut String, c: char)
    ensures
        final(s)@ == old(s)@.push(c),
{
    s.push(c)
}

/// A string of a document: a bare identifier as written, or a quoted string
/// with both of its quotes. It borrows from the source where it can.
#[derive(PartialEq, Eq, Debug)]
pub struct KdlString<'text> {
    pub string: Cow<'text, str>,
}

impl<'text> View for KdlString<'text> {
    type V = Seq<char>;

    open spec fn view(&self) -> Seq<char> {
        self.string@
    }
}

impl<'text> Clone for KdlString<'text> {
    fn clone(&self) -> (r: Self)
        ensures
            r@ == self@,
            r.borrowed() == self.borrowed(),
    {
        match &self.string {
            Cow::Borrowed(s) => KdlString { string: Cow::Borrowed(*s) },
            Cow::Owned(s) => KdlString { string: Cow::Owned(s.clone()) },
        }
    }
}

impl<'text> From<&'text str> for KdlString<'text> {
    fn from(data: &'text str) -> (r: Self) {
        KdlString { string: Cow::Borrowed(data) }
    }
}

impl<'text> vstd::std_specs::convert::FromSpecImpl<&'text str> for KdlString<'text> {
    open spec fn obeys_from_spec() -> bool {
        true
    }

    open spec fn from_spec(data: &'text str) -> Self {
        KdlString { string: Cow::Borrowed(data) }
    }
}

impl<'text> KdlString<'text> {
    /// The text is borrowed, not held in storage of the string's own.
    pub open spec fn borrowed(&self) -> bool {
        self.string is Borrowed
    }

    /// A string that borrows `data`.
    pub fn from_str(data: &'text str) -> (r: Self)
        ensures
            r@ == data@,
            r.string == Cow::<'text, str>::Borrowed(data),
    {
        KdlString { string: Cow::Borrowed(data) }
    }

    /// The same text in storage of its own.
    pub fn into_static(self) -> (r: KdlString<'static>)
        ensures
            r@ == self@,
            !r.borrowed(),
    {
        match self.string {
            Cow::Borrowed(s) => KdlString { string: Cow::Owned(s.to_owned()) },
            Cow::Owned(s) => KdlString { string: Cow::Owned(s) },
        }
    }

    /// The text as a slice.
    pub fn as_str(&self) -> (r: &str)
        ensures
            r@ == self@,
    {
        match &self.string {
            Cow::Borrowed(s) => s,
            Cow::Owned(s) => s.as_str(),
        }
    }
}

} // verus!
