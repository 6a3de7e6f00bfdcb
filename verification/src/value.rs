//! Values of arguments and properties.

use crate::string::KdlString;
use vstd::prelude::*;
use vstd::string::*;

verus! {

/// A value of a node entry. The recognizers produce strings only; the other
/// variants are what a consumer may build.
#[derive(PartialEq, Debug)]
pub enum KdlValue<'text> {
    String(KdlString<'text>),
    Bool(bool),
    Null,
}

/// What a value is, apart from where its text is stored.
pub enum ValueView {
    String(Seq<char>),
    Bool(bool),
    Null,
}

/// A value as it is written.
pub open spec fn value_text(v: ValueView) -> Seq<char> {
    match v {
        ValueView::String(s) => s,
        ValueView::Bool(b) => if b {
            "true"@
        } else {
            "false"@
        },
        ValueView::Null => "null"@,
    }
}

impl<'text> View for KdlValue<'text> {
    type V = ValueView;

    open spec fn view(&self) -> ValueView {
        match self {
            KdlValue::String(s) => ValueView::String(s@),
            KdlValue::Bool(b) => ValueView::Bool(*b),
            KdlValue::Null => ValueView::Null,
        }
    }
}

impl<'text> Clone for KdlValue<'text> {
    fn clone(&self) -> (r: Self)
        ensures
            r@ == self@,
            r.owned() == self.owned(),
    {
        match self {
            KdlValue::String(s) => KdlValue::String(s.clone()),
            KdlValue::Bool(b) => KdlValue::Bool(*b),
            KdlValue::Null => KdlValue::Null,
        }
    }
}

impl<'text> KdlValue<'text> {
    /// The text that the value holds is borrowed.
    pub open spec fn borrowed(&self) -> bool {
        match self {
            KdlValue::String(s) => s.borrowed(),
            _ => true,
        }
    }

    /// The value holds no borrowed text.
    pub open spec fn owned(&self) -> bool {
        match self {
            KdlValue::String(s) => !s.borrowed(),
            _ => true,
        }
    }

    /// The value as it is written.
    pub fn text(&self) -> (r: String)
        ensures
            r@ == value_text(self@),
    {
        match self {
            KdlValue::String(s) => s.as_str().to_owned(),
            KdlValue::Bool(b) => if *b {
                "true".to_owned()
            } else {
                "false".to_owned()
            },
            KdlValue::Null => "null".to_owned(),
        }
    }

    /// The same value in storage of its own.
    pub fn into_static(self) -> (r: KdlValue<'static>)
        ensures
            r@ == self@,
            r.owned(),
    {
        match self {
            KdlValue::String(s) => KdlValue::String(s.into_static()),
            KdlValue::Bool(b) => KdlValue::Bool(b),
            KdlValue::Null => KdlValue::Null,
        }
    }
}

} // verus!
