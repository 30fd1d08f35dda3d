use crate::span::Span;
use vstd::prelude::*;

verus! {

/// What an identifier holds: its characters and its place.
pub ghost struct IdentifierView {
    pub name: Seq<char>,
    pub span: Span,
}

/// A name in the schema, with its place.
#[derive(Debug)]
pub struct Identifier {
    pub name: String,
    pub span: Span,
}

impl View for Identifier {
    type V = IdentifierView;

    open spec fn view(&self) -> IdentifierView {
        IdentifierView { name: self.name@, span: self.span }
    }
}

impl Clone for Identifier {
    fn clone(&self) -> (copy: Identifier)
        ensures
            copy@ == self@,
    {
        Identifier { name: self.name.clone(), span: self.span }
    }
}

impl Identifier {
    pub fn new(name: String, span: Span) -> (identifier: Identifier)
        ensures
            identifier@ == (IdentifierView { name: name@, span }),
    {
        Identifier { name, span }
    }

    pub fn span(&self) -> (span: Span)
        ensures
            span == self@.span,
    {
        self.span
    }
}

} // verus!
