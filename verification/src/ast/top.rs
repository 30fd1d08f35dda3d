use crate::ast::identifier::Identifier;
use crate::ast::source_config::{SourceConfig, SourceConfigView};
use crate::span::Span;
use vstd::prelude::*;

verus! {

/// What a top-level item holds.
pub ghost enum TopView {
    Source(SourceConfigView),
}

impl TopView {
    /// The place of the item.
    pub open spec fn span(self) -> Span {
        match self {
            TopView::Source(source) => source.span,
        }
    }

    /// The datasource block that the item is.
    pub open spec fn source(self) -> SourceConfigView {
        match self {
            TopView::Source(source) => source,
        }
    }
}

/// A top-level item of a schema.
#[derive(Debug)]
pub enum Top {
    /// A datasource block.
    Source(SourceConfig),
}

impl View for Top {
    type V = TopView;

    open spec fn view(&self) -> TopView {
        match self {
            Top::Source(source) => TopView::Source(source@),
        }
    }
}

impl Clone for Top {
    fn clone(&self) -> (copy: Top)
        ensures
            copy@ == self@,
    {
        match self {
            Top::Source(source) => Top::Source(source.clone()),
        }
    }
}

impl Top {
    /// A word for the kind of item.
    pub fn get_type(&self) -> (kind: &str)
        ensures
            kind@ == "source"@,
    {
        match self {
            Top::Source(_) => "source",
        }
    }

    /// The name of the item, with its place.
    pub fn identifier(&self) -> (identifier: &Identifier)
        ensures
            identifier@ == self@.source().name,
    {
        match self {
            Top::Source(x) => &x.name,
        }
    }

    /// The name of the item.
    pub fn name(&self) -> (name: &str)
        ensures
            name@ == self@.source().name.name,
    {
        self.identifier().name.as_str()
    }

    /// The item as a datasource block, if it is one.
    pub fn as_source(&self) -> (source: Option<&SourceConfig>)
        ensures
            source matches Some(s) && s@ == self@.source(),
    {
        match self {
            Top::Source(source) => Some(source),
        }
    }

    /// The place of the item.
    pub fn span(&self) -> (span: Span)
        ensures
            span == self@.span(),
    {
        match self {
            Top::Source(source) => source.span(),
        }
    }
}

} // verus!
