use crate::ast::config::{ConfigBlockProperty, PropertyView};
use crate::ast::identifier::{Identifier, IdentifierView};
use crate::span::Span;
use vstd::prelude::*;

verus! {

/// What a datasource block holds.
pub ghost struct SourceConfigView {
    pub name: IdentifierView,
    pub properties: Seq<PropertyView>,
    pub documentation: Option<Seq<char>>,
    pub span: Span,
    pub inner_span: Span,
}

/// The text of a documentation comment.
#[derive(Debug)]
pub struct Comment {
    pub text: String,
}

/// A datasource block.
#[derive(Debug)]
pub struct SourceConfig {
    /// The name of the datasource.
    pub name: Identifier,
    /// The properties, in the order of the text.
    pub properties: Vec<ConfigBlockProperty>,
    /// The documentation comment of the block, if it has one.
    pub documentation: Option<Comment>,
    /// The place of the whole block.
    pub span: Span,
    /// The place of what stands between the braces.
    pub inner_span: Span,
}

/// The properties stand in the order of the text: the place of each is
/// ordered, and none begins before the one in front of it has ended.
pub open spec fn properties_in_source_order(properties: Seq<PropertyView>) -> bool {
    &&& forall|i: int| 0 <= i < properties.len() ==> (#[trigger] properties[i]).span.well_formed()
    &&& forall|i: int, j: int|
        0 <= i < j < properties.len() ==> (#[trigger] properties[i]).span.end <= (
        #[trigger] properties[j]).span.start
}

impl SourceConfigView {
    /// The block is laid out as a block of the text is: it has a name, what
    /// stands between its braces lies inside it, and its properties stand
    /// there in the order of the text.
    pub open spec fn laid_out(self) -> bool {
        &&& self.name.name.len() > 0
        &&& self.span.start <= self.inner_span.start
        &&& self.inner_span.start <= self.inner_span.end
        &&& self.inner_span.end <= self.span.end
        &&& properties_in_source_order(self.properties)
        &&& forall|i: int|
            0 <= i < self.properties.len() ==> self.inner_span.start <= (
            #[trigger] self.properties[i]).span.start && self.properties[i].span.end
                <= self.inner_span.end
    }
}

/// The text of a comment that may be missing.
pub open spec fn optional_comment(comment: Option<Comment>) -> Option<Seq<char>> {
    match comment {
        Some(c) => Some(c.text@),
        None => None,
    }
}

impl View for SourceConfig {
    type V = SourceConfigView;

    open spec fn view(&self) -> SourceConfigView {
        SourceConfigView {
            name: self.name@,
            properties: self.properties@.map_values(|p: ConfigBlockProperty| p@),
            documentation: optional_comment(self.documentation),
            span: self.span,
            inner_span: self.inner_span,
        }
    }
}

impl Clone for Comment {
    fn clone(&self) -> (copy: Comment)
        ensures
            copy.text@ == self.text@,
    {
        Comment { text: self.text.clone() }
    }
}

impl Clone for SourceConfig {
    fn clone(&self) -> (copy: SourceConfig)
        ensures
            copy@ == self@,
    {
        let mut properties: Vec<ConfigBlockProperty> = Vec::new();
        let mut i: usize = 0;
        while i < self.properties.len()
            invariant
                i <= self.properties@.len(),
                properties@.len() == i,
                forall|k: int| 0 <= k < i ==> (#[trigger] properties@[k])@ == self.properties@[k]@,
            decreases self.properties@.len() - i,
        {
            properties.push(self.properties[i].clone());
            i += 1;
        }
        let documentation = match &self.documentation {
            Some(comment) => Some(comment.clone()),
            None => None,
        };
        let copy = SourceConfig {
            name: self.name.clone(),
            properties,
            documentation,
            span: self.span,
            inner_span: self.inner_span,
        };
        proof {
            assert(copy@.properties =~= self@.properties);
        }
        copy
    }
}

impl SourceConfig {
    pub fn span(&self) -> (span: Span)
        ensures
            span == self@.span,
    {
        self.span
    }

    pub fn identifier(&self) -> (identifier: &Identifier)
        ensures
            identifier@ == self@.name,
    {
        &self.name
    }

    pub fn name(&self) -> (name: &str)
        ensures
            name@ == self@.name.name,
    {
        self.name.name.as_str()
    }

    /// The text of the documentation comment, if the block has one.
    pub fn documentation(&self) -> (text: Option<&str>)
        ensures
            match text {
                Some(t) => self@.documentation == Some(t@),
                None => self@.documentation is None,
            },
    {
        match &self.documentation {
            Some(comment) => Some(comment.text.as_str()),
            None => None,
        }
    }
}

} // verus!
