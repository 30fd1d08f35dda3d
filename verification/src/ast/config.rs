use crate::ast::expression::{Expression, ExpressionView};
use crate::ast::identifier::{Identifier, IdentifierView};
use crate::span::Span;
use vstd::prelude::*;

verus! {

/// What a property holds.
pub ghost struct PropertyView {
    pub name: IdentifierView,
    pub value: Option<ExpressionView>,
    pub span: Span,
}

/// A property of a configuration block: a name, and a value unless the text
/// gave none.
#[derive(Debug)]
pub struct ConfigBlockProperty {
    pub name: Identifier,
    pub value: Option<Expression>,
    pub span: Span,
}

/// The view of an expression that may be missing.
pub open spec fn optional_expression(value: Option<Expression>) -> Option<ExpressionView> {
    match value {
        Some(e) => Some(e@),
        None => None,
    }
}

impl View for ConfigBlockProperty {
    type V = PropertyView;

    open spec fn view(&self) -> PropertyView {
        PropertyView {
            name: self.name@,
            value: optional_expression(self.value),
            span: self.span,
        }
    }
}

impl Clone for ConfigBlockProperty {
    fn clone(&self) -> (copy: ConfigBlockProperty)
        ensures
            copy@ == self@,
    {
        let value = match &self.value {
            Some(value) => Some(value.clone()),
            None => None,
        };
        ConfigBlockProperty { name: self.name.clone(), value, span: self.span }
    }
}

impl ConfigBlockProperty {
    pub fn span(&self) -> (span: Span)
        ensures
            span == self@.span,
    {
        self.span
    }
}

} // verus!
