use crate::diagnostics::error::Problem;
use crate::diagnostics::paint::{
    flattened, holds, lemma_diagnostic_is_legible, painted_as, pretty_print,
};
use crate::diagnostics::pretty_print::{clean, layout, Severity};
use crate::text::SourceText;
use crate::span::Span;
use vstd::prelude::*;
use vstd::string::*;

verus! {

/// A warning found in a schema: it does not make the schema invalid.
#[derive(Debug)]
pub struct SchemaWarning {
    span: Span,
    message: String,
}

impl View for SchemaWarning {
    type V = Problem;

    closed spec fn view(&self) -> Problem {
        Problem { span: self.span, message: self.message@ }
    }
}

impl Clone for SchemaWarning {
    fn clone(&self) -> (copy: SchemaWarning)
        ensures
            copy@ == self@,
    {
        SchemaWarning { span: self.span, message: self.message.clone() }
    }
}

impl SchemaWarning {
    pub fn new(message: String, span: Span) -> (warning: SchemaWarning)
        ensures
            warning@ == (Problem { span, message: message@ }),
    {
        SchemaWarning { message, span }
    }

    pub fn span(&self) -> (span: Span)
        ensures
            span == self@.span,
    {
        self.span
    }

    pub fn message(&self) -> (message: &str)
        ensures
            message@ == self@.message,
    {
        self.message.as_str()
    }

    /// Writes the warning to `f`, laid out against the text `text` of the
    /// file `file_name`. What is not highlighted is written as the layout
    /// has it; what is highlighted is written with its text in it. So the
    /// text written names the severity, and holds the message unless the
    /// message holds an escape character.
    pub fn pretty_print(&self, f: &mut String, file_name: &str, text: &str)
        ensures
            exists|painted: Seq<Seq<char>>|
                painted_as(
                    layout(file_name@, text@, self@.span, self@.message, Severity::Warning),
                    painted,
                ) && final(f)@ == old(f)@ + flattened(painted) && holds(
                    flattened(painted),
                    "warning"@,
                ) && (clean(self@.message) ==> holds(flattened(painted), self@.message)),
    {
        let source = SourceText::new(text);
        pretty_print(f, file_name, &source, self.span, self.message.as_str(), Severity::Warning);
        proof {
            let painted = choose|painted: Seq<Seq<char>>|
                painted_as(
                    layout(file_name@, source.chars@, self.span, self.message@, Severity::Warning),
                    painted,
                ) && f@ == old(f)@ + flattened(painted);
            assert(painted_as(
                layout(file_name@, text@, self@.span, self@.message, Severity::Warning),
                painted,
            ));
            lemma_diagnostic_is_legible(
                file_name@,
                text@,
                self@.span,
                self@.message,
                Severity::Warning,
                painted,
            );
        }
    }
}

} // verus!
