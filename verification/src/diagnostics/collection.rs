use crate::diagnostics::error::{Problem, SchemaError};
use crate::diagnostics::warning::SchemaWarning;
use crate::diagnostics::paint::{
    flattened, holds, legible, lemma_diagnostic_is_legible, lemma_flattened_concat,
    lemma_holds_among, lemma_written_reads_the_same, painted_as, painted_of, pretty_print,
};
use crate::diagnostics::pretty_print::{
    clean, escape, free_of_escapes, layout, lemma_free_join, lemma_layout_is_clean, plain_text,
    title_text, PieceView, Severity,
};
use crate::text::SourceText;
use vstd::prelude::*;
use vstd::string::*;

verus! {

/// What a collection of diagnostics holds: the errors and the warnings, each
/// in the order in which they were found.
pub ghost struct Findings {
    pub errors: Seq<Problem>,
    pub warnings: Seq<Problem>,
}

/// The layouts of the first `n` of the diagnostics, one behind the other,
/// in the order in which the diagnostics were found.
pub open spec fn layouts(
    problems: Seq<Problem>,
    file_name: Seq<char>,
    text: Seq<char>,
    severity: Severity,
    n: int,
) -> Seq<PieceView>
    decreases n,
{
    if n <= 0 || n > problems.len() {
        Seq::empty()
    } else {
        layouts(problems, file_name, text, severity, n - 1) + layout(
            file_name,
            text,
            problems[n - 1].span,
            problems[n - 1].message,
            severity,
        )
    }
}

/// Diagnostics are laid out in the order in which they were found: one more
/// diagnostic adds its layout behind the layouts of those found before it,
/// and changes nothing of them.
pub proof fn lemma_layouts_follow_detection(
    problems: Seq<Problem>,
    next: Problem,
    file_name: Seq<char>,
    text: Seq<char>,
    severity: Severity,
)
    ensures
        layouts(problems.push(next), file_name, text, severity, problems.len() as int + 1) == layouts(
            problems,
            file_name,
            text,
            severity,
            problems.len() as int,
        ) + layout(file_name, text, next.span, next.message, severity),
{
    lemma_layouts_of_prefix(
        problems,
        problems.push(next),
        file_name,
        text,
        severity,
        problems.len() as int,
    );
}

/// The layouts of the first `n` diagnostics depend on those diagnostics
/// only.
proof fn lemma_layouts_of_prefix(
    a: Seq<Problem>,
    b: Seq<Problem>,
    file_name: Seq<char>,
    text: Seq<char>,
    severity: Severity,
    n: int,
)
    requires
        0 <= n <= a.len(),
        n <= b.len(),
        forall|k: int| 0 <= k < n ==> a[k] == b[k],
    ensures
        layouts(a, file_name, text, severity, n) == layouts(b, file_name, text, severity, n),
    decreases n,
{
    if n > 0 {
        lemma_layouts_of_prefix(a, b, file_name, text, severity, n - 1);
    }
}

/// The text written for diagnostics, one behind the other, names their
/// severity and holds the message of each of them, unless the message holds
/// the escape character: whatever the environment makes of the
/// highlighting.
pub proof fn lemma_diagnostics_are_legible(
    problems: Seq<Problem>,
    file_name: Seq<char>,
    text: Seq<char>,
    severity: Severity,
    n: int,
    painted: Seq<Seq<char>>,
    k: int,
)
    requires
        0 <= k < n <= problems.len(),
        painted_as(layouts(problems, file_name, text, severity, n), painted),
    ensures
        holds(flattened(painted), title_text(severity)),
        !problems[k].message.contains(escape()) ==> holds(flattened(painted), problems[k].message),
    decreases n,
{
    let front = layouts(problems, file_name, text, severity, n - 1);
    let last = layout(file_name, text, problems[n - 1].span, problems[n - 1].message, severity);
    let m = front.len() as int;
    let painted_front = painted.take(m);
    let painted_last = painted.skip(m);
    assert(painted =~= painted_front + painted_last);
    assert(painted_as(front, painted_front)) by {
        assert forall|i: int| 0 <= i < front.len() implies painted_of(
            #[trigger] front[i],
            painted_front[i],
        ) by {
            assert((front + last)[i] == front[i]);
        }
    }
    assert(painted_as(last, painted_last)) by {
        assert forall|i: int| 0 <= i < last.len() implies painted_of(
            #[trigger] last[i],
            painted_last[i],
        ) by {
            assert((front + last)[m + i] == last[i]);
        }
    }
    lemma_flattened_concat(painted_front, painted_last);
    let empty = Seq::<char>::empty();
    if k == n - 1 {
        lemma_diagnostic_is_legible(
            file_name,
            text,
            problems[k].span,
            problems[k].message,
            severity,
            painted_last,
        );
        lemma_holds_among(flattened(painted_front), flattened(painted_last), empty, title_text(severity));
        assert(flattened(painted_front) + flattened(painted_last) + empty =~= flattened(painted));
        if !problems[k].message.contains(escape()) {
            lemma_holds_among(
                flattened(painted_front),
                flattened(painted_last),
                empty,
                problems[k].message,
            );
        }
    } else {
        lemma_diagnostics_are_legible(problems, file_name, text, severity, n - 1, painted_front, k);
        lemma_holds_among(empty, flattened(painted_front), flattened(painted_last), title_text(severity));
        assert(empty + flattened(painted_front) + flattened(painted_last) =~= flattened(painted));
        if !problems[k].message.contains(escape()) {
            lemma_holds_among(
                empty,
                flattened(painted_front),
                flattened(painted_last),
                problems[k].message,
            );
        }
    }
}

/// Whether none of the diagnostics holds the escape character in its
/// message.
pub open spec fn clean_messages(problems: Seq<Problem>) -> bool {
    forall|k: int| 0 <= k < problems.len() ==> clean((#[trigger] problems[k]).message)
}

/// The layouts of diagnostics hold no escape character unless the file
/// name, the text or a message holds one.
pub proof fn lemma_layouts_are_clean(
    problems: Seq<Problem>,
    file_name: Seq<char>,
    text: Seq<char>,
    severity: Severity,
    n: int,
)
    requires
        clean(file_name),
        clean(text),
        clean_messages(problems),
    ensures
        free_of_escapes(layouts(problems, file_name, text, severity, n)),
    decreases n,
{
    if n <= 0 || n > problems.len() {
    } else {
        lemma_layouts_are_clean(problems, file_name, text, severity, n - 1);
        lemma_layout_is_clean(
            file_name,
            text,
            problems[n - 1].span,
            problems[n - 1].message,
            severity,
        );
        lemma_free_join(
            layouts(problems, file_name, text, severity, n - 1),
            layout(file_name, text, problems[n - 1].span, problems[n - 1].message, severity),
        );
    }
}

/// Writing diagnostics is deterministic but for the highlighting: two
/// writings of the same diagnostics against the same text read the same
/// once the escape sequences are taken out, whatever the environment made
/// of the highlighting in each; and what they read as is the plain text of
/// the layouts. The file name, the text and the messages hold no escape
/// character themselves.
pub proof fn lemma_same_diagnostics_read_the_same(
    problems: Seq<Problem>,
    file_name: Seq<char>,
    text: Seq<char>,
    severity: Severity,
    first: Seq<Seq<char>>,
    second: Seq<Seq<char>>,
)
    requires
        clean(file_name),
        clean(text),
        clean_messages(problems),
        painted_as(layouts(problems, file_name, text, severity, problems.len() as int), first),
        painted_as(layouts(problems, file_name, text, severity, problems.len() as int), second),
    ensures
        legible(flattened(first)) == legible(flattened(second)),
        legible(flattened(first)) == plain_text(
            layouts(problems, file_name, text, severity, problems.len() as int),
        ),
{
    lemma_layouts_are_clean(problems, file_name, text, severity, problems.len() as int);
    lemma_written_reads_the_same(
        layouts(problems, file_name, text, severity, problems.len() as int),
        first,
        second,
    );
}

/// The errors and warnings of one run over a schema. They are gathered, so
/// that a run reports all of them and does not stop at the first.
#[derive(Debug)]
pub struct Diagnostics {
    errors: Vec<SchemaError>,
    warnings: Vec<SchemaWarning>,
}

impl View for Diagnostics {
    type V = Findings;

    closed spec fn view(&self) -> Findings {
        Findings {
            errors: self.errors@.map_values(|e: SchemaError| e@),
            warnings: self.warnings@.map_values(|w: SchemaWarning| w@),
        }
    }
}

impl Diagnostics {
    pub fn new() -> (diagnostics: Diagnostics)
        ensures
            diagnostics@.errors == Seq::<Problem>::empty(),
            diagnostics@.warnings == Seq::<Problem>::empty(),
    {
        let diagnostics = Diagnostics { errors: Vec::new(), warnings: Vec::new() };
        proof {
            assert(diagnostics@.errors =~= Seq::<Problem>::empty());
            assert(diagnostics@.warnings =~= Seq::<Problem>::empty());
        }
        diagnostics
    }

    pub fn warnings(&self) -> (warnings: &[SchemaWarning])
        ensures
            warnings@.map_values(|w: SchemaWarning| w@) == self@.warnings,
    {
        self.warnings.as_slice()
    }

    pub fn into_warnings(self) -> (warnings: Vec<SchemaWarning>)
        ensures
            warnings@.map_values(|w: SchemaWarning| w@) == self@.warnings,
    {
        self.warnings
    }

    pub fn errors(&self) -> (errors: &[SchemaError])
        ensures
            errors@.map_values(|e: SchemaError| e@) == self@.errors,
    {
        self.errors.as_slice()
    }

    pub fn push_error(&mut self, err: SchemaError)
        ensures
            final(self)@.errors == old(self)@.errors.push(err@),
            final(self)@.warnings == old(self)@.warnings,
    {
        self.errors.push(err);
        proof {
            assert(self@.errors =~= old(self)@.errors.push(err@));
        }
    }

    pub fn push_warning(&mut self, warning: SchemaWarning)
        ensures
            final(self)@.warnings == old(self)@.warnings.push(warning@),
            final(self)@.errors == old(self)@.errors,
    {
        self.warnings.push(warning);
        proof {
            assert(self@.warnings =~= old(self)@.warnings.push(warning@));
        }
    }

    /// Adds the errors of `errors`, in their order.
    pub fn push_errors(&mut self, errors: Vec<SchemaError>)
        ensures
            final(self)@.errors == old(self)@.errors + errors@.map_values(|e: SchemaError| e@),
            final(self)@.warnings == old(self)@.warnings,
    {
        let ghost added = errors@;
        let mut errors = errors;
        self.errors.append(&mut errors);
        proof {
            assert(self@.errors =~= old(self)@.errors + added.map_values(|e: SchemaError| e@));
        }
    }

    /// Whether the collection holds at least one error.
    pub fn has_errors(&self) -> (found: bool)
        ensures
            found == (self@.errors.len() > 0),
    {
        !self.errors.is_empty()
    }

    /// With no error, `Ok` and the collection stays as it is. With errors,
    /// all that was gathered moves into the `Err` and the collection is left
    /// empty.
    pub fn to_result(&mut self) -> (result: Result<(), Diagnostics>)
        ensures
            old(self)@.errors.len() == 0 ==> result is Ok && final(self)@ == old(self)@,
            old(self)@.errors.len() > 0 ==> result is Err && result->Err_0@ == old(self)@
                && final(self)@.errors.len() == 0 && final(self)@.warnings.len() == 0,
    {
        if self.has_errors() {
            let mut taken = Diagnostics::new();
            std::mem::swap(self, &mut taken);
            Err(taken)
        } else {
            Ok(())
        }
    }

    /// The errors, in the order in which they were found, each laid out
    /// against the text `schema_string` of the file `file_name`. What is not
    /// highlighted is written as the layouts have it.
    pub fn to_pretty_string(&self, file_name: &str, schema_string: &str) -> (text: String)
        ensures
            exists|painted: Seq<Seq<char>>|
                painted_as(
                    layouts(
                        self@.errors,
                        file_name@,
                        schema_string@,
                        Severity::Error,
                        self@.errors.len() as int,
                    ),
                    painted,
                ) && text@ == flattened(painted),
            clean(file_name@) && clean(schema_string@) && clean_messages(self@.errors) ==> legible(
                text@,
            ) == plain_text(
                layouts(
                    self@.errors,
                    file_name@,
                    schema_string@,
                    Severity::Error,
                    self@.errors.len() as int,
                ),
            ),
    {
        let source = SourceText::new(schema_string);
        let ghost problems = self@.errors;
        let mut message = String::new();
        let ghost mut painted: Seq<Seq<char>> = Seq::empty();
        let mut i: usize = 0;
        proof {
            assert(message@ =~= flattened(painted));
        }
        while i < self.errors.len()
            invariant
                source.well_formed(),
                source.chars@ == schema_string@,
                problems == self@.errors,
                i <= self.errors@.len(),
                painted_as(
                    layouts(problems, file_name@, schema_string@, Severity::Error, i as int),
                    painted,
                ),
                message@ == flattened(painted),
            decreases self.errors@.len() - i,
        {
            let err = &self.errors[i];
            assert(problems[i as int] == err@);
            let ghost before = message@;
            pretty_print(
                &mut message,
                file_name,
                &source,
                err.span(),
                err.message(),
                Severity::Error,
            );
            proof {
                let added = choose|added: Seq<Seq<char>>|
                    painted_as(
                        layout(
                            file_name@,
                            schema_string@,
                            err@.span,
                            err@.message,
                            Severity::Error,
                        ),
                        added,
                    ) && message@ == before + flattened(added);
                lemma_flattened_concat(painted, added);
                painted = painted + added;
            }
            i += 1;
        }
        proof {
            if clean(file_name@) && clean(schema_string@) && clean_messages(problems) {
                lemma_same_diagnostics_read_the_same(
                    problems,
                    file_name@,
                    schema_string@,
                    Severity::Error,
                    painted,
                    painted,
                );
            }
        }
        message
    }

    /// The warnings, in the order in which they were found, each laid out
    /// against the text `schema_string` of the file `file_name`. What is not
    /// highlighted is written as the layouts have it.
    pub fn warnings_to_pretty_string(&self, file_name: &str, schema_string: &str) -> (text: String)
        ensures
            exists|painted: Seq<Seq<char>>|
                painted_as(
                    layouts(
                        self@.warnings,
                        file_name@,
                        schema_string@,
                        Severity::Warning,
                        self@.warnings.len() as int,
                    ),
                    painted,
                ) && text@ == flattened(painted),
            clean(file_name@) && clean(schema_string@) && clean_messages(self@.warnings) ==> legible(
                text@,
            ) == plain_text(
                layouts(
                    self@.warnings,
                    file_name@,
                    schema_string@,
                    Severity::Warning,
                    self@.warnings.len() as int,
                ),
            ),
    {
        let source = SourceText::new(schema_string);
        let ghost problems = self@.warnings;
        let mut message = String::new();
        let ghost mut painted: Seq<Seq<char>> = Seq::empty();
        let mut i: usize = 0;
        proof {
            assert(message@ =~= flattened(painted));
        }
        while i < self.warnings.len()
            invariant
                source.well_formed(),
                source.chars@ == schema_string@,
                problems == self@.warnings,
                i <= self.warnings@.len(),
                painted_as(
                    layouts(problems, file_name@, schema_string@, Severity::Warning, i as int),
                    painted,
                ),
                message@ == flattened(painted),
            decreases self.warnings@.len() - i,
        {
            let warn = &self.warnings[i];
            assert(problems[i as int] == warn@);
            let ghost before = message@;
            pretty_print(
                &mut message,
                file_name,
                &source,
                warn.span(),
                warn.message(),
                Severity::Warning,
            );
            proof {
                let added = choose|added: Seq<Seq<char>>|
                    painted_as(
                        layout(
                            file_name@,
                            schema_string@,
                            warn@.span,
                            warn@.message,
                            Severity::Warning,
                        ),
                        added,
                    ) && message@ == before + flattened(added);
                lemma_flattened_concat(painted, added);
                painted = painted + added;
            }
            i += 1;
        }
        proof {
            if clean(file_name@) && clean(schema_string@) && clean_messages(problems) {
                lemma_same_diagnostics_read_the_same(
                    problems,
                    file_name@,
                    schema_string@,
                    Severity::Warning,
                    painted,
                    painted,
                );
            }
        }
        message
    }

    /// A collection that holds one error.
    pub fn from_error(error: SchemaError) -> (diagnostics: Diagnostics)
        ensures
            diagnostics@.errors == seq![error@],
            diagnostics@.warnings == Seq::<Problem>::empty(),
    {
        let mut col = Diagnostics::new();
        col.push_error(error);
        proof {
            assert(col@.errors =~= seq![error@]);
        }
        col
    }

    /// A collection that holds one warning.
    pub fn from_warning(warning: SchemaWarning) -> (diagnostics: Diagnostics)
        ensures
            diagnostics@.warnings == seq![warning@],
            diagnostics@.errors == Seq::<Problem>::empty(),
    {
        let mut col = Diagnostics::new();
        col.push_warning(warning);
        proof {
            assert(col@.warnings =~= seq![warning@]);
        }
        col
    }
}

impl From<SchemaError> for Diagnostics {
    fn from(error: SchemaError) -> (diagnostics: Self)
        ensures
            diagnostics@.errors == seq![error@],
            diagnostics@.warnings == Seq::<Problem>::empty(),
    {
        Diagnostics::from_error(error)
    }
}

impl vstd::std_specs::convert::FromSpecImpl<SchemaError> for Diagnostics {
    open spec fn obeys_from_spec() -> bool {
        false
    }

    open spec fn from_spec(error: SchemaError) -> Self {
        arbitrary()
    }
}

impl From<SchemaWarning> for Diagnostics {
    fn from(warning: SchemaWarning) -> (diagnostics: Self)
        ensures
            diagnostics@.warnings == seq![warning@],
            diagnostics@.errors == Seq::<Problem>::empty(),
    {
        Diagnostics::from_warning(warning)
    }
}

impl vstd::std_specs::convert::FromSpecImpl<SchemaWarning> for Diagnostics {
    open spec fn obeys_from_spec() -> bool {
        false
    }

    open spec fn from_spec(warning: SchemaWarning) -> Self {
        arbitrary()
    }
}

impl Default for Diagnostics {
    fn default() -> (diagnostics: Diagnostics)
        ensures
            diagnostics@.errors == Seq::<Problem>::empty(),
            diagnostics@.warnings == Seq::<Problem>::empty(),
    {
        Diagnostics::new()
    }
}

} // verus!
