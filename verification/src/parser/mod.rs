//! The parser: from the text of a schema to its syntax tree.

pub mod parse_comments;
pub mod parse_expression;
pub mod parse_schema;
pub mod parse_source;
pub mod scan;

pub use parse_schema::parse_schema;

use crate::diagnostics::error::Problem;
use crate::diagnostics::SchemaError;
use vstd::prelude::*;

verus! {

/// What the parser found at a position: a value, the position where it
/// ends, and the errors reported on the way.
pub ghost struct Parsed<T> {
    pub value: T,
    pub end: int,
    pub reports: Seq<Problem>,
}

/// What a list of errors says.
pub open spec fn problems(errors: Seq<SchemaError>) -> Seq<Problem> {
    errors.map_values(|e: SchemaError| e@)
}

/// Adds an error to a list.
pub fn push_report(reports: &mut Vec<SchemaError>, error: SchemaError)
    ensures
        problems(final(reports)@) == problems(old(reports)@).push(error@),
{
    reports.push(error);
    proof {
        assert(problems(reports@) =~= problems(old(reports)@).push(error@));
    }
}

/// Moves the errors of `more` behind those of `reports`.
pub fn append_reports(reports: &mut Vec<SchemaError>, more: Vec<SchemaError>)
    ensures
        problems(final(reports)@) == problems(old(reports)@) + problems(more@),
{
    let mut more = more;
    let ghost moved = more@;
    reports.append(&mut more);
    proof {
        assert(problems(reports@) =~= problems(old(reports)@) + problems(moved));
    }
}

/// A list without errors.
pub fn no_reports() -> (reports: Vec<SchemaError>)
    ensures
        problems(reports@) == Seq::<Problem>::empty(),
{
    let reports: Vec<SchemaError> = Vec::new();
    proof {
        assert(problems(reports@) =~= Seq::<Problem>::empty());
    }
    reports
}

} // verus!
