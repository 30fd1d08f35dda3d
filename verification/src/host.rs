//! What a host on the other side of a language boundary is told about a
//! schema that is not valid: an error code that does not change, and the
//! diagnostics as text.

use crate::diagnostics::collection::layouts;
use crate::diagnostics::paint::{flattened, painted_as};
use crate::diagnostics::pretty_print::Severity;
use crate::text::{decimal, push_decimal};
use crate::validation_reports;
use vstd::prelude::*;
use vstd::string::*;

verus! {

/// An error as a host sees it.
#[derive(Debug)]
pub struct ErrorObject {
    pub code: String,
    pub message: String,
}

/// The code of a schema that is not valid.
pub const SCHEMA_PARSER_ERROR_CODE: &'static str = "P1012";

/// The line that closes the message: the number of errors.
pub open spec fn error_count_line(count: nat) -> Seq<char> {
    "\nValidation error count: "@ + decimal(count)
}

/// The error for a schema with `error_count` errors, whose diagnostics as
/// text are `formatted`.
pub fn validation_failure(formatted: String, error_count: usize) -> (error: ErrorObject)
    ensures
        error.code@ == "P1012"@,
        error.message@ == formatted@ + error_count_line(error_count as nat),
{
    let mut message = formatted;
    message.append("\nValidation error count: ");
    push_decimal(&mut message, error_count as u64);
    proof {
        assert(message@ =~= formatted@ + error_count_line(error_count as nat));
    }
    ErrorObject { code: String::from_str(SCHEMA_PARSER_ERROR_CODE), message }
}

/// Validates a schema for a host. A schema without errors gives `Ok`. Any
/// other gives the error with the code `P1012`, whose message is the errors
/// laid out against the schema under the file name `schema.prisma`, and
/// their number on a last line.
pub fn validate(input_schema: &str) -> (result: Result<(), ErrorObject>)
    ensures
        match result {
            Ok(()) => validation_reports(input_schema@).len() == 0,
            Err(error) => validation_reports(input_schema@).len() > 0 && error.code@ == "P1012"@
                && exists|painted: Seq<Seq<char>>|
                painted_as(
                    layouts(
                        validation_reports(input_schema@),
                        "schema.prisma"@,
                        input_schema@,
                        Severity::Error,
                        validation_reports(input_schema@).len() as int,
                    ),
                    painted,
                ) && error.message@ == flattened(painted) + error_count_line(
                    validation_reports(input_schema@).len(),
                ),
        },
{
    let validate_schema = crate::validate(input_schema);
    let diagnostics = &validate_schema.diagnostics;
    if !diagnostics.has_errors() {
        return Ok(());
    }
    let formatted_error = diagnostics.to_pretty_string("schema.prisma", input_schema);
    let error_count = diagnostics.errors().len();
    proof {
        let painted = choose|painted: Seq<Seq<char>>|
            painted_as(
                layouts(
                    diagnostics@.errors,
                    "schema.prisma"@,
                    input_schema@,
                    Severity::Error,
                    diagnostics@.errors.len() as int,
                ),
                painted,
            ) && formatted_error@ == flattened(painted);
        assert(painted_as(
            layouts(
                validation_reports(input_schema@),
                "schema.prisma"@,
                input_schema@,
                Severity::Error,
                validation_reports(input_schema@).len() as int,
            ),
            painted,
        ));
    }
    Err(validation_failure(formatted_error, error_count))
}

} // verus!
