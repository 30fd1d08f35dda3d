//! Fallible coercions of expressions to more specific types.

use crate::ast::expression::{Expression, ExpressionView};
use crate::ast::render::rendered;
use crate::diagnostics::error::{type_mismatch_message, Problem};
use crate::diagnostics::{Diagnostics, SchemaError};
use vstd::prelude::*;

verus! {

/// The error for an expression that is not of the expected type.
pub open spec fn type_mismatch(expected: Seq<char>, expression: ExpressionView) -> Problem {
    Problem {
        span: expression.span(),
        message: type_mismatch_message(expected, expression.described(), rendered(expression)),
    }
}

/// Reports that `expr` is not of the expected type.
pub fn push_type_mismatch(expected: &str, expr: &Expression, diagnostics: &mut Diagnostics)
    ensures
        final(diagnostics)@.errors == old(diagnostics)@.errors.push(
            type_mismatch(expected@, expr@),
        ),
        final(diagnostics)@.warnings == old(diagnostics)@.warnings,
{
    let raw = expr.render();
    diagnostics.push_error(
        SchemaError::new_type_mismatch_error(
            expected,
            expr.describe_value_type(),
            raw.as_str(),
            expr.span(),
        ),
    );
}

/// The text of a string expression; no value for any other expression.
pub fn string_opt<'a>(expr: &'a Expression) -> (value: Option<&'a str>)
    ensures
        match value {
            Some(text) => expr@ is StringValue && expr@->StringValue_0 == text@,
            None => expr@ is Function,
        },
{
    match expr.as_string_value() {
        Some((s, _)) => Some(s),
        None => None,
    }
}

/// The text of a string expression. Any other expression gives no value, and
/// exactly one error is added: that a string was expected.
pub fn string<'a>(expr: &'a Expression, diagnostics: &mut Diagnostics) -> (value: Option<&'a str>)
    ensures
        match value {
            Some(text) => expr@ is StringValue && expr@->StringValue_0 == text@ && final(diagnostics)@ == old(diagnostics)@,
            None => expr@ is Function && final(diagnostics)@.errors == old(diagnostics)@.errors.push(type_mismatch("string"@, expr@)) && final(diagnostics)@.warnings
                == old(diagnostics)@.warnings,
        },
{
    match string_opt(expr) {
        Some(t) => Some(t),
        None => {
            push_type_mismatch("string", expr, diagnostics);
            None
        },
    }
}

/// Applies `coercion` to `expr`. Where it gives no value, exactly one error
/// is added: that a value of `expected_type` was expected.
pub fn coerce<'a, T, F: Fn(&'a Expression) -> Option<T>>(
    coercion: F,
    expected_type: &str,
    expr: &'a Expression,
    diagnostics: &mut Diagnostics,
) -> (value: Option<T>)
    requires
        call_requires(coercion, (expr,)),
    ensures
        call_ensures(coercion, (expr,), value),
        value is Some ==> final(diagnostics)@ == old(diagnostics)@,
        value is None ==> final(diagnostics)@.errors == old(diagnostics)@.errors.push(
            type_mismatch(expected_type@, expr@),
        ) && final(diagnostics)@.warnings == old(diagnostics)@.warnings,
{
    match coercion(expr) {
        Some(t) => Some(t),
        None => {
            push_type_mismatch(expected_type, expr, diagnostics);
            None
        },
    }
}

} // verus!
