use crate::ast::expression::{lemma_arguments_view, Expression, ExpressionView};
use crate::coerce_expression::{push_type_mismatch, string, type_mismatch};
use crate::diagnostics::error::Problem;
use crate::diagnostics::{Diagnostics, SchemaError};
use crate::text::str_eq;
use vstd::prelude::*;
use vstd::string::*;

verus! {

/// What a [`StringFromEnvVar`] holds.
pub ghost struct EnvString {
    pub from_env_var: Option<Seq<char>>,
    pub value: Option<Seq<char>>,
}

/// A text that the schema gives directly, or leaves to an environment
/// variable.
#[derive(Debug)]
pub struct StringFromEnvVar {
    /// The name of the environment variable, if the text is to be read from
    /// one.
    pub from_env_var: Option<String>,
    /// The text itself, if the schema gives it or once it is resolved.
    pub value: Option<String>,
}

/// The characters of a string that may be missing.
pub open spec fn optional_text(text: Option<String>) -> Option<Seq<char>> {
    match text {
        Some(t) => Some(t@),
        None => None,
    }
}

impl View for StringFromEnvVar {
    type V = EnvString;

    open spec fn view(&self) -> EnvString {
        EnvString {
            from_env_var: optional_text(self.from_env_var),
            value: optional_text(self.value),
        }
    }
}

/// What reading an expression as a text or a reference to an environment
/// variable gives: the value, or the one error that is reported.
pub open spec fn env_string_of(expression: ExpressionView) -> Result<EnvString, Problem> {
    match expression {
        ExpressionView::StringValue(value, _) => Ok(
            EnvString { from_env_var: None, value: Some(value) },
        ),
        ExpressionView::Function(name, arguments, span) => if name != "env"@ {
            Err(type_mismatch("String"@, expression))
        } else if arguments.arguments.len() != 1 || arguments.empty_arguments.len() != 0 {
            Err(
                Problem {
                    span,
                    message: "Exactly one string parameter must be passed to the env function."@,
                },
            )
        } else if arguments.trailing_comma is Some {
            Err(Problem { span, message: "Trailing commas are not supported in env()."@ })
        } else if arguments.arguments[0].name is Some {
            Err(Problem { span, message: "The env function takes a single argument."@ })
        } else {
            match arguments.arguments[0].value {
                ExpressionView::StringValue(variable, _) => Ok(
                    EnvString { from_env_var: Some(variable), value: None },
                ),
                ExpressionView::Function(_, _, _) => Err(
                    type_mismatch("string"@, arguments.arguments[0].value),
                ),
            }
        },
    }
}

impl Clone for StringFromEnvVar {
    fn clone(&self) -> (copy: StringFromEnvVar)
        ensures
            copy@ == self@,
    {
        StringFromEnvVar {
            from_env_var: match &self.from_env_var {
                Some(name) => Some(name.clone()),
                None => None,
            },
            value: match &self.value {
                Some(value) => Some(value.clone()),
                None => None,
            },
        }
    }
}

impl StringFromEnvVar {
    /// A text that is to be read from the environment variable
    /// `env_var_name`.
    pub fn new_from_env_var(env_var_name: String) -> (text: StringFromEnvVar)
        ensures
            text@ == (EnvString { from_env_var: Some(env_var_name@), value: None }),
    {
        StringFromEnvVar { from_env_var: Some(env_var_name), value: None }
    }

    /// A text that the schema gives directly.
    pub fn new_literal(value: String) -> (text: StringFromEnvVar)
        ensures
            text@ == (EnvString { from_env_var: None, value: Some(value@) }),
    {
        StringFromEnvVar { from_env_var: None, value: Some(value) }
    }

    /// The name of the environment variable, if the text is read from one.
    pub fn as_env_var(&self) -> (name: Option<&str>)
        ensures
            match name {
                Some(n) => self@.from_env_var == Some(n@),
                None => self@.from_env_var is None,
            },
    {
        match &self.from_env_var {
            Some(n) => Some(n.as_str()),
            None => None,
        }
    }

    /// The text itself, if it is known.
    pub fn as_literal(&self) -> (value: Option<&str>)
        ensures
            match value {
                Some(v) => self@.value == Some(v@),
                None => self@.value is None,
            },
    {
        match &self.value {
            Some(v) => Some(v.as_str()),
            None => None,
        }
    }

    /// Reads an expression as a text: a string is the text itself, a call
    /// `env("NAME")` leaves it to the environment variable `NAME`. Any other
    /// expression gives no value, and exactly one error is added.
    pub fn coerce(expr: &Expression, diagnostics: &mut Diagnostics) -> (text: Option<
        StringFromEnvVar,
    >)
        ensures
            match env_string_of(expr@) {
                Ok(expected) => text matches Some(t) && t@ == expected && final(diagnostics)@
                    == old(diagnostics)@,
                Err(problem) => text is None && final(diagnostics)@.errors == old(diagnostics)@.errors.push(problem) && final(diagnostics)@.warnings == old(diagnostics)@.warnings,
            },
    {
        match expr {
            Expression::StringValue(value, _) => Some(StringFromEnvVar::new_literal(value.clone())),
            Expression::Function(name, arguments, span) => {
                proof {
                    lemma_arguments_view(arguments);
                }
                if !str_eq(name.as_str(), "env") {
                    push_type_mismatch("String", expr, diagnostics);
                    return None;
                }
                if arguments.arguments.len() != 1 || arguments.empty_arguments.len() != 0 {
                    diagnostics.push_error(
                        SchemaError::new_functional_evaluation_error(
                            "Exactly one string parameter must be passed to the env function.",
                            *span,
                        ),
                    );
                    return None;
                }
                if arguments.trailing_comma.is_some() {
                    diagnostics.push_error(
                        SchemaError::new_functional_evaluation_error(
                            "Trailing commas are not supported in env().",
                            *span,
                        ),
                    );
                    return None;
                }
                let argument = &arguments.arguments[0];
                assert(arguments@.arguments[0] == argument@);
                if argument.name.is_some() {
                    diagnostics.push_error(
                        SchemaError::new_functional_evaluation_error(
                            "The env function takes a single argument.",
                            *span,
                        ),
                    );
                    return None;
                }
                match string(&argument.value, diagnostics) {
                    Some(variable) => Some(
                        StringFromEnvVar::new_from_env_var(String::from_str(variable)),
                    ),
                    None => None,
                }
            },
        }
    }
}

} // verus!
