use crate::diagnostics::paint::{
    flattened, holds, lemma_diagnostic_is_legible, painted_as, pretty_print,
};
use crate::diagnostics::pretty_print::{clean, layout, Severity};
use crate::span::Span;
use crate::text::{concat3, concat5, concat7, decimal, decimal_string, SourceText};
use vstd::prelude::*;
use vstd::string::*;

verus! {

/// What a diagnostic says: a place in the source and a message.
pub ghost struct Problem {
    pub span: Span,
    pub message: Seq<char>,
}

/// An error found in a schema.
#[derive(Debug)]
pub struct SchemaError {
    span: Span,
    message: String,
}

impl View for SchemaError {
    type V = Problem;

    closed spec fn view(&self) -> Problem {
        Problem { span: self.span, message: self.message@ }
    }
}

impl Clone for SchemaError {
    fn clone(&self) -> (copy: SchemaError)
        ensures
            copy@ == self@,
    {
        SchemaError { span: self.span, message: self.message.clone() }
    }
}

impl SchemaError {
    pub fn new(message: String, span: Span) -> (error: SchemaError)
        ensures
            error@ == (Problem { span, message: message@ }),
    {
        SchemaError { message, span }
    }

    pub fn new_static(message: &'static str, span: Span) -> (error: SchemaError)
        ensures
            error@ == (Problem { span, message: message@ }),
    {
        Self::new(String::from_str(message), span)
    }

    pub fn new_literal_parser_error(literal_type: &str, raw_value: &str, span: Span) -> (error:
        SchemaError)
        ensures
            error@ == (Problem {
                span,
                message: "\""@ + raw_value@ + "\" is not a valid value for "@ + literal_type@
                    + "."@,
            }),
    {
        Self::new(concat5("\"", raw_value, "\" is not a valid value for ", literal_type, "."), span)
    }

    pub fn new_argument_not_found_error(argument_name: &str, span: Span) -> (error: SchemaError)
        ensures
            error@ == (Problem {
                span,
                message: "Argument \""@ + argument_name@ + "\" is missing."@,
            }),
    {
        Self::new(concat3("Argument \"", argument_name, "\" is missing."), span)
    }

    pub fn new_argument_count_mismatch_error(
        function_name: &str,
        required_count: usize,
        given_count: usize,
        span: Span,
    ) -> (error: SchemaError)
        ensures
            error@ == (Problem {
                span,
                message: "Function \""@ + function_name@ + "\" takes "@ + decimal(
                    required_count as nat,
                ) + " arguments, but received "@ + decimal(given_count as nat) + "."@,
            }),
    {
        let required = decimal_string(required_count as u64);
        let given = decimal_string(given_count as u64);
        Self::new(
            concat7(
                "Function \"",
                function_name,
                "\" takes ",
                required.as_str(),
                " arguments, but received ",
                given.as_str(),
                ".",
            ),
            span,
        )
    }

    pub fn new_attribute_argument_not_found_error(
        argument_name: &str,
        attribute_name: &str,
        span: Span,
    ) -> (error: SchemaError)
        ensures
            error@ == (Problem {
                span,
                message: "Argument \""@ + argument_name@ + "\" is missing in attribute \"@"@
                    + attribute_name@ + "\"."@,
            }),
    {
        Self::new(
            concat5(
                "Argument \"",
                argument_name,
                "\" is missing in attribute \"@",
                attribute_name,
                "\".",
            ),
            span,
        )
    }

    pub fn new_source_argument_not_found_error(
        argument_name: &str,
        source_name: &str,
        span: Span,
    ) -> (error: SchemaError)
        ensures
            error@ == (Problem {
                span,
                message: "Argument \""@ + argument_name@ + "\" is missing in data source block \""@
                    + source_name@ + "\"."@,
            }),
    {
        Self::new(
            concat5(
                "Argument \"",
                argument_name,
                "\" is missing in data source block \"",
                source_name,
                "\".",
            ),
            span,
        )
    }

    pub fn new_generator_argument_not_found_error(
        argument_name: &str,
        generator_name: &str,
        span: Span,
    ) -> (error: SchemaError)
        ensures
            error@ == (Problem {
                span,
                message: "Argument \""@ + argument_name@ + "\" is missing in generator block \""@
                    + generator_name@ + "\"."@,
            }),
    {
        Self::new(
            concat5(
                "Argument \"",
                argument_name,
                "\" is missing in generator block \"",
                generator_name,
                "\".",
            ),
            span,
        )
    }

    pub fn new_attribute_validation_error(message: &str, attribute_name: &str, span: Span) -> (error:
        SchemaError)
        ensures
            error@ == (Problem {
                span,
                message: "Error parsing attribute \""@ + attribute_name@ + "\": "@ + message@,
            }),
    {
        let mut text = concat3("Error parsing attribute \"", attribute_name, "\": ");
        text.append(message);
        Self::new(text, span)
    }

    pub fn new_duplicate_attribute_error(attribute_name: &str, span: Span) -> (error: SchemaError)
        ensures
            error@ == (Problem {
                span,
                message: "Attribute \"@"@ + attribute_name@ + "\" can only be defined once."@,
            }),
    {
        Self::new(concat3("Attribute \"@", attribute_name, "\" can only be defined once."), span)
    }

    pub fn new_duplicate_top_error(
        name: &str,
        top_type: &str,
        existing_top_type: &str,
        span: Span,
    ) -> (error: SchemaError)
        ensures
            error@ == (Problem {
                span,
                message: "The "@ + top_type@ + " \""@ + name@ + "\" cannot be defined because a "@
                    + existing_top_type@ + " with that name already exists."@,
            }),
    {
        Self::new(
            concat7(
                "The ",
                top_type,
                " \"",
                name,
                "\" cannot be defined because a ",
                existing_top_type,
                " with that name already exists.",
            ),
            span,
        )
    }

    pub fn new_duplicate_config_key_error(conf_block_name: &str, key_name: &str, span: Span) -> (error:
        SchemaError)
        ensures
            error@ == (Problem {
                span,
                message: "Key \""@ + key_name@ + "\" is already defined in "@ + conf_block_name@
                    + "."@,
            }),
    {
        Self::new(concat5("Key \"", key_name, "\" is already defined in ", conf_block_name, "."), span)
    }

    pub fn new_duplicate_argument_error(arg_name: &str, span: Span) -> (error: SchemaError)
        ensures
            error@ == (Problem {
                span,
                message: "Argument \""@ + arg_name@ + "\" is already specified."@,
            }),
    {
        Self::new(concat3("Argument \"", arg_name, "\" is already specified."), span)
    }

    pub fn new_unused_argument_error(span: Span) -> (error: SchemaError)
        ensures
            error@ == (Problem { span, message: "No such argument."@ }),
    {
        Self::new_static("No such argument.", span)
    }

    pub fn new_source_validation_error(message: &str, source: &str, span: Span) -> (error:
        SchemaError)
        ensures
            error@ == (Problem { span, message: source_validation_message(message@, source@) }),
    {
        let mut text = concat3("Error validating datasource `", source, "`: ");
        text.append(message);
        Self::new(text, span)
    }

    pub fn new_validation_error(message: &str, span: Span) -> (error: SchemaError)
        ensures
            error@ == (Problem { span, message: validation_message(message@) }),
    {
        let mut text = String::from_str("Error validating: ");
        text.append(message);
        Self::new(text, span)
    }

    pub fn new_parser_error(expected_str: String, span: Span) -> (error: SchemaError)
        ensures
            error@ == (Problem { span, message: parser_message(expected_str@) }),
    {
        let mut text = String::from_str("Unexpected token. Expected one of: ");
        text.append(expected_str.as_str());
        Self::new(text, span)
    }

    pub fn new_functional_evaluation_error(message: &str, span: Span) -> (error: SchemaError)
        ensures
            error@ == (Problem { span, message: message@ }),
    {
        Self::new(String::from_str(message), span)
    }

    pub fn new_environment_functional_evaluation_error(var_name: String, span: Span) -> (error:
        SchemaError)
        ensures
            error@ == (Problem { span, message: environment_message(var_name@) }),
    {
        Self::new(concat3("Environment variable not found: ", var_name.as_str(), "."), span)
    }

    pub fn new_type_not_found_error(kind_name: &str, span: Span) -> (error: SchemaError)
        ensures
            error@ == (Problem {
                span,
                message: "Type \""@ + kind_name@
                    + "\" is neither a built-in type, nor refers to another model, custom type, or enum."@,
            }),
    {
        Self::new(
            concat3(
                "Type \"",
                kind_name,
                "\" is neither a built-in type, nor refers to another model, custom type, or enum.",
            ),
            span,
        )
    }

    pub fn new_scalar_type_not_found_error(kind_name: &str, span: Span) -> (error: SchemaError)
        ensures
            error@ == (Problem {
                span,
                message: "Type \""@ + kind_name@ + "\" is not a built-in type."@,
            }),
    {
        Self::new(concat3("Type \"", kind_name, "\" is not a built-in type."), span)
    }

    pub fn new_attribute_not_known_error(attribute_name: &str, span: Span) -> (error: SchemaError)
        ensures
            error@ == (Problem {
                span,
                message: "Attribute not known: \"@"@ + attribute_name@ + "\"."@,
            }),
    {
        Self::new(concat3("Attribute not known: \"@", attribute_name, "\"."), span)
    }

    pub fn new_property_not_known_error(property_name: &str, span: Span) -> (error: SchemaError)
        ensures
            error@ == (Problem { span, message: property_not_known_message(property_name@) }),
    {
        Self::new(concat3("Property not known: \"", property_name, "\"."), span)
    }

    pub fn new_argument_not_known_error(property_name: &str, span: Span) -> (error: SchemaError)
        ensures
            error@ == (Problem {
                span,
                message: "Argument not known: \""@ + property_name@ + "\"."@,
            }),
    {
        Self::new(concat3("Argument not known: \"", property_name, "\"."), span)
    }

    pub fn new_datasource_provider_not_known_error(provider: &str, span: Span) -> (error:
        SchemaError)
        ensures
            error@ == (Problem { span, message: provider_not_known_message(provider@) }),
    {
        Self::new(concat3("Datasource provider not known: \"", provider, "\"."), span)
    }

    pub fn new_value_parser_error(expected_type: &str, raw: &str, span: Span) -> (error: SchemaError)
        ensures
            error@ == (Problem {
                span,
                message: "Expected "@ + expected_type@ + ", but found "@ + raw@ + "."@,
            }),
    {
        Self::new(concat5("Expected ", expected_type, ", but found ", raw, "."), span)
    }

    pub fn new_type_mismatch_error(
        expected_type: &str,
        received_type: &str,
        raw: &str,
        span: Span,
    ) -> (error: SchemaError)
        ensures
            error@ == (Problem {
                span,
                message: type_mismatch_message(expected_type@, received_type@, raw@),
            }),
    {
        Self::new(
            concat7(
                "Expected a ",
                expected_type,
                " value, but received ",
                received_type,
                " value `",
                raw,
                "`.",
            ),
            span,
        )
    }

    pub fn new_config_property_missing_value_error(
        property_name: &str,
        config_name: &str,
        config_kind: &str,
        span: Span,
    ) -> (error: SchemaError)
        ensures
            error@ == (Problem {
                span,
                message: missing_value_message(property_name@, config_name@, config_kind@),
            }),
    {
        Self::new(
            concat7(
                "Property ",
                property_name,
                " in ",
                config_kind,
                " ",
                config_name,
                " needs to be assigned a value",
            ),
            span,
        )
    }

    pub fn span(&self) -> (span: Span)
        ensures
            span == self@.span,
    {
        self.span
    }

    pub fn message(&self) -> (message: &str)
        ensures
            message@ == self@.message,
    {
        self.message.as_str()
    }

    /// Writes the error to `f`, laid out against the text `text` of the
    /// file `file_name`. What is not highlighted is written as the layout
    /// has it; what is highlighted is written with its text in it. So the
    /// text written names the severity, and holds the message unless the
    /// message holds an escape character.
    pub fn pretty_print(&self, f: &mut String, file_name: &str, text: &str)
        ensures
            exists|painted: Seq<Seq<char>>|
                painted_as(
                    layout(file_name@, text@, self@.span, self@.message, Severity::Error),
                    painted,
                ) && final(f)@ == old(f)@ + flattened(painted) && holds(
                    flattened(painted),
                    "error"@,
                ) && (clean(self@.message) ==> holds(flattened(painted), self@.message)),
    {
        let source = SourceText::new(text);
        pretty_print(f, file_name, &source, self.span, self.message.as_str(), Severity::Error);
        proof {
            let painted = choose|painted: Seq<Seq<char>>|
                painted_as(
                    layout(file_name@, source.chars@, self.span, self.message@, Severity::Error),
                    painted,
                ) && f@ == old(f)@ + flattened(painted);
            assert(painted_as(
                layout(file_name@, text@, self@.span, self@.message, Severity::Error),
                painted,
            ));
            lemma_diagnostic_is_legible(
                file_name@,
                text@,
                self@.span,
                self@.message,
                Severity::Error,
                painted,
            );
        }
    }
}

/// The message of an error found while validating a datasource.
pub open spec fn source_validation_message(message: Seq<char>, source: Seq<char>) -> Seq<char> {
    "Error validating datasource `"@ + source + "`: "@ + message
}

/// The message of a general validation error.
pub open spec fn validation_message(message: Seq<char>) -> Seq<char> {
    "Error validating: "@ + message
}

/// The message of an error of the parser, with what it expected.
pub open spec fn parser_message(expected: Seq<char>) -> Seq<char> {
    "Unexpected token. Expected one of: "@ + expected
}

/// The message for an environment variable that is not set.
pub open spec fn environment_message(var_name: Seq<char>) -> Seq<char> {
    "Environment variable not found: "@ + var_name + "."@
}

/// The message for a property that a block does not know.
pub open spec fn property_not_known_message(property_name: Seq<char>) -> Seq<char> {
    "Property not known: \""@ + property_name + "\"."@
}

/// The message for a provider that is not supported.
pub open spec fn provider_not_known_message(provider: Seq<char>) -> Seq<char> {
    "Datasource provider not known: \""@ + provider + "\"."@
}

/// The message for a value of another type than the expected one.
pub open spec fn type_mismatch_message(
    expected_type: Seq<char>,
    received_type: Seq<char>,
    raw: Seq<char>,
) -> Seq<char> {
    "Expected a "@ + expected_type + " value, but received "@ + received_type + " value `"@ + raw
        + "`."@
}

/// The message for a property that has a name and no value.
pub open spec fn missing_value_message(
    property_name: Seq<char>,
    config_name: Seq<char>,
    config_kind: Seq<char>,
) -> Seq<char> {
    "Property "@ + property_name + " in "@ + config_kind + " "@ + config_name
        + " needs to be assigned a value"@
}

} // verus!
