use psl::ast::{Argument, ArgumentsList, Expression, Identifier};
use psl::coerce_expression::{coerce, string, string_opt};
use psl::configuration::StringFromEnvVar;
use psl::connector::Connector;
use psl::diagnostics::Diagnostics;
use psl::span::Span;
use psl::{parse_configuration, parse_schema, validate};

fn messages(diagnostics: &Diagnostics) -> Vec<String> {
    diagnostics.errors().iter().map(|e| e.message().to_string()).collect()
}

fn call(name: &str, arguments: Vec<Argument>) -> Expression {
    Expression::Function(
        name.to_string(),
        ArgumentsList { arguments, empty_arguments: Vec::new(), trailing_comma: None },
        Span::new(10, 30),
    )
}

fn text_argument(text: &str) -> Argument {
    Argument {
        name: None,
        value: Expression::StringValue(text.to_string(), Span::new(14, 20)),
        span: Span::new(14, 20),
    }
}

#[test]
fn coercing_a_string_gives_its_text_and_no_error() {
    let mut diagnostics = Diagnostics::new();
    let expression = Expression::StringValue("hello".to_string(), Span::new(1, 8));
    assert_eq!(string(&expression, &mut diagnostics), Some("hello"));
    assert_eq!(string_opt(&expression), Some("hello"));
    assert!(!diagnostics.has_errors());
    assert_eq!(expression.describe_value_type(), "string");
    assert!(expression.is_string());
    assert!(!expression.is_function());
}

#[test]
fn coercing_a_function_gives_no_value_and_one_error() {
    let mut diagnostics = Diagnostics::new();
    let expression = call("env", vec![text_argument("A\"B"), text_argument("c")]);
    assert_eq!(string_opt(&expression), None);
    assert_eq!(string(&expression, &mut diagnostics), None);
    assert_eq!(diagnostics.errors().len(), 1);
    assert_eq!(
        diagnostics.errors()[0].message(),
        "Expected a string value, but received functional value `env(\"A\\\"B\",\"c\")`."
    );
    assert_eq!(diagnostics.errors()[0].span(), Span::new(10, 30));
    assert_eq!(string(&expression, &mut diagnostics), None);
    assert_eq!(diagnostics.errors().len(), 2);
    assert_eq!(expression.describe_value_type(), "functional");
}

#[test]
fn coercing_with_a_coercion_of_the_caller() {
    let mut diagnostics = Diagnostics::new();
    let expression = Expression::StringValue("12".to_string(), Span::new(1, 5));
    let length = |e: &Expression| e.as_string_value().map(|(s, _)| s.len());
    assert_eq!(coerce(length, "text", &expression, &mut diagnostics), Some(2));
    assert!(!diagnostics.has_errors());
    let never = |_: &Expression| -> Option<u8> { None };
    assert_eq!(coerce(never, "number", &expression, &mut diagnostics), None);
    assert_eq!(
        messages(&diagnostics),
        vec!["Expected a number value, but received string value `\"12\"`."]
    );
}

#[test]
fn expressions_as_text() {
    let named = Argument {
        name: Some(Identifier::new("key".to_string(), Span::new(0, 3))),
        value: Expression::StringValue("a\tb\u{1}\u{7f}\u{e9}".to_string(), Span::new(5, 9)),
        span: Span::new(0, 9),
    };
    let inner = Argument { name: None, value: call("g", Vec::new()), span: Span::new(0, 3) };
    let expression = call("f", vec![named, inner]);
    assert_eq!(expression.render(), "f(key: \"a\\tb\\u0001\\u007f\u{e9}\",g())");
}

#[test]
fn env_string_from_expressions() {
    let mut diagnostics = Diagnostics::new();
    let literal = Expression::StringValue("postgres://x".to_string(), Span::new(0, 5));
    let url = StringFromEnvVar::coerce(&literal, &mut diagnostics).unwrap();
    assert_eq!(url.as_literal(), Some("postgres://x"));
    assert_eq!(url.as_env_var(), None);

    let url = StringFromEnvVar::coerce(&call("env", vec![text_argument("DB")]), &mut diagnostics)
        .unwrap();
    assert_eq!(url.as_env_var(), Some("DB"));
    assert_eq!(url.as_literal(), None);
    assert!(!diagnostics.has_errors());

    assert!(StringFromEnvVar::coerce(&call("other", vec![text_argument("DB")]), &mut diagnostics)
        .is_none());
    assert!(StringFromEnvVar::coerce(&call("env", Vec::new()), &mut diagnostics).is_none());
    assert!(StringFromEnvVar::coerce(
        &call("env", vec![text_argument("A"), text_argument("B")]),
        &mut diagnostics
    )
    .is_none());
    let mut named = text_argument("A");
    named.name = Some(Identifier::new("n".to_string(), Span::new(0, 1)));
    assert!(StringFromEnvVar::coerce(&call("env", vec![named]), &mut diagnostics).is_none());
    let nested = Argument { name: None, value: call("f", Vec::new()), span: Span::new(14, 17) };
    assert!(StringFromEnvVar::coerce(&call("env", vec![nested]), &mut diagnostics).is_none());
    let mut comma = ArgumentsList::new();
    comma.arguments.push(text_argument("A"));
    comma.trailing_comma = Some(Span::new(20, 21));
    let with_comma = Expression::Function("env".to_string(), comma, Span::new(10, 30));
    assert!(StringFromEnvVar::coerce(&with_comma, &mut diagnostics).is_none());
    assert_eq!(
        messages(&diagnostics),
        vec![
            "Expected a String value, but received functional value `other(\"DB\")`.",
            "Exactly one string parameter must be passed to the env function.",
            "Exactly one string parameter must be passed to the env function.",
            "The env function takes a single argument.",
            "Expected a string value, but received functional value `f()`.",
            "Trailing commas are not supported in env().",
        ]
    );
}

#[test]
fn connectors_by_provider() {
    assert_eq!(Connector::new("postgres"), Some(Connector::PostgresConnector));
    assert_eq!(Connector::new("mysql"), Some(Connector::MySQLConnector));
    assert_eq!(Connector::new("oracle"), None);
    assert_eq!(Connector::new("Postgres"), None);
    assert_eq!(Connector::new(""), None);
    assert_eq!(Connector::PostgresConnector.expected_prefix(), "postgres://");
}

#[test]
fn connectors_validate_the_prefix_of_a_url() {
    let postgres = Connector::PostgresConnector;
    assert_eq!(postgres.validate_url("postgres://user@host/db"), Ok(()));
    assert_eq!(postgres.validate_url("postgres://"), Ok(()));
    assert_eq!(
        postgres.validate_url("mysql://user@host/db"),
        Err("The URL must start with the `postgres://` protocol.".to_string())
    );
    assert_eq!(
        postgres.validate_url("postgres:/"),
        Err("The URL must start with the `postgres://` protocol.".to_string())
    );
    assert!(postgres.validate_url("").is_err());
    let mysql = Connector::MySQLConnector;
    assert_eq!(mysql.validate_url("mysql://user@host/db"), Ok(()));
    assert_eq!(
        mysql.validate_url("postgres://user@host/db"),
        Err("The URL must start with the `mysql://` protocol.".to_string())
    );
    assert!(mysql.validate_url(" mysql://x").is_err());
}

#[test]
fn valid_schema_gives_its_datasource() {
    let text = "/// Docs are outside.\ndatasource db {\n  /// The main database.\n  provider = \"postgres\"\n  url = env(\"DATABASE_URL\")\n}\n";
    let schema = validate(text);
    assert!(!schema.diagnostics.has_errors());
    assert!(schema.diagnostics.warnings().is_empty());
    assert!(schema.configuration.warnings.is_empty());
    assert_eq!(schema.configuration.datasources.len(), 1);
    let datasource = &schema.configuration.datasources[0];
    assert_eq!(datasource.name, "db");
    assert_eq!(datasource.provider, "postgres");
    assert_eq!(datasource.url.from_env_var.as_deref(), Some("DATABASE_URL"));
    assert_eq!(datasource.url.value, None);
    assert_eq!(&text[datasource.url_span.start..datasource.url_span.end], "env(\"DATABASE_URL\")");
    assert_eq!(datasource.documentation.as_deref(), Some("The main database."));
    assert_eq!(datasource.active_connector, Connector::PostgresConnector);
    assert!(datasource.provider_defined());
    assert!(datasource.url_defined());
    assert!(schema.configuration.validate_that_one_datasource_is_provided().is_ok());
}

#[test]
fn unknown_provider_is_named() {
    let text = "datasource db { provider = \"oracle\" url = \"x\" }";
    let schema = validate(text);
    assert!(schema.configuration.datasources.is_empty());
    assert_eq!(messages(&schema.diagnostics), vec!["Datasource provider not known: \"oracle\"."]);
    assert_eq!(schema.diagnostics.errors()[0].span(), Span::new(27, 35));
}

#[test]
fn every_block_of_several_is_flagged() {
    let several = "You defined more than one datasource. This is not allowed yet because support for multiple databases has not been implemented yet.";
    let text = "datasource a {\n  provider = \"postgres\"\n  url = \"postgres://a\"\n}\ndatasource b {\n  provider = \"nope\"\n  url = \"x\"\n}\ndatasource c {\n}\n";
    let schema = validate(text);
    assert_eq!(schema.configuration.datasources.len(), 1);
    let found = messages(&schema.diagnostics);
    assert_eq!(
        found,
        vec![
            "Datasource provider not known: \"nope\".".to_string(),
            "Argument \"provider\" is missing in data source block \"c\".".to_string(),
            format!("Error validating datasource `a`: {}", several),
            format!("Error validating datasource `b`: {}", several),
            format!("Error validating datasource `c`: {}", several),
        ]
    );
    let errors = schema.diagnostics.errors();
    assert!(text[errors[2].span().start..errors[2].span().end].starts_with("datasource a {"));
    assert!(text[errors[4].span().start..errors[4].span().end].starts_with("datasource c {"));

    let two = "datasource a {\n}\ndatasource b {\n}\n";
    let flagged = messages(&validate(two).diagnostics)
        .iter()
        .filter(|m| m.contains("You defined more than one datasource."))
        .count();
    assert_eq!(flagged, 2);
}

#[test]
fn rules_of_a_block_are_reported_one_at_a_time() {
    let check = |body: &str, expected: &str| {
        let text = format!("datasource db {{\n{}\n}}\n", body);
        let schema = validate(&text);
        assert!(schema.configuration.datasources.is_empty());
        assert_eq!(messages(&schema.diagnostics), vec![expected.to_string()], "for {}", body);
    };
    check("url = \"postgres://x\"", "Argument \"provider\" is missing in data source block \"db\".");
    check("provider = \"postgres\"", "Argument \"url\" is missing in data source block \"db\".");
    check(
        "provider = env(\"P\")\nurl = \"x\"",
        "A datasource must not use the env() function in the provider argument.",
    );
    check(
        "provider = \"\"\nurl = \"x\"",
        "Error validating datasource `db`: The provider argument in a datasource must not be empty",
    );
    check(
        "provider = pick(\"postgres\")\nurl = \"x\"",
        "Error validating datasource `db`: The provider argument in a datasource must be a string literal",
    );
    check(
        "provider = \"postgres\"\nurl =\nother =",
        "Property url in datasource db needs to be assigned a value",
    );
    check(
        "provider = \"mysql\"\nurl = env(\"A\", \"B\")",
        "Exactly one string parameter must be passed to the env function.",
    );
    check(
        "provider = \"mysql\"\nurl = \"a\"\nprovider = \"sqlite\"",
        "Datasource provider not known: \"sqlite\".",
    );
}

#[test]
fn unknown_properties_are_reported_once_each_and_the_datasource_is_kept() {
    let text = "datasource db {\n  foo = \"1\"\n  provider = \"mysql\"\n  bar = f()\n  foo = \"2\"\n  url = \"first\"\n  url = \"mysql://second\"\n}\n";
    let schema = validate(text);
    assert_eq!(schema.configuration.datasources.len(), 1);
    assert_eq!(schema.configuration.datasources[0].url.value.as_deref(), Some("mysql://second"));
    assert_eq!(
        messages(&schema.diagnostics),
        vec!["Property not known: \"bar\".", "Property not known: \"foo\"."]
    );
    let foo = schema.diagnostics.errors()[1].span();
    assert_eq!(&text[foo.start..foo.end], "foo = \"2\"\n");
}

#[test]
fn parse_configuration_fails_with_the_diagnostics() {
    let valid = "datasource db {\n  provider = \"mysql\"\n  url = \"mysql://x\"\n}\n";
    let configuration = parse_configuration(valid).unwrap();
    assert_eq!(configuration.datasources.len(), 1);
    assert_eq!(parse_configuration("").unwrap().datasources.len(), 0);

    let failure = parse_configuration("nonsense\ndatasource db {\n}\n").err().unwrap();
    assert_eq!(
        messages(&failure),
        vec![
            "Error validating: This line is invalid. It does not start with any known Prisma schema keyword.",
            "Argument \"provider\" is missing in data source block \"db\".",
        ]
    );
}

#[test]
fn parse_schema_fails_with_the_diagnostics_as_text() {
    colored::control::set_override(false);
    let valid = "datasource db {\n  provider = \"mysql\"\n  url = \"mysql://x\"\n}\n";
    let schema = parse_schema(valid).ok().unwrap();
    assert_eq!(schema.configuration.datasources.len(), 1);
    assert!(!schema.diagnostics.has_errors());

    let failure =
        parse_schema("datasource db {\n  provider = \"oracle\"\n  url = \"x\"\n}\n").err().unwrap();
    assert_eq!(
        failure,
        "error: Datasource provider not known: \"oracle\".\n  -->  schema.prisma:2\n   | \n 1 | datasource db {\n 2 |   provider = \"oracle\"\n   | \n"
    );
}

#[test]
fn no_datasource_is_an_error_only_on_request() {
    let schema = validate("// nothing\n");
    assert!(!schema.diagnostics.has_errors());
    let failure = schema.configuration.validate_that_one_datasource_is_provided().unwrap_err();
    assert_eq!(
        messages(&failure),
        vec!["Error validating: You defined no datasource. You must define exactly one datasource."]
    );
    assert_eq!(failure.errors()[0].span(), Span::new(0, 0));
}

#[test]
fn host_is_told_the_code_and_the_count() {
    colored::control::set_override(false);
    assert!(psl::host::validate("datasource db { provider = \"mysql\" url = \"mysql://x\" }").is_ok());
    let error = psl::host::validate("one\ntwo\n").unwrap_err();
    assert_eq!(error.code, "P1012");
    assert_eq!(psl::host::SCHEMA_PARSER_ERROR_CODE, "P1012");
    let line = "Error validating: This line is invalid. It does not start with any known Prisma schema keyword.";
    assert_eq!(
        error.message,
        format!(
            "error: {l}\n  -->  schema.prisma:1\n   | \n\n 1 | one\n 2 | two\n   | \nerror: {l}\n  -->  schema.prisma:2\n   | \n 1 | one\n 2 | two\n 3 | \n   | \n\nValidation error count: 2",
            l = line
        )
    );
    let error = psl::host::validation_failure("text".to_string(), 12);
    assert_eq!(error.message, "text\nValidation error count: 12");
}

#[test]
fn any_text_is_taken_without_a_crash() {
    colored::control::set_override(false);
    let texts = [
        "",
        "}",
        "{",
        "datasource",
        "datasource db",
        "datasource db {",
        "datasource db { url = \"",
        "datasource db { url = \"\\",
        "datasource db { url = env( }",
        "datasource db { url = env(\"a\", ) }",
        "datasource db { = }",
        "datasource db {\r\r\n\n}\r",
        "datasource db { provider = \"postgres\" url = env(env(\"x\")) } trailing",
        "\u{feff}datasource db {\n}\n",
        "datasource d\u{e9} {\n  \u{1f600} = \"\u{1f600}\"\n}\n",
        "// only a comment",
        "///\n///\n",
        "a b {\n",
        "a b { } c d { }",
        "datasource a { x = \"1\" } datasource b { y = f(\"\\q\") } datasource c {",
        "\"\"\"\"",
        "=== = = ==",
        "\t \u{a0}\n\n\t",
    ];
    for text in texts {
        let schema = validate(text);
        let pretty = schema.diagnostics.to_pretty_string("schema.prisma", text);
        assert_eq!(pretty.is_empty(), !schema.diagnostics.has_errors(), "for {:?}", text);
        for error in schema.diagnostics.errors() {
            assert!(error.span().start <= error.span().end);
            assert!(error.span().end <= text.len());
            assert!(text.is_char_boundary(error.span().start));
            assert!(text.is_char_boundary(error.span().end));
        }
        let mut diagnostics = Diagnostics::new();
        let ast = psl::parser::parse_schema(text, &mut diagnostics);
        for offset in 0..text.len() + 2 {
            let _ = ast.find_at_position(offset);
            if let Some(id) = ast.find_top_at_position(offset) {
                assert!(ast.top(id).span().contains(offset));
            }
        }
        assert_eq!(psl::host::validate(text).is_ok(), !schema.diagnostics.has_errors());
        assert_eq!(parse_configuration(text).is_ok(), !schema.diagnostics.has_errors());
    }
}
