use psl::diagnostics::paint::paint;
use psl::diagnostics::pretty_print::{Piece, Severity, Style};
use psl::diagnostics::{Diagnostics, SchemaError, SchemaWarning};
use psl::span::Span;
use psl::text::SourceText;

fn span() -> Span {
    Span::new(3, 9)
}

#[test]
fn new_collection_is_empty() {
    let diagnostics = Diagnostics::new();
    assert!(!diagnostics.has_errors());
    assert!(diagnostics.errors().is_empty());
    assert!(diagnostics.warnings().is_empty());
    let diagnostics = Diagnostics::default();
    assert!(!diagnostics.has_errors());
}

#[test]
fn errors_and_warnings_keep_their_order() {
    let mut diagnostics = Diagnostics::new();
    diagnostics.push_error(SchemaError::new_static("first", Span::new(1, 2)));
    diagnostics.push_warning(SchemaWarning::new("careful".to_string(), Span::new(5, 6)));
    diagnostics.push_error(SchemaError::new("second".to_string(), Span::new(3, 4)));
    diagnostics.push_errors(vec![
        SchemaError::new_static("third", Span::new(7, 8)),
        SchemaError::new_static("fourth", Span::new(9, 10)),
    ]);
    assert!(diagnostics.has_errors());
    let messages: Vec<&str> = diagnostics.errors().iter().map(|e| e.message()).collect();
    assert_eq!(messages, vec!["first", "second", "third", "fourth"]);
    assert_eq!(diagnostics.errors()[1].span(), Span::new(3, 4));
    assert_eq!(diagnostics.warnings().len(), 1);
    assert_eq!(diagnostics.warnings()[0].message(), "careful");
    assert_eq!(diagnostics.warnings()[0].span(), Span::new(5, 6));
    let warnings = diagnostics.into_warnings();
    assert_eq!(warnings.len(), 1);
}

#[test]
fn to_result_moves_everything_out_once() {
    let mut diagnostics = Diagnostics::new();
    diagnostics.push_warning(SchemaWarning::new("w".to_string(), Span::new(0, 0)));
    assert!(diagnostics.to_result().is_ok());
    assert_eq!(diagnostics.warnings().len(), 1);

    diagnostics.push_error(SchemaError::new_static("e", Span::new(0, 1)));
    let failure = diagnostics.to_result().unwrap_err();
    assert_eq!(failure.errors().len(), 1);
    assert_eq!(failure.errors()[0].message(), "e");
    assert_eq!(failure.warnings().len(), 1);
    assert!(!diagnostics.has_errors());
    assert!(diagnostics.warnings().is_empty());
    assert!(diagnostics.to_result().is_ok());
}

#[test]
fn collections_of_one() {
    let diagnostics = Diagnostics::from_error(SchemaError::new_static("only", span()));
    assert_eq!(diagnostics.errors().len(), 1);
    assert!(diagnostics.warnings().is_empty());
    let diagnostics = Diagnostics::from_warning(SchemaWarning::new("only".to_string(), span()));
    assert!(diagnostics.errors().is_empty());
    assert_eq!(diagnostics.warnings().len(), 1);
}

#[test]
fn error_messages() {
    let s = span();
    assert_eq!(
        SchemaError::new_literal_parser_error("Int", "abc", s).message(),
        "\"abc\" is not a valid value for Int."
    );
    assert_eq!(
        SchemaError::new_argument_not_found_error("name", s).message(),
        "Argument \"name\" is missing."
    );
    assert_eq!(
        SchemaError::new_argument_count_mismatch_error("env", 1, 10, s).message(),
        "Function \"env\" takes 1 arguments, but received 10."
    );
    assert_eq!(
        SchemaError::new_argument_count_mismatch_error("f", 0, 1234567890, s).message(),
        "Function \"f\" takes 0 arguments, but received 1234567890."
    );
    assert_eq!(
        SchemaError::new_attribute_argument_not_found_error("map", "id", s).message(),
        "Argument \"map\" is missing in attribute \"@id\"."
    );
    assert_eq!(
        SchemaError::new_source_argument_not_found_error("url", "db", s).message(),
        "Argument \"url\" is missing in data source block \"db\"."
    );
    assert_eq!(
        SchemaError::new_generator_argument_not_found_error("provider", "client", s).message(),
        "Argument \"provider\" is missing in generator block \"client\"."
    );
    assert_eq!(
        SchemaError::new_attribute_validation_error("bad", "id", s).message(),
        "Error parsing attribute \"id\": bad"
    );
    assert_eq!(
        SchemaError::new_duplicate_attribute_error("id", s).message(),
        "Attribute \"@id\" can only be defined once."
    );
    assert_eq!(
        SchemaError::new_duplicate_top_error("User", "model", "enum", s).message(),
        "The model \"User\" cannot be defined because a enum with that name already exists."
    );
    assert_eq!(
        SchemaError::new_duplicate_config_key_error("datasource db", "url", s).message(),
        "Key \"url\" is already defined in datasource db."
    );
    assert_eq!(
        SchemaError::new_duplicate_argument_error("map", s).message(),
        "Argument \"map\" is already specified."
    );
    assert_eq!(SchemaError::new_unused_argument_error(s).message(), "No such argument.");
    assert_eq!(
        SchemaError::new_source_validation_error("bad", "db", s).message(),
        "Error validating datasource `db`: bad"
    );
    assert_eq!(SchemaError::new_validation_error("bad", s).message(), "Error validating: bad");
    assert_eq!(
        SchemaError::new_parser_error("a, b".to_string(), s).message(),
        "Unexpected token. Expected one of: a, b"
    );
    assert_eq!(SchemaError::new_functional_evaluation_error("as is", s).message(), "as is");
    assert_eq!(
        SchemaError::new_environment_functional_evaluation_error("DB".to_string(), s).message(),
        "Environment variable not found: DB."
    );
    assert_eq!(
        SchemaError::new_type_not_found_error("Foo", s).message(),
        "Type \"Foo\" is neither a built-in type, nor refers to another model, custom type, or enum."
    );
    assert_eq!(
        SchemaError::new_scalar_type_not_found_error("Foo", s).message(),
        "Type \"Foo\" is not a built-in type."
    );
    assert_eq!(
        SchemaError::new_attribute_not_known_error("foo", s).message(),
        "Attribute not known: \"@foo\"."
    );
    assert_eq!(
        SchemaError::new_property_not_known_error("foo", s).message(),
        "Property not known: \"foo\"."
    );
    assert_eq!(
        SchemaError::new_argument_not_known_error("foo", s).message(),
        "Argument not known: \"foo\"."
    );
    assert_eq!(
        SchemaError::new_datasource_provider_not_known_error("oracle", s).message(),
        "Datasource provider not known: \"oracle\"."
    );
    assert_eq!(
        SchemaError::new_value_parser_error("a number", "x", s).message(),
        "Expected a number, but found x."
    );
    assert_eq!(
        SchemaError::new_type_mismatch_error("string", "functional", "f()", s).message(),
        "Expected a string value, but received functional value `f()`."
    );
    assert_eq!(
        SchemaError::new_config_property_missing_value_error("url", "db", "datasource", s).message(),
        "Property url in datasource db needs to be assigned a value"
    );
    let error = SchemaError::new_unused_argument_error(s);
    assert_eq!(error.span(), s);
    assert_eq!(error.clone().message(), error.message());
}

const TEXT: &str = "datasource db {\n  provider = \"oracle\"\n  url = \"x\"\n}\n";

#[test]
fn pretty_print_marks_the_line() {
    colored::control::set_override(false);
    let error = SchemaError::new_datasource_provider_not_known_error("oracle", Span::new(29, 37));
    let mut out = String::from("> ");
    error.pretty_print(&mut out, "schema.prisma", TEXT);
    assert_eq!(
        out,
        "> error: Datasource provider not known: \"oracle\".\n  -->  schema.prisma:2\n   | \n 1 | datasource db {\n 2 |   provider = \"oracle\"\n   | \n"
    );
}

#[test]
fn pretty_print_in_the_first_line_and_over_several_lines() {
    colored::control::set_override(false);
    let warning = SchemaWarning::new("Look here.".to_string(), Span::new(11, 41));
    let mut out = String::new();
    warning.pretty_print(&mut out, "a.prisma", TEXT);
    assert_eq!(
        out,
        "warning: Look here.\n  -->  a.prisma:1\n   | \n\n 1 | datasource db {\n 2 |   provider = \"oracle\"\n 3 |   url = \"x\"\n   | \n"
    );
}

#[test]
fn pretty_print_of_an_empty_span_shows_a_caret() {
    colored::control::set_override(false);
    let error = SchemaError::new_static("Here.", Span::new(40, 40));
    let mut out = String::new();
    error.pretty_print(&mut out, "s", TEXT);
    assert_eq!(
        out,
        "error: Here.\n  -->  s:3\n   | \n 2 |   provider = \"oracle\"\n 3 |   url = \"x\"\n   |   ^ Unexpected token.\n   | \n"
    );
}

#[test]
fn pretty_print_of_a_span_behind_the_text() {
    colored::control::set_override(false);
    let error = SchemaError::new_static("End.", Span::new(500, 900));
    let mut out = String::new();
    error.pretty_print(&mut out, "s", "ab\ncd");
    assert_eq!(out, "error: End.\n  -->  s:2\n   | \n 1 | ab\n 2 | cd\n   |   ^ Unexpected token.\n   | \n");
    let mut out = String::new();
    error.pretty_print(&mut out, "s", "");
    assert_eq!(out, "error: End.\n  -->  s:1\n   | \n\n 1 | \n   | ^ Unexpected token.\n   | \n");
}

#[test]
fn pretty_strings_keep_the_order_of_detection_and_do_not_change() {
    colored::control::set_override(false);
    let mut diagnostics = Diagnostics::new();
    diagnostics.push_error(SchemaError::new_static("Second line.", Span::new(18, 26)));
    diagnostics.push_warning(SchemaWarning::new("A warning.".to_string(), Span::new(0, 10)));
    diagnostics.push_error(SchemaError::new_static("First line.", Span::new(0, 10)));
    let first = diagnostics.to_pretty_string("schema.prisma", TEXT);
    assert_eq!(
        first,
        "error: Second line.\n  -->  schema.prisma:2\n   | \n 1 | datasource db {\n 2 |   provider = \"oracle\"\n   | \nerror: First line.\n  -->  schema.prisma:1\n   | \n\n 1 | datasource db {\n   | \n"
    );
    assert_eq!(diagnostics.to_pretty_string("schema.prisma", TEXT), first);
    let warnings = diagnostics.warnings_to_pretty_string("schema.prisma", TEXT);
    assert_eq!(
        warnings,
        "warning: A warning.\n  -->  schema.prisma:1\n   | \n\n 1 | datasource db {\n   | \n"
    );
    assert_eq!(Diagnostics::new().to_pretty_string("schema.prisma", TEXT), "");
}

#[test]
fn layout_has_the_same_text_as_the_plain_rendering() {
    colored::control::set_override(false);
    let source = SourceText::new(TEXT);
    let pieces = source.layout_of("schema.prisma", Span::new(29, 37), "Oops.", Severity::Error);
    let text: String = pieces.iter().map(|p| p.text.as_str()).collect();
    assert_eq!(
        text,
        "error: Oops.\n  -->  schema.prisma:2\n   | \n 1 | datasource db {\n 2 |   provider = \"oracle\"\n   | \n"
    );
    assert_eq!(pieces[0].style, Style::Title(Severity::Error));
    let offending: Vec<&Piece> =
        pieces.iter().filter(|p| p.style == Style::Offending(Severity::Error)).collect();
    assert_eq!(offending.len(), 1);
    assert_eq!(offending[0].text, "\"oracle\"");
}

#[test]
fn highlighted_pieces_are_wrapped_in_escape_sequences() {
    colored::control::set_override(true);
    let plain = Piece { style: Style::Plain, text: "as is".to_string() };
    assert_eq!(paint(&plain), "as is");
    let title = Piece { style: Style::Title(Severity::Error), text: "error".to_string() };
    let painted = paint(&title);
    assert_ne!(painted, "error");
    assert!(painted.contains("error"));
    assert!(painted.starts_with("\u{1b}["));
    let warning = Piece { style: Style::Title(Severity::Warning), text: "error".to_string() };
    assert_ne!(paint(&warning), painted);
    let path = Piece { style: Style::Path, text: "f:1".to_string() };
    assert!(paint(&path).contains("f:1"));
    assert_eq!(Severity::Error.title(), "error");
    assert_eq!(Severity::Warning.title(), "warning");
}

#[test]
fn line_numbers_are_at_least_two_characters_wide() {
    colored::control::set_override(false);
    let mut text = String::new();
    for _ in 0..120 {
        text.push_str("line\n");
    }
    let error = SchemaError::new_static("Far down.", Span::new(5 * 99, 5 * 99 + 4));
    let mut out = String::new();
    error.pretty_print(&mut out, "s", &text);
    assert_eq!(out, "error: Far down.\n  -->  s:100\n   | \n99 | line\n100 | line\n   | \n");
}

#[test]
fn highlighted_piece_holds_its_text_between_the_sequences() {
    let styles = [
        Style::Title(Severity::Error),
        Style::Title(Severity::Warning),
        Style::Description,
        Style::Arrow,
        Style::Path,
        Style::Gutter,
        Style::Offending(Severity::Error),
        Style::Offending(Severity::Warning),
    ];
    for text in ["error", "", " 12 | ", "h\u{e9} \"quoted\" [0m"] {
        for style in styles {
            let piece = Piece { style, text: text.to_string() };
            colored::control::set_override(true);
            let painted = paint(&piece);
            assert!(painted.starts_with("\u{1b}["), "{:?}", painted);
            assert!(painted.ends_with("\u{1b}[0m"), "{:?}", painted);
            let inner = &painted[..painted.len() - 4];
            assert!(inner.ends_with(text), "{:?}", painted);
            let style_part = &inner[..inner.len() - text.len()];
            assert!(style_part.ends_with('m'), "{:?}", painted);
            colored::control::set_override(false);
            assert_eq!(paint(&piece), text);
        }
    }
}

#[test]
fn written_error_names_its_severity_and_holds_its_message() {
    let error = SchemaError::new_static("The message.", Span::new(29, 37));
    let warning = SchemaWarning::new("Take care.".to_string(), Span::new(0, 3));
    for colours in [true, false] {
        colored::control::set_override(colours);
        let mut out = String::new();
        error.pretty_print(&mut out, "schema.prisma", TEXT);
        assert!(out.contains("error"));
        assert!(out.contains("The message."));
        assert!(out.contains("schema.prisma:2"));
        assert!(out.contains("\"oracle\""));
        let mut out = String::new();
        warning.pretty_print(&mut out, "schema.prisma", TEXT);
        assert!(out.contains("warning"));
        assert!(out.contains("Take care."));
        let mut diagnostics = Diagnostics::new();
        diagnostics.push_error(error.clone());
        diagnostics.push_error(SchemaError::new_static("Another.", Span::new(0, 1)));
        let all = diagnostics.to_pretty_string("schema.prisma", TEXT);
        assert!(all.find("The message.").unwrap() < all.find("Another.").unwrap());
    }
    colored::control::set_override(false);
}

fn without_escape_sequences(text: &str) -> String {
    let mut out = String::new();
    let mut inside = false;
    for c in text.chars() {
        if inside {
            inside = c != 'm';
        } else if c == '\u{1b}' {
            inside = true;
        } else {
            out.push(c);
        }
    }
    out
}

#[test]
fn highlighted_text_reads_as_the_plain_text() {
    let mut diagnostics = Diagnostics::new();
    diagnostics.push_error(SchemaError::new_static("Second line, with an m.", Span::new(18, 26)));
    diagnostics.push_error(SchemaError::new_static("", Span::new(40, 40)));
    diagnostics.push_warning(SchemaWarning::new("A warning.".to_string(), Span::new(0, 45)));
    colored::control::set_override(false);
    let plain = diagnostics.to_pretty_string("schema.prisma", TEXT);
    let plain_warnings = diagnostics.warnings_to_pretty_string("schema.prisma", TEXT);
    colored::control::set_override(true);
    let highlighted = diagnostics.to_pretty_string("schema.prisma", TEXT);
    let highlighted_warnings = diagnostics.warnings_to_pretty_string("schema.prisma", TEXT);
    colored::control::set_override(false);
    assert_ne!(highlighted, plain);
    assert_eq!(without_escape_sequences(&highlighted), plain);
    assert_eq!(without_escape_sequences(&highlighted_warnings), plain_warnings);
    let source = SourceText::new(TEXT);
    let pieces = source.layout_of("schema.prisma", Span::new(18, 26), "Second line, with an m.", Severity::Error);
    let text: String = pieces.iter().map(|p| p.text.as_str()).collect();
    assert!(plain.starts_with(&text));
}
