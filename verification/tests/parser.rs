use psl::ast::{Expression, SchemaAst, Top};
use psl::diagnostics::Diagnostics;
use psl::parser::parse_schema;
use psl::parser::parse_schema::{get_expected_from_error, Rule};
use psl::span::Span;

fn parse(text: &str) -> (SchemaAst, Diagnostics) {
    let mut diagnostics = Diagnostics::new();
    let ast = parse_schema(text, &mut diagnostics);
    (ast, diagnostics)
}

fn source(ast: &SchemaAst, index: usize) -> &psl::ast::SourceConfig {
    match &ast.tops[index] {
        Top::Source(source) => source,
    }
}

#[test]
fn one_item_for_each_block_in_source_order() {
    let text = "// the first\ndatasource a {\n  provider = \"postgres\"\n  url = \"postgres://a\"\n}\n\n\ndatasource b {\n  provider = \"mysql\"\n  url = env(\"B_URL\")\n}\n/// trailing\ndatasource c { provider = \"mysql\" url = \"mysql://c\" }\n";
    let (ast, diagnostics) = parse(text);
    assert!(!diagnostics.has_errors());
    assert_eq!(ast.tops.len(), 3);
    assert_eq!(ast.tops[0].name(), "a");
    assert_eq!(ast.tops[1].name(), "b");
    assert_eq!(ast.tops[2].name(), "c");
    for pair in ast.tops.windows(2) {
        assert!(pair[0].span().end <= pair[1].span().start);
    }
    for top in &ast.tops {
        let span = top.span();
        assert!(span.start < span.end);
        assert!(text[span.start..span.end].starts_with("datasource"));
        assert!(text[span.start..span.end].ends_with("}"));
        assert_eq!(top.get_type(), "source");
    }
}

#[test]
fn empty_text_gives_an_empty_tree() {
    let (ast, diagnostics) = parse("");
    assert_eq!(ast.tops.len(), 0);
    assert!(!diagnostics.has_errors());
    let (ast, diagnostics) = parse("   \n\n  // nothing here\n\t\n");
    assert_eq!(ast.tops.len(), 0);
    assert!(!diagnostics.has_errors());
}

#[test]
fn block_on_one_line_has_exact_spans() {
    let text = "datasource db { provider = \"postgres\" url = \"not-a-url\" }";
    let (ast, diagnostics) = parse(text);
    assert!(!diagnostics.has_errors());
    assert_eq!(ast.tops.len(), 1);
    let block = source(&ast, 0);
    assert_eq!(block.name.name, "db");
    assert_eq!(block.name.span, Span::new(11, 13));
    assert_eq!(block.span, Span::new(0, 57));
    assert_eq!(block.inner_span, Span::new(15, 56));
    assert_eq!(block.properties.len(), 2);
    assert_eq!(block.properties[0].name.name, "provider");
    assert_eq!(block.properties[0].name.span, Span::new(16, 24));
    assert_eq!(block.properties[0].span, Span::new(16, 38));
    assert_eq!(block.properties[1].name.name, "url");
    assert_eq!(block.properties[1].span, Span::new(38, 56));
    match &block.properties[0].value {
        Some(Expression::StringValue(value, span)) => {
            assert_eq!(value, "postgres");
            assert_eq!(*span, Span::new(27, 37));
        }
        other => panic!("unexpected value {:?}", other),
    }
    match &block.properties[1].value {
        Some(Expression::StringValue(value, span)) => {
            assert_eq!(value, "not-a-url");
            assert_eq!(*span, Span::new(44, 55));
        }
        other => panic!("unexpected value {:?}", other),
    }
    assert!(block.documentation.is_none());
}

#[test]
fn function_call_with_arguments() {
    let text = "datasource db {\n  url = env( \"A\" , inner(\"b\") )\n  other = none()\n}";
    let (ast, diagnostics) = parse(text);
    assert!(!diagnostics.has_errors());
    let block = source(&ast, 0);
    assert_eq!(block.properties.len(), 2);
    let (name, arguments, span) = block.properties[0].value.as_ref().unwrap().as_function().unwrap();
    assert_eq!(name, "env");
    assert_eq!(&text[span.start..span.end], "env( \"A\" , inner(\"b\") )");
    assert_eq!(arguments.arguments.len(), 2);
    assert!(arguments.empty_arguments.is_empty());
    assert!(arguments.trailing_comma.is_none());
    assert!(arguments.arguments[0].name.is_none());
    assert_eq!(arguments.arguments[0].value.as_string_value().unwrap().0, "A");
    assert_eq!(arguments.arguments[0].span, arguments.arguments[0].value.span());
    let (inner, inner_arguments, inner_span) = arguments.arguments[1].value.as_function().unwrap();
    assert_eq!(inner, "inner");
    assert_eq!(&text[inner_span.start..inner_span.end], "inner(\"b\")");
    assert_eq!(inner_arguments.arguments.len(), 1);
    let (none, none_arguments, _) = block.properties[1].value.as_ref().unwrap().as_function().unwrap();
    assert_eq!(none, "none");
    assert!(none_arguments.arguments.is_empty());
    assert!(block.properties[0].value.as_ref().unwrap().is_env_expression());
    assert!(!block.properties[1].value.as_ref().unwrap().is_env_expression());
}

#[test]
fn escapes_in_string_literals() {
    let text = "datasource db {\n  url = \"a\\\"b\\\\c\\n\\t\\/\\r\\b\\f\"\n}";
    let (ast, diagnostics) = parse(text);
    assert!(!diagnostics.has_errors());
    let block = source(&ast, 0);
    let (value, _) = block.properties[0].value.as_ref().unwrap().as_string_value().unwrap();
    assert_eq!(value, "a\"b\\c\n\t/\r\u{8}\u{c}");
}

#[test]
fn unknown_escape_is_reported_and_left_out() {
    let text = "datasource db {\n  url = \"C:\\path\\q\"\n}";
    let (ast, diagnostics) = parse(text);
    let block = source(&ast, 0);
    let (value, _) = block.properties[0].value.as_ref().unwrap().as_string_value().unwrap();
    assert_eq!(value, "C:ath");
    assert_eq!(diagnostics.errors().len(), 2);
    assert_eq!(
        diagnostics.errors()[0].message(),
        "Unknown escape sequence. If the value is a windows-style path, `\\` must be escaped as `\\\\`."
    );
    let first = diagnostics.errors()[0].span();
    assert_eq!(&text[first.start..first.end], "\\p");
    let second = diagnostics.errors()[1].span();
    assert_eq!(&text[second.start..second.end], "\\q");
}

#[test]
fn line_without_keyword_is_reported_once() {
    let text = "hello world\ndatasource db {\n  provider = \"postgres\"\n}\nanother bad line";
    let (ast, diagnostics) = parse(text);
    assert_eq!(ast.tops.len(), 1);
    assert_eq!(diagnostics.errors().len(), 2);
    assert_eq!(
        diagnostics.errors()[0].message(),
        "Error validating: This line is invalid. It does not start with any known Prisma schema keyword."
    );
    assert_eq!(diagnostics.errors()[0].span(), Span::new(0, 12));
    let last = diagnostics.errors()[1].span();
    assert_eq!(&text[last.start..last.end], "another bad line");
}

#[test]
fn block_without_known_keyword_is_reported_once() {
    let text = "model User {\n  id Int\n}\ndatasource db {\n}\n";
    let (ast, diagnostics) = parse(text);
    assert_eq!(ast.tops.len(), 1);
    assert_eq!(ast.tops[0].name(), "db");
    assert_eq!(diagnostics.errors().len(), 1);
    assert_eq!(
        diagnostics.errors()[0].message(),
        "Error validating: This block is invalid. It does not start with any known Prisma schema keyword. Valid keywords include 'model', 'enum', 'type', 'datasource' and 'generator'."
    );
    assert_eq!(diagnostics.errors()[0].span(), Span::new(0, 23));
}

#[test]
fn line_that_is_no_property_is_reported_inside_the_block() {
    let text = "datasource db {\n  provider = \"postgres\"\n  what is this\n  url = \"postgres://x\"\n}";
    let (ast, diagnostics) = parse(text);
    assert_eq!(ast.tops.len(), 1);
    let block = source(&ast, 0);
    assert_eq!(block.properties.len(), 2);
    assert_eq!(diagnostics.errors().len(), 1);
    assert_eq!(
        diagnostics.errors()[0].message(),
        "Error validating: This line is not a valid definition within a datasource."
    );
    let span = diagnostics.errors()[0].span();
    assert_eq!(&text[span.start..span.end], "what is this\n");
}

#[test]
fn text_that_ends_inside_a_block_gives_one_error_and_no_tree() {
    let text = "bad line\ndatasource a {\n}\ndatasource db {\n  provider = \"postgres\"\n";
    let (ast, diagnostics) = parse(text);
    assert_eq!(ast.tops.len(), 0);
    assert_eq!(diagnostics.errors().len(), 1);
    assert_eq!(
        diagnostics.errors()[0].message(),
        "Unexpected token. Expected one of: key_valuecomment_blockempty_linesBLOCK_LEVEL_CATCH_ALLBLOCK_CLOSE"
    );
    assert_eq!(diagnostics.errors()[0].span(), Span::new(text.len(), text.len()));
}

#[test]
fn expected_rules_are_written_one_behind_the_other() {
    assert_eq!(get_expected_from_error(&[]), "");
    assert_eq!(
        get_expected_from_error(&[Rule::config_block, Rule::EOI, Rule::CATCH_ALL]),
        "config_blockEOICATCH_ALL"
    );
    assert_eq!(Rule::BLOCK_OPEN.name(), "BLOCK_OPEN");
    assert_eq!(Rule::arbitrary_block.name(), "arbitrary_block");
}

#[test]
fn documentation_is_taken_from_the_last_comment_block() {
    let text = "datasource db {\n  /// first\n  provider = \"postgres\"\n  ///   The database.\n  // not documentation\n  /// Second line.\n  url = \"postgres://x\" // trailing\n}";
    let (ast, diagnostics) = parse(text);
    assert!(!diagnostics.has_errors());
    let block = source(&ast, 0);
    assert_eq!(block.documentation(), Some("The database.\nSecond line."));
    assert_eq!(block.properties.len(), 2);
    let span = block.properties[1].span;
    assert_eq!(&text[span.start..span.end], "url = \"postgres://x\" // trailing\n");
}

#[test]
fn comment_block_without_documentation_gives_none() {
    let text = "datasource db {\n  /// first\n  provider = \"postgres\"\n  // plain\n}";
    let (ast, _) = parse(text);
    assert_eq!(source(&ast, 0).documentation(), None);
}

#[test]
fn property_without_value() {
    let text = "datasource db {\n  provider =\n  url = \"x\"\n}";
    let (ast, diagnostics) = parse(text);
    assert!(!diagnostics.has_errors());
    let block = source(&ast, 0);
    assert_eq!(block.properties.len(), 2);
    assert!(block.properties[0].value.is_none());
    assert_eq!(block.properties[0].name.name, "provider");
    assert!(block.properties[1].value.is_some());
}

#[test]
fn duplicate_properties_are_kept() {
    let text = "datasource db {\n  url = \"a\"\n  url = \"b\"\n}";
    let (ast, _) = parse(text);
    let block = source(&ast, 0);
    assert_eq!(block.properties.len(), 2);
    assert_eq!(block.properties[0].name.name, "url");
    assert_eq!(block.properties[1].name.name, "url");
}

#[test]
fn spans_are_byte_offsets() {
    let text = "// caf\u{e9} \u{1f600}\ndatasource d\u{e9} {\n}\ndatasource db {\n  url = \"h\u{e9}\"\n}\n";
    let (ast, diagnostics) = parse(text);
    assert_eq!(ast.tops.len(), 1);
    assert_eq!(diagnostics.errors().len(), 2);
    let bad = diagnostics.errors()[0].span();
    assert_eq!(&text[bad.start..bad.end], "datasource d\u{e9} {\n");
    let brace = diagnostics.errors()[1].span();
    assert_eq!(&text[brace.start..brace.end], "}\n");
    let block = source(&ast, 0);
    assert_eq!(&text[block.span.start..block.span.end], "datasource db {\n  url = \"h\u{e9}\"\n}");
    let (value, span) = block.properties[0].value.as_ref().unwrap().as_string_value().unwrap();
    assert_eq!(value, "h\u{e9}");
    assert_eq!(&text[span.start..span.end], "\"h\u{e9}\"");
    assert_eq!(&text[block.inner_span.start..block.inner_span.end], "\n  url = \"h\u{e9}\"\n");
}

#[test]
fn carriage_returns_end_lines() {
    let text = "datasource db {\r\n  provider = \"mysql\"\r\n  url = \"mysql://x\"\r}\r\n";
    let (ast, diagnostics) = parse(text);
    assert!(!diagnostics.has_errors());
    let block = source(&ast, 0);
    assert_eq!(block.properties.len(), 2);
    let span = block.properties[0].span;
    assert_eq!(&text[span.start..span.end], "provider = \"mysql\"\r\n");
}

#[test]
fn tree_iterators() {
    let text = "datasource a {\n}\ndatasource b {\n}\n";
    let (ast, _) = parse(text);
    let tops = ast.iter_tops();
    assert_eq!(tops.len(), 2);
    assert_eq!(tops[0].1.name(), "a");
    assert_eq!(tops[1].1.name(), "b");
    assert_eq!(ast.top(tops[1].0).name(), "b");
    assert_ne!(tops[0].0, tops[1].0);
    let sources = ast.sources();
    assert_eq!(sources.len(), 2);
    assert_eq!(sources[1].name(), "b");
    assert_eq!(ast.tops[0].identifier().name, "a");
    assert!(ast.tops[0].as_source().is_some());
}

#[test]
fn blocks_are_laid_out_as_in_the_text() {
    let text = "datasource a {\n  x = \"1\"  // one\n\n  y = f(\"2\")\n  junk\n  z =\n}\n// between\ndatasource b { k = \"v\" }\n";
    let (ast, _) = parse(text);
    assert_eq!(ast.tops.len(), 2);
    for top in &ast.tops {
        let block = top.as_source().unwrap();
        assert!(!block.name.name.is_empty());
        assert!(block.span.start <= block.inner_span.start);
        assert!(block.inner_span.start <= block.inner_span.end);
        assert!(block.inner_span.end <= block.span.end);
        assert_eq!(&text[block.inner_span.start - 1..block.inner_span.start], "{");
        assert_eq!(&text[block.inner_span.end..block.inner_span.end + 1], "}");
        let mut last = block.inner_span.start;
        for property in &block.properties {
            assert!(last <= property.span.start);
            assert!(property.span.start <= property.span.end);
            assert!(text[property.span.start..].starts_with(property.name.name.as_str()));
            last = property.span.end;
        }
        assert!(last <= block.inner_span.end);
    }
    let names: Vec<&str> =
        source(&ast, 0).properties.iter().map(|p| p.name.name.as_str()).collect();
    assert_eq!(names, vec!["x", "y", "z"]);
}

#[test]
fn a_copy_of_a_tree_holds_the_same() {
    let text = "datasource a {\n  /// Doc.\n  url = env(\"A\", g(\"b\"))\n  p =\n}\n";
    let (ast, _) = parse(text);
    let copy = ast.tops[0].clone();
    let block = source(&ast, 0);
    let copied = copy.as_source().unwrap();
    assert_eq!(copied.name.name, block.name.name);
    assert_eq!(copied.name.span, block.name.span);
    assert_eq!(copied.span, block.span);
    assert_eq!(copied.inner_span, block.inner_span);
    assert_eq!(copied.documentation(), Some("Doc."));
    assert_eq!(copied.properties.len(), 2);
    assert_eq!(copied.properties[0].span, block.properties[0].span);
    assert_eq!(
        copied.properties[0].value.as_ref().unwrap().render(),
        "env(\"A\",g(\"b\"))"
    );
    assert_eq!(
        copied.properties[0].value.as_ref().unwrap().span(),
        block.properties[0].value.as_ref().unwrap().span()
    );
    assert!(copied.properties[1].value.is_none());
}

#[test]
fn blanks_of_several_kinds_and_blocks_without_space() {
    let text = "\tdatasource\u{a0}db{\u{3000}provider\t=\u{2003}\"mysql\"\u{a0}}datasource e{}";
    let (ast, diagnostics) = parse(text);
    assert!(!diagnostics.has_errors());
    assert_eq!(ast.tops.len(), 2);
    assert_eq!(ast.tops[0].name(), "db");
    assert_eq!(source(&ast, 0).properties.len(), 1);
    assert_eq!(ast.tops[1].name(), "e");
    assert!(source(&ast, 1).properties.is_empty());
}

#[test]
fn keyword_must_stand_alone_and_the_block_needs_a_name() {
    let (ast, diagnostics) = parse("datasourcedb {\n}\n");
    assert_eq!(ast.tops.len(), 0);
    assert_eq!(diagnostics.errors().len(), 2);
    let (ast, diagnostics) = parse("datasource {\n}\n");
    assert_eq!(ast.tops.len(), 0);
    assert_eq!(diagnostics.errors().len(), 2);
    let (ast, diagnostics) = parse("Datasource db {\n}\n");
    assert_eq!(ast.tops.len(), 0);
    assert_eq!(diagnostics.errors().len(), 1);
    assert!(diagnostics.errors()[0].message().contains("This block is invalid."));
}

#[test]
fn string_that_is_not_closed_is_no_value() {
    let text = "datasource db {\n  url = \"open\n  provider = \"mysql\"\n}";
    let (ast, diagnostics) = parse(text);
    let block = source(&ast, 0);
    assert_eq!(block.properties.len(), 2);
    assert!(block.properties[0].value.is_none());
    assert_eq!(diagnostics.errors().len(), 1);
    let span = diagnostics.errors()[0].span();
    assert_eq!(&text[span.start..span.end], "\"open\n");
}
