use psl::ast::{
    Argument, ArgumentsList, EmptyArgument, Expression, ExpressionPosition, Identifier,
    PropertyPosition, SchemaAst, SchemaPosition, SourceConfig, SourcePosition, Top,
};
use psl::diagnostics::Diagnostics;
use psl::parser::parse_schema;
use psl::span::Span;

const TEXT: &str = "datasource a {\n  provider = \"postgres\"\n  url = env(\"URL\")\n}\n\n\ndatasource b {\n}\n";

fn tree() -> SchemaAst {
    let mut diagnostics = Diagnostics::new();
    let ast = parse_schema(TEXT, &mut diagnostics);
    assert!(!diagnostics.has_errors());
    ast
}

fn block(name: &str, start: usize, end: usize) -> Top {
    Top::Source(SourceConfig {
        name: Identifier::new(name.to_string(), Span::new(start, start)),
        properties: Vec::new(),
        documentation: None,
        span: Span::new(start, end),
        inner_span: Span::new(start, end),
    })
}

#[test]
fn find_top_inside_each_block_and_between_blocks() {
    let ast = tree();
    let ids = ast.iter_tops();
    let first = ast.tops[0].span();
    let second = ast.tops[1].span();
    assert_eq!(first, Span::new(0, 59));
    assert_eq!(second, Span::new(62, 78));
    for offset in (first.start + 1)..first.end {
        assert_eq!(ast.find_top_at_position(offset), Some(ids[0].0));
    }
    for offset in (second.start + 1)..second.end {
        assert_eq!(ast.find_top_at_position(offset), Some(ids[1].0));
    }
    for offset in (first.end + 1)..second.start {
        assert_eq!(ast.find_top_at_position(offset), None);
    }
    assert_eq!(ast.find_top_at_position(second.end + 1), None);
    assert_eq!(ast.find_top_at_position(1000), None);
}

#[test]
fn find_top_among_many_blocks() {
    let mut tops = Vec::new();
    for k in 0..50usize {
        tops.push(block("b", 10 * k + 2, 10 * k + 8));
    }
    let ast = SchemaAst { tops };
    let ids = ast.iter_tops();
    for k in 0..50usize {
        for offset in (10 * k + 3)..(10 * k + 8) {
            assert_eq!(ast.find_top_at_position(offset), Some(ids[k].0));
        }
        assert_eq!(ast.find_top_at_position(10 * k + 9), None);
        assert_eq!(ast.find_top_at_position(10 * k), None);
    }
    let empty = SchemaAst { tops: Vec::new() };
    assert_eq!(empty.find_top_at_position(0), None);
}

#[test]
fn find_at_position_in_a_block() {
    let ast = tree();
    assert!(matches!(ast.find_at_position(60), SchemaPosition::TopLevel));
    assert!(matches!(ast.find_at_position(61), SchemaPosition::TopLevel));
    assert!(matches!(ast.find_at_position(500), SchemaPosition::TopLevel));
    // on the name of the property `provider`
    assert!(matches!(
        ast.find_at_position(19),
        SchemaPosition::DataSource(_, SourcePosition::Property("provider", PropertyPosition::Property))
    ));
    // on the value of the property `provider`
    assert!(matches!(
        ast.find_at_position(32),
        SchemaPosition::DataSource(
            _,
            SourcePosition::Property("provider", PropertyPosition::Value("provider"))
        )
    ));
    // on the call of `env`
    assert!(matches!(
        ast.find_at_position(50),
        SchemaPosition::DataSource(
            _,
            SourcePosition::Property("url", PropertyPosition::FunctionValue("env"))
        )
    ));
    // behind the opening brace, in front of the first property
    assert!(matches!(
        ast.find_at_position(15),
        SchemaPosition::DataSource(_, SourcePosition::Source)
    ));
    // on the keyword
    assert!(matches!(
        ast.find_at_position(3),
        SchemaPosition::DataSource(_, SourcePosition::Outer)
    ));
    match ast.find_at_position(70) {
        SchemaPosition::DataSource(id, _) => assert_eq!(ast.source(id).name(), "b"),
        other => panic!("unexpected position {:?}", other),
    }
}

fn call() -> Expression {
    let argument = |name: Option<&str>, start: usize, end: usize| Argument {
        name: name.map(|n| Identifier::new(n.to_string(), Span::new(start, start + n.len()))),
        value: Expression::StringValue("v".to_string(), Span::new(end - 3, end)),
        span: Span::new(start, end),
    };
    Expression::Function(
        "f".to_string(),
        ArgumentsList {
            arguments: vec![
                argument(Some("late"), 30, 40),
                argument(None, 2, 8),
                argument(Some("early"), 10, 20),
            ],
            empty_arguments: vec![EmptyArgument {
                name: Identifier::new("empty".to_string(), Span::new(22, 27)),
            }],
            trailing_comma: Some(Span::new(41, 42)),
        },
        Span::new(0, 50),
    )
}

#[test]
fn expression_position_picks_the_argument_that_begins_last_before_the_cursor() {
    let expression = call();
    assert!(matches!(ExpressionPosition::new(&expression, 60), ExpressionPosition::Expression));
    assert!(matches!(ExpressionPosition::new(&expression, 1), ExpressionPosition::Function("f")));
    assert!(matches!(ExpressionPosition::new(&expression, 2), ExpressionPosition::Function("f")));
    // on the argument without a name
    assert!(matches!(ExpressionPosition::new(&expression, 5), ExpressionPosition::Function("f")));
    assert!(matches!(
        ExpressionPosition::new(&expression, 11),
        ExpressionPosition::FunctionArgument("f", "early")
    ));
    assert!(matches!(
        ExpressionPosition::new(&expression, 22),
        ExpressionPosition::FunctionArgument("f", "early")
    ));
    assert!(matches!(
        ExpressionPosition::new(&expression, 23),
        ExpressionPosition::FunctionArgument("f", "empty")
    ));
    assert!(matches!(
        ExpressionPosition::new(&expression, 41),
        ExpressionPosition::FunctionArgument("f", "late")
    ));
    // behind the trailing comma
    assert!(matches!(ExpressionPosition::new(&expression, 42), ExpressionPosition::Function("f")));
    assert!(matches!(ExpressionPosition::new(&expression, 50), ExpressionPosition::Function("f")));
}

#[test]
fn expression_position_on_a_string() {
    let value = Expression::StringValue("text".to_string(), Span::new(5, 11));
    assert!(matches!(ExpressionPosition::new(&value, 5), ExpressionPosition::Value("text")));
    assert!(matches!(ExpressionPosition::new(&value, 11), ExpressionPosition::Value("text")));
    assert!(matches!(ExpressionPosition::new(&value, 4), ExpressionPosition::Expression));
    assert!(matches!(ExpressionPosition::new(&value, 12), ExpressionPosition::Expression));
}

#[test]
fn span_contains_both_ends() {
    let span = Span::new(3, 7);
    assert!(!span.contains(2));
    assert!(span.contains(3));
    assert!(span.contains(7));
    assert!(!span.contains(8));
    assert!(span.overlaps(Span::new(7, 9)));
    assert!(span.overlaps(Span::new(0, 3)));
    assert!(!span.overlaps(Span::new(8, 9)));
    assert_eq!(Span::empty(), Span::new(0, 0));
}

#[test]
fn full_query_stands_in_the_block_that_the_search_finds() {
    // blocks that meet at an offset, and blocks that hold no byte
    let tops = vec![
        block("a", 0, 10),
        block("b", 10, 20),
        block("c", 20, 20),
        block("d", 20, 20),
        block("e", 20, 35),
        block("f", 40, 41),
    ];
    let ast = SchemaAst { tops };
    for offset in 0..50usize {
        let found = ast.find_top_at_position(offset);
        match ast.find_at_position(offset) {
            SchemaPosition::TopLevel => assert_eq!(found, None, "at {}", offset),
            SchemaPosition::DataSource(id, _) => {
                assert_eq!(found, Some(psl::ast::TopId::Source(id)), "at {}", offset);
                assert!(ast.source(id).span.contains(offset));
            }
        }
        let touched = ast.tops.iter().any(|top| top.span().contains(offset));
        assert_eq!(found.is_some(), touched, "at {}", offset);
    }
    // the search goes by halves: of the two blocks that meet at 10 it comes upon the second
    let ids = ast.iter_tops();
    assert_eq!(ast.find_top_at_position(10), Some(ids[1].0));
    assert_eq!(ast.find_top_at_position(20), Some(ids[3].0));
}
