//! The top level of the grammar: the items of a schema, one after the
//! other.

use crate::ast::top::{Top, TopView};
use crate::ast::{all_laid_out, in_source_order, SchemaAst};
use crate::diagnostics::error::{parser_message, validation_message, Problem};
use crate::diagnostics::{Diagnostics, SchemaError};
use crate::parser::parse_comments::{comment_block_from, parse_comment_block};
use crate::parser::parse_source::{
    block_header, config_block_at, parse_block_header, parse_config_block,
};
use crate::parser::scan::{
    closing_brace, empty_lines_end, is_comment_start, line_end, newline_len, skip_blanks,
};
use crate::parser::{append_reports, no_reports, problems, push_report};
use crate::text::{byte_span, lemma_spans_follow, utf8_len, SourceText};
use vstd::prelude::*;
use vstd::string::*;

verus! {

/// The rules of the grammar that a message of the parser can name.
#[allow(non_camel_case_types)]
#[derive(Debug, Clone, Copy, PartialEq, Eq, Structural)]
pub enum Rule {
    config_block,
    key_value,
    comment_block,
    empty_lines,
    arbitrary_block,
    CATCH_ALL,
    BLOCK_LEVEL_CATCH_ALL,
    BLOCK_OPEN,
    BLOCK_CLOSE,
    EOI,
}

/// The name of a rule.
pub open spec fn rule_name(rule: Rule) -> Seq<char> {
    match rule {
        Rule::config_block => "config_block"@,
        Rule::key_value => "key_value"@,
        Rule::comment_block => "comment_block"@,
        Rule::empty_lines => "empty_lines"@,
        Rule::arbitrary_block => "arbitrary_block"@,
        Rule::CATCH_ALL => "CATCH_ALL"@,
        Rule::BLOCK_LEVEL_CATCH_ALL => "BLOCK_LEVEL_CATCH_ALL"@,
        Rule::BLOCK_OPEN => "BLOCK_OPEN"@,
        Rule::BLOCK_CLOSE => "BLOCK_CLOSE"@,
        Rule::EOI => "EOI"@,
    }
}

/// The names of the rules, one behind the other.
pub open spec fn expected_text(positives: Seq<Rule>) -> Seq<char>
    decreases positives.len(),
{
    if positives.len() == 0 {
        Seq::empty()
    } else {
        expected_text(positives.drop_last()) + rule_name(positives.last())
    }
}

/// The rules that can go on inside a block: what the parser expected where
/// the text ends before a block is closed.
pub open spec fn expected_in_block() -> Seq<Rule> {
    seq![
        Rule::key_value,
        Rule::comment_block,
        Rule::empty_lines,
        Rule::BLOCK_LEVEL_CATCH_ALL,
        Rule::BLOCK_CLOSE,
    ]
}

/// An item of the top level of a schema.
pub ghost enum TopItem {
    /// A datasource block, with the errors found in it.
    Block(TopView, Seq<Problem>),
    /// A block or a line that is not valid, with the error for it.
    Invalid(Problem),
    /// Comments or empty lines.
    Skipped,
    /// A datasource block that the text does not close.
    Unclosed,
}

/// The error for a block that begins with no known keyword.
pub open spec fn invalid_block(s: Seq<char>, from: int, to: int) -> Problem {
    Problem {
        span: byte_span(s, from, to),
        message: validation_message(
            "This block is invalid. It does not start with any known Prisma schema keyword. Valid keywords include 'model', 'enum', 'type', 'datasource' and 'generator'."@,
        ),
    }
}

/// The error for a line that begins with no known keyword.
pub open spec fn invalid_line(s: Seq<char>, from: int, to: int) -> Problem {
    Problem {
        span: byte_span(s, from, to),
        message: validation_message(
            "This line is invalid. It does not start with any known Prisma schema keyword."@,
        ),
    }
}

/// The item that begins at `j` where no block begins: comments, empty
/// lines, or a line that is not valid.
pub open spec fn plain_item(s: Seq<char>, j: int) -> (TopItem, int) {
    if is_comment_start(s, j) {
        (TopItem::Skipped, comment_block_from(s, j, None).0)
    } else if newline_len(s, j) > 0 {
        (TopItem::Skipped, empty_lines_end(s, j + newline_len(s, j)))
    } else {
        let e = line_end(s, j + 1);
        let end = e + newline_len(s, e);
        (TopItem::Invalid(invalid_line(s, j, end)), end)
    }
}

/// The item of the top level that begins at `j`, where no blank stands,
/// and the position where it ends. A header with the keyword `datasource`
/// opens a datasource block. A header with another keyword opens a block
/// that is not valid, up to the first closing brace; where none follows,
/// the line is not valid.
pub open spec fn top_item(s: Seq<char>, j: int) -> (TopItem, int) {
    match block_header(s, j) {
        Some(header) => if s.subrange(j, header.keyword_end) == "datasource"@ {
            match config_block_at(s, j, header) {
                Some(block) => (TopItem::Block(TopView::Source(block.value), block.reports), block.end),
                None => (TopItem::Unclosed, s.len() as int),
            }
        } else {
            match closing_brace(s, header.open + 1) {
                Some(close) => (TopItem::Invalid(invalid_block(s, j, close + 1)), close + 1),
                None => plain_item(s, j),
            }
        },
        None => plain_item(s, j),
    }
}

/// What parsing a schema gives: its items and the errors found.
pub ghost struct Outcome {
    pub tops: Seq<TopView>,
    pub reports: Seq<Problem>,
}

/// What parsing gives from `i` on, behind `found`. Without a result where
/// a datasource block is not closed.
pub open spec fn schema_from(s: Seq<char>, i: int, found: Outcome) -> Option<Outcome>
    decreases s.len() - i,
{
    let j = skip_blanks(s, i);
    if j < i || j >= s.len() {
        Some(found)
    } else {
        let item = top_item(s, j);
        if item.0 is Unclosed {
            None
        } else if j < item.1 <= s.len() {
            schema_from(
                s,
                item.1,
                match item.0 {
                    TopItem::Block(top, reports) => Outcome {
                        tops: found.tops.push(top),
                        reports: found.reports + reports,
                    },
                    TopItem::Invalid(problem) => Outcome {
                        reports: found.reports.push(problem),
                        ..found
                    },
                    _ => found,
                },
            )
        } else {
            Some(found)
        }
    }
}

/// What parsing a schema gives. Without a result where a datasource block
/// is not closed.
pub open spec fn schema_outcome(s: Seq<char>) -> Option<Outcome> {
    schema_from(s, 0, Outcome { tops: Seq::empty(), reports: Seq::empty() })
}

/// The number of datasource blocks that the text holds from `i` on, up to
/// its end or to a block that is not closed.
pub open spec fn valid_blocks_from(s: Seq<char>, i: int) -> nat
    decreases s.len() - i,
{
    let j = skip_blanks(s, i);
    if j < i || j >= s.len() {
        0
    } else {
        let item = top_item(s, j);
        if item.0 is Unclosed || !(j < item.1 <= s.len()) {
            0
        } else if item.0 is Block {
            1 + valid_blocks_from(s, item.1)
        } else {
            valid_blocks_from(s, item.1)
        }
    }
}

/// Whether the text holds, from `i` on, nothing but datasource blocks
/// without errors, comments and empty lines.
pub open spec fn well_formed_from(s: Seq<char>, i: int) -> bool
    decreases s.len() - i,
{
    let j = skip_blanks(s, i);
    if j < i || j >= s.len() {
        true
    } else {
        let item = top_item(s, j);
        match item.0 {
            TopItem::Block(_, reports) => reports.len() == 0 && j < item.1 <= s.len()
                && well_formed_from(s, item.1),
            TopItem::Skipped => j < item.1 <= s.len() && well_formed_from(s, item.1),
            _ => false,
        }
    }
}

/// Parsing from `i` on adds one item for each datasource block, behind the
/// items found before, and keeps the items in the order of the text; and
/// where the rest of the text is well formed, it adds no error.
proof fn lemma_schema_from(s: Seq<char>, i: int, found: Outcome)
    requires
        0 <= i <= s.len(),
        utf8_len(s) <= usize::MAX,
        in_source_order(found.tops),
        forall|k: int|
            0 <= k < found.tops.len() ==> (#[trigger] found.tops[k]).span().end <= byte_span(
                s,
                i,
                i,
            ).start,
    ensures
        match schema_from(s, i, found) {
            Some(outcome) => outcome.tops.len() == found.tops.len() + valid_blocks_from(s, i)
                && in_source_order(outcome.tops) && (well_formed_from(s, i) ==> outcome.reports
                == found.reports),
            None => !well_formed_from(s, i),
        },
    decreases s.len() - i,
{
    let j = skip_blanks(s, i);
    if j < i || j >= s.len() {
    } else {
        let item = top_item(s, j);
        if item.0 is Unclosed {
        } else if j < item.1 <= s.len() {
            lemma_spans_follow(s, i, i, item.1, item.1);
            match item.0 {
                TopItem::Block(top, reports) => {
                    let next = Outcome {
                        tops: found.tops.push(top),
                        reports: found.reports + reports,
                    };
                    lemma_spans_follow(s, i, i, j, item.1);
                    lemma_spans_follow(s, j, item.1, item.1, item.1);
                    assert(top.span() == byte_span(s, j, item.1));
                    assert(in_source_order(next.tops));
                    lemma_schema_from(s, item.1, next);
                    if reports.len() == 0 {
                        assert(found.reports + reports =~= found.reports);
                    }
                },
                TopItem::Invalid(problem) => {
                    let next = Outcome { reports: found.reports.push(problem), ..found };
                    lemma_schema_from(s, item.1, next);
                },
                _ => {
                    lemma_schema_from(s, item.1, found);
                },
            }
        } else {
        }
    }
}

/// The tree of a text holds exactly one item for each datasource block of the
/// text, in the order of the text. The text has to fit the machine: its
/// length in bytes is a `usize`.
pub proof fn lemma_tree_of_text(s: Seq<char>)
    requires
        utf8_len(s) <= usize::MAX,
    ensures
        schema_outcome(s) matches Some(outcome) ==> outcome.tops.len() == valid_blocks_from(s, 0)
            && in_source_order(outcome.tops),
{
    lemma_schema_from(s, 0, Outcome { tops: Seq::empty(), reports: Seq::empty() });
}

/// A text that holds nothing but datasource blocks without errors,
/// comments and empty lines gives a tree with exactly one item for each of
/// its blocks, in the order of the text, and no error. The text has to fit
/// the machine: its length in bytes is a `usize`.
pub proof fn lemma_one_item_for_each_block(s: Seq<char>)
    requires
        utf8_len(s) <= usize::MAX,
        well_formed_from(s, 0),
    ensures
        schema_outcome(s) matches Some(outcome) && outcome.tops.len() == valid_blocks_from(s, 0)
            && in_source_order(outcome.tops) && outcome.reports.len() == 0,
{
    lemma_schema_from(s, 0, Outcome { tops: Seq::empty(), reports: Seq::empty() });
}

/// The error for a text that ends inside a datasource block.
pub open spec fn unclosed_block(s: Seq<char>) -> Problem {
    Problem {
        span: byte_span(s, s.len() as int, s.len() as int),
        message: parser_message(expected_text(expected_in_block())),
    }
}

impl Rule {
    /// The name of the rule.
    pub fn name(&self) -> (name: &'static str)
        ensures
            name@ == rule_name(*self),
    {
        match self {
            Rule::config_block => "config_block",
            Rule::key_value => "key_value",
            Rule::comment_block => "comment_block",
            Rule::empty_lines => "empty_lines",
            Rule::arbitrary_block => "arbitrary_block",
            Rule::CATCH_ALL => "CATCH_ALL",
            Rule::BLOCK_LEVEL_CATCH_ALL => "BLOCK_LEVEL_CATCH_ALL",
            Rule::BLOCK_OPEN => "BLOCK_OPEN",
            Rule::BLOCK_CLOSE => "BLOCK_CLOSE",
            Rule::EOI => "EOI",
        }
    }
}

/// The names of the rules that were expected, one behind the other.
pub fn get_expected_from_error(positives: &[Rule]) -> (expected: String)
    ensures
        expected@ == expected_text(positives@),
{
    let mut out = String::new();
    let mut i: usize = 0;
    proof {
        assert(positives@.take(0) =~= Seq::<Rule>::empty());
    }
    while i < positives.len()
        invariant
            i <= positives@.len(),
            out@ == expected_text(positives@.take(i as int)),
        decreases positives@.len() - i,
    {
        out.append(positives[i].name());
        proof {
            assert(positives@.take(i + 1).drop_last() =~= positives@.take(i as int));
        }
        i += 1;
    }
    proof {
        assert(positives@.take(positives@.len() as int) =~= positives@);
    }
    out
}

/// The views of a list of items.
pub open spec fn top_views(tops: Seq<Top>) -> Seq<TopView> {
    tops.map_values(|t: Top| t@)
}

/// The items of a schema and the errors found in it; or, where a
/// datasource block is not closed, nothing.
pub fn parse_items(src: &SourceText) -> (parsed: Option<(Vec<Top>, Vec<SchemaError>)>)
    requires
        src.well_formed(),
    ensures
        match schema_outcome(src.chars@) {
            Some(outcome) => parsed matches Some(found) && top_views(found.0@) == outcome.tops
                && problems(found.1@) == outcome.reports && in_source_order(outcome.tops)
                && all_laid_out(outcome.tops) && outcome.tops.len() == valid_blocks_from(
                src.chars@,
                0,
            ),
            None => parsed is None,
        },
{
    let len = src.chars.len();
    let ghost s = src.chars@;
    let mut tops: Vec<Top> = Vec::new();
    let mut reports = no_reports();
    let mut i: usize = 0;
    proof {
        assert(top_views(tops@) =~= Seq::<TopView>::empty());
    }
    loop
        invariant
            src.well_formed(),
            s == src.chars@,
            len == s.len(),
            i <= len,
            schema_outcome(s) == schema_from(
                s,
                i as int,
                Outcome { tops: top_views(tops@), reports: problems(reports@) },
            ),
            schema_from(
                s,
                i as int,
                Outcome { tops: top_views(tops@), reports: problems(reports@) },
            ) is Some ==> tops@.len() + valid_blocks_from(s, i as int) == valid_blocks_from(s, 0),
            in_source_order(top_views(tops@)),
            all_laid_out(top_views(tops@)),
            forall|k: int|
                0 <= k < tops@.len() ==> (#[trigger] top_views(tops@)[k]).span().end <= byte_span(
                    s,
                    i as int,
                    i as int,
                ).start,
        decreases len - i,
    {
        let j = src.skip_blanks_from(i);
        if j >= len {
            return Some((tops, reports));
        }
        let ghost before = top_views(tops@);
        let header = parse_block_header(src, j);
        let mut end: usize = j;
        let mut done = false;
        match header {
            Some((keyword_end, name_start, name_end, open)) => {
                if src.matches_word(j, keyword_end, "datasource") {
                    match parse_config_block(src, j, keyword_end, name_start, name_end, open) {
                        Some((source, block_end, found)) => {
                            let top = Top::Source(source);
                            proof {
                                lemma_spans_follow(s, i as int, i as int, j as int, block_end as int);
                                lemma_spans_follow(
                                    s,
                                    j as int,
                                    block_end as int,
                                    block_end as int,
                                    block_end as int,
                                );
                            }
                            tops.push(top);
                            append_reports(&mut reports, found);
                            proof {
                                assert(top_views(tops@) =~= before.push(top@));
                            }
                            end = block_end;
                            done = true;
                        },
                        None => {
                            return None;
                        },
                    }
                } else {
                    match src.closing_brace_from(open + 1) {
                        Some(close) => {
                            push_report(
                                &mut reports,
                                SchemaError::new_validation_error(
                                    "This block is invalid. It does not start with any known Prisma schema keyword. Valid keywords include 'model', 'enum', 'type', 'datasource' and 'generator'.",
                                    src.span(j, close + 1),
                                ),
                            );
                            end = close + 1;
                            done = true;
                        },
                        None => {},
                    }
                }
            },
            None => {},
        }
        if !done {
            if src.comment_starts_at(j) {
                let (comment_end, _) = parse_comment_block(src, j);
                end = comment_end;
            } else {
                let n = src.newline_len_at(j);
                if n > 0 {
                    end = src.empty_lines_end_from(j + n);
                } else {
                    let e = src.line_end_from(j + 1);
                    end = e + src.newline_len_at(e);
                    push_report(
                        &mut reports,
                        SchemaError::new_validation_error(
                            "This line is invalid. It does not start with any known Prisma schema keyword.",
                            src.span(j, end),
                        ),
                    );
                }
            }
        }
        proof {
            lemma_spans_follow(s, i as int, i as int, end as int, end as int);
        }
        i = end;
    }
}

/// Parse the text of a schema and return its syntax tree. The items of the
/// tree stand in the order of the text, one for each datasource block, and
/// the errors found are added to `diagnostics`. Where the text ends inside
/// a datasource block, the tree is empty and exactly one error is added,
/// which names what the parser expected there.
pub fn parse_schema(schema_string: &str, diagnostics: &mut Diagnostics) -> (ast: SchemaAst)
    ensures
        final(diagnostics)@.warnings == old(diagnostics)@.warnings,
        match schema_outcome(schema_string@) {
            Some(outcome) => ast@ == outcome.tops && final(diagnostics)@.errors == old(diagnostics)@.errors + outcome.reports && ast@.len() == valid_blocks_from(schema_string@, 0),
            None => ast@.len() == 0 && final(diagnostics)@.errors == old(diagnostics)@.errors.push(
                unclosed_block(schema_string@),
            ),
        },
        in_source_order(ast@),
        all_laid_out(ast@),
{
    let src = SourceText::new(schema_string);
    match parse_items(&src) {
        Some((tops, reports)) => {
            diagnostics.push_errors(reports);
            SchemaAst { tops }
        },
        None => {
            let positives = [
                Rule::key_value,
                Rule::comment_block,
                Rule::empty_lines,
                Rule::BLOCK_LEVEL_CATCH_ALL,
                Rule::BLOCK_CLOSE,
            ];
            let expected = get_expected_from_error(positives.as_slice());
            let at = src.len();
            proof {
                assert(positives@ =~= expected_in_block());
            }
            diagnostics.push_error(SchemaError::new_parser_error(expected, src.span(at, at)));
            SchemaAst { tops: Vec::new() }
        },
    }
}

} // verus!
