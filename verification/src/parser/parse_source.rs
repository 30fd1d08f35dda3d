//! Datasource blocks: the header, the properties between the braces, and
//! the lines between them that are no properties.

use crate::ast::config::{ConfigBlockProperty, PropertyView};
use crate::ast::identifier::{Identifier, IdentifierView};
use crate::ast::source_config::{
    properties_in_source_order, Comment, SourceConfig, SourceConfigView,
};
use crate::diagnostics::error::{validation_message, Problem};
use crate::diagnostics::SchemaError;
use crate::parser::parse_comments::{comment_block_from, doc_view, parse_comment_block};
use crate::parser::parse_expression::{expression_at, parse_expression};
use crate::parser::scan::{
    empty_lines_end, identifier_end, is_comment_start, line_end, line_or_brace_end, newline_len,
    skip_blanks,
};
use crate::parser::{append_reports, no_reports, problems, push_report, Parsed};
use crate::text::{byte_span, lemma_spans_follow, SourceText};
use vstd::prelude::*;
use vstd::string::*;

verus! {

/// The property that begins at `i`: a name, an equals sign, a value unless
/// none stands there, a comment up to the end of the line if one stands
/// there, and the line break if one follows. Blanks may stand between all
/// of these.
pub open spec fn key_value_at(s: Seq<char>, i: int) -> Option<Parsed<PropertyView>> {
    let n = identifier_end(s, i);
    let eq = skip_blanks(s, n);
    if i < n <= eq < s.len() && s[eq] == '=' {
        let q = skip_blanks(s, eq + 1);
        let value = expression_at(s, q);
        let after = match value {
            Some(e) => e.end,
            None => q,
        };
        let t = skip_blanks(s, after);
        let c = if is_comment_start(s, t) {
            line_end(s, t + 2)
        } else {
            t
        };
        let end = c + newline_len(s, c);
        Some(
            Parsed {
                value: PropertyView {
                    name: IdentifierView { name: s.subrange(i, n), span: byte_span(s, i, n) },
                    value: match value {
                        Some(e) => Some(e.value),
                        None => None,
                    },
                    span: byte_span(s, i, end),
                },
                end,
                reports: match value {
                    Some(e) => e.reports,
                    None => Seq::empty(),
                },
            },
        )
    } else {
        None
    }
}

/// What stands between the braces of a block.
pub ghost struct BlockBody {
    pub properties: Seq<PropertyView>,
    pub documentation: Option<Seq<char>>,
    pub reports: Seq<Problem>,
}

/// The error for a line of a block that is no property.
pub open spec fn invalid_property_line(s: Seq<char>, from: int, to: int) -> Problem {
    Problem {
        span: byte_span(s, from, to),
        message: validation_message("This line is not a valid definition within a datasource."@),
    }
}

/// The item of a block that begins at `j`, where no blank and no closing
/// brace stands: what the block holds with it, behind `body`, and the
/// position where the item ends. A property is added. A block of comments
/// gives the block its documentation. Empty lines are passed over. What is
/// none of these is reported up to the end of the line, or to the closing
/// brace if that comes first.
pub open spec fn body_item(s: Seq<char>, j: int, body: BlockBody) -> (BlockBody, int) {
    match key_value_at(s, j) {
        Some(property) => (
            BlockBody {
                properties: body.properties.push(property.value),
                reports: body.reports + property.reports,
                ..body
            },
            property.end,
        ),
        None => if is_comment_start(s, j) {
            let comment = comment_block_from(s, j, None);
            (BlockBody { documentation: comment.1, ..body }, comment.0)
        } else if newline_len(s, j) > 0 {
            (body, empty_lines_end(s, j + newline_len(s, j)))
        } else {
            let e = line_or_brace_end(s, j + 1);
            let end = e + newline_len(s, e);
            (
                BlockBody { reports: body.reports.push(invalid_property_line(s, j, end)), ..body },
                end,
            )
        },
    }
}

/// What a block holds from `i` on, behind `body`, and the position of the
/// brace that closes it. Without a result where the text ends before the
/// block is closed.
pub open spec fn body_from(s: Seq<char>, i: int, body: BlockBody) -> Option<(BlockBody, int)>
    decreases s.len() - i,
{
    let j = skip_blanks(s, i);
    if j < i || j >= s.len() {
        None
    } else if s[j] == '}' {
        Some((body, j))
    } else {
        let item = body_item(s, j, body);
        if j < item.1 <= s.len() {
            body_from(s, item.1, item.0)
        } else {
            None
        }
    }
}

/// The header of a block: where its keyword ends, where its name begins
/// and ends, and where its opening brace stands.
pub ghost struct BlockHeader {
    pub keyword_end: int,
    pub name_start: int,
    pub name_end: int,
    pub open: int,
}

/// The header of the block that begins at `i`: two identifiers and an
/// opening brace, with blanks between them.
pub open spec fn block_header(s: Seq<char>, i: int) -> Option<BlockHeader> {
    let keyword_end = identifier_end(s, i);
    let name_start = skip_blanks(s, keyword_end);
    let name_end = identifier_end(s, name_start);
    let open = skip_blanks(s, name_end);
    if i < keyword_end <= name_start < name_end <= open < s.len() && s[open] == '{' {
        Some(BlockHeader { keyword_end, name_start, name_end, open })
    } else {
        None
    }
}

/// A body without properties.
pub open spec fn empty_body() -> BlockBody {
    BlockBody { properties: Seq::empty(), documentation: None, reports: Seq::empty() }
}

/// The datasource block with the header `header` that begins at `i`.
/// Without a result where the text ends before the block is closed.
pub open spec fn config_block_at(s: Seq<char>, i: int, header: BlockHeader) -> Option<
    Parsed<SourceConfigView>,
> {
    match body_from(s, header.open + 1, empty_body()) {
        Some((body, close)) => Some(
            Parsed {
                value: SourceConfigView {
                    name: IdentifierView {
                        name: s.subrange(header.name_start, header.name_end),
                        span: byte_span(s, header.name_start, header.name_end),
                    },
                    properties: body.properties,
                    documentation: body.documentation,
                    span: byte_span(s, i, close + 1),
                    inner_span: byte_span(s, header.open + 1, close),
                },
                end: close + 1,
                reports: body.reports,
            },
        ),
        None => None,
    }
}

/// The property that begins at `i`, the position where it ends, and the
/// errors found in its value.
pub fn parse_key_value(src: &SourceText, i: usize) -> (parsed: Option<
    (ConfigBlockProperty, usize, Vec<SchemaError>),
>)
    requires
        src.well_formed(),
        i <= src.chars@.len(),
    ensures
        match key_value_at(src.chars@, i as int) {
            Some(expected) => parsed matches Some(found) && found.0@ == expected.value && found.1
                == expected.end && problems(found.2@) == expected.reports && i < found.1
                <= src.chars@.len(),
            None => parsed is None,
        },
{
    let len = src.chars.len();
    let n = src.identifier_end_from(i);
    let eq = src.skip_blanks_from(n);
    if !(i < n && eq < len && src.chars[eq] == '=') {
        return None;
    }
    let q = src.skip_blanks_from(eq + 1);
    let (value, after, reports) = match parse_expression(src, q) {
        Some((value, end, reports)) => (Some(value), end, reports),
        None => (None, q, no_reports()),
    };
    let t = src.skip_blanks_from(after);
    let c = if src.comment_starts_at(t) {
        src.line_end_from(t + 2)
    } else {
        t
    };
    let end = c + src.newline_len_at(c);
    let property = ConfigBlockProperty {
        name: Identifier { name: src.slice(i, n), span: src.span(i, n) },
        value,
        span: src.span(i, end),
    };
    Some((property, end, reports))
}

/// The views of a list of properties.
pub open spec fn property_views(properties: Seq<ConfigBlockProperty>) -> Seq<PropertyView> {
    properties.map_values(|p: ConfigBlockProperty| p@)
}

/// What stands between the braces of a block, from `from` on: the
/// properties, the documentation, the errors, and the position of the
/// closing brace. Without a result where the text ends before the block is
/// closed.
pub fn parse_block_body(src: &SourceText, from: usize) -> (parsed: Option<
    (Vec<ConfigBlockProperty>, Option<String>, Vec<SchemaError>, usize),
>)
    requires
        src.well_formed(),
        from <= src.chars@.len(),
    ensures
        match body_from(src.chars@, from as int, empty_body()) {
            Some((body, close)) => parsed matches Some(found) && property_views(found.0@)
                == body.properties && doc_view(found.1) == body.documentation && problems(
                found.2@,
            ) == body.reports && found.3 == close && from <= close < src.chars@.len()
                && properties_in_source_order(body.properties) && forall|k: int|
                0 <= k < body.properties.len() ==> byte_span(
                    src.chars@,
                    from as int,
                    from as int,
                ).start <= (#[trigger] body.properties[k]).span.start && body.properties[k].span.end
                    <= byte_span(src.chars@, close, close).start,
            None => parsed is None,
        },
{
    let len = src.chars.len();
    let mut properties: Vec<ConfigBlockProperty> = Vec::new();
    let mut documentation: Option<String> = None;
    let mut reports = no_reports();
    let mut i = from;
    proof {
        assert(property_views(properties@) =~= Seq::<PropertyView>::empty());
    }
    loop
        invariant
            src.well_formed(),
            len == src.chars@.len(),
            from <= i <= len,
            properties_in_source_order(property_views(properties@)),
            forall|k: int|
                0 <= k < properties@.len() ==> byte_span(
                    src.chars@,
                    from as int,
                    from as int,
                ).start <= (#[trigger] property_views(properties@)[k]).span.start && property_views(
                    properties@,
                )[k].span.end <= byte_span(src.chars@, i as int, i as int).start,
            body_from(src.chars@, from as int, empty_body()) == body_from(
                src.chars@,
                i as int,
                BlockBody {
                    properties: property_views(properties@),
                    documentation: doc_view(documentation),
                    reports: problems(reports@),
                },
            ),
        decreases len - i,
    {
        let j = src.skip_blanks_from(i);
        if j >= len {
            return None;
        }
        proof {
            lemma_spans_follow(src.chars@, i as int, i as int, j as int, j as int);
        }
        if src.chars[j] == '}' {
            return Some((properties, documentation, reports, j));
        }
        match parse_key_value(src, j) {
            Some((property, end, found)) => {
                let ghost before = property_views(properties@);
                proof {
                    assert(property@.span == byte_span(src.chars@, j as int, end as int));
                    lemma_spans_follow(src.chars@, from as int, from as int, j as int, end as int);
                    lemma_spans_follow(src.chars@, i as int, i as int, j as int, end as int);
                    lemma_spans_follow(src.chars@, j as int, end as int, end as int, end as int);
                }
                properties.push(property);
                append_reports(&mut reports, found);
                proof {
                    assert(property_views(properties@) =~= before.push(property@));
                }
                i = end;
            },
            None => {
                if src.comment_starts_at(j) {
                    let (end, doc) = parse_comment_block(src, j);
                    documentation = doc;
                    proof {
                        lemma_spans_follow(src.chars@, i as int, i as int, end as int, end as int);
                    }
                    i = end;
                } else {
                    let n = src.newline_len_at(j);
                    if n > 0 {
                        let end = src.empty_lines_end_from(j + n);
                        proof {
                            lemma_spans_follow(
                                src.chars@,
                                i as int,
                                i as int,
                                end as int,
                                end as int,
                            );
                        }
                        i = end;
                    } else {
                        let e = src.line_or_brace_end_from(j + 1);
                        let end = e + src.newline_len_at(e);
                        push_report(
                            &mut reports,
                            SchemaError::new_validation_error(
                                "This line is not a valid definition within a datasource.",
                                src.span(j, end),
                            ),
                        );
                        proof {
                            lemma_spans_follow(
                                src.chars@,
                                i as int,
                                i as int,
                                end as int,
                                end as int,
                            );
                        }
                        i = end;
                    }
                }
            },
        }
    }
}

/// The header of the block that begins at `i`.
pub fn parse_block_header(src: &SourceText, i: usize) -> (header: Option<(usize, usize, usize, usize)>)
    requires
        i <= src.chars@.len(),
    ensures
        match block_header(src.chars@, i as int) {
            Some(expected) => header == Some(
                (
                    expected.keyword_end as usize,
                    expected.name_start as usize,
                    expected.name_end as usize,
                    expected.open as usize,
                ),
            ) && i < expected.keyword_end <= expected.name_start < expected.name_end
                <= expected.open < src.chars@.len(),
            None => header is None,
        },
{
    let len = src.chars.len();
    let keyword_end = src.identifier_end_from(i);
    let name_start = src.skip_blanks_from(keyword_end);
    let name_end = src.identifier_end_from(name_start);
    let open = src.skip_blanks_from(name_end);
    if i < keyword_end && name_start < name_end && open < len && src.chars[open] == '{' {
        Some((keyword_end, name_start, name_end, open))
    } else {
        None
    }
}

/// The datasource block that begins at `i`, with its keyword up to
/// `keyword_end`, its name from `name_start` up to `name_end` and its
/// opening brace at `open`.
pub fn parse_config_block(
    src: &SourceText,
    i: usize,
    keyword_end: usize,
    name_start: usize,
    name_end: usize,
    open: usize,
) -> (parsed: Option<(SourceConfig, usize, Vec<SchemaError>)>)
    requires
        src.well_formed(),
        i <= keyword_end <= name_start < name_end <= open < src.chars@.len(),
    ensures
        match config_block_at(
            src.chars@,
            i as int,
            BlockHeader {
                keyword_end: keyword_end as int,
                name_start: name_start as int,
                name_end: name_end as int,
                open: open as int,
            },
        ) {
            Some(expected) => parsed matches Some(found) && found.0@ == expected.value && found.1
                == expected.end && problems(found.2@) == expected.reports && open < found.1
                <= src.chars@.len() && expected.value.laid_out(),
            None => parsed is None,
        },
{
    let len = src.chars.len();
    match parse_block_body(src, open + 1) {
        Some((properties, documentation, reports, close)) => {
            proof {
                lemma_spans_follow(src.chars@, i as int, i as int, open + 1, close as int);
                lemma_spans_follow(src.chars@, open + 1, close as int, close + 1, close + 1);
                lemma_spans_follow(src.chars@, i as int, close + 1, close + 1, close + 1);
                lemma_spans_follow(src.chars@, open + 1, open + 1, close as int, close as int);
            }
            let documentation = match documentation {
                Some(text) => Some(Comment { text }),
                None => None,
            };
            let source = SourceConfig {
                name: Identifier {
                    name: src.slice(name_start, name_end),
                    span: src.span(name_start, name_end),
                },
                properties,
                documentation,
                span: src.span(i, close + 1),
                inner_span: src.span(open + 1, close),
            };
            Some((source, close + 1, reports))
        },
        None => None,
    }
}

} // verus!
