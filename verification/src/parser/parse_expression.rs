//! Expressions: string literals, and function calls whose arguments are
//! expressions.

use crate::ast::expression::{
    lemma_arguments_view, Argument, ArgumentView, ArgumentsList, ArgumentsListView,
    EmptyArgumentView, Expression, ExpressionView,
};
use crate::diagnostics::error::Problem;
use crate::diagnostics::SchemaError;
use crate::parser::scan::{identifier_end, skip_blanks};
use crate::parser::{append_reports, no_reports, problems, push_report, Parsed};
use crate::text::{byte_span, SourceText};
use vstd::prelude::*;
use vstd::string::*;

verus! {

/// The character that stands for `c` behind a backslash, if `c` is the
/// letter of an escape.
pub open spec fn escape_value(c: char) -> Option<char> {
    if c == '"' {
        Some('"')
    } else if c == '\\' {
        Some('\\')
    } else if c == '/' {
        Some('/')
    } else if c == 'b' {
        Some('\u{8}')
    } else if c == 'f' {
        Some('\u{c}')
    } else if c == 'n' {
        Some('\n')
    } else if c == 'r' {
        Some('\r')
    } else if c == 't' {
        Some('\t')
    } else {
        None
    }
}

/// The position of the quote that closes a string literal, from `j` on
/// inside the literal. A backslash takes the character behind it along; a
/// control character that is not escaped ends the search without a result.
pub open spec fn literal_close(s: Seq<char>, j: int) -> Option<int>
    decreases s.len() - j,
{
    if j < 0 || j >= s.len() {
        None
    } else if s[j] == '"' {
        Some(j)
    } else if s[j] == '\\' && j + 1 < s.len() {
        literal_close(s, j + 2)
    } else if (s[j] as u32) < 0x20 {
        None
    } else {
        literal_close(s, j + 1)
    }
}

/// The error for a backslash at `j` with a character behind it that is the
/// letter of no escape.
pub open spec fn unknown_escape(s: Seq<char>, j: int) -> Problem {
    Problem {
        span: byte_span(s, j, j + 2),
        message: "Unknown escape sequence. If the value is a windows-style path, `\\` must be escaped as `\\\\`."@,
    }
}

/// The value of a string literal and the errors in it: what stands from
/// `j` up to the closing quote at `close`, behind `value` and `reports`.
/// An escape stands for its character; an unknown escape is reported and
/// left out.
pub open spec fn literal_content(
    s: Seq<char>,
    j: int,
    close: int,
    value: Seq<char>,
    reports: Seq<Problem>,
) -> (Seq<char>, Seq<Problem>)
    decreases close - j,
{
    if j < 0 || j >= close {
        (value, reports)
    } else if s[j] == '\\' && j + 1 < close {
        match escape_value(s[j + 1]) {
            Some(c) => literal_content(s, j + 2, close, value.push(c), reports),
            None => literal_content(s, j + 2, close, value, reports.push(unknown_escape(s, j))),
        }
    } else {
        literal_content(s, j + 1, close, value.push(s[j]), reports)
    }
}

/// A list of arguments without names.
pub open spec fn plain_arguments(arguments: Seq<ArgumentView>) -> ArgumentsListView {
    ArgumentsListView {
        arguments,
        empty_arguments: Seq::<EmptyArgumentView>::empty(),
        trailing_comma: None,
    }
}

/// The expression that begins at `i`. A quote opens a string literal. An
/// identifier with an opening bracket behind it opens a function call:
/// expressions with commas between them, up to the closing bracket; blanks
/// may stand between all of these.
pub open spec fn expression_at(s: Seq<char>, i: int) -> Option<Parsed<ExpressionView>>
    decreases s.len() - i, 0int,
{
    if i < 0 || i >= s.len() {
        None
    } else if s[i] == '"' {
        match literal_close(s, i + 1) {
            Some(close) => {
                let content = literal_content(s, i + 1, close, Seq::empty(), Seq::empty());
                Some(
                    Parsed {
                        value: ExpressionView::StringValue(content.0, byte_span(s, i, close + 1)),
                        end: close + 1,
                        reports: content.1,
                    },
                )
            },
            None => None,
        }
    } else {
        let n = identifier_end(s, i);
        let open = skip_blanks(s, n);
        if i < n <= open < s.len() && s[open] == '(' {
            let first = skip_blanks(s, open + 1);
            if open < first < s.len() && s[first] == ')' {
                Some(
                    Parsed {
                        value: ExpressionView::Function(
                            s.subrange(i, n),
                            plain_arguments(Seq::empty()),
                            byte_span(s, i, first + 1),
                        ),
                        end: first + 1,
                        reports: Seq::empty(),
                    },
                )
            } else if open < first <= s.len() {
                match arguments_from(s, first) {
                    Some(arguments) => Some(
                        Parsed {
                            value: ExpressionView::Function(
                                s.subrange(i, n),
                                plain_arguments(arguments.value),
                                byte_span(s, i, arguments.end),
                            ),
                            end: arguments.end,
                            reports: arguments.reports,
                        },
                    ),
                    None => None,
                }
            } else {
                None
            }
        } else {
            None
        }
    }
}

/// The arguments of a function call from the expression at `q` on, up to
/// the closing bracket.
pub open spec fn arguments_from(s: Seq<char>, q: int) -> Option<Parsed<Seq<ArgumentView>>>
    decreases s.len() - q, 1int,
{
    match expression_at(s, q) {
        None => None,
        Some(e) => {
            let argument = ArgumentView { name: None, value: e.value, span: e.value.span() };
            let r = skip_blanks(s, e.end);
            if r < 0 || r >= s.len() || e.end <= q || r < e.end {
                None
            } else if s[r] == ')' {
                Some(Parsed { value: seq![argument], end: r + 1, reports: e.reports })
            } else if s[r] == ',' {
                let next = skip_blanks(s, r + 1);
                if r < next <= s.len() {
                    match arguments_from(s, next) {
                        Some(rest) => Some(
                            Parsed {
                                value: seq![argument] + rest.value,
                                end: rest.end,
                                reports: e.reports + rest.reports,
                            },
                        ),
                        None => None,
                    }
                } else {
                    None
                }
            } else {
                None
            }
        },
    }
}

/// The views of a list of arguments.
pub open spec fn argument_views(arguments: Seq<Argument>) -> Seq<ArgumentView> {
    Seq::new(arguments.len(), |k: int| arguments[k]@)
}

fn escape_of(c: char) -> (value: Option<char>)
    ensures
        value == escape_value(c),
{
    if c == '"' {
        Some('"')
    } else if c == '\\' {
        Some('\\')
    } else if c == '/' {
        Some('/')
    } else if c == 'b' {
        Some('\u{8}')
    } else if c == 'f' {
        Some('\u{c}')
    } else if c == 'n' {
        Some('\n')
    } else if c == 'r' {
        Some('\r')
    } else if c == 't' {
        Some('\t')
    } else {
        None
    }
}

/// The position of the quote that closes the string literal whose content
/// begins at `from`.
fn find_literal_close(src: &SourceText, from: usize) -> (found: Option<usize>)
    requires
        from <= src.chars@.len(),
    ensures
        match found {
            Some(close) => literal_close(src.chars@, from as int) == Some(close as int) && from
                <= close < src.chars@.len(),
            None => literal_close(src.chars@, from as int) is None,
        },
{
    let len = src.chars.len();
    let mut j = from;
    while j < len
        invariant
            len == src.chars@.len(),
            from <= j,
            literal_close(src.chars@, from as int) == literal_close(src.chars@, j as int),
        decreases len - j,
    {
        let c = src.chars[j];
        if c == '"' {
            return Some(j);
        } else if c == '\\' && j + 1 < len {
            j += 2;
        } else if (c as u32) < 0x20 {
            return None;
        } else {
            j += 1;
        }
    }
    None
}

/// The string literal that begins with the quote at `i`.
fn parse_string_literal(src: &SourceText, i: usize) -> (parsed: Option<
    (Expression, usize, Vec<SchemaError>),
>)
    requires
        src.well_formed(),
        i < src.chars@.len(),
        src.chars@[i as int] == '"',
    ensures
        match expression_at(src.chars@, i as int) {
            Some(expected) => parsed matches Some(found) && found.0@ == expected.value && found.1
                == expected.end && problems(found.2@) == expected.reports && i < found.1
                <= src.chars@.len(),
            None => parsed is None,
        },
{
    let len = src.chars.len();
    let close = match find_literal_close(src, i + 1) {
        Some(close) => close,
        None => {
            return None;
        },
    };
    let mut value = String::new();
    let mut reports = no_reports();
    let mut j = i + 1;
    while j < close
        invariant
            src.well_formed(),
            i < j,
            len == src.chars@.len(),
            close < src.chars@.len(),
            literal_content(
                src.chars@,
                i + 1,
                close as int,
                Seq::empty(),
                Seq::empty(),
            ) == literal_content(src.chars@, j as int, close as int, value@, problems(reports@)),
        decreases close - j,
    {
        let c = src.chars[j];
        if c == '\\' && j + 1 < close {
            match escape_of(src.chars[j + 1]) {
                Some(escaped) => {
                    value.push(escaped);
                },
                None => {
                    push_report(
                        &mut reports,
                        SchemaError::new_static(
                            "Unknown escape sequence. If the value is a windows-style path, `\\` must be escaped as `\\\\`.",
                            src.span(j, j + 2),
                        ),
                    );
                },
            }
            j += 2;
        } else {
            value.push(c);
            j += 1;
        }
    }
    Some((Expression::StringValue(value, src.span(i, close + 1)), close + 1, reports))
}

/// The expression that begins at `i`, the position where it ends, and the
/// errors found in it.
pub fn parse_expression(src: &SourceText, i: usize) -> (parsed: Option<
    (Expression, usize, Vec<SchemaError>),
>)
    requires
        src.well_formed(),
        i <= src.chars@.len(),
    ensures
        match expression_at(src.chars@, i as int) {
            Some(expected) => parsed matches Some(found) && found.0@ == expected.value && found.1
                == expected.end && problems(found.2@) == expected.reports && i < found.1
                <= src.chars@.len(),
            None => parsed is None,
        },
    decreases src.chars@.len() - i, 0int,
{
    let len = src.chars.len();
    if i >= len {
        return None;
    }
    if src.chars[i] == '"' {
        return parse_string_literal(src, i);
    }
    let n = src.identifier_end_from(i);
    let open = src.skip_blanks_from(n);
    if !(i < n && open < len && src.chars[open] == '(') {
        return None;
    }
    let first = src.skip_blanks_from(open + 1);
    let name = src.slice(i, n);
    if first < len && src.chars[first] == ')' {
        let list = ArgumentsList::new();
        return Some((Expression::Function(name, list, src.span(i, first + 1)), first + 1, no_reports()));
    }
    match parse_arguments_list(src, first) {
        Some((arguments, end, reports)) => {
            let list = ArgumentsList {
                arguments,
                empty_arguments: Vec::new(),
                trailing_comma: None,
            };
            proof {
                lemma_arguments_view(&list);
                let expected = arguments_from(src.chars@, first as int)->0;
                assert(list@.arguments =~= expected.value);
                assert(list@.empty_arguments =~= Seq::<EmptyArgumentView>::empty());
                assert(list@ == plain_arguments(expected.value));
            }
            Some((Expression::Function(name, list, src.span(i, end)), end, reports))
        },
        None => None,
    }
}

/// The arguments of a function call from the expression at `q` on, the
/// position behind the closing bracket, and the errors found.
pub fn parse_arguments_list(src: &SourceText, q: usize) -> (parsed: Option<
    (Vec<Argument>, usize, Vec<SchemaError>),
>)
    requires
        src.well_formed(),
        q <= src.chars@.len(),
    ensures
        match arguments_from(src.chars@, q as int) {
            Some(expected) => parsed matches Some(found) && argument_views(found.0@)
                == expected.value && found.1 == expected.end && problems(found.2@)
                == expected.reports && q < found.1 <= src.chars@.len(),
            None => parsed is None,
        },
    decreases src.chars@.len() - q, 1int,
{
    let len = src.chars.len();
    let (value, end, mut reports) = match parse_expression(src, q) {
        Some(found) => found,
        None => {
            return None;
        },
    };
    let span = value.span();
    let argument = Argument { name: None, value, span };
    let r = src.skip_blanks_from(end);
    if r >= len {
        return None;
    }
    if src.chars[r] == ')' {
        let mut arguments: Vec<Argument> = Vec::new();
        arguments.push(argument);
        proof {
            assert(argument_views(arguments@) =~= seq![argument@]);
        }
        return Some((arguments, r + 1, reports));
    }
    if src.chars[r] != ',' {
        return None;
    }
    let next = src.skip_blanks_from(r + 1);
    match parse_arguments_list(src, next) {
        Some((mut arguments, rest_end, rest_reports)) => {
            let ghost rest_views = argument_views(arguments@);
            arguments.insert(0, argument);
            append_reports(&mut reports, rest_reports);
            proof {
                assert(argument_views(arguments@) =~= seq![argument@] + rest_views);
            }
            Some((arguments, rest_end, reports))
        },
        None => None,
    }
}

} // verus!
