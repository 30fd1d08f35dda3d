//! Comments: a block of comment lines, and the documentation that it holds.

use crate::parser::scan::{is_comment_start, is_doc_start, line_end, newline_len, skip_blanks};
use crate::text::SourceText;
use vstd::prelude::*;
use vstd::string::*;

verus! {

/// A documentation text with one more line.
pub open spec fn join_doc(doc: Option<Seq<char>>, line: Seq<char>) -> Option<Seq<char>> {
    match doc {
        Some(text) => Some(text + seq!['\n'] + line),
        None => Some(line),
    }
}

/// The text of the documentation line that begins at `i`: what stands
/// behind the three slashes, without leading blanks, up to the end of the
/// line.
pub open spec fn doc_line(s: Seq<char>, i: int) -> Seq<char> {
    let from = skip_blanks(s, i + 3);
    let to = line_end(s, i + 2);
    if from <= to {
        s.subrange(from, to)
    } else {
        Seq::empty()
    }
}

/// The block of comment lines that begins at `i`: the position where it
/// ends, and its documentation behind `doc`. The block goes on as long as
/// the next line begins, after blanks, with a comment. A line with three
/// slashes is a line of documentation.
pub open spec fn comment_block_from(s: Seq<char>, i: int, doc: Option<Seq<char>>) -> (
    int,
    Option<Seq<char>>,
)
    decreases s.len() - i,
{
    let e = line_end(s, i + 2);
    let doc_now = if is_doc_start(s, i) {
        join_doc(doc, doc_line(s, i))
    } else {
        doc
    };
    let after = e + newline_len(s, e);
    let next = skip_blanks(s, after);
    if is_comment_start(s, next) && i < next <= s.len() {
        comment_block_from(s, next, doc_now)
    } else {
        (after, doc_now)
    }
}

/// The characters of a documentation text that may be missing.
pub open spec fn doc_view(doc: Option<String>) -> Option<Seq<char>> {
    match doc {
        Some(text) => Some(text@),
        None => None,
    }
}

/// The block of comment lines that begins at `i`: the position where it
/// ends, and the documentation that it holds.
pub fn parse_comment_block(src: &SourceText, i: usize) -> (parsed: (usize, Option<String>))
    requires
        src.well_formed(),
        is_comment_start(src.chars@, i as int),
    ensures
        (parsed.0 as int, doc_view(parsed.1)) == comment_block_from(src.chars@, i as int, None),
        i < parsed.0 <= src.chars@.len(),
{
    let len = src.chars.len();
    let mut doc: Option<String> = None;
    let mut at = i;
    loop
        invariant
            src.well_formed(),
            len == src.chars@.len(),
            i <= at,
            is_comment_start(src.chars@, at as int),
            comment_block_from(src.chars@, i as int, None) == comment_block_from(
                src.chars@,
                at as int,
                doc_view(doc),
            ),
        decreases len - at,
    {
        let e = src.line_end_from(at + 2);
        if src.doc_starts_at(at) {
            let from = src.skip_blanks_from(at + 3);
            let line = if from <= e {
                src.slice(from, e)
            } else {
                String::new()
            };
            doc = match doc {
                Some(text) => {
                    let ghost before = text@;
                    let mut text = text;
                    text.push('\n');
                    text.append(line.as_str());
                    proof {
                        assert(text@ =~= before + seq!['\n'] + line@);
                    }
                    Some(text)
                },
                None => Some(line),
            };
        }
        let after = e + src.newline_len_at(e);
        let next = src.skip_blanks_from(after);
        if src.comment_starts_at(next) {
            at = next;
        } else {
            return (after, doc);
        }
    }
}

} // verus!
