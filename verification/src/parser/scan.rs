//! The lexical level of the grammar: blanks, line breaks, identifiers and
//! comments, each as a function from a position in the text to the position
//! where the element ends.

use crate::text::SourceText;
use vstd::prelude::*;

verus! {

/// A blank: a space, a tab, or another space separator of Unicode.
pub open spec fn is_blank(c: char) -> bool {
    c == ' ' || c == '\t' || c == '\u{a0}' || c == '\u{1680}' || ('\u{2000}' <= c && c
        <= '\u{200a}') || c == '\u{202f}' || c == '\u{205f}' || c == '\u{3000}'
}

/// A letter or a digit of ASCII.
pub open spec fn is_alphanumeric(c: char) -> bool {
    ('a' <= c && c <= 'z') || ('A' <= c && c <= 'Z') || ('0' <= c && c <= '9')
}

/// A character that an identifier may hold behind its first.
pub open spec fn is_identifier_part(c: char) -> bool {
    is_alphanumeric(c) || c == '_' || c == '-'
}

/// The number of characters of the line break at `i`: `\n` and `\r` count
/// one, `\r\n` two; none where no line break stands.
pub open spec fn newline_len(s: Seq<char>, i: int) -> int {
    if i < 0 || i >= s.len() {
        0
    } else if s[i] == '\n' {
        1
    } else if s[i] == '\r' {
        if i + 1 < s.len() && s[i + 1] == '\n' {
            2
        } else {
            1
        }
    } else {
        0
    }
}

/// The first position from `i` on that holds no blank.
pub open spec fn skip_blanks(s: Seq<char>, i: int) -> int
    decreases s.len() - i,
{
    if 0 <= i < s.len() && is_blank(s[i]) {
        skip_blanks(s, i + 1)
    } else {
        i
    }
}

/// The first position from `i` on that holds no character of an identifier.
pub open spec fn identifier_rest(s: Seq<char>, i: int) -> int
    decreases s.len() - i,
{
    if 0 <= i < s.len() && is_identifier_part(s[i]) {
        identifier_rest(s, i + 1)
    } else {
        i
    }
}

/// Where the identifier that begins at `i` ends; `i` itself where none
/// begins there. An identifier begins with a letter or a digit.
pub open spec fn identifier_end(s: Seq<char>, i: int) -> int {
    if 0 <= i < s.len() && is_alphanumeric(s[i]) {
        identifier_rest(s, i + 1)
    } else {
        i
    }
}

/// The first position from `i` on that holds a line break, or the end of
/// the text.
pub open spec fn line_end(s: Seq<char>, i: int) -> int
    decreases s.len() - i,
{
    if 0 <= i < s.len() && newline_len(s, i) == 0 {
        line_end(s, i + 1)
    } else {
        i
    }
}

/// The first position from `i` on that holds a line break or a closing
/// brace, or the end of the text.
pub open spec fn line_or_brace_end(s: Seq<char>, i: int) -> int
    decreases s.len() - i,
{
    if 0 <= i < s.len() && newline_len(s, i) == 0 && s[i] != '}' {
        line_or_brace_end(s, i + 1)
    } else {
        i
    }
}

/// The position of the first closing brace from `i` on.
pub open spec fn closing_brace(s: Seq<char>, i: int) -> Option<int>
    decreases s.len() - i,
{
    if i < 0 || i >= s.len() {
        None
    } else if s[i] == '}' {
        Some(i)
    } else {
        closing_brace(s, i + 1)
    }
}

/// Whether a comment begins at `i`: two slashes.
pub open spec fn is_comment_start(s: Seq<char>, i: int) -> bool {
    0 <= i && i + 1 < s.len() && s[i] == '/' && s[i + 1] == '/'
}

/// Whether a documentation comment begins at `i`: three slashes.
pub open spec fn is_doc_start(s: Seq<char>, i: int) -> bool {
    is_comment_start(s, i) && i + 2 < s.len() && s[i + 2] == '/'
}

/// Where the empty lines that begin at `i` end; `i` itself where the line
/// at `i` is not empty. A line is empty when it holds blanks only and ends
/// with a line break.
pub open spec fn empty_lines_end(s: Seq<char>, i: int) -> int
    decreases s.len() - i,
{
    let b = skip_blanks(s, i);
    let n = newline_len(s, b);
    if 0 <= i <= b && n > 0 {
        empty_lines_end(s, b + n)
    } else {
        i
    }
}

pub fn blank(c: char) -> (b: bool)
    ensures
        b == is_blank(c),
{
    c == ' ' || c == '\t' || c == '\u{a0}' || c == '\u{1680}' || ('\u{2000}' <= c && c
        <= '\u{200a}') || c == '\u{202f}' || c == '\u{205f}' || c == '\u{3000}'
}

pub fn alphanumeric(c: char) -> (b: bool)
    ensures
        b == is_alphanumeric(c),
{
    ('a' <= c && c <= 'z') || ('A' <= c && c <= 'Z') || ('0' <= c && c <= '9')
}

pub fn identifier_part(c: char) -> (b: bool)
    ensures
        b == is_identifier_part(c),
{
    alphanumeric(c) || c == '_' || c == '-'
}

impl SourceText {
    /// The number of characters of the line break at `i`.
    pub fn newline_len_at(&self, i: usize) -> (n: usize)
        requires
            i <= self.chars@.len(),
        ensures
            n == newline_len(self.chars@, i as int),
            n <= 2,
            i + n <= self.chars@.len(),
    {
        if i >= self.chars.len() {
            0
        } else if self.chars[i] == '\n' {
            1
        } else if self.chars[i] == '\r' {
            if i + 1 < self.chars.len() && self.chars[i + 1] == '\n' {
                2
            } else {
                1
            }
        } else {
            0
        }
    }

    /// The first position from `i` on that holds no blank.
    pub fn skip_blanks_from(&self, i: usize) -> (j: usize)
        requires
            i <= self.chars@.len(),
        ensures
            j == skip_blanks(self.chars@, i as int),
            i <= j <= self.chars@.len(),
    {
        let mut j = i;
        while j < self.chars.len() && blank(self.chars[j])
            invariant
                i <= j <= self.chars@.len(),
                skip_blanks(self.chars@, i as int) == skip_blanks(self.chars@, j as int),
            decreases self.chars@.len() - j,
        {
            j += 1;
        }
        j
    }

    /// Where the identifier that begins at `i` ends; `i` where none begins.
    pub fn identifier_end_from(&self, i: usize) -> (j: usize)
        requires
            i <= self.chars@.len(),
        ensures
            j == identifier_end(self.chars@, i as int),
            i <= j <= self.chars@.len(),
    {
        if i < self.chars.len() && alphanumeric(self.chars[i]) {
            let mut j = i + 1;
            while j < self.chars.len() && identifier_part(self.chars[j])
                invariant
                    i < j <= self.chars@.len(),
                    identifier_rest(self.chars@, i + 1) == identifier_rest(self.chars@, j as int),
                decreases self.chars@.len() - j,
            {
                j += 1;
            }
            j
        } else {
            i
        }
    }

    /// The first position from `i` on that holds a line break, or the end.
    pub fn line_end_from(&self, i: usize) -> (j: usize)
        requires
            i <= self.chars@.len(),
        ensures
            j == line_end(self.chars@, i as int),
            i <= j <= self.chars@.len(),
    {
        let mut j = i;
        while j < self.chars.len() && self.newline_len_at(j) == 0
            invariant
                i <= j <= self.chars@.len(),
                line_end(self.chars@, i as int) == line_end(self.chars@, j as int),
            decreases self.chars@.len() - j,
        {
            j += 1;
        }
        j
    }

    /// The first position from `i` on that holds a line break or a closing
    /// brace, or the end.
    pub fn line_or_brace_end_from(&self, i: usize) -> (j: usize)
        requires
            i <= self.chars@.len(),
        ensures
            j == line_or_brace_end(self.chars@, i as int),
            i <= j <= self.chars@.len(),
    {
        let mut j = i;
        while j < self.chars.len() && self.newline_len_at(j) == 0 && self.chars[j] != '}'
            invariant
                i <= j <= self.chars@.len(),
                line_or_brace_end(self.chars@, i as int) == line_or_brace_end(
                    self.chars@,
                    j as int,
                ),
            decreases self.chars@.len() - j,
        {
            j += 1;
        }
        j
    }

    /// The position of the first closing brace from `i` on.
    pub fn closing_brace_from(&self, i: usize) -> (found: Option<usize>)
        requires
            i <= self.chars@.len(),
        ensures
            match found {
                Some(j) => closing_brace(self.chars@, i as int) == Some(j as int) && i <= j
                    < self.chars@.len(),
                None => closing_brace(self.chars@, i as int) is None,
            },
    {
        let mut j = i;
        while j < self.chars.len()
            invariant
                i <= j <= self.chars@.len(),
                closing_brace(self.chars@, i as int) == closing_brace(self.chars@, j as int),
            decreases self.chars@.len() - j,
        {
            if self.chars[j] == '}' {
                return Some(j);
            }
            j += 1;
        }
        None
    }

    /// Whether a comment begins at `i`.
    pub fn comment_starts_at(&self, i: usize) -> (b: bool)
        requires
            i <= self.chars@.len(),
        ensures
            b == is_comment_start(self.chars@, i as int),
    {
        i < self.chars.len() && i + 1 < self.chars.len() && self.chars[i] == '/' && self.chars[i
            + 1] == '/'
    }

    /// Whether a documentation comment begins at `i`.
    pub fn doc_starts_at(&self, i: usize) -> (b: bool)
        requires
            i <= self.chars@.len(),
        ensures
            b == is_doc_start(self.chars@, i as int),
    {
        let len = self.chars.len();
        if self.comment_starts_at(i) {
            i + 2 < len && self.chars[i + 2] == '/'
        } else {
            false
        }
    }

    /// Where the empty lines that begin at `i` end; `i` where the line at
    /// `i` is not empty.
    pub fn empty_lines_end_from(&self, i: usize) -> (j: usize)
        requires
            i <= self.chars@.len(),
        ensures
            j == empty_lines_end(self.chars@, i as int),
            i <= j <= self.chars@.len(),
    {
        let len = self.chars.len();
        let mut j = i;
        loop
            invariant
                len == self.chars@.len(),
                i <= j <= self.chars@.len(),
                empty_lines_end(self.chars@, i as int) == empty_lines_end(self.chars@, j as int),
            decreases self.chars@.len() - j,
        {
            let b = self.skip_blanks_from(j);
            let n = self.newline_len_at(b);
            if n == 0 {
                return j;
            }
            j = b + n;
        }
    }

    /// Whether the characters from `from` up to `to` are those of `word`.
    pub fn matches_word(&self, from: usize, to: usize, word: &str) -> (same: bool)
        requires
            from <= to <= self.chars@.len(),
        ensures
            same == (self.chars@.subrange(from as int, to as int) == word@),
    {
        let n = word.unicode_len();
        if to - from != n {
            return false;
        }
        let mut k: usize = 0;
        while k < n
            invariant
                from <= to <= self.chars@.len(),
                n == word@.len(),
                to - from == n,
                k <= n,
                forall|m: int| 0 <= m < k ==> self.chars@[from + m] == word@[m],
            decreases n - k,
        {
            if self.chars[from + k] != word.get_char(k) {
                assert(self.chars@.subrange(from as int, to as int)[k as int] != word@[k as int]);
                return false;
            }
            k += 1;
        }
        proof {
            assert(self.chars@.subrange(from as int, to as int) =~= word@);
        }
        true
    }
}

} // verus!
