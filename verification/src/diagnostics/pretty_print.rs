//! Diagnostics laid out for reading: the message, the place, and the lines
//! of the source that the diagnostic is about, with the offending stretch
//! set apart.

use crate::span::Span;
use crate::text::{
    byte_offset, decimal, padded_decimal, push_padded_decimal, repeated, SourceText,
};
use vstd::prelude::*;
use vstd::string::*;

verus! {

/// How grave a diagnostic is.
#[derive(Debug, Clone, Copy, PartialEq, Eq, Structural)]
pub enum Severity {
    Error,
    Warning,
}

/// How a piece of a laid-out diagnostic is set apart from plain text.
#[derive(Debug, Clone, Copy, PartialEq, Eq, Structural)]
pub enum Style {
    /// As it is.
    Plain,
    /// The word that names the severity.
    Title(Severity),
    /// The message.
    Description,
    /// The arrow in front of the place.
    Arrow,
    /// The file and the line.
    Path,
    /// A line number and the bar behind it.
    Gutter,
    /// The stretch of the source that the diagnostic is about.
    Offending(Severity),
}

/// A piece of a laid-out diagnostic.
#[derive(Debug)]
pub struct Piece {
    pub style: Style,
    pub text: String,
}

/// What a [`Piece`] holds.
pub ghost struct PieceView {
    pub style: Style,
    pub text: Seq<char>,
}

impl View for Piece {
    type V = PieceView;

    open spec fn view(&self) -> PieceView {
        PieceView { style: self.style, text: self.text@ }
    }
}

/// The views of a list of pieces.
pub open spec fn piece_views(pieces: Seq<Piece>) -> Seq<PieceView> {
    pieces.map_values(|p: Piece| p@)
}

/// The escape character, with which every escape sequence of a terminal
/// begins.
pub open spec fn escape() -> char {
    '\u{1b}'
}

/// Whether a text holds no escape character.
pub open spec fn clean(text: Seq<char>) -> bool {
    !text.contains(escape())
}

/// The texts of the pieces, one behind the other: what a diagnostic says
/// without any highlighting.
pub open spec fn plain_text(pieces: Seq<PieceView>) -> Seq<char>
    decreases pieces.len(),
{
    if pieces.len() == 0 {
        Seq::empty()
    } else {
        plain_text(pieces.drop_last()) + pieces.last().text
    }
}

/// Whether none of the pieces holds the escape character in its text.
pub open spec fn free_of_escapes(pieces: Seq<PieceView>) -> bool {
    forall|k: int| 0 <= k < pieces.len() ==> clean((#[trigger] pieces[k]).text)
}

/// The word that names a severity.
pub open spec fn title_text(severity: Severity) -> Seq<char> {
    match severity {
        Severity::Error => "error"@,
        Severity::Warning => "warning"@,
    }
}

/// The index of the character that holds the byte at `position`, searched
/// from index `from` on: the last index whose byte offset is not behind
/// `position`. A position behind the text gives the end of the text.
pub open spec fn char_index_at(s: Seq<char>, position: int, from: int) -> int
    decreases s.len() - from,
{
    if 0 <= from < s.len() && byte_offset(s, from + 1) <= position {
        char_index_at(s, position, from + 1)
    } else {
        from
    }
}

/// Where the line that holds index `i` begins: behind the last line feed
/// in front of `i`.
pub open spec fn line_start(s: Seq<char>, i: int) -> int
    decreases i,
{
    if i <= 0 || i > s.len() {
        0
    } else if s[i - 1] == '\n' {
        i
    } else {
        line_start(s, i - 1)
    }
}

/// Where the line that holds index `i` stops: at the first line feed from
/// `i` on, or at the end of the text.
pub open spec fn line_stop(s: Seq<char>, i: int) -> int
    decreases s.len() - i,
{
    if 0 <= i < s.len() && s[i] != '\n' {
        line_stop(s, i + 1)
    } else {
        i
    }
}

/// The number of line feeds in front of index `i`.
pub open spec fn newlines_before(s: Seq<char>, i: int) -> nat
    decreases i,
{
    if i <= 0 || i > s.len() {
        0
    } else if s[i - 1] == '\n' {
        newlines_before(s, i - 1) + 1
    } else {
        newlines_before(s, i - 1)
    }
}

/// A piece of plain text.
pub open spec fn plain(text: Seq<char>) -> PieceView {
    PieceView { style: Style::Plain, text }
}

/// The line feed at the end of a line of the layout.
pub open spec fn line_feed() -> PieceView {
    plain(seq!['\n'])
}

/// The gutter of a line: its number, at least two characters wide, and a
/// bar; for the number zero, blanks and the bar.
pub open spec fn gutter(number: nat) -> PieceView {
    PieceView {
        style: Style::Gutter,
        text: if number > 0 {
            padded_decimal(number, 2, ' ') + " | "@
        } else {
            "   | "@
        },
    }
}

/// The line of the source that begins at `p`, with its number.
pub open spec fn numbered_line(s: Seq<char>, p: int, number: nat) -> Seq<PieceView> {
    seq![gutter(number), plain(s.subrange(p, line_stop(s, p))), line_feed()]
}

/// The lines of the source from the one that begins at `p` on, as far as
/// they begin at or in front of `stop`, each with its number.
pub open spec fn following_lines(s: Seq<char>, p: int, stop: int, number: nat) -> Seq<PieceView>
    decreases s.len() - p,
{
    if p < 0 || p > s.len() || p > stop {
        Seq::empty()
    } else {
        let e = line_stop(s, p);
        if p <= e < s.len() {
            numbered_line(s, p, number) + following_lines(s, e + 1, stop, number + 1)
        } else {
            numbered_line(s, p, number)
        }
    }
}

/// The head of a layout: the severity and the message, and the file with
/// the number of the line.
pub open spec fn heading(
    file_name: Seq<char>,
    description: Seq<char>,
    severity: Severity,
    line: nat,
) -> Seq<PieceView> {
    seq![
        PieceView { style: Style::Title(severity), text: title_text(severity) },
        plain(": "@),
        PieceView { style: Style::Description, text: description },
        line_feed(),
        plain("  "@),
        PieceView { style: Style::Arrow, text: "-->"@ },
        plain("  "@),
        PieceView { style: Style::Path, text: file_name + seq![':'] + decimal(line) },
        line_feed(),
        gutter(0),
        line_feed(),
    ]
}

/// The line in front of the one that holds index `start`, with its number;
/// an empty line where `start` stands in the first line.
pub open spec fn previous_line(s: Seq<char>, start: int) -> Seq<PieceView> {
    if newlines_before(s, start) > 0 {
        numbered_line(s, line_start(s, line_start(s, start) - 1), newlines_before(s, start))
    } else {
        seq![line_feed()]
    }
}

/// Where the offending stretch of the first line ends: at `stop`, or at the
/// end of the line if that comes first.
pub open spec fn cut_index(s: Seq<char>, start: int, stop: int) -> int {
    if stop < line_stop(s, start) {
        stop
    } else {
        line_stop(s, start)
    }
}

/// The line that holds index `start`, with its number and with the
/// offending stretch set apart.
pub open spec fn marked_line(s: Seq<char>, start: int, stop: int, severity: Severity) -> Seq<
    PieceView,
> {
    seq![
        gutter(newlines_before(s, start) + 1),
        plain(s.subrange(line_start(s, start), start)),
        PieceView {
            style: Style::Offending(severity),
            text: s.subrange(start, cut_index(s, start, stop)),
        },
        plain(s.subrange(cut_index(s, start, stop), line_stop(s, start))),
        line_feed(),
    ]
}

/// A caret below index `start`, where the offending stretch is empty.
pub open spec fn caret_line(s: Seq<char>, start: int, stop: int, severity: Severity) -> Seq<
    PieceView,
> {
    if cut_index(s, start, stop) == start {
        seq![
            gutter(0),
            plain(repeated(' ', (start - line_start(s, start)) as nat)),
            PieceView { style: Style::Offending(severity), text: "^ Unexpected token."@ },
            line_feed(),
        ]
    } else {
        Seq::empty()
    }
}

/// The lines behind the one that holds index `start`, as far as the
/// diagnostic reaches.
pub open spec fn further_lines(s: Seq<char>, start: int, stop: int) -> Seq<PieceView> {
    if line_stop(s, start) < s.len() {
        following_lines(s, line_stop(s, start) + 1, stop, newlines_before(s, start) + 2)
    } else {
        Seq::empty()
    }
}

/// The lines of the source that a diagnostic is about. `start` and `stop`
/// are the indices of the characters where the diagnostic begins and ends.
/// The line in front of the first is shown, then the first line with the
/// offending stretch set apart, a caret where that stretch is empty, and
/// the lines that follow as far as the diagnostic reaches.
pub open spec fn excerpt(s: Seq<char>, start: int, stop: int, severity: Severity) -> Seq<PieceView> {
    previous_line(s, start) + marked_line(s, start, stop, severity) + caret_line(
        s,
        start,
        stop,
        severity,
    ) + further_lines(s, start, stop) + seq![gutter(0), line_feed()]
}

/// Where a diagnostic begins in the text, as the index of a character.
pub open spec fn start_index(s: Seq<char>, span: Span) -> int {
    char_index_at(s, span.start as int, 0)
}

/// Where a diagnostic ends in the text, as the index of a character: not
/// in front of where it begins.
pub open spec fn stop_index(s: Seq<char>, span: Span) -> int {
    if char_index_at(s, span.end as int, 0) < start_index(s, span) {
        start_index(s, span)
    } else {
        char_index_at(s, span.end as int, 0)
    }
}

/// A diagnostic laid out against the source: the head, and the lines of
/// the source that it is about.
pub open spec fn layout(
    file_name: Seq<char>,
    s: Seq<char>,
    span: Span,
    description: Seq<char>,
    severity: Severity,
) -> Seq<PieceView> {
    heading(file_name, description, severity, newlines_before(s, start_index(s, span)) + 1)
        + excerpt(s, start_index(s, span), stop_index(s, span), severity)
}

impl Severity {
    /// The word that names the severity.
    pub fn title(&self) -> (word: &'static str)
        ensures
            word@ == title_text(*self),
    {
        match self {
            Severity::Error => "error",
            Severity::Warning => "warning",
        }
    }
}

fn piece(style: Style, text: String) -> (p: Piece)
    ensures
        p@ == (PieceView { style, text: text@ }),
{
    Piece { style, text }
}

fn plain_piece(text: &str) -> (p: Piece)
    ensures
        p@ == plain(text@),
{
    Piece { style: Style::Plain, text: String::from_str(text) }
}

fn line_feed_piece() -> (p: Piece)
    ensures
        p@ == line_feed(),
{
    let mut text = String::new();
    text.push('\n');
    proof {
        assert(text@ =~= seq!['\n']);
    }
    Piece { style: Style::Plain, text }
}

fn gutter_piece(number: usize) -> (p: Piece)
    ensures
        p@ == gutter(number as nat),
{
    if number > 0 {
        let mut text = String::new();
        push_padded_decimal(&mut text, number as u64, 2, ' ');
        text.append(" | ");
        proof {
            assert(text@ =~= padded_decimal(number as nat, 2, ' ') + " | "@);
        }
        Piece { style: Style::Gutter, text }
    } else {
        Piece { style: Style::Gutter, text: String::from_str("   | ") }
    }
}

impl SourceText {
    /// The index of the character that holds the byte at `position`.
    pub fn char_index(&self, position: usize) -> (index: usize)
        requires
            self.well_formed(),
        ensures
            index == char_index_at(self.chars@, position as int, 0),
            index <= self.chars@.len(),
    {
        let len = self.chars.len();
        let mut i: usize = 0;
        while i < len && self.offsets[i + 1] <= position
            invariant
                self.well_formed(),
                len == self.chars@.len(),
                i <= len,
                char_index_at(self.chars@, position as int, 0) == char_index_at(
                    self.chars@,
                    position as int,
                    i as int,
                ),
            decreases len - i,
        {
            i += 1;
        }
        i
    }

    /// Where the line that holds index `i` begins.
    pub fn line_start_of(&self, i: usize) -> (start: usize)
        requires
            i <= self.chars@.len(),
        ensures
            start == line_start(self.chars@, i as int),
            start <= i,
    {
        let mut j = i;
        while j > 0 && self.chars[j - 1] != '\n'
            invariant
                j <= i <= self.chars@.len(),
                line_start(self.chars@, i as int) == line_start(self.chars@, j as int),
            decreases j,
        {
            j -= 1;
        }
        j
    }

    /// Where the line that holds index `i` stops.
    pub fn line_stop_of(&self, i: usize) -> (stop: usize)
        requires
            i <= self.chars@.len(),
        ensures
            stop == line_stop(self.chars@, i as int),
            i <= stop <= self.chars@.len(),
    {
        let mut j = i;
        while j < self.chars.len() && self.chars[j] != '\n'
            invariant
                i <= j <= self.chars@.len(),
                line_stop(self.chars@, i as int) == line_stop(self.chars@, j as int),
            decreases self.chars@.len() - j,
        {
            j += 1;
        }
        j
    }

    /// The number of line feeds in front of index `i`.
    pub fn newlines_before_index(&self, i: usize) -> (count: usize)
        requires
            i <= self.chars@.len(),
        ensures
            count == newlines_before(self.chars@, i as int),
            count <= i,
    {
        let mut count: usize = 0;
        let mut j: usize = 0;
        while j < i
            invariant
                j <= i <= self.chars@.len(),
                count == newlines_before(self.chars@, j as int),
                count <= j,
            decreases i - j,
        {
            if self.chars[j] == '\n' {
                count += 1;
            }
            j += 1;
        }
        count
    }

    /// Adds the line that begins at `p`, with its number, to `pieces`.
    fn push_numbered_line(&self, pieces: &mut Vec<Piece>, p: usize, number: usize) -> (stop: usize)
        requires
            p <= self.chars@.len(),
        ensures
            piece_views(final(pieces)@) == piece_views(old(pieces)@) + numbered_line(
                self.chars@,
                p as int,
                number as nat,
            ),
            stop == line_stop(self.chars@, p as int),
            p <= stop <= self.chars@.len(),
    {
        let stop = self.line_stop_of(p);
        let ghost before = piece_views(pieces@);
        pieces.push(gutter_piece(number));
        pieces.push(piece(Style::Plain, self.slice(p, stop)));
        pieces.push(line_feed_piece());
        proof {
            assert(piece_views(pieces@) =~= before + numbered_line(
                self.chars@,
                p as int,
                number as nat,
            ));
        }
        stop
    }

    /// Adds the line in front of the one that holds `start` to `pieces`.
    fn push_previous_line(&self, pieces: &mut Vec<Piece>, start: usize)
        requires
            self.well_formed(),
            start <= self.chars@.len(),
        ensures
            piece_views(final(pieces)@) == piece_views(old(pieces)@) + previous_line(
                self.chars@,
                start as int,
            ),
    {
        let ghost before = piece_views(pieces@);
        let first = self.line_start_of(start);
        let number = self.newlines_before_index(start);
        if number > 0 {
            proof {
                lemma_first_line(self.chars@, start as int);
            }
            let previous = self.line_start_of(first - 1);
            let _ = self.push_numbered_line(pieces, previous, number);
        } else {
            pieces.push(line_feed_piece());
            proof {
                assert(piece_views(pieces@) =~= before + seq![line_feed()]);
            }
        }
    }

    /// Adds the line that holds `start`, with the offending stretch set
    /// apart, to `pieces`.
    fn push_marked_line(&self, pieces: &mut Vec<Piece>, start: usize, stop: usize, severity: Severity)
        requires
            self.well_formed(),
            start <= stop <= self.chars@.len(),
        ensures
            piece_views(final(pieces)@) == piece_views(old(pieces)@) + marked_line(
                self.chars@,
                start as int,
                stop as int,
                severity,
            ),
    {
        let ghost before = piece_views(pieces@);
        let bound = self.offsets.len();
        let first = self.line_start_of(start);
        let last = self.line_stop_of(start);
        let cut = if stop < last {
            stop
        } else {
            last
        };
        let number = self.newlines_before_index(start);
        pieces.push(gutter_piece(number + 1));
        pieces.push(piece(Style::Plain, self.slice(first, start)));
        pieces.push(piece(Style::Offending(severity), self.slice(start, cut)));
        pieces.push(piece(Style::Plain, self.slice(cut, last)));
        pieces.push(line_feed_piece());
        proof {
            assert(piece_views(pieces@) =~= before + marked_line(
                self.chars@,
                start as int,
                stop as int,
                severity,
            ));
        }
    }

    /// Adds a caret below `start` to `pieces`, where the offending stretch
    /// is empty.
    fn push_caret_line(&self, pieces: &mut Vec<Piece>, start: usize, stop: usize, severity: Severity)
        requires
            self.well_formed(),
            start <= stop <= self.chars@.len(),
        ensures
            piece_views(final(pieces)@) == piece_views(old(pieces)@) + caret_line(
                self.chars@,
                start as int,
                stop as int,
                severity,
            ),
    {
        let ghost before = piece_views(pieces@);
        let first = self.line_start_of(start);
        let last = self.line_stop_of(start);
        let cut = if stop < last {
            stop
        } else {
            last
        };
        if cut == start {
            let mut spacing = String::new();
            let mut k: usize = 0;
            while k < start - first
                invariant
                    first <= start,
                    k <= start - first,
                    spacing@ == repeated(' ', k as nat),
                decreases start - first - k,
            {
                spacing.push(' ');
                k += 1;
                proof {
                    assert(spacing@ =~= repeated(' ', k as nat));
                }
            }
            pieces.push(gutter_piece(0));
            pieces.push(piece(Style::Plain, spacing));
            pieces.push(piece(Style::Offending(severity), String::from_str("^ Unexpected token.")));
            pieces.push(line_feed_piece());
            proof {
                assert(piece_views(pieces@) =~= before + caret_line(
                    self.chars@,
                    start as int,
                    stop as int,
                    severity,
                ));
            }
        } else {
            proof {
                assert(piece_views(pieces@) =~= before + Seq::<PieceView>::empty());
            }
        }
    }

    /// Adds the lines from the one that begins at `from` on, as far as they
    /// begin at or in front of `stop`, to `pieces`.
    fn push_following_lines(&self, pieces: &mut Vec<Piece>, from: usize, stop: usize, number: usize)
        requires
            self.well_formed(),
            from <= self.chars@.len(),
            number <= from + 1,
        ensures
            piece_views(final(pieces)@) == piece_views(old(pieces)@) + following_lines(
                self.chars@,
                from as int,
                stop as int,
                number as nat,
            ),
    {
        let ghost s = self.chars@;
        let ghost before = piece_views(pieces@);
        let len = self.chars.len();
        let bound = self.offsets.len();
        let mut p = from;
        let mut line = number;
        let ghost mut shown = Seq::<PieceView>::empty();
        let mut more = true;
        proof {
            assert(piece_views(pieces@) =~= before + shown);
        }
        while more && p <= stop
            invariant
                len == s.len(),
                s == self.chars@,
                len < usize::MAX,
                p <= len,
                more ==> line <= p + 1,
                piece_views(pieces@) == before + shown,
                more ==> shown + following_lines(s, p as int, stop as int, line as nat)
                    == following_lines(s, from as int, stop as int, number as nat),
                !more ==> shown == following_lines(s, from as int, stop as int, number as nat),
            decreases len - p + (if more { 1int } else { 0int }),
        {
            let ghost rest = following_lines(s, p as int, stop as int, line as nat);
            let ghost shown_before = shown;
            let e = self.push_numbered_line(pieces, p, line);
            proof {
                shown = shown + numbered_line(s, p as int, line as nat);
                assert(piece_views(pieces@) =~= before + shown);
            }
            if e < len {
                proof {
                    assert(rest == numbered_line(s, p as int, line as nat) + following_lines(
                        s,
                        e + 1,
                        stop as int,
                        (line + 1) as nat,
                    ));
                    assert(shown + following_lines(s, e + 1, stop as int, (line + 1) as nat)
                        =~= shown_before + rest);
                }
                p = e + 1;
                line = line + 1;
            } else {
                proof {
                    assert(rest == numbered_line(s, p as int, line as nat));
                    assert(shown =~= shown_before + rest);
                }
                more = false;
            }
        }
        proof {
            if more {
                assert(following_lines(s, p as int, stop as int, line as nat) =~= Seq::<
                    PieceView,
                >::empty());
                assert(shown =~= following_lines(s, from as int, stop as int, number as nat));
            }
        }
    }

    /// Adds the lines of the source that a diagnostic from `start` to
    /// `stop` is about to `pieces`.
    fn push_excerpt(&self, pieces: &mut Vec<Piece>, start: usize, stop: usize, severity: Severity)
        requires
            self.well_formed(),
            start <= stop <= self.chars@.len(),
        ensures
            piece_views(final(pieces)@) == piece_views(old(pieces)@) + excerpt(
                self.chars@,
                start as int,
                stop as int,
                severity,
            ),
    {
        let ghost s = self.chars@;
        let ghost before = piece_views(pieces@);
        let ghost first = previous_line(s, start as int);
        let ghost second = marked_line(s, start as int, stop as int, severity);
        let ghost third = caret_line(s, start as int, stop as int, severity);
        let ghost fourth = further_lines(s, start as int, stop as int);
        let ghost fifth = seq![gutter(0), line_feed()];
        let len = self.chars.len();
        let bound = self.offsets.len();
        self.push_previous_line(pieces, start);
        assert(piece_views(pieces@) == before + first);
        self.push_marked_line(pieces, start, stop, severity);
        assert(piece_views(pieces@) == before + first + second);
        self.push_caret_line(pieces, start, stop, severity);
        assert(piece_views(pieces@) == before + first + second + third);
        let last = self.line_stop_of(start);
        let number = self.newlines_before_index(start);
        let ghost pointed = piece_views(pieces@);
        if last < len {
            self.push_following_lines(pieces, last + 1, stop, number + 2);
        } else {
            proof {
                assert(piece_views(pieces@) =~= pointed + Seq::<PieceView>::empty());
            }
        }
        assert(piece_views(pieces@) == pointed + fourth);
        let ghost listed = piece_views(pieces@);
        pieces.push(gutter_piece(0));
        pieces.push(line_feed_piece());
        proof {
            assert(piece_views(pieces@) =~= listed + fifth);
            lemma_joined(before, first, second, third, fourth, fifth);
        }
    }

    /// A diagnostic laid out against the text.
    pub fn layout_of(&self, file_name: &str, span: Span, description: &str, severity: Severity) -> (pieces:
        Vec<Piece>)
        requires
            self.well_formed(),
        ensures
            piece_views(pieces@) == layout(file_name@, self.chars@, span, description@, severity),
    {
        let start = self.char_index(span.start);
        let reach = self.char_index(span.end);
        let stop = if reach < start {
            start
        } else {
            reach
        };
        let number = self.newlines_before_index(start);
        let bound = self.offsets.len();
        assert(bound == self.chars@.len() + 1);
        let mut path = String::from_str(file_name);
        path.push(':');
        crate::text::push_decimal(&mut path, (number + 1) as u64);
        proof {
            assert(path@ =~= file_name@ + seq![':'] + decimal((number + 1) as nat));
        }
        let mut pieces: Vec<Piece> = Vec::new();
        pieces.push(piece(Style::Title(severity), String::from_str(severity.title())));
        pieces.push(plain_piece(": "));
        pieces.push(piece(Style::Description, String::from_str(description)));
        pieces.push(line_feed_piece());
        pieces.push(plain_piece("  "));
        pieces.push(piece(Style::Arrow, String::from_str("-->")));
        pieces.push(plain_piece("  "));
        pieces.push(piece(Style::Path, path));
        pieces.push(line_feed_piece());
        pieces.push(gutter_piece(0));
        pieces.push(line_feed_piece());
        proof {
            assert(piece_views(pieces@) =~= heading(
                file_name@,
                description@,
                severity,
                (number + 1) as nat,
            ));
        }
        self.push_excerpt(&mut pieces, start, stop, severity);
        pieces
    }
}

/// A part of a text without the escape character holds none.
proof fn lemma_clean_subrange(s: Seq<char>, i: int, j: int)
    requires
        clean(s),
        0 <= i <= j <= s.len(),
    ensures
        clean(s.subrange(i, j)),
{
    let part = s.subrange(i, j);
    assert forall|k: int| 0 <= k < part.len() implies part[k] != escape() by {
        assert(s.contains(s[i + k]));
    }
}

/// Two texts without the escape character, one behind the other, hold none.
proof fn lemma_clean_join(a: Seq<char>, b: Seq<char>)
    requires
        clean(a),
        clean(b),
    ensures
        clean(a + b),
{
    let whole = a + b;
    assert forall|k: int| 0 <= k < whole.len() implies whole[k] != escape() by {
        if k < a.len() {
            assert(a.contains(a[k]));
        } else {
            assert(b.contains(b[k - a.len()]));
        }
    }
}

/// A number in decimal holds no escape character.
proof fn lemma_clean_decimal(n: nat)
    ensures
        clean(crate::text::decimal(n)),
    decreases n,
{
    let digits = crate::text::decimal(n);
    if n >= 10 {
        lemma_clean_decimal(n / 10);
        let front = crate::text::decimal(n / 10);
        assert forall|k: int| 0 <= k < digits.len() implies digits[k] != escape() by {
            if k < front.len() {
                assert(front.contains(front[k]));
            }
        }
    }
}

/// A gutter holds no escape character.
proof fn lemma_clean_gutter(number: nat)
    ensures
        clean(gutter(number).text),
{
    reveal_strlit(" | ");
    reveal_strlit("   | ");
    if number > 0 {
        lemma_clean_decimal(number);
        let digits = decimal(number);
        let padded = padded_decimal(number, 2, ' ');
        if digits.len() < 2 {
            let fill = repeated(' ', (2 - digits.len()) as nat);
            assert(clean(fill));
            lemma_clean_join(fill, digits);
        }
        assert(clean(" | "@));
        lemma_clean_join(padded, " | "@);
    } else {
        assert(clean("   | "@));
    }
}

/// Pieces without the escape character, in two lists one behind the other,
/// hold none.
pub proof fn lemma_free_join(a: Seq<PieceView>, b: Seq<PieceView>)
    requires
        free_of_escapes(a),
        free_of_escapes(b),
    ensures
        free_of_escapes(a + b),
{
    let whole = a + b;
    assert forall|k: int| 0 <= k < whole.len() implies clean((#[trigger] whole[k]).text) by {
        if k < a.len() {
            assert(whole[k] == a[k]);
        } else {
            assert(whole[k] == b[k - a.len()]);
        }
    }
}

/// Where a line begins: not behind the position, and inside the text.
proof fn lemma_line_start_bounds(s: Seq<char>, i: int)
    requires
        0 <= i <= s.len(),
    ensures
        0 <= line_start(s, i) <= i,
    decreases i,
{
    if i > 0 && s[i - 1] != '\n' {
        lemma_line_start_bounds(s, i - 1);
    }
}

/// Where a line stops: not in front of the position, and inside the text.
proof fn lemma_line_stop_bounds(s: Seq<char>, i: int)
    requires
        0 <= i <= s.len(),
    ensures
        i <= line_stop(s, i) <= s.len(),
    decreases s.len() - i,
{
    if i < s.len() && s[i] != '\n' {
        lemma_line_stop_bounds(s, i + 1);
    }
}

/// The index of a character lies inside the text.
proof fn lemma_char_index_bounds(s: Seq<char>, position: int, from: int)
    requires
        0 <= from <= s.len(),
    ensures
        from <= char_index_at(s, position, from) <= s.len(),
    decreases s.len() - from,
{
    if from < s.len() && byte_offset(s, from + 1) <= position {
        lemma_char_index_bounds(s, position, from + 1);
    }
}

proof fn lemma_numbered_line_is_clean(s: Seq<char>, p: int, number: nat)
    requires
        clean(s),
        0 <= p <= s.len(),
    ensures
        free_of_escapes(numbered_line(s, p, number)),
{
    lemma_clean_gutter(number);
    lemma_line_stop_bounds(s, p);
    lemma_clean_subrange(s, p, line_stop(s, p));
    assert(clean(line_feed().text));
}

proof fn lemma_following_lines_are_clean(s: Seq<char>, p: int, stop: int, number: nat)
    requires
        clean(s),
    ensures
        free_of_escapes(following_lines(s, p, stop, number)),
    decreases s.len() - p,
{
    if p < 0 || p > s.len() || p > stop {
    } else {
        let e = line_stop(s, p);
        lemma_numbered_line_is_clean(s, p, number);
        if p <= e < s.len() {
            lemma_following_lines_are_clean(s, e + 1, stop, number + 1);
            lemma_free_join(numbered_line(s, p, number), following_lines(s, e + 1, stop, number + 1));
        }
    }
}

proof fn lemma_excerpt_is_clean(s: Seq<char>, start: int, stop: int, severity: Severity)
    requires
        clean(s),
        0 <= start <= stop <= s.len(),
    ensures
        free_of_escapes(excerpt(s, start, stop, severity)),
{
    let first = line_start(s, start);
    let last = line_stop(s, start);
    let cut = cut_index(s, start, stop);
    lemma_line_start_bounds(s, start);
    lemma_line_stop_bounds(s, start);
    reveal_strlit("^ Unexpected token.");
    assert(clean(line_feed().text));
    // the line in front
    if newlines_before(s, start) > 0 {
        lemma_first_line(s, start);
        lemma_line_start_bounds(s, first - 1);
        lemma_numbered_line_is_clean(s, line_start(s, first - 1), newlines_before(s, start));
    }
    assert(free_of_escapes(previous_line(s, start)));
    // the line itself
    lemma_clean_gutter(newlines_before(s, start) + 1);
    lemma_clean_subrange(s, first, start);
    lemma_clean_subrange(s, start, cut);
    lemma_clean_subrange(s, cut, last);
    assert(free_of_escapes(marked_line(s, start, stop, severity)));
    // the caret
    lemma_clean_gutter(0);
    assert(clean(repeated(' ', (start - first) as nat)));
    assert(clean("^ Unexpected token."@));
    assert(free_of_escapes(caret_line(s, start, stop, severity)));
    // the lines behind
    if last < s.len() {
        lemma_following_lines_are_clean(s, last + 1, stop, newlines_before(s, start) + 2);
    }
    assert(free_of_escapes(further_lines(s, start, stop)));
    let closing = seq![gutter(0), line_feed()];
    assert(free_of_escapes(closing));
    lemma_free_join(previous_line(s, start), marked_line(s, start, stop, severity));
    lemma_free_join(
        previous_line(s, start) + marked_line(s, start, stop, severity),
        caret_line(s, start, stop, severity),
    );
    lemma_free_join(
        previous_line(s, start) + marked_line(s, start, stop, severity) + caret_line(
            s,
            start,
            stop,
            severity,
        ),
        further_lines(s, start, stop),
    );
    lemma_free_join(
        previous_line(s, start) + marked_line(s, start, stop, severity) + caret_line(
            s,
            start,
            stop,
            severity,
        ) + further_lines(s, start, stop),
        closing,
    );
}

/// The layout of a diagnostic holds no escape character unless the file
/// name, the text or the message holds one.
pub proof fn lemma_layout_is_clean(
    file_name: Seq<char>,
    s: Seq<char>,
    span: Span,
    description: Seq<char>,
    severity: Severity,
)
    requires
        clean(file_name),
        clean(s),
        clean(description),
    ensures
        free_of_escapes(layout(file_name, s, span, description, severity)),
{
    let start = start_index(s, span);
    let stop = stop_index(s, span);
    lemma_char_index_bounds(s, span.start as int, 0);
    lemma_char_index_bounds(s, span.end as int, 0);
    lemma_excerpt_is_clean(s, start, stop, severity);
    let line = newlines_before(s, start) + 1;
    reveal_strlit("error");
    reveal_strlit("warning");
    reveal_strlit(": ");
    reveal_strlit("  ");
    reveal_strlit("-->");
    lemma_clean_gutter(0);
    lemma_clean_decimal(line);
    lemma_clean_join(file_name, seq![':']);
    lemma_clean_join(file_name + seq![':'], decimal(line));
    assert(clean(title_text(severity)));
    assert(clean(": "@));
    assert(clean("  "@));
    assert(clean("-->"@));
    assert(clean(line_feed().text));
    assert(free_of_escapes(heading(file_name, description, severity, line)));
    lemma_free_join(
        heading(file_name, description, severity, line),
        excerpt(s, start, stop, severity),
    );
}

/// Lists written one behind the other, behind a first: the same as the first
/// with all the others behind it.
proof fn lemma_joined<T>(z: Seq<T>, a: Seq<T>, b: Seq<T>, c: Seq<T>, d: Seq<T>, e: Seq<T>)
    ensures
        z + a + b + c + d + e == z + (a + b + c + d + e),
{
    assert(z + a + b + c + d + e =~= z + (a + b + c + d + e));
}

/// A position with line feeds in front of it does not stand in the first
/// line.
proof fn lemma_first_line(s: Seq<char>, i: int)
    requires
        0 <= i <= s.len(),
        newlines_before(s, i) > 0,
    ensures
        line_start(s, i) > 0,
    decreases i,
{
    if i > 0 && s[i - 1] != '\n' {
        lemma_first_line(s, i - 1);
    }
}

} // verus!
