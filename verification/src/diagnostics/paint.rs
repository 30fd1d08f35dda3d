//! The pieces of a laid-out diagnostic as text for a terminal. The
//! highlighting is the work of the crate `colored`, which decides by the
//! environment of the process whether it writes escape sequences at all. A
//! highlighted piece is written with its text in it: as it is, or between
//! an escape sequence for the style and the sequence that ends it.

use crate::diagnostics::pretty_print::{
    escape, free_of_escapes, layout, piece_views, plain_text, title_text, Piece, PieceView,
    Severity, Style,
};
use crate::span::Span;
use crate::text::SourceText;
use colored::{ColoredString, Colorize};
use vstd::prelude::*;
use vstd::string::*;

verus! {

/// `colored::ColoredString`: a text with a colour and a style. Nothing of
/// its inside is known here.
#[verifier::external_type_specification]
#[verifier::external_body]
pub struct ExColoredString(ColoredString);

/// The text that a `colored::ColoredString` holds, without its colour and
/// its style: the field `input` of the struct.
pub uninterp spec fn colored_text(colored: ColoredString) -> Seq<char>;

/// What `Colorize::bright_red` of `colored` makes of a text: the text with
/// bright red as the colour of its letters, and with no other colour or
/// style.
pub uninterp spec fn bright_red_text(text: Seq<char>) -> ColoredString;

/// What `Colorize::bright_yellow` of `colored` makes of a text: the text
/// with bright yellow as the colour of its letters, and with no other
/// colour or style.
pub uninterp spec fn bright_yellow_text(text: Seq<char>) -> ColoredString;

/// The escape sequence that ends all colours and styles.
pub open spec fn reset_sequence() -> Seq<char> {
    seq![escape(), '[', '0', 'm']
}

/// Whether a character can stand among the codes of an escape sequence for
/// a style: a digit or a semicolon.
pub open spec fn is_code(c: char) -> bool {
    ('0' <= c && c <= '9') || c == ';'
}

/// Whether a text is an escape sequence for a style: the escape character,
/// an opening bracket, codes, and the letter `m`.
pub open spec fn is_style_sequence(style: Seq<char>) -> bool {
    &&& style.len() >= 3
    &&& style[0] == escape()
    &&& style[1] == '['
    &&& style.last() == 'm'
    &&& forall|i: int| 2 <= i < style.len() - 1 ==> is_code(#[trigger] style[i])
}

/// Whether `written` can be what a coloured string with the text `text` is
/// written as. A text without the escape character is written as it is, or
/// with an escape sequence for its style in front of it and the sequence
/// that ends the style behind it. The sequence in front may be missing:
/// that is what is written where highlighting is switched off while the
/// text is being written. Of a text that holds the escape character nothing
/// is said.
pub open spec fn written_as(text: Seq<char>, written: Seq<char>) -> bool {
    !text.contains(escape()) ==> (written == text || exists|style: Seq<char>|
        (style.len() == 0 || is_style_sequence(style)) && written == #[trigger] (style + text)
            + reset_sequence())
}

/// What is left of a text behind the escape sequence that it begins in the
/// middle of: what follows the first letter `m`.
pub open spec fn behind_sequence(text: Seq<char>) -> Seq<char>
    decreases text.len(),
{
    if text.len() == 0 {
        text
    } else if text[0] == 'm' {
        text.drop_first()
    } else {
        behind_sequence(text.drop_first())
    }
}

/// A text as it is read once the highlighting is taken out: without its
/// escape sequences, each from an escape character up to the next letter
/// `m`.
pub open spec fn legible(text: Seq<char>) -> Seq<char>
    decreases text.len(),
{
    if text.len() == 0 {
        text
    } else if text[0] == escape() {
        if behind_sequence(text.drop_first()).len() < text.len() {
            legible(behind_sequence(text.drop_first()))
        } else {
            Seq::empty()
        }
    } else {
        seq![text[0]] + legible(text.drop_first())
    }
}

/// `Colorize::bright_red` of `colored` on a string slice. The result is
/// built from the text alone, and holds the text. It is named, not
/// described: its inside is not known here.
#[verifier::external_body]
fn bright_red(text: &str) -> (colored: ColoredString)
    ensures
        colored == bright_red_text(text@),
        colored_text(colored) == text@,
{
    text.bright_red()
}

/// `Colorize::bright_yellow` of `colored` on a string slice. The result is
/// built from the text alone, and holds the text. It is named, not
/// described: its inside is not known here.
#[verifier::external_body]
fn bright_yellow(text: &str) -> (colored: ColoredString)
    ensures
        colored == bright_yellow_text(text@),
        colored_text(colored) == text@,
{
    text.bright_yellow()
}

/// `Colorize::bright_blue` of `colored` on a string slice. The result
/// holds the text; of its colour nothing is claimed.
#[verifier::external_body]
fn bright_blue(text: &str) -> (colored: ColoredString)
    ensures
        colored_text(colored) == text@,
{
    text.bright_blue()
}

/// `Colorize::underline` of `colored` on a string slice. The result holds
/// the text; of its style nothing is claimed.
#[verifier::external_body]
fn underline(text: &str) -> (colored: ColoredString)
    ensures
        colored_text(colored) == text@,
{
    text.underline()
}

/// `Colorize::bold` of `colored` on a string slice. The result holds the
/// text; of its style nothing is claimed.
#[verifier::external_body]
fn bold(text: &str) -> (colored: ColoredString)
    ensures
        colored_text(colored) == text@,
{
    text.bold()
}

/// `Colorize::bold` of `colored` on a text that has a colour already. The
/// result holds the text that was given; of its style nothing is claimed.
#[verifier::external_body]
fn bolder(text: ColoredString) -> (colored: ColoredString)
    ensures
        colored_text(colored) == colored_text(text),
{
    text.bold()
}

/// `to_string` on a `colored::ColoredString`. Whether escape sequences are
/// written is a matter of the environment; either way a text without the
/// escape character stands in the result unchanged, with nothing around it
/// or between one escape sequence for its style (the escape character, a
/// bracket, digits and semicolons, the letter `m`) and the sequence that
/// ends the style. Where another thread switches highlighting off in the
/// middle of the call, the sequence in front is missing.
#[verifier::external_body]
fn written(text: &ColoredString) -> (result: String)
    ensures
        written_as(colored_text(*text), result@),
{
    text.to_string()
}

/// Whether `text` can be what painting `piece` gives: for a plain piece the
/// text of the piece itself, for any other what its text is written as
/// with a style.
pub open spec fn painted_of(piece: PieceView, text: Seq<char>) -> bool {
    if piece.style is Plain {
        text == piece.text
    } else {
        written_as(piece.text, text)
    }
}

/// Whether `painted` can be what painting `pieces` gives: one text for each
/// piece, each as painting the piece gives it.
pub open spec fn painted_as(pieces: Seq<PieceView>, painted: Seq<Seq<char>>) -> bool {
    &&& painted.len() == pieces.len()
    &&& forall|k: int| 0 <= k < pieces.len() ==> painted_of(#[trigger] pieces[k], painted[k])
}

/// Whether the text `whole` holds the text `part` in one piece.
pub open spec fn holds(whole: Seq<char>, part: Seq<char>) -> bool {
    exists|before: Seq<char>, after: Seq<char>| whole == #[trigger] ((before + part) + after)
}

/// The texts, one behind the other.
pub open spec fn flattened(parts: Seq<Seq<char>>) -> Seq<char>
    decreases parts.len(),
{
    if parts.len() == 0 {
        Seq::empty()
    } else {
        flattened(parts.drop_last()) + parts.last()
    }
}

/// Two lists of texts, one behind the other, give the text of the first and
/// then the text of the second.
pub proof fn lemma_flattened_concat(a: Seq<Seq<char>>, b: Seq<Seq<char>>)
    ensures
        flattened(a + b) == flattened(a) + flattened(b),
    decreases b.len(),
{
    if b.len() == 0 {
        assert(a + b =~= a);
        assert(flattened(a) + flattened(b) =~= flattened(a));
    } else {
        lemma_flattened_concat(a, b.drop_last());
        assert((a + b).drop_last() =~= a + b.drop_last());
        assert((a + b).last() == b.last());
        assert(flattened(a + b) =~= flattened(a) + flattened(b));
    }
}

/// A text in the colour of a severity, before it is written.
pub open spec fn primary_text(severity: Severity, text: Seq<char>) -> ColoredString {
    match severity {
        Severity::Error => bright_red_text(text),
        Severity::Warning => bright_yellow_text(text),
    }
}

/// The text in the colour of a severity: bright red for an error, bright
/// yellow for a warning.
pub fn primary(severity: Severity, text: &str) -> (colored: ColoredString)
    ensures
        colored == primary_text(severity, text@),
        colored_text(colored) == text@,
{
    match severity {
        Severity::Error => bright_red(text),
        Severity::Warning => bright_yellow(text),
    }
}

/// A text that is written as what painting gives holds the text, unless
/// the text holds the escape character.
pub proof fn lemma_written_holds(text: Seq<char>, written: Seq<char>)
    requires
        written_as(text, written),
        !text.contains(escape()),
    ensures
        holds(written, text),
{
    if written == text {
        let before = Seq::<char>::empty();
        assert(written =~= (before + text) + Seq::<char>::empty());
    } else {
        let style = choose|style: Seq<char>|
            (style.len() == 0 || is_style_sequence(style)) && written == #[trigger] (style + text)
                + reset_sequence();
        assert(written == (style + text) + reset_sequence());
    }
}

/// What a text holds that is held in a larger text, the larger text holds
/// too.
pub proof fn lemma_holds_within(whole: Seq<char>, middle: Seq<char>, part: Seq<char>)
    requires
        holds(whole, middle),
        holds(middle, part),
    ensures
        holds(whole, part),
{
    let (a, b) = choose|a: Seq<char>, b: Seq<char>| whole == #[trigger] ((a + middle) + b);
    let (c, d) = choose|c: Seq<char>, d: Seq<char>| middle == #[trigger] ((c + part) + d);
    assert(whole =~= ((a + c) + part) + (d + b));
}

/// Texts that are written one behind the other hold each of them.
pub proof fn lemma_flattened_holds(parts: Seq<Seq<char>>, k: int)
    requires
        0 <= k < parts.len(),
    ensures
        holds(flattened(parts), parts[k]),
    decreases parts.len(),
{
    if k == parts.len() - 1 {
        assert(flattened(parts) =~= (flattened(parts.drop_last()) + parts[k]) + Seq::<char>::empty());
    } else {
        lemma_flattened_holds(parts.drop_last(), k);
        let (a, b) = choose|a: Seq<char>, b: Seq<char>|
            flattened(parts.drop_last()) == #[trigger] ((a + parts[k]) + b);
        assert(flattened(parts) =~= (a + parts[k]) + (b + parts.last()));
    }
}

/// What is painted holds the text of every piece, highlighted or not,
/// unless the text holds the escape character.
pub proof fn lemma_painted_holds(pieces: Seq<PieceView>, painted: Seq<Seq<char>>, k: int)
    requires
        painted_as(pieces, painted),
        0 <= k < pieces.len(),
        !pieces[k].text.contains(escape()),
    ensures
        holds(flattened(painted), pieces[k].text),
{
    assert(painted_of(pieces[k], painted[k]));
    if pieces[k].style is Plain {
        assert(written_as(pieces[k].text, painted[k]));
    }
    lemma_written_holds(pieces[k].text, painted[k]);
    lemma_flattened_holds(painted, k);
    lemma_holds_within(flattened(painted), painted[k], pieces[k].text);
}

/// Behind codes and the letter `m` stands what follows them.
proof fn lemma_behind_codes(codes: Seq<char>, rest: Seq<char>)
    requires
        forall|i: int| 0 <= i < codes.len() ==> #[trigger] codes[i] != 'm',
    ensures
        behind_sequence(codes + seq!['m'] + rest) == rest,
    decreases codes.len(),
{
    let whole = codes + seq!['m'] + rest;
    if codes.len() == 0 {
        assert(whole[0] == 'm');
        assert(whole.drop_first() =~= rest);
    } else {
        assert(whole[0] == codes[0]);
        assert(whole.drop_first() =~= codes.drop_first() + seq!['m'] + rest);
        lemma_behind_codes(codes.drop_first(), rest);
    }
}

/// A text is read without an escape sequence for a style that stands in
/// front of it.
proof fn lemma_legible_behind_style(style: Seq<char>, rest: Seq<char>)
    requires
        is_style_sequence(style),
    ensures
        legible(style + rest) == legible(rest),
{
    let whole = style + rest;
    let codes = style.subrange(1, style.len() - 1);
    assert(whole[0] == escape());
    assert(whole.drop_first() =~= codes + seq!['m'] + rest);
    assert forall|i: int| 0 <= i < codes.len() implies #[trigger] codes[i] != 'm' by {
        if i > 0 {
            assert(is_code(style[i + 1]));
        }
    }
    lemma_behind_codes(codes, rest);
}

/// A text without the escape character is read as it is, and what follows
/// it is read behind it.
proof fn lemma_legible_behind_text(text: Seq<char>, rest: Seq<char>)
    requires
        !text.contains(escape()),
    ensures
        legible(text + rest) == text + legible(rest),
    decreases text.len(),
{
    let whole = text + rest;
    if text.len() == 0 {
        assert(whole =~= rest);
        assert(text + legible(rest) =~= legible(rest));
    } else {
        assert(text.contains(text[0]));
        assert(whole[0] == text[0]);
        assert(whole.drop_first() =~= text.drop_first() + rest);
        assert forall|i: int| 0 <= i < text.drop_first().len() implies text.drop_first()[i]
            != escape() by {
            assert(text.contains(text[i + 1]));
        }
        lemma_legible_behind_text(text.drop_first(), rest);
        assert(legible(whole) =~= text + legible(rest));
    }
}

/// What painting a piece gives is read as the text of the piece, and what
/// follows it is read behind it.
proof fn lemma_legible_behind_piece(piece: PieceView, painted: Seq<char>, rest: Seq<char>)
    requires
        painted_of(piece, painted),
        !piece.text.contains(escape()),
    ensures
        legible(painted + rest) == piece.text + legible(rest),
{
    if painted == piece.text {
        lemma_legible_behind_text(piece.text, rest);
    } else {
        let style = choose|style: Seq<char>|
            (style.len() == 0 || is_style_sequence(style)) && painted == #[trigger] (style
                + piece.text) + reset_sequence();
        assert(painted + rest =~= style + (piece.text + (reset_sequence() + rest)));
        if style.len() == 0 {
            assert(style + (piece.text + (reset_sequence() + rest)) =~= piece.text + (
            reset_sequence() + rest));
        } else {
            lemma_legible_behind_style(style, piece.text + (reset_sequence() + rest));
        }
        lemma_legible_behind_text(piece.text, reset_sequence() + rest);
        assert(is_style_sequence(reset_sequence()));
        lemma_legible_behind_style(reset_sequence(), rest);
    }
}

proof fn lemma_legible_painting(pieces: Seq<PieceView>, painted: Seq<Seq<char>>, rest: Seq<char>)
    requires
        painted_as(pieces, painted),
        free_of_escapes(pieces),
    ensures
        legible(flattened(painted) + rest) == plain_text(pieces) + legible(rest),
    decreases pieces.len(),
{
    if pieces.len() == 0 {
        assert(flattened(painted) + rest =~= rest);
        assert(plain_text(pieces) + legible(rest) =~= legible(rest));
    } else {
        let front = pieces.drop_last();
        let painted_front = painted.drop_last();
        assert(painted_as(front, painted_front)) by {
            assert forall|k: int| 0 <= k < front.len() implies painted_of(
                #[trigger] front[k],
                painted_front[k],
            ) by {
                assert(painted_of(pieces[k], painted[k]));
            }
        }
        assert(free_of_escapes(front)) by {
            assert forall|k: int| 0 <= k < front.len() implies !(#[trigger] front[k]).text.contains(
                escape(),
            ) by {
                assert(front[k] == pieces[k]);
            }
        }
        assert(painted_of(pieces[pieces.len() - 1], painted[pieces.len() - 1]));
        assert(flattened(painted) + rest =~= flattened(painted_front) + (painted.last() + rest));
        lemma_legible_painting(front, painted_front, painted.last() + rest);
        lemma_legible_behind_piece(pieces.last(), painted.last(), rest);
        assert(plain_text(front) + (pieces.last().text + legible(rest)) =~= plain_text(pieces)
            + legible(rest));
    }
}

/// Whatever the environment makes of the highlighting, what is written for
/// pieces reads as their plain text once the escape sequences are taken
/// out; so two writings of the same pieces read the same. The pieces hold
/// no escape character themselves.
pub proof fn lemma_written_reads_the_same(
    pieces: Seq<PieceView>,
    first: Seq<Seq<char>>,
    second: Seq<Seq<char>>,
)
    requires
        painted_as(pieces, first),
        painted_as(pieces, second),
        free_of_escapes(pieces),
    ensures
        legible(flattened(first)) == plain_text(pieces),
        legible(flattened(first)) == legible(flattened(second)),
{
    let empty = Seq::<char>::empty();
    lemma_legible_painting(pieces, first, empty);
    lemma_legible_painting(pieces, second, empty);
    assert(flattened(first) + empty =~= flattened(first));
    assert(flattened(second) + empty =~= flattened(second));
    assert(plain_text(pieces) + legible(empty) =~= plain_text(pieces));
}

/// What a text holds, the text holds too with more written in front of it
/// and behind it.
pub proof fn lemma_holds_among(front: Seq<char>, whole: Seq<char>, back: Seq<char>, part: Seq<char>)
    requires
        holds(whole, part),
    ensures
        holds(front + whole + back, part),
{
    let (a, b) = choose|a: Seq<char>, b: Seq<char>| whole == #[trigger] ((a + part) + b);
    assert(front + whole + back =~= ((front + a) + part) + (b + back));
}

/// The text written for a diagnostic names the severity of the diagnostic,
/// and holds its message unless the message holds the escape character:
/// whatever the environment makes of the highlighting.
pub proof fn lemma_diagnostic_is_legible(
    file_name: Seq<char>,
    text: Seq<char>,
    span: Span,
    description: Seq<char>,
    severity: Severity,
    painted: Seq<Seq<char>>,
)
    requires
        painted_as(layout(file_name, text, span, description, severity), painted),
    ensures
        holds(flattened(painted), title_text(severity)),
        !description.contains(escape()) ==> holds(flattened(painted), description),
{
    let pieces = layout(file_name, text, span, description, severity);
    assert(pieces[0].text == title_text(severity));
    assert(pieces[2].text == description);
    reveal_strlit("error");
    reveal_strlit("warning");
    assert(!title_text(severity).contains(escape()));
    lemma_painted_holds(pieces, painted, 0);
    if !description.contains(escape()) {
        lemma_painted_holds(pieces, painted, 2);
    }
}

/// A piece as text for a terminal. A plain piece is written as it is. Any
/// other is highlighted: its text stands in what is written, as it is or
/// between the escape sequence for its style and the sequence that ends
/// the style.
pub fn paint(piece: &Piece) -> (text: String)
    ensures
        painted_of(piece@, text@),
{
    let text = piece.text.as_str();
    match piece.style {
        Style::Plain => String::from_str(text),
        Style::Title(severity) => written(&bolder(primary(severity, text))),
        Style::Description => written(&bold(text)),
        Style::Arrow => written(&bolder(bright_blue(text))),
        Style::Path => written(&underline(text)),
        Style::Gutter => written(&bolder(bright_blue(text))),
        Style::Offending(severity) => written(&bolder(primary(severity, text))),
    }
}

/// Writes the pieces, one behind the other, to `out`.
pub fn paint_all(out: &mut String, pieces: &Vec<Piece>)
    ensures
        exists|painted: Seq<Seq<char>>|
            painted_as(piece_views(pieces@), painted) && final(out)@ == old(out)@ + flattened(
                painted,
            ),
{
    let ghost mut painted: Seq<Seq<char>> = Seq::empty();
    let mut i: usize = 0;
    proof {
        assert(out@ =~= old(out)@ + flattened(painted));
    }
    while i < pieces.len()
        invariant
            i <= pieces@.len(),
            painted.len() == i,
            forall|k: int|
                0 <= k < i ==> painted_of(#[trigger] piece_views(pieces@)[k], painted[k]),
            out@ == old(out)@ + flattened(painted),
        decreases pieces@.len() - i,
    {
        let text = paint(&pieces[i]);
        out.append(text.as_str());
        proof {
            let before = painted;
            painted = painted.push(text@);
            assert(painted.drop_last() =~= before);
            assert(out@ =~= old(out)@ + flattened(painted));
        }
        i += 1;
    }
    proof {
        assert(painted_as(piece_views(pieces@), painted));
    }
}

/// Writes a diagnostic to `f`, laid out against the text `text` of the
/// file `file_name`.
pub fn pretty_print(
    f: &mut String,
    file_name: &str,
    text: &SourceText,
    span: Span,
    description: &str,
    severity: Severity,
)
    requires
        text.well_formed(),
    ensures
        exists|painted: Seq<Seq<char>>|
            painted_as(layout(file_name@, text.chars@, span, description@, severity), painted)
                && final(f)@ == old(f)@ + flattened(painted),
{
    let pieces = text.layout_of(file_name, span, description, severity);
    paint_all(f, &pieces);
}

} // verus!
