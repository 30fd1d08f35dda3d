//! Text as a sequence of characters with byte offsets: the measure of a
//! character in UTF-8, comparison and search on strings, and decimal numbers.

use crate::span::Span;
use vstd::prelude::*;
use vstd::std_specs::iter::IteratorSpec;
use vstd::string::*;
use vstd::utf8::*;

verus! {

/// `String::push` of the standard library: the character is appended, and
/// nothing else about the string changes.
pub assume_specification[ String::push ](s: &mut String, c: char)
    ensures
        final(s)@ == old(s)@.push(c),
;

/// Whether a character is white space: the characters with the property
/// `White_Space` of Unicode.
pub open spec fn is_white_space(c: char) -> bool {
    ('\u{9}' <= c && c <= '\u{d}') || c == ' ' || c == '\u{85}' || c == '\u{a0}' || c
        == '\u{1680}' || ('\u{2000}' <= c && c <= '\u{200a}') || c == '\u{2028}' || c
        == '\u{2029}' || c == '\u{202f}' || c == '\u{205f}' || c == '\u{3000}'
}

/// The first index from `i` on that holds no white space.
pub open spec fn white_space_end(text: Seq<char>, i: int) -> int
    decreases text.len() - i,
{
    if 0 <= i < text.len() && is_white_space(text[i]) {
        white_space_end(text, i + 1)
    } else {
        i
    }
}

/// The index behind the last of the first `n` characters that is no white
/// space; zero where all of them are white space.
pub open spec fn last_word_end(text: Seq<char>, n: int) -> int
    decreases n,
{
    if n <= 0 || n > text.len() {
        0
    } else if is_white_space(text[n - 1]) {
        last_word_end(text, n - 1)
    } else {
        n
    }
}

/// A text without its leading and trailing white space.
pub open spec fn trimmed(text: Seq<char>) -> Seq<char> {
    let from = white_space_end(text, 0);
    let to = last_word_end(text, text.len() as int);
    if from < to {
        text.subrange(from, to)
    } else {
        Seq::empty()
    }
}

/// Nothing is left of a text once it is trimmed if and only if the text
/// holds white space only; so nothing is left of the empty text.
pub proof fn lemma_trimmed_to_nothing(text: Seq<char>)
    ensures
        trimmed(text).len() == 0 <==> forall|i: int|
            0 <= i < text.len() ==> is_white_space(#[trigger] text[i]),
{
    lemma_white_space_end(text, 0);
    lemma_last_word_end(text, text.len() as int);
    let from = white_space_end(text, 0);
    let to = last_word_end(text, text.len() as int);
    if from < to {
        assert(trimmed(text).len() == to - from);
        assert(!is_white_space(text[from]));
    } else {
        if from < text.len() {
            assert(!is_white_space(text[from]));
            assert(to > from);
        }
    }
}

proof fn lemma_white_space_end(text: Seq<char>, i: int)
    requires
        0 <= i <= text.len(),
    ensures
        i <= white_space_end(text, i) <= text.len(),
        forall|k: int| i <= k < white_space_end(text, i) ==> is_white_space(#[trigger] text[k]),
        white_space_end(text, i) < text.len() ==> !is_white_space(text[white_space_end(text, i)]),
    decreases text.len() - i,
{
    if i < text.len() && is_white_space(text[i]) {
        lemma_white_space_end(text, i + 1);
    }
}

proof fn lemma_last_word_end(text: Seq<char>, n: int)
    requires
        0 <= n <= text.len(),
    ensures
        0 <= last_word_end(text, n) <= n,
        forall|k: int| last_word_end(text, n) <= k < n ==> is_white_space(#[trigger] text[k]),
        last_word_end(text, n) > 0 ==> !is_white_space(text[last_word_end(text, n) - 1]),
    decreases n,
{
    if n > 0 && is_white_space(text[n - 1]) {
        lemma_last_word_end(text, n - 1);
    }
}

/// `str::trim` of the standard library: the text without its leading and
/// trailing white space, where white space is what has the property
/// `White_Space` of Unicode.
#[verifier::external_body]
pub(crate) fn trim(text: &str) -> (rest: &str)
    ensures
        rest@ == trimmed(text@),
{
    text.trim()
}

/// The number of bytes that a character takes in UTF-8.
pub open spec fn char_width(c: char) -> nat {
    if (c as u32) < 0x80 {
        1
    } else if (c as u32) < 0x800 {
        2
    } else if (c as u32) < 0x10000 {
        3
    } else {
        4
    }
}

/// The number of bytes that a text takes in UTF-8.
pub open spec fn utf8_len(chars: Seq<char>) -> nat
    decreases chars.len(),
{
    if chars.len() == 0 {
        0
    } else {
        utf8_len(chars.drop_last()) + char_width(chars.last())
    }
}

/// The byte offset of the character at index `i` of a text.
pub open spec fn byte_offset(chars: Seq<char>, i: int) -> nat {
    utf8_len(chars.take(i))
}

/// The byte range of the characters from index `from` up to index `to`.
pub open spec fn byte_span(chars: Seq<char>, from: int, to: int) -> Span {
    Span { start: byte_offset(chars, from) as usize, end: byte_offset(chars, to) as usize }
}

proof fn lemma_encode_push(chars: Seq<char>, c: char)
    ensures
        encode_utf8(chars.push(c)) == encode_utf8(chars) + encode_scalar(c as u32),
    decreases chars.len(),
{
    if chars.len() == 0 {
        assert(chars.push(c).drop_first() =~= Seq::<char>::empty());
        assert(encode_utf8(chars.push(c)) =~= encode_scalar(c as u32) + encode_utf8(
            Seq::<char>::empty(),
        ));
        assert(encode_utf8(chars.push(c)) =~= encode_utf8(chars) + encode_scalar(c as u32));
    } else {
        lemma_encode_push(chars.drop_first(), c);
        assert(chars.push(c).drop_first() =~= chars.drop_first().push(c));
        assert(encode_utf8(chars.push(c)) =~= encode_utf8(chars) + encode_scalar(c as u32));
    }
}

/// The measure of a text is the length of its UTF-8 encoding.
pub proof fn lemma_utf8_len_encoded(chars: Seq<char>)
    ensures
        utf8_len(chars) == encode_utf8(chars).len(),
    decreases chars.len(),
{
    if chars.len() > 0 {
        lemma_utf8_len_encoded(chars.drop_last());
        lemma_encode_push(chars.drop_last(), chars.last());
        assert(chars.drop_last().push(chars.last()) =~= chars);
        char_is_scalar(chars.last());
    }
}

/// Byte offsets grow with the index, by at least one byte for each character.
pub proof fn lemma_byte_offset_grows(chars: Seq<char>, i: int, j: int)
    requires
        0 <= i <= j <= chars.len(),
    ensures
        byte_offset(chars, i) + (j - i) <= byte_offset(chars, j),
    decreases j - i,
{
    if i < j {
        lemma_byte_offset_grows(chars, i, j - 1);
        assert(chars.take(j).drop_last() =~= chars.take(j - 1));
    }
}

/// The offset behind a character is the offset before it plus its width.
pub proof fn lemma_byte_offset_step(chars: Seq<char>, i: int)
    requires
        0 <= i < chars.len(),
    ensures
        byte_offset(chars, i + 1) == byte_offset(chars, i) + char_width(chars[i]),
{
    assert(chars.take(i + 1).drop_last() =~= chars.take(i));
}

/// In a text that fits the machine, the byte ranges of two stretches of
/// characters, one behind the other, follow one another.
pub proof fn lemma_spans_follow(chars: Seq<char>, a: int, b: int, c: int, d: int)
    requires
        0 <= a <= b <= c <= d <= chars.len(),
        utf8_len(chars) <= usize::MAX,
    ensures
        byte_span(chars, a, b).well_formed(),
        byte_span(chars, c, d).well_formed(),
        byte_span(chars, a, b).end <= byte_span(chars, c, d).start,
{
    lemma_byte_offset_grows(chars, a, b);
    lemma_byte_offset_grows(chars, b, c);
    lemma_byte_offset_grows(chars, c, d);
    lemma_byte_offset_grows(chars, d, chars.len() as int);
    assert(chars.take(chars.len() as int) =~= chars);
}

/// The number of bytes that `c` takes in UTF-8.
pub fn width_of(c: char) -> (width: usize)
    ensures
        width == char_width(c),
{
    let code: u32 = c as u32;
    if code < 0x80 {
        1
    } else if code < 0x800 {
        2
    } else if code < 0x10000 {
        3
    } else {
        4
    }
}

/// A text held character by character, with the byte offset of each.
pub struct SourceText {
    pub chars: Vec<char>,
    pub offsets: Vec<usize>,
}

impl SourceText {
    /// There is one offset for each character and one for the end of the
    /// text, and each is the length in bytes of what stands before it.
    pub open spec fn well_formed(&self) -> bool {
        &&& utf8_len(self.chars@) <= usize::MAX
        &&& self.offsets@.len() == self.chars@.len() + 1
        &&& forall|i: int|
            0 <= i <= self.chars@.len() ==> (#[trigger] self.offsets@[i]) as nat == byte_offset(
                self.chars@,
                i,
            )
    }

    pub fn new(text: &str) -> (source: SourceText)
        ensures
            source.well_formed(),
            source.chars@ == text@,
    {
        let total: usize = text.as_bytes().len();
        let mut chars: Vec<char> = Vec::new();
        let mut offsets: Vec<usize> = Vec::new();
        let mut offset: usize = 0;
        proof {
            lemma_utf8_len_encoded(text@);
            assert(text@.take(0) =~= Seq::<char>::empty());
        }
        for c in it: text.chars()
            invariant
                it.seq() == text@,
                total as nat == utf8_len(text@),
                chars@ == text@.take(it.index() as int),
                offsets@.len() == chars@.len(),
                offset as nat == byte_offset(text@, it.index() as int),
                forall|i: int|
                    0 <= i < offsets@.len() ==> (#[trigger] offsets@[i]) as nat == byte_offset(
                        text@,
                        i,
                    ),
        {
            proof {
                let i = it.index() as int;
                lemma_byte_offset_step(text@, i);
                lemma_byte_offset_grows(text@, i + 1, text@.len() as int);
                assert(text@.take(text@.len() as int) =~= text@);
                assert(text@.take(i + 1) =~= text@.take(i).push(c));
            }
            chars.push(c);
            offsets.push(offset);
            offset = offset + width_of(c);
        }
        offsets.push(offset);
        proof {
            assert(text@.take(text@.len() as int) =~= text@);
            assert forall|i: int| 0 <= i <= chars@.len() implies (#[trigger] offsets@[i]) as nat
                == byte_offset(chars@, i) by {
                assert(chars@.take(i) =~= text@.take(i));
            }
        }
        SourceText { chars, offsets }
    }

    /// The number of characters.
    pub fn len(&self) -> (n: usize)
        ensures
            n == self.chars@.len(),
    {
        self.chars.len()
    }

    /// The byte offset of the character at `index`, or of the end of the text.
    pub fn offset(&self, index: usize) -> (offset: usize)
        requires
            self.well_formed(),
            index <= self.chars@.len(),
        ensures
            offset as nat == byte_offset(self.chars@, index as int),
    {
        self.offsets[index]
    }

    /// The byte range of the characters from `from` up to `to`.
    pub fn span(&self, from: usize, to: usize) -> (span: Span)
        requires
            self.well_formed(),
            from <= to <= self.chars@.len(),
        ensures
            span == byte_span(self.chars@, from as int, to as int),
            span.well_formed(),
    {
        proof {
            lemma_byte_offset_grows(self.chars@, from as int, to as int);
        }
        Span { start: self.offsets[from], end: self.offsets[to] }
    }

    /// The characters from `from` up to `to`, as a string.
    pub fn slice(&self, from: usize, to: usize) -> (s: String)
        requires
            from <= to <= self.chars@.len(),
        ensures
            s@ == self.chars@.subrange(from as int, to as int),
    {
        string_of(&self.chars, from, to)
    }
}

/// The characters of `chars` from `from` up to `to`, as a string.
pub fn string_of(chars: &Vec<char>, from: usize, to: usize) -> (s: String)
    requires
        from <= to <= chars@.len(),
    ensures
        s@ == chars@.subrange(from as int, to as int),
{
    let mut s = String::new();
    let mut i = from;
    while i < to
        invariant
            from <= i <= to <= chars@.len(),
            s@ == chars@.subrange(from as int, i as int),
        decreases to - i,
    {
        s.push(chars[i]);
        proof {
            assert(chars@.subrange(from as int, i + 1) =~= chars@.subrange(
                from as int,
                i as int,
            ).push(chars@[i as int]));
        }
        i += 1;
    }
    s
}

/// Do the two strings hold the same characters?
pub fn str_eq(a: &str, b: &str) -> (same: bool)
    ensures
        same == (a@ == b@),
{
    let x = a.as_bytes();
    let y = b.as_bytes();
    proof {
        encode_utf8_decode_utf8(a@);
        encode_utf8_decode_utf8(b@);
    }
    if x.len() != y.len() {
        return false;
    }
    let mut i: usize = 0;
    while i < x.len()
        invariant
            x@ == encode_utf8(a@),
            y@ == encode_utf8(b@),
            x@.len() == y@.len(),
            i <= x@.len(),
            x@.subrange(0, i as int) == y@.subrange(0, i as int),
        decreases x@.len() - i,
    {
        if x[i] != y[i] {
            assert(x@[i as int] != y@[i as int]);
            return false;
        }
        proof {
            assert(x@.subrange(0, i + 1) =~= x@.subrange(0, i as int).push(x@[i as int]));
            assert(y@.subrange(0, i + 1) =~= y@.subrange(0, i as int).push(y@[i as int]));
        }
        i += 1;
    }
    proof {
        assert(x@ =~= x@.subrange(0, i as int));
        assert(y@ =~= y@.subrange(0, i as int));
    }
    true
}

/// Does `text` begin with the characters of `prefix`?
pub fn starts_with(text: &str, prefix: &str) -> (found: bool)
    ensures
        found == prefix@.is_prefix_of(text@),
{
    let n = prefix.unicode_len();
    if text.unicode_len() < n {
        return false;
    }
    let mut i: usize = 0;
    while i < n
        invariant
            n == prefix@.len(),
            n <= text@.len(),
            i <= n,
            forall|k: int| 0 <= k < i ==> text@[k] == prefix@[k],
        decreases n - i,
    {
        if text.get_char(i) != prefix.get_char(i) {
            return false;
        }
        i += 1;
    }
    proof {
        assert(text@.subrange(0, n as int) =~= prefix@);
    }
    true
}

/// The character of a decimal digit.
pub open spec fn digit_char(d: nat) -> char {
    if d == 0 {
        '0'
    } else if d == 1 {
        '1'
    } else if d == 2 {
        '2'
    } else if d == 3 {
        '3'
    } else if d == 4 {
        '4'
    } else if d == 5 {
        '5'
    } else if d == 6 {
        '6'
    } else if d == 7 {
        '7'
    } else if d == 8 {
        '8'
    } else {
        '9'
    }
}

/// A number in decimal, without leading zeros.
pub open spec fn decimal(n: nat) -> Seq<char>
    decreases n,
{
    if n < 10 {
        seq![digit_char(n)]
    } else {
        decimal(n / 10).push(digit_char(n % 10))
    }
}

/// `count` times the character `fill`.
pub open spec fn repeated(fill: char, count: nat) -> Seq<char> {
    Seq::new(count, |i: int| fill)
}

/// A number in decimal, filled on the left with `fill` up to `width`
/// characters.
pub open spec fn padded_decimal(n: nat, width: nat, fill: char) -> Seq<char> {
    if decimal(n).len() >= width {
        decimal(n)
    } else {
        repeated(fill, (width - decimal(n).len()) as nat) + decimal(n)
    }
}

fn digit_of(d: u64) -> (c: char)
    requires
        d < 10,
    ensures
        c == digit_char(d as nat),
{
    if d == 0 {
        '0'
    } else if d == 1 {
        '1'
    } else if d == 2 {
        '2'
    } else if d == 3 {
        '3'
    } else if d == 4 {
        '4'
    } else if d == 5 {
        '5'
    } else if d == 6 {
        '6'
    } else if d == 7 {
        '7'
    } else if d == 8 {
        '8'
    } else {
        '9'
    }
}

/// Appends `n` in decimal to `out`.
pub fn push_decimal(out: &mut String, n: u64)
    ensures
        final(out)@ == old(out)@ + decimal(n as nat),
    decreases n,
{
    if n >= 10 {
        push_decimal(out, n / 10);
    }
    out.push(digit_of(n % 10));
    proof {
        if n >= 10 {
            assert(final(out)@ =~= old(out)@ + decimal(n as nat));
        } else {
            assert(final(out)@ =~= old(out)@ + decimal(n as nat));
        }
    }
}

/// The number of characters of `n` in decimal.
pub fn decimal_len(n: u64) -> (len: usize)
    ensures
        len == decimal(n as nat).len(),
        1 <= len <= 20,
{
    let mut len: usize = 1;
    let mut rest: u64 = n;
    proof {
        lemma_decimal_len_bound(n as nat);
    }
    while rest >= 10
        invariant
            1 <= len,
            len + decimal(rest as nat).len() == decimal(n as nat).len() + 1,
            decimal(n as nat).len() <= 20,
            decimal(rest as nat).len() >= 1,
        decreases rest,
    {
        proof {
            lemma_decimal_len_bound((rest / 10) as nat);
        }
        rest = rest / 10;
        len = len + 1;
    }
    len
}

proof fn lemma_decimal_len_bound(n: nat)
    ensures
        decimal(n).len() >= 1,
        n < 10 ==> decimal(n).len() == 1,
        n <= u64::MAX ==> decimal(n).len() <= 20,
{
    reveal_with_fuel(decimal, 22);
}

/// Appends `n` in decimal to `out`, filled on the left with `fill` up to
/// `width` characters.
pub fn push_padded_decimal(out: &mut String, n: u64, width: usize, fill: char)
    ensures
        final(out)@ == old(out)@ + padded_decimal(n as nat, width as nat, fill),
{
    let len = decimal_len(n);
    let ghost before = out@;
    let mut count: usize = 0;
    if len < width {
        while count < width - len
            invariant
                len < width,
                count <= width - len,
                out@ == before + repeated(fill, count as nat),
            decreases width - len - count,
        {
            out.push(fill);
            count = count + 1;
            proof {
                assert(out@ =~= before + repeated(fill, count as nat));
            }
        }
    } else {
        proof {
            assert(out@ =~= before + repeated(fill, 0));
        }
    }
    let ghost middle = out@;
    push_decimal(out, n);
    proof {
        assert(out@ =~= before + padded_decimal(n as nat, width as nat, fill));
    }
}

/// The three texts, one behind the other.
pub fn concat3(a: &str, b: &str, c: &str) -> (s: String)
    ensures
        s@ == a@ + b@ + c@,
{
    let mut s = String::from_str(a);
    s.append(b);
    s.append(c);
    s
}

/// The five texts, one behind the other.
pub fn concat5(a: &str, b: &str, c: &str, d: &str, e: &str) -> (s: String)
    ensures
        s@ == a@ + b@ + c@ + d@ + e@,
{
    let mut s = concat3(a, b, c);
    s.append(d);
    s.append(e);
    s
}

/// The seven texts, one behind the other.
pub fn concat7(a: &str, b: &str, c: &str, d: &str, e: &str, f: &str, g: &str) -> (s: String)
    ensures
        s@ == a@ + b@ + c@ + d@ + e@ + f@ + g@,
{
    let mut s = concat5(a, b, c, d, e);
    s.append(f);
    s.append(g);
    s
}

/// `n` in decimal, as a string.
pub fn decimal_string(n: u64) -> (s: String)
    ensures
        s@ == decimal(n as nat),
{
    let mut s = String::new();
    push_decimal(&mut s, n);
    proof {
        assert(s@ =~= decimal(n as nat));
    }
    s
}

} // verus!
