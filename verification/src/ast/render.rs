//! Expressions written back as schema text.

use crate::ast::expression::{
    lemma_arguments_view, Argument, ArgumentView, Expression, ExpressionView,
};
use vstd::prelude::*;
use vstd::std_specs::iter::IteratorSpec;
use vstd::string::*;

verus! {

/// The character of a hexadecimal digit, in lower case.
pub open spec fn hex_char(d: nat) -> char {
    if d == 0 {
        '0'
    } else if d == 1 {
        '1'
    } else if d == 2 {
        '2'
    } else if d == 3 {
        '3'
    } else if d == 4 {
        '4'
    } else if d == 5 {
        '5'
    } else if d == 6 {
        '6'
    } else if d == 7 {
        '7'
    } else if d == 8 {
        '8'
    } else if d == 9 {
        '9'
    } else if d == 10 {
        'a'
    } else if d == 11 {
        'b'
    } else if d == 12 {
        'c'
    } else if d == 13 {
        'd'
    } else if d == 14 {
        'e'
    } else {
        'f'
    }
}

/// Whether the character is a control character of ASCII.
pub open spec fn is_ascii_control(c: char) -> bool {
    (c as u32) < 0x20 || c as u32 == 0x7f
}

/// How a character stands inside a string literal: the quote, the backslash
/// and the control characters are escaped.
pub open spec fn escape_char(c: char) -> Seq<char> {
    if c == '\t' {
        seq!['\\', 't']
    } else if c == '\n' {
        seq!['\\', 'n']
    } else if c == '"' {
        seq!['\\', '"']
    } else if c == '\r' {
        seq!['\\', 'r']
    } else if c == '\\' {
        seq!['\\', '\\']
    } else if is_ascii_control(c) {
        seq!['\\', 'u', '0', '0', hex_char((c as u32 / 16) as nat), hex_char((c as u32 % 16) as nat)]
    } else {
        seq![c]
    }
}

/// A text with each character as it stands inside a string literal.
pub open spec fn escaped(text: Seq<char>) -> Seq<char>
    decreases text.len(),
{
    if text.len() == 0 {
        Seq::empty()
    } else {
        escaped(text.drop_last()) + escape_char(text.last())
    }
}

/// A text as a string literal: escaped, between quotes.
pub open spec fn string_literal_text(text: Seq<char>) -> Seq<char> {
    seq!['"'] + escaped(text) + seq!['"']
}

/// An expression as schema text.
pub open spec fn rendered(expression: ExpressionView) -> Seq<char>
    decreases expression,
{
    match expression {
        ExpressionView::StringValue(value, _) => string_literal_text(value),
        ExpressionView::Function(name, arguments, _) => name + seq!['('] + rendered_arguments(
            arguments.arguments,
            arguments.arguments.len() as int,
        ) + seq![')'],
    }
}

/// An argument as schema text: its name and a colon, if it has a name, and
/// its value.
pub open spec fn rendered_argument(argument: ArgumentView) -> Seq<char>
    decreases argument,
{
    match argument.name {
        Some(name) => name.name + seq![':', ' '] + rendered(argument.value),
        None => rendered(argument.value),
    }
}

/// The first `n` of the arguments as schema text, with commas between them.
pub open spec fn rendered_arguments(arguments: Seq<ArgumentView>, n: int) -> Seq<char>
    decreases arguments, n,
{
    if n <= 0 || n > arguments.len() {
        Seq::empty()
    } else if n == 1 {
        rendered_argument(arguments[0])
    } else {
        rendered_arguments(arguments, n - 1) + seq![','] + rendered_argument(arguments[n - 1])
    }
}

fn hex_of(d: u32) -> (c: char)
    requires
        d < 16,
    ensures
        c == hex_char(d as nat),
{
    if d == 0 {
        '0'
    } else if d == 1 {
        '1'
    } else if d == 2 {
        '2'
    } else if d == 3 {
        '3'
    } else if d == 4 {
        '4'
    } else if d == 5 {
        '5'
    } else if d == 6 {
        '6'
    } else if d == 7 {
        '7'
    } else if d == 8 {
        '8'
    } else if d == 9 {
        '9'
    } else if d == 10 {
        'a'
    } else if d == 11 {
        'b'
    } else if d == 12 {
        'c'
    } else if d == 13 {
        'd'
    } else if d == 14 {
        'e'
    } else {
        'f'
    }
}

/// Appends `c` to `out` as it stands inside a string literal.
fn push_escaped(out: &mut String, c: char)
    ensures
        final(out)@ == old(out)@ + escape_char(c),
{
    let code: u32 = c as u32;
    if c == '\t' {
        out.push('\\');
        out.push('t');
    } else if c == '\n' {
        out.push('\\');
        out.push('n');
    } else if c == '"' {
        out.push('\\');
        out.push('"');
    } else if c == '\r' {
        out.push('\\');
        out.push('r');
    } else if c == '\\' {
        out.push('\\');
        out.push('\\');
    } else if code < 0x20 || code == 0x7f {
        out.push('\\');
        out.push('u');
        out.push('0');
        out.push('0');
        out.push(hex_of(code / 16));
        out.push(hex_of(code % 16));
    } else {
        out.push(c);
    }
    proof {
        assert(out@ =~= old(out)@ + escape_char(c));
    }
}

/// A text as a string literal: escaped, between quotes.
pub fn string_literal(text: &str) -> (literal: String)
    ensures
        literal@ == string_literal_text(text@),
{
    let mut out = String::new();
    out.push('"');
    proof {
        assert(text@.take(0) =~= Seq::<char>::empty());
        assert(out@ =~= seq!['"'] + escaped(text@.take(0)));
    }
    for c in it: text.chars()
        invariant
            it.seq() == text@,
            out@ == seq!['"'] + escaped(text@.take(it.index() as int)),
    {
        let ghost before = out@;
        push_escaped(&mut out, c);
        proof {
            let i = it.index() as int;
            assert(text@.take(i + 1).drop_last() =~= text@.take(i));
            assert(out@ =~= seq!['"'] + escaped(text@.take(i + 1)));
        }
    }
    out.push('"');
    proof {
        assert(text@.take(text@.len() as int) =~= text@);
    }
    out
}

impl Argument {
    /// The argument as schema text.
    pub fn render(&self) -> (text: String)
        ensures
            text@ == rendered_argument(self@),
        decreases self,
    {
        let value = self.value.render();
        match &self.name {
            Some(name) => {
                let mut out = name.name.clone();
                out.push(':');
                out.push(' ');
                out.append(value.as_str());
                proof {
                    assert(out@ =~= name.name@ + seq![':', ' '] + value@);
                }
                out
            },
            None => value,
        }
    }
}

impl Expression {
    /// The expression as schema text.
    pub fn render(&self) -> (text: String)
        ensures
            text@ == rendered(self@),
        decreases self,
    {
        match self {
            Expression::StringValue(value, _) => string_literal(value.as_str()),
            Expression::Function(name, arguments, _) => {
                let mut out = name.clone();
                out.push('(');
                let ghost list = arguments@.arguments;
                proof {
                    lemma_arguments_view(arguments);
                }
                let mut i: usize = 0;
                while i < arguments.arguments.len()
                    invariant
                        i <= arguments.arguments@.len(),
                        list.len() == arguments.arguments@.len(),
                        forall|k: int|
                            0 <= k < list.len() ==> (#[trigger] list[k]) == arguments.arguments@[k]@,
                        out@ == name@ + seq!['('] + rendered_arguments(list, i as int),
                        decreases_to!(self => arguments.arguments),
                    decreases arguments.arguments@.len() - i,
                {
                    if i > 0 {
                        out.push(',');
                    }
                    let argument = &arguments.arguments[i];
                    assert(decreases_to!(arguments.arguments => arguments.arguments[i as int]));
                    let piece = argument.render();
                    out.append(piece.as_str());
                    i += 1;
                    proof {
                        assert(out@ =~= name@ + seq!['('] + rendered_arguments(list, i as int));
                    }
                }
                out.push(')');
                out
            },
        }
    }
}

} // verus!
