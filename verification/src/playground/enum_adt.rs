use crate::text::{decimal, push_decimal};
use vstd::prelude::*;
use vstd::string::*;

verus! {

/// A result that is a number or an error message.
#[derive(Debug)]
pub enum Either {
    Success(i32),
    Failure(String),
}

/// What an [`Either`] holds.
pub ghost enum EitherView {
    Success(i32),
    Failure(Seq<char>),
}

impl View for Either {
    type V = EitherView;

    open spec fn view(&self) -> EitherView {
        match self {
            Either::Success(value) => EitherView::Success(*value),
            Either::Failure(message) => EitherView::Failure(message@),
        }
    }
}

/// A number in decimal, with a minus sign in front of it if it is negative.
pub open spec fn signed_decimal(value: int) -> Seq<char> {
    if value < 0 {
        seq!['-'] + decimal((-value) as nat)
    } else {
        decimal(value as nat)
    }
}

/// A result as text: `Ok` or `Err`, with the content in brackets.
pub open spec fn either_text(either: EitherView) -> Seq<char> {
    match either {
        EitherView::Success(value) => "Ok("@ + signed_decimal(value as int) + ")"@,
        EitherView::Failure(message) => "Err("@ + message + ")"@,
    }
}

impl Either {
    /// The result as text: `Ok` or `Err`, with the content in brackets.
    pub fn to_text(&self) -> (text: String)
        ensures
            text@ == either_text(self@),
    {
        match self {
            Either::Success(ok) => {
                let mut text = String::from_str("Ok(");
                let value: i64 = *ok as i64;
                if value < 0 {
                    text.push('-');
                    push_decimal(&mut text, (0 - value) as u64);
                } else {
                    push_decimal(&mut text, value as u64);
                }
                text.append(")");
                proof {
                    assert(text@ =~= either_text(self@));
                }
                text
            },
            Either::Failure(err) => {
                let mut text = String::from_str("Err(");
                text.append(err.as_str());
                text.append(")");
                text
            },
        }
    }

    /// The result as text.
    pub fn to_string_method(self) -> (text: String)
        ensures
            text@ == either_text(self@),
    {
        self.to_text()
    }
}

/// The result as text.
pub fn either_to_string(either: Either) -> (text: String)
    ensures
        text@ == either_text(either@),
{
    either.to_text()
}

pub fn either_ok(ok: i32) -> (either: Either)
    ensures
        either@ == EitherView::Success(ok),
{
    Either::Success(ok)
}

pub fn either_err(err: String) -> (either: Either)
    ensures
        either@ == EitherView::Failure(err@),
{
    Either::Failure(err)
}

} // verus!
