use vstd::prelude::*;

verus! {

/// A struct with fields of several types, all scalar.
#[derive(Debug, Clone, Copy, PartialEq, Eq, Structural)]
pub struct Scalars {
    pub n: u32,
    pub id: u64,
    pub letter: char,
    pub toggle: bool,
}

pub fn new_scalars(n: u32, id: u64, letter: char, toggle: bool) -> (scalars: Scalars)
    ensures
        scalars == (Scalars { n, id, letter, toggle }),
{
    Scalars { n, id, letter, toggle }
}

/// The field `letter` of `params`.
pub fn get_letter(params: Scalars) -> (letter: char)
    ensures
        letter == params.letter,
{
    params.letter
}

} // verus!
