use vstd::prelude::*;

verus! {

/// An object with a string as a member.
#[derive(Debug)]
pub struct StringParams2 {
    pub id: String,
}

/// An object with a nested array as a member.
#[derive(Debug)]
pub struct NestedArrays {
    pub matrix: Vec<Vec<i32>>,
}

} // verus!
