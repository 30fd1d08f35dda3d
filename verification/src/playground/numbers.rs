use vstd::prelude::*;
use vstd::string::*;

verus! {

pub fn inc_biguint(x: u64) -> (next: u64)
    requires
        x < u64::MAX,
    ensures
        next == x + 1,
{
    x + 1
}

pub fn inc_uint(x: u32) -> (next: u32)
    requires
        x < u32::MAX,
    ensures
        next == x + 1,
{
    x + 1
}

pub fn inc_int(x: i32) -> (next: i32)
    requires
        x < i32::MAX,
    ensures
        next == x + 1,
{
    x + 1
}

pub fn inc_byte(x: u8) -> (next: u8)
    requires
        x < u8::MAX,
    ensures
        next == x + 1,
{
    x + 1
}

/// The next number, where there is a number.
pub fn inc_int_maybe(x: Option<i32>) -> (next: Option<i32>)
    requires
        x matches Some(value) ==> value < i32::MAX,
    ensures
        match x {
            Some(value) => next == Some((value + 1) as i32),
            None => next is None,
        },
{
    match x {
        Some(value) => Some(value + 1),
        None => None,
    }
}

/// The next number, or an error where there is no number.
pub fn inc_int_or_fail(x: Option<i32>) -> (next: Result<i32, String>)
    requires
        x matches Some(value) ==> value < i32::MAX,
    ensures
        match x {
            Some(value) => next == Ok::<i32, String>((value + 1) as i32),
            None => next matches Err(message) && message@ == "No value provided"@,
        },
{
    match x {
        Some(value) => Ok(value + 1),
        None => Err(String::from_str("No value provided")),
    }
}

} // verus!
