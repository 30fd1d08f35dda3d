use crate::text::{padded_decimal, push_padded_decimal};
use vstd::prelude::*;
use vstd::string::*;

verus! {

/// A day of the calendar.
#[derive(Debug, Clone, Copy, PartialEq, Eq, Structural)]
pub struct Date {
    year: u16,
    month: u8,
    day: u8,
}

impl Date {
    /// The year.
    pub closed spec fn year(self) -> nat {
        self.year as nat
    }

    /// The month.
    pub closed spec fn month(self) -> nat {
        self.month as nat
    }

    /// The day.
    pub closed spec fn day(self) -> nat {
        self.day as nat
    }

    pub fn new(year: u16, month: u8, day: u8) -> (date: Self)
        ensures
            date.year() == year,
            date.month() == month,
            date.day() == day,
    {
        Self { year, month, day }
    }

    /// The date as day, month and year with slashes between them: day and
    /// month with two digits at least, the year with four.
    pub fn fmt_italian(&self) -> (text: String)
        ensures
            text@ == padded_decimal(self.day(), 2, '0') + seq!['/'] + padded_decimal(
                self.month(),
                2,
                '0',
            ) + seq!['/'] + padded_decimal(self.year(), 4, '0'),
    {
        let mut text = String::new();
        push_padded_decimal(&mut text, self.day as u64, 2, '0');
        text.push('/');
        push_padded_decimal(&mut text, self.month as u64, 2, '0');
        text.push('/');
        push_padded_decimal(&mut text, self.year as u64, 4, '0');
        proof {
            assert(text@ =~= padded_decimal(self.day(), 2, '0') + seq!['/'] + padded_decimal(
                self.month(),
                2,
                '0',
            ) + seq!['/'] + padded_decimal(self.year(), 4, '0'));
        }
        text
    }
}

} // verus!
