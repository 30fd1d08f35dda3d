use vstd::prelude::*;
use vstd::string::*;

verus! {

/// Something that happens in a year.
#[derive(Debug)]
pub struct Event {
    pub name: String,
    pub year: u16,
}

/// An event in the making.
#[derive(Debug)]
pub struct EventBuilder {
    name: String,
    year: Option<u16>,
}

impl EventBuilder {
    /// The name that the event will have.
    pub closed spec fn name(&self) -> Seq<char> {
        self.name@
    }

    /// The year that the event will have, if one was given.
    pub closed spec fn year(&self) -> Option<u16> {
        self.year
    }

    pub fn new(name: String) -> (builder: Self)
        ensures
            builder.name() == name@,
            builder.year() is None,
    {
        Self { name, year: None }
    }

    pub fn with_year(&mut self, year: u16) -> (builder: &Self)
        ensures
            final(self).name() == old(self).name(),
            final(self).year() == Some(year),
            builder.name() == old(self).name(),
            builder.year() == Some(year),
    {
        self.year = Some(year);
        self
    }

    /// The event: in the year given, or in 2023 where none was given.
    pub fn build(self) -> (event: Event)
        ensures
            event.name@ == self.name(),
            event.year == match self.year() {
                Some(year) => year,
                None => 2023u16,
            },
    {
        Event {
            name: self.name,
            year: match self.year {
                Some(year) => year,
                None => 2023,
            },
        }
    }
}

impl Default for EventBuilder {
    fn default() -> (builder: Self)
        ensures
            builder.name() == Seq::<char>::empty(),
            builder.year() is None,
    {
        Self { name: String::new(), year: None }
    }
}

} // verus!
