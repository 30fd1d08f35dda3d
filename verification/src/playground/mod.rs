//! Small values and functions of the kind that cross the boundary to a host
//! language: numbers, a closed set of providers, dates and events.

pub mod date;
pub mod enum_adt;
pub mod enum_c;
pub mod map;
pub mod event;
pub mod numbers;
pub mod scalars;
pub mod unsupported;

pub use numbers::{inc_biguint, inc_byte, inc_int, inc_int_maybe, inc_int_or_fail, inc_uint};
