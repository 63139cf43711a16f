//! The span of years during which an item exists.

use vstd::prelude::*;

verus! {

/// An inclusive span of years `[start_year, end_year]`; an absent end year
/// means the item still exists.
///
/// Nothing requires `end_year >= start_year`: a span whose end lies before its
/// start simply contains no year.
#[derive(Clone, Copy, Debug, PartialEq, Eq, Structural)]
pub struct Timeline {
    pub start_year: u32,
    pub end_year: Option<u32>,
}

impl Timeline {
    /// Whether `year` lies inside the span.
    pub open spec fn contains(self, year: u32) -> bool {
        &&& self.start_year <= year
        &&& match self.end_year {
            Some(end) => year <= end,
            None => true,
        }
    }

    /// Whether the item exists in `year`.
    pub fn exists_at(&self, year: u32) -> (r: bool)
        ensures
            r == self.contains(year),
    {
        year >= self.start_year && match self.end_year {
            Some(end) => year <= end,
            None => true,
        }
    }
}

} // verus!
