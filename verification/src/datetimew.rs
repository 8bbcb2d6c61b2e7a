//! The instant type used throughout the library.

use vstd::prelude::*;

verus! {

/// An absolute point in time with second resolution.
///
/// A value counts the seconds since an arbitrary fixed epoch; rendering it in
/// the textual pattern `YYYY-MM-DDTHH:MM:SS` (and parsing that pattern) is the
/// presentation layer's business, not this library's. The mathematical view of
/// a `DateTimeW` is that signed count as an `int`.
#[derive(Clone, Copy, Debug, PartialEq, Eq, Structural)]
pub struct DateTimeW {
    /// Seconds since the epoch.
    pub seconds: i64,
}

impl View for DateTimeW {
    type V = int;

    open spec fn view(&self) -> int {
        self.seconds as int
    }
}

impl DateTimeW {
    /// Builds the instant that lies `seconds` seconds after the epoch.
    pub fn new(seconds: i64) -> (r: DateTimeW)
        ensures
            r@ == seconds as int,
    {
        DateTimeW { seconds }
    }

    /// True when `self` is no later than `other`.
    pub fn is_no_later_than(&self, other: &DateTimeW) -> (r: bool)
        ensures
            r == (self@ <= other@),
    {
        self.seconds <= other.seconds
    }
}

} // verus!
