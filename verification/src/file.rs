//! The file record that queries run over, and its timestamps.

use core::cmp::Ordering;
use vstd::prelude::*;
use vstd::std_specs::cmp::{PartialEqSpecImpl, PartialOrdSpecImpl};

verus! {

/// A point in time together with its calendar reading in the time zone in
/// which it was taken.
///
/// `secs` and `nanos` fix the instant: whole seconds since the Unix epoch and
/// the nanoseconds past them. Two timestamps are equal, or ordered, by their
/// instants alone. The six calendar fields say how the instant reads on a wall
/// clock; time-based grouping works on them.
#[derive(Debug, Clone, Copy)]
pub struct Timestamp {
    pub secs: i64,
    pub nanos: u32,
    pub year: i32,
    pub month: u32,
    pub day: u32,
    pub hour: u32,
    pub minute: u32,
    pub second: u32,
}

impl Timestamp {
    /// The calendar fields are those of a date and a time of day.
    pub open spec fn wf(self) -> bool {
        &&& 1 <= self.month <= 12
        &&& 1 <= self.day <= 31
        &&& self.hour <= 23
        &&& self.minute <= 59
        &&& self.second <= 59
    }

    /// How the instant of `self` stands to that of `other`.
    pub open spec fn instant_order(self, other: Timestamp) -> Ordering {
        if self.secs < other.secs {
            Ordering::Less
        } else if self.secs > other.secs {
            Ordering::Greater
        } else if self.nanos < other.nanos {
            Ordering::Less
        } else if self.nanos > other.nanos {
            Ordering::Greater
        } else {
            Ordering::Equal
        }
    }

    /// Whether the fields are those of a date and a time of day.
    pub fn is_valid(&self) -> (valid: bool)
        ensures
            valid == self.wf(),
    {
        1 <= self.month && self.month <= 12 && 1 <= self.day && self.day <= 31 && self.hour <= 23
            && self.minute <= 59 && self.second <= 59
    }

    /// How the instant of `self` stands to that of `other`.
    pub fn order(&self, other: &Timestamp) -> (o: Ordering)
        ensures
            o == self.instant_order(*other),
    {
        if self.secs < other.secs {
            Ordering::Less
        } else if self.secs > other.secs {
            Ordering::Greater
        } else if self.nanos < other.nanos {
            Ordering::Less
        } else if self.nanos > other.nanos {
            Ordering::Greater
        } else {
            Ordering::Equal
        }
    }
}

impl PartialEq for Timestamp {
    fn eq(&self, other: &Timestamp) -> (same: bool) {
        self.secs == other.secs && self.nanos == other.nanos
    }
}

impl PartialEqSpecImpl for Timestamp {
    open spec fn obeys_eq_spec() -> bool {
        true
    }

    open spec fn eq_spec(&self, other: &Timestamp) -> bool {
        self.secs == other.secs && self.nanos == other.nanos
    }
}

impl Eq for Timestamp {

}

impl PartialOrd for Timestamp {
    fn partial_cmp(&self, other: &Timestamp) -> (o: Option<Ordering>) {
        Some(self.order(other))
    }
}

impl PartialOrdSpecImpl for Timestamp {
    open spec fn obeys_partial_cmp_spec() -> bool {
        true
    }

    open spec fn partial_cmp_spec(&self, other: &Timestamp) -> Option<Ordering> {
        Some(self.instant_order(*other))
    }
}

/// One entry of a directory: its name, what follows the last dot of the name
/// (empty when there is none), its size in bytes, its three timestamps, and
/// the tag `"File"` or `"Directory"`.
#[derive(Debug, Clone, PartialEq, Eq)]
pub struct File {
    pub name: String,
    pub extension: String,
    pub size: u64,
    pub modified: Timestamp,
    pub accessed: Timestamp,
    pub created: Timestamp,
    pub file_type: String,
}

} // verus!
