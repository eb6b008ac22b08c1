//! The raw file record, whose times are system times, and its conversion to
//! the record that queries run over.

use crate::calendar::readable;
use crate::file::{File, Timestamp};
use core::cmp::Ordering;
use vstd::prelude::*;

verus! {

/// A system time: whole seconds since the Unix epoch, and the nanoseconds
/// past them.
#[derive(Debug, Clone, Copy, PartialEq, Eq, Structural)]
pub struct UnixTime {
    pub secs: i64,
    pub nanos: u32,
}

impl UnixTime {
    /// How `self` stands to `other`: by the seconds, then by the nanoseconds.
    pub open spec fn time_order(self, other: UnixTime) -> Ordering {
        if self.secs < other.secs {
            Ordering::Less
        } else if self.secs > other.secs {
            Ordering::Greater
        } else if self.nanos < other.nanos {
            Ordering::Less
        } else if self.nanos > other.nanos {
            Ordering::Greater
        } else {
            Ordering::Equal
        }
    }

    /// How `self` stands to `other`.
    pub fn order(&self, other: &UnixTime) -> (o: Ordering)
        ensures
            o == self.time_order(*other),
    {
        if self.secs < other.secs {
            Ordering::Less
        } else if self.secs > other.secs {
            Ordering::Greater
        } else if self.nanos < other.nanos {
            Ordering::Less
        } else if self.nanos > other.nanos {
            Ordering::Greater
        } else {
            Ordering::Equal
        }
    }

    /// Whether the system time can be read on a clock.
    pub open spec fn is_readable(self) -> bool {
        readable(self.secs, self.nanos)
    }

    /// The system time on the local clock. There is a timestamp exactly where
    /// the system time is readable; it is of the same instant, and its fields
    /// are those of a date and a time of day.
    pub fn on_local_clock(&self) -> (shown: Option<Timestamp>)
        ensures
            shown is Some <==> self.is_readable(),
            shown matches Some(t) ==> t.wf() && t.secs == self.secs && t.nanos == self.nanos,
    {
        Timestamp::from_unix(self.secs, self.nanos)
    }
}

/// One entry of a directory as the file system reports it: like `File`, with
/// its three times as system times.
#[derive(Debug, Clone, PartialEq, Eq)]
pub struct FileType {
    pub name: String,
    pub extension: String,
    pub size: u64,
    pub modified: UnixTime,
    pub accessed: UnixTime,
    pub created: UnixTime,
    pub file_type: String,
}

impl File {
    /// Whether `self` is the raw record `raw` with its times read on a clock:
    /// the same texts and size, and timestamps of the same instants.
    pub open spec fn shows(self, raw: FileType) -> bool {
        &&& self.name@ == raw.name@
        &&& self.extension@ == raw.extension@
        &&& self.size == raw.size
        &&& self.file_type@ == raw.file_type@
        &&& self.modified.wf() && self.modified.secs == raw.modified.secs && self.modified.nanos
            == raw.modified.nanos
        &&& self.accessed.wf() && self.accessed.secs == raw.accessed.secs && self.accessed.nanos
            == raw.accessed.nanos
        &&& self.created.wf() && self.created.secs == raw.created.secs && self.created.nanos
            == raw.created.nanos
    }

    /// The record for a raw record, with its times read on the local clock.
    /// There is one exactly where all three times are readable; it has the
    /// texts and the size of the raw record, and its timestamps are of the
    /// instants of the raw record's times.
    pub fn from_raw(raw: &FileType) -> (made: Option<File>)
        ensures
            made is Some <==> raw.modified.is_readable() && raw.accessed.is_readable()
                && raw.created.is_readable(),
            made matches Some(file) ==> file.shows(*raw),
    {
        let modified = match raw.modified.on_local_clock() {
            Some(t) => t,
            None => {
                return None;
            },
        };
        let accessed = match raw.accessed.on_local_clock() {
            Some(t) => t,
            None => {
                return None;
            },
        };
        let created = match raw.created.on_local_clock() {
            Some(t) => t,
            None => {
                return None;
            },
        };
        Some(
            File {
                name: raw.name.clone(),
                extension: raw.extension.clone(),
                size: raw.size,
                modified,
                accessed,
                created,
                file_type: raw.file_type.clone(),
            },
        )
    }
}

} // verus!
