use vstd::prelude::*;

verus! {

/// When an event happens.
///
/// `StartEnd(start, end)` is a bounded range in seconds since the Unix epoch
/// (UTC); `WholeDay(day)` is an all-day marker, with the day counted from the
/// Unix epoch (day 0 is 1970-01-01, UTC).
#[derive(Clone, Copy, Debug, PartialEq, Eq, Structural)]
pub enum Duration {
    StartEnd(i64, i64),
    WholeDay(i64),
}

impl Duration {
    /// A time range is well formed when it does not end before it starts.
    pub open spec fn well_formed(self) -> bool {
        match self {
            Duration::StartEnd(start, end) => start <= end,
            Duration::WholeDay(_) => true,
        }
    }
}

/// A deliverable event, identified by a source-namespaced id
/// (`"<source>|<source-specific key>"`).
#[derive(Clone, Debug)]
pub struct EventWithId {
    pub summary: String,
    pub description: String,
    pub duration: Duration,
    pub id: String,
}

} // verus!
