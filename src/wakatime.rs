use vstd::prelude::*;
use vstd::string::*;

use crate::event::{Duration, EventWithId};

verus! {

/// The name that namespaces this source's event ids.
pub const IDENTIFIER: &'static str = "wakatime";

/// One coding span of the day's durations.
#[derive(Clone, Debug)]
pub struct Item {
    pub project: String,
    /// When the span started, in whole seconds since the Unix epoch.
    pub start: i64,
    /// How long it lasted, in whole seconds.
    pub duration: i64,
    /// The span's start time exactly as the response wrote it.
    pub time_text: String,
}

/// `wakatime|<start time as written>`.
pub open spec fn item_id(item: Item) -> Seq<char> {
    IDENTIFIER@ + "|"@ + item.time_text@
}

impl Item {
    pub fn id(&self) -> (r: String)
        ensures
            r@ == item_id(*self),
    {
        String::from_str(IDENTIFIER).concat("|").concat(self.time_text.as_str())
    }
}

/// The event of a coding span; `None` when its end lies beyond the range of
/// `i64` seconds.
pub fn item_event(item: &Item) -> (r: Option<EventWithId>)
    ensures
        ({
            let end = item.start + item.duration;
            match r {
                Some(e) => i64::MIN <= end <= i64::MAX && e.duration == Duration::StartEnd(
                    item.start,
                    end as i64,
                ) && e.id@ == item_id(*item) && e.summary@ == "[Wakatime] "@ + item.project@
                    && e.description@ == "[link] https://wakatime.com/projects/"@ + item.project@,
                None => !(i64::MIN <= end <= i64::MAX),
            }
        }),
{
    let end: i128 = item.start as i128 + item.duration as i128;
    if end < i64::MIN as i128 || end > i64::MAX as i128 {
        return None;
    }
    let summary = String::from_str("[Wakatime] ").concat(item.project.as_str());
    let description = String::from_str("[link] https://wakatime.com/projects/").concat(
        item.project.as_str(),
    );
    Some(
        EventWithId {
            summary,
            description,
            duration: Duration::StartEnd(item.start, end as i64),
            id: item.id(),
        },
    )
}

} // verus!
