use vstd::prelude::*;
use vstd::string::*;

use crate::clock::{epoch_day, epoch_day_of};
use crate::event::{Duration, EventWithId};
use crate::number::{parse_u32_range, u32_value};
use crate::pattern::{decimal, decimal_digits};
use crate::text::{chars_of, find_nth_field, nth_field};

verus! {

/// The name that namespaces this source's event ids.
pub const IDENTIFIER: &'static str = "netflix";

/// One row of the viewing activity: the title's link (`/title/<number>`),
/// its name, and the day it was watched (`<month>/<day>/<two-digit year>`).
#[derive(Clone, Debug)]
pub struct Item {
    pub link: String,
    pub title: String,
    pub date: String,
}

/// Field `k` of `s` split at `/`, read as a `u32`.
pub open spec fn u32_field(s: Seq<char>, k: nat) -> Option<u32> {
    match nth_field(s, '/', k) {
        Some(f) => u32_value(f),
        None => None,
    }
}

/// `netflix|<title number>|<date>`, if the link holds a title number.
pub open spec fn item_id(item: Item) -> Option<Seq<char>> {
    match u32_field(item.link@, 2) {
        Some(n) => Some(IDENTIFIER@ + "|"@ + decimal_digits(n as nat) + "|"@ + item.date@),
        None => None,
    }
}

/// The day (from the Unix epoch) that a `<month>/<day>/<yy>` text names, in
/// the years from 2000 on.
pub open spec fn watch_day(date: Seq<char>) -> Option<int> {
    match (u32_field(date, 0), u32_field(date, 1), u32_field(date, 2)) {
        (Some(m), Some(d), Some(y)) => if 2000 + y <= i32::MAX {
            epoch_day(2000 + y, m as int, d as int)
        } else {
            None
        },
        _ => None,
    }
}

fn u32_field_of(s: &Vec<char>, k: usize) -> (r: Option<u32>)
    ensures
        r == u32_field(s@, k as nat),
{
    match find_nth_field(s, '/', k) {
        Some((from, to)) => parse_u32_range(s, from, to),
        None => None,
    }
}

impl Item {
    pub fn id(&self) -> (r: Option<String>)
        ensures
            match r {
                Some(t) => item_id(*self) == Some(t@),
                None => item_id(*self) is None,
            },
    {
        let link = chars_of(self.link.as_str());
        match u32_field_of(&link, 2) {
            Some(n) => Some(
                String::from_str(IDENTIFIER).concat("|").concat(decimal(n as u64).as_str()).concat(
                    "|",
                ).concat(self.date.as_str()),
            ),
            None => None,
        }
    }
}

/// The all-day event of a viewing-activity row; `None` when the link holds
/// no title number or the date names no day.
pub fn item_event(item: &Item) -> (r: Option<EventWithId>)
    ensures
        match r {
            Some(e) => item_id(*item) == Some(e.id@) && match e.duration {
                Duration::WholeDay(d) => watch_day(item.date@) == Some(d as int),
                Duration::StartEnd(_, _) => false,
            } && e.summary@ == "[Netflix] "@ + item.title@
                && e.description@ == "[link] https://www.netflix.com"@ + item.link@
                + "\n[hash] "@ + e.id@,
            None => item_id(*item) is None || watch_day(item.date@) is None,
        },
{
    let id = match item.id() {
        Some(id) => id,
        None => {
            return None;
        },
    };
    let date = chars_of(item.date.as_str());
    let month = u32_field_of(&date, 0);
    let day = u32_field_of(&date, 1);
    let year = u32_field_of(&date, 2);
    let (m, d, y) = match (month, day, year) {
        (Some(m), Some(d), Some(y)) => (m, d, y),
        _ => {
            return None;
        },
    };
    if y > (i32::MAX - 2000) as u32 {
        return None;
    }
    let watched = match epoch_day_of(2000 + y as i32, m, d) {
        Some(w) => w,
        None => {
            return None;
        },
    };
    let summary = String::from_str("[Netflix] ").concat(item.title.as_str());
    let description = String::from_str("[link] https://www.netflix.com").concat(
        item.link.as_str(),
    ).concat("\n[hash] ").concat(id.as_str());
    Some(EventWithId { summary, description, duration: Duration::WholeDay(watched), id })
}

} // verus!
