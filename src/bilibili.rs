use vstd::prelude::*;
use vstd::string::*;

use crate::event::{Duration, EventWithId};
use crate::pattern::{signed, signed_decimal};

verus! {

/// The name that namespaces this source's event ids.
pub const IDENTIFIER: &'static str = "bilibili";

/// The part of a multi-part video that was watched.
#[derive(Clone, Copy, Debug, PartialEq, Eq, Structural)]
pub struct Page {
    pub page: i64,
    /// Length of the part, in seconds.
    pub duration: i64,
}

/// One entry of the watch history.
#[derive(Clone, Debug)]
pub struct Item {
    pub bvid: String,
    pub page: Option<Page>,
    /// Seconds watched, or -1 when the video was watched to the end.
    pub progress: i64,
    pub redirect_link: String,
    pub title: String,
    /// When watching started, in seconds since the Unix epoch.
    pub view_at: i64,
}

pub open spec fn page_number(page: Option<Page>) -> int {
    match page {
        None => 0,
        Some(p) => p.page as int,
    }
}

/// `bilibili|<bvid>|<part, or 0>|<view_at>`.
pub open spec fn item_id(item: Item) -> Seq<char> {
    IDENTIFIER@ + "|"@ + item.bvid@ + "|"@ + signed_decimal(page_number(item.page)) + "|"@
        + signed_decimal(item.view_at as int)
}

/// How long the entry was watched: its progress, or when it was watched to
/// the end the length of the part (ten seconds when there are no parts).
pub open spec fn watched_seconds(item: Item) -> int {
    if item.progress == -1 {
        match item.page {
            None => 10,
            Some(p) => p.duration as int,
        }
    } else {
        item.progress as int
    }
}

impl Item {
    pub fn id(&self) -> (r: String)
        ensures
            r@ == item_id(*self),
    {
        let page: i64 = match &self.page {
            None => 0,
            Some(p) => p.page,
        };
        String::from_str(IDENTIFIER).concat("|").concat(self.bvid.as_str()).concat("|").concat(
            signed(page).as_str(),
        ).concat("|").concat(signed(self.view_at).as_str())
    }
}

/// The event of a history entry; `None` when its end lies beyond the range
/// of `i64` seconds.
pub fn item_event(item: &Item) -> (r: Option<EventWithId>)
    ensures
        ({
            let end = item.view_at + watched_seconds(*item);
            match r {
                Some(e) => i64::MIN <= end <= i64::MAX && e.duration == Duration::StartEnd(
                    item.view_at,
                    end as i64,
                ) && e.id@ == item_id(*item) && e.summary@ == "[Bilibili] "@ + item.title@
                    && e.description@ == "[link] "@ + item.redirect_link@ + "\n[bvid] "@
                    + item.bvid@ + "\n[hash] "@ + item_id(*item),
                None => !(i64::MIN <= end <= i64::MAX),
            }
        }),
{
    let watched: i64 = if item.progress == -1 {
        match &item.page {
            None => 10,
            Some(p) => p.duration,
        }
    } else {
        item.progress
    };
    let end: i128 = item.view_at as i128 + watched as i128;
    if end < i64::MIN as i128 || end > i64::MAX as i128 {
        return None;
    }
    let id = item.id();
    let summary = String::from_str("[Bilibili] ").concat(item.title.as_str());
    let description = String::from_str("[link] ").concat(item.redirect_link.as_str()).concat(
        "\n[bvid] ",
    ).concat(item.bvid.as_str()).concat("\n[hash] ").concat(id.as_str());
    Some(
        EventWithId {
            summary,
            description,
            duration: Duration::StartEnd(item.view_at, end as i64),
            id,
        },
    )
}

} // verus!
