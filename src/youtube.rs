use vstd::prelude::*;
use vstd::string::*;

use crate::daylight::CalendarDate;
use crate::event::{Duration, EventWithId};
use crate::number::{parse_u32_text, u32_value};
use crate::pattern::{first_captures, group, regex_captures, views};
use crate::ut_oden_seminar::{two_digits, year_digits};
use crate::text::{chars_of, find_nth_field, nth_field};

verus! {

/// The name that namespaces this source's event ids.
pub const IDENTIFIER: &'static str = "youtube";

pub const FULL_DATE_PATTERN: &'static str = r"(\d+)年(\d+)月(\d+)日";

pub const MONTH_DAY_PATTERN: &'static str = r"(\d+)月(\d+)日";

pub const START_TIME_PATTERN: &'static str = r"(上午|下午)(\d+):(\d+)";

pub const LONG_LENGTH_PATTERN: &'static str = r"(\d+):(\d+):(\d+)";

pub const SHORT_LENGTH_PATTERN: &'static str = r"(\d+):(\d+)";

pub const PERCENT_PATTERN: &'static str = r"width:(\d+)%";

/// Why a part of the history page could not be read.
#[derive(Clone, Copy, Debug, PartialEq, Eq)]
pub enum ParseError {
    WrongStartTimeInput,
    WrongTotalLengthInput,
    WrongPercentStyleInput,
    WrongViewDateInput,
    /// A number does not fit in `u32`, or a length overflows it.
    NumberOutOfRange,
}

/// The day a group of history entries was watched, as its heading says.
#[derive(Clone, Copy, Debug, PartialEq, Eq)]
pub enum ViewDay {
    Today,
    Yesterday,
    /// A month and day of the current year.
    ThisYear(u32, u32),
    Date(i32, u32, u32),
}

pub open spec fn u32_group(caps: Option<Seq<Seq<char>>>, i: int) -> Option<u32> {
    match group(caps, i) {
        Some(t) => u32_value(t),
        None => None,
    }
}

/// The day a heading such as `今天`, `昨天`, `2021年3月4日` or `3月4日` names.
pub open spec fn view_day_of(heading: Seq<char>) -> Result<ViewDay, ParseError> {
    if heading == "今天"@ {
        Ok(ViewDay::Today)
    } else if heading == "昨天"@ {
        Ok(ViewDay::Yesterday)
    } else {
        let full = regex_captures(FULL_DATE_PATTERN@, heading);
        if full is Some {
            match (u32_group(full, 1), u32_group(full, 2), u32_group(full, 3)) {
                (Some(y), Some(m), Some(d)) => if y <= i32::MAX {
                    Ok(ViewDay::Date(y as i32, m, d))
                } else {
                    Err(ParseError::NumberOutOfRange)
                },
                _ => Err(ParseError::NumberOutOfRange),
            }
        } else {
            let short = regex_captures(MONTH_DAY_PATTERN@, heading);
            if short is Some {
                match (u32_group(short, 1), u32_group(short, 2)) {
                    (Some(m), Some(d)) => Ok(ViewDay::ThisYear(m, d)),
                    _ => Err(ParseError::NumberOutOfRange),
                }
            } else {
                Err(ParseError::WrongViewDateInput)
            }
        }
    }
}

fn u32_group_of(caps: &Option<Vec<String>>, i: usize) -> (r: Option<u32>)
    ensures
        r == u32_group(
            match caps {
                Some(g) => Some(views(g@)),
                None => None,
            },
            i as int,
        ),
{
    match caps {
        Some(g) => if i < g.len() {
            parse_u32_text(g[i].as_str())
        } else {
            None
        },
        None => None,
    }
}

/// Reads the heading of a group of history entries.
pub fn view_day(heading: &String) -> (r: Result<ViewDay, ParseError>)
    ensures
        r == view_day_of(heading@),
{
    if *heading == String::from_str("今天") {
        return Ok(ViewDay::Today);
    }
    if *heading == String::from_str("昨天") {
        return Ok(ViewDay::Yesterday);
    }
    let full = first_captures(FULL_DATE_PATTERN, heading.as_str());
    if full.is_some() {
        return match (u32_group_of(&full, 1), u32_group_of(&full, 2), u32_group_of(&full, 3)) {
            (Some(y), Some(m), Some(d)) => if y <= i32::MAX as u32 {
                Ok(ViewDay::Date(y as i32, m, d))
            } else {
                Err(ParseError::NumberOutOfRange)
            },
            _ => Err(ParseError::NumberOutOfRange),
        };
    }
    let short = first_captures(MONTH_DAY_PATTERN, heading.as_str());
    if short.is_some() {
        return match (u32_group_of(&short, 1), u32_group_of(&short, 2)) {
            (Some(m), Some(d)) => Ok(ViewDay::ThisYear(m, d)),
            _ => Err(ParseError::NumberOutOfRange),
        };
    }
    Err(ParseError::WrongViewDateInput)
}

/// The 24-hour `(hour, minute)` of a start time such as `下午3:05`.
pub open spec fn start_time_of(text: Seq<char>) -> Result<(u32, u32), ParseError> {
    let caps = regex_captures(START_TIME_PATTERN@, text);
    match (group(caps, 1), u32_group(caps, 2), u32_group(caps, 3)) {
        (Some(half), Some(h), Some(m)) => if half == "上午"@ {
            Ok(((h % 12) as u32, m))
        } else {
            Ok(((h % 12 + 12) as u32, m))
        },
        (None, _, _) => Err(ParseError::WrongStartTimeInput),
        _ => Err(ParseError::NumberOutOfRange),
    }
}

pub fn start_time(text: &str) -> (r: Result<(u32, u32), ParseError>)
    ensures
        r == start_time_of(text@),
{
    let caps = first_captures(START_TIME_PATTERN, text);
    let half = match &caps {
        Some(g) => if 1 < g.len() {
            g[1].clone()
        } else {
            return Err(ParseError::WrongStartTimeInput);
        },
        None => {
            return Err(ParseError::WrongStartTimeInput);
        },
    };
    match (u32_group_of(&caps, 2), u32_group_of(&caps, 3)) {
        (Some(h), Some(m)) => if half == String::from_str("上午") {
            Ok((h % 12, m))
        } else {
            Ok((h % 12 + 12, m))
        },
        _ => Err(ParseError::NumberOutOfRange),
    }
}

/// The seconds of a video length such as `1:02:03` or `4:05`.
pub open spec fn length_of(text: Seq<char>) -> Result<u32, ParseError> {
    let long = regex_captures(LONG_LENGTH_PATTERN@, text);
    if long is Some {
        match (u32_group(long, 1), u32_group(long, 2), u32_group(long, 3)) {
            (Some(h), Some(m), Some(s)) => if h * 3600 + m * 60 + s <= u32::MAX {
                Ok((h * 3600 + m * 60 + s) as u32)
            } else {
                Err(ParseError::NumberOutOfRange)
            },
            _ => Err(ParseError::NumberOutOfRange),
        }
    } else {
        let short = regex_captures(SHORT_LENGTH_PATTERN@, text);
        if short is Some {
            match (u32_group(short, 1), u32_group(short, 2)) {
                (Some(m), Some(s)) => if m * 60 + s <= u32::MAX {
                    Ok((m * 60 + s) as u32)
                } else {
                    Err(ParseError::NumberOutOfRange)
                },
                _ => Err(ParseError::NumberOutOfRange),
            }
        } else {
            Err(ParseError::WrongTotalLengthInput)
        }
    }
}

pub fn total_length(text: &str) -> (r: Result<u32, ParseError>)
    ensures
        r == length_of(text@),
{
    let long = first_captures(LONG_LENGTH_PATTERN, text);
    if long.is_some() {
        return match (u32_group_of(&long, 1), u32_group_of(&long, 2), u32_group_of(&long, 3)) {
            (Some(h), Some(m), Some(s)) => {
                let total: u64 = h as u64 * 3600 + m as u64 * 60 + s as u64;
                if total <= u32::MAX as u64 {
                    Ok(total as u32)
                } else {
                    Err(ParseError::NumberOutOfRange)
                }
            },
            _ => Err(ParseError::NumberOutOfRange),
        };
    }
    let short = first_captures(SHORT_LENGTH_PATTERN, text);
    if short.is_some() {
        return match (u32_group_of(&short, 1), u32_group_of(&short, 2)) {
            (Some(m), Some(s)) => {
                let total: u64 = m as u64 * 60 + s as u64;
                if total <= u32::MAX as u64 {
                    Ok(total as u32)
                } else {
                    Err(ParseError::NumberOutOfRange)
                }
            },
            _ => Err(ParseError::NumberOutOfRange),
        };
    }
    Err(ParseError::WrongTotalLengthInput)
}

/// How long a video was watched: all of it when the card shows no progress
/// bar, otherwise the share of `total` that the bar's `width:<n>%` style
/// gives (rounded down).
pub open spec fn watched_of(total: u32, bar_style: Option<Option<Seq<char>>>) -> Result<
    u32,
    ParseError,
> {
    match bar_style {
        None => Ok(total),
        Some(None) => Err(ParseError::WrongPercentStyleInput),
        Some(Some(style)) => {
            let caps = regex_captures(PERCENT_PATTERN@, style);
            if caps is Some {
                match u32_group(caps, 1) {
                    Some(p) => if total * p <= u32::MAX {
                        Ok((total * p / 100) as u32)
                    } else {
                        Err(ParseError::NumberOutOfRange)
                    },
                    None => Err(ParseError::NumberOutOfRange),
                }
            } else {
                Err(ParseError::WrongPercentStyleInput)
            }
        },
    }
}

/// `bar_style` is `None` when the card has no progress bar, and
/// `Some(style)` with the bar's style attribute, if it has one, otherwise.
pub fn watched_length(total: u32, bar_style: Option<Option<&str>>) -> (r: Result<u32, ParseError>)
    ensures
        r == watched_of(
            total,
            match bar_style {
                None => None,
                Some(None) => Some(None),
                Some(Some(s)) => Some(Some(s@)),
            },
        ),
{
    match bar_style {
        None => Ok(total),
        Some(None) => Err(ParseError::WrongPercentStyleInput),
        Some(Some(style)) => {
            let caps = first_captures(PERCENT_PATTERN, style);
            if caps.is_none() {
                return Err(ParseError::WrongPercentStyleInput);
            }
            match u32_group_of(&caps, 1) {
                Some(p) => {
                    assert(total as int * p as int <= u64::MAX) by (nonlinear_arith)
                        requires
                            total <= u32::MAX,
                            p <= u32::MAX,
                    ;
                    let product: u64 = total as u64 * p as u64;
                    if product <= u32::MAX as u64 {
                        Ok((product / 100) as u32)
                    } else {
                        Err(ParseError::NumberOutOfRange)
                    }
                },
                None => Err(ParseError::NumberOutOfRange),
            }
        },
    }
}

/// One watched video.
#[derive(Clone, Debug)]
pub struct YoutubeHistoryItem {
    /// The watch link, `...watch?v=<video id>`.
    pub link: String,
    pub title: String,
    pub author: String,
    /// Seconds watched.
    pub length: u32,
    /// When watching started, in the machine's clock.
    pub date: CalendarDate,
    pub hour: u32,
    pub minute: u32,
    /// When watching started, in seconds since the Unix epoch.
    pub start: i64,
}

pub open spec fn local_stamp(date: CalendarDate, hour: u32, minute: u32) -> Seq<char> {
    year_digits(date.year as nat) + "-"@ + two_digits(date.month as nat) + "-"@ + two_digits(
        date.day as nat,
    ) + " "@ + two_digits(hour as nat) + ":"@ + two_digits(minute as nat)
}

/// `youtube|<video id>|<start, YYYY-MM-DD HH:MM>`, if the link holds a
/// video id.
pub open spec fn item_id(item: YoutubeHistoryItem) -> Option<Seq<char>> {
    match nth_field(item.link@, '=', 1) {
        Some(video) => Some(IDENTIFIER@ + "|"@ + video + "|"@ + local_stamp(item.date, item.hour, item.minute)),
        None => None,
    }
}

pub open spec fn valid_stamp(date: CalendarDate, hour: u32, minute: u32) -> bool {
    date.year >= 0 && date.month < 100 && date.day < 100 && hour < 100 && minute < 100
}

impl YoutubeHistoryItem {
    pub fn id(&self) -> (r: Option<String>)
        ensures
            match r {
                Some(t) => valid_stamp(self.date, self.hour, self.minute) && item_id(*self) == Some(t@),
                None => !valid_stamp(self.date, self.hour, self.minute) || item_id(*self) is None,
            },
    {
        if !(self.date.year >= 0 && self.date.month < 100 && self.date.day < 100 && self.hour < 100
            && self.minute < 100) {
            return None;
        }
        let link = chars_of(self.link.as_str());
        let (from, to) = match find_nth_field(&link, '=', 1) {
            Some(range) => range,
            None => {
                return None;
            },
        };
        let mut video: Vec<char> = Vec::new();
        let mut i: usize = from;
        while i < to
            invariant
                from <= i <= to <= link@.len(),
                video@ == link@.subrange(from as int, i as int),
            decreases to - i,
        {
            video.push(link[i]);
            assert(video@ =~= link@.subrange(from as int, i + 1));
            i = i + 1;
        }
        let stamp = crate::ut_oden_seminar::year_text(self.date.year as u64).concat("-").concat(
            crate::ut_oden_seminar::two_digit_text(self.date.month as u64).as_str(),
        ).concat("-").concat(crate::ut_oden_seminar::two_digit_text(self.date.day as u64).as_str()).concat(
            " ",
        ).concat(crate::ut_oden_seminar::two_digit_text(self.hour as u64).as_str()).concat(":").concat(
            crate::ut_oden_seminar::two_digit_text(self.minute as u64).as_str(),
        );
        Some(
            String::from_str(IDENTIFIER).concat("|").concat(
                crate::text::string_of(&video).as_str(),
            ).concat("|").concat(stamp.as_str()),
        )
    }
}

/// The event of a watched video; `None` when its id cannot be formed or its
/// end lies beyond the range of `i64` seconds.
pub fn item_event(item: &YoutubeHistoryItem) -> (r: Option<EventWithId>)
    ensures
        match r {
            Some(e) => item_id(*item) == Some(e.id@) && valid_stamp(item.date, item.hour, item.minute)
                && e.duration == Duration::StartEnd(item.start, (item.start + item.length) as i64)
                && e.summary@ == "[Youtube] "@ + item.title@ && e.description@ == "[link] "@
                + item.link@ + "\n[author] "@ + item.author@ + "\n[hash] "@ + e.id@,
            None => !valid_stamp(item.date, item.hour, item.minute) || item_id(*item) is None || item.start
                + item.length > i64::MAX,
        },
{
    let id = match item.id() {
        Some(id) => id,
        None => {
            return None;
        },
    };
    let end: i128 = item.start as i128 + item.length as i128;
    if end > i64::MAX as i128 {
        return None;
    }
    let summary = String::from_str("[Youtube] ").concat(item.title.as_str());
    let description = String::from_str("[link] ").concat(item.link.as_str()).concat(
        "\n[author] ",
    ).concat(item.author.as_str()).concat("\n[hash] ").concat(id.as_str());
    Some(
        EventWithId {
            summary,
            description,
            duration: Duration::StartEnd(item.start, end as i64),
            id,
        },
    )
}

} // verus!
