use vstd::prelude::*;
use vstd::string::*;

use crate::clock::{epoch_day, epoch_day_of};
use crate::event::{Duration, EventWithId};
use crate::number::{i32_value, parse_i32_range, parse_i32_text, parse_u32_text, u32_value};
use crate::pattern::{
    all_matches, decimal, decimal_digits, first_captures, group, regex_captures, regex_matches,
    trim, trimmed, views,
};
use crate::text::{
    after_field, chars_of, contains_pair, field, find_char, first_two_fields, has_pair,
    lemma_field_at, occurs_at, split_two, string_of, trim_end_pair, trimmed_end,
};

verus! {

/// The name that namespaces this source's event ids.
pub const IDENTIFIER: &'static str = "ut_oden_seminar";

/// The scheme and host at the start of the listing's URL.
pub const BASE_URL_PATTERN: &'static str = r"https://[^/]*";

/// A link from the listing to one seminar's page.
pub const EVENT_LINK_PATTERN: &'static str = r"/news-and-events/events/\d+";

/// The seminar pages linked from a listing: each link found in the listing,
/// in order, made absolute with the listing URL's scheme and host; `None`
/// when the listing URL has no `https://` host.
pub open spec fn detail_urls_of(request_url: Seq<char>, listing: Seq<char>) -> Option<
    Seq<Seq<char>>,
> {
    match group(regex_captures(BASE_URL_PATTERN@, request_url), 0) {
        Some(base) => Some(
            regex_matches(EVENT_LINK_PATTERN@, listing).map_values(|link: Seq<char>| base + link),
        ),
        None => None,
    }
}

/// The detail pages to fetch for a listing fetched from `request_url`.
pub fn detail_urls(request_url: &str, listing: &str) -> (r: Option<Vec<String>>)
    ensures
        match r {
            Some(urls) => detail_urls_of(request_url@, listing@) == Some(views(urls@)),
            None => detail_urls_of(request_url@, listing@) is None,
        },
{
    let base = match first_captures(BASE_URL_PATTERN, request_url) {
        Some(groups) => {
            if groups.len() == 0 {
                return None;
            }
            groups[0].clone()
        },
        None => {
            return None;
        },
    };
    let links = all_matches(EVENT_LINK_PATTERN, listing);
    let ghost found = views(links@);
    let mut urls: Vec<String> = Vec::new();
    let mut i: usize = 0;
    while i < links.len()
        invariant
            i <= links.len(),
            found == views(links@),
            views(urls@) == found.take(i as int).map_values(|link: Seq<char>| base@ + link),
        decreases links.len() - i,
    {
        let url = base.clone().concat(links[i].as_str());
        let ghost prev = urls@;
        assert(url@ == base@ + found[i as int]);
        urls.push(url);
        assert(views(urls@) =~= views(prev).push(url@));
        assert(views(urls@) =~= found.take(i + 1).map_values(|link: Seq<char>| base@ + link));
        i = i + 1;
    }
    assert(found.take(found.len() as int) =~= found);
    Some(urls)
}

/// Why a seminar listing's clock time could not be read.
#[derive(Clone, Copy, Debug, PartialEq, Eq)]
pub enum TimeError {
    /// The hour or the minute is not a decimal integer that fits in `i32`.
    InvalidNumber,
    /// The hour moved to the afternoon does not fit in `i32`.
    HourOutOfRange,
}

/// The 24-hour clock hour of a 12-hour reading: `12AM` is midnight, `12`
/// without `AM` is noon, and any other hour without `AM` is moved to the
/// afternoon.
pub open spec fn clock_hour(hour: int, am: bool) -> int {
    if hour == 12 {
        if am {
            0
        } else {
            12
        }
    } else if am {
        hour
    } else {
        hour + 12
    }
}

/// Hour and minute as written in `s`, before the 12-hour adjustment: the
/// trailing `AM`s and then `PM`s are cut off, and what remains is `h` or
/// `h:m` (text after a second `:` is ignored).
pub open spec fn written_time(s: Seq<char>) -> Option<(i32, i32)> {
    let bare = trim_end_pair(trim_end_pair(s, 'A', 'M'), 'P', 'M');
    if bare.contains(':') {
        match (i32_value(field(bare, ':')), i32_value(field(after_field(bare, ':'), ':'))) {
            (Some(h), Some(m)) => Some((h, m)),
            _ => None,
        }
    } else {
        match i32_value(bare) {
            Some(h) => Some((h, 0)),
            None => None,
        }
    }
}

/// Reads a seminar listing's clock time such as `10AM`, `11:30AM` or `5PM`
/// into a 24-hour `(hour, minute)`. A time counts as morning when `AM`
/// occurs anywhere in it.
pub fn parse_time(time_str: &str) -> (r: Result<(i32, i32), TimeError>)
    ensures
        r == time_of(time_str@),
{
    let s = chars_of(time_str);
    let no_am = trimmed_end(&s, s.len(), 'A', 'M');
    let n = trimmed_end(&s, no_am, 'P', 'M');
    let ghost bare = s@.take(n as int);
    proof {
        assert(s@.take(s@.len() as int) =~= s@);
        assert(s@.take(no_am as int).take(n as int) =~= bare);
    }
    let colon = find_char(&s, 0, n, ':');
    let parsed: Option<(i32, i32)> = if colon < n {
        let second = find_char(&s, colon + 1, n, ':');
        proof {
            lemma_field_at(bare, ':', colon as int);
            let rest = bare.skip(colon + 1);
            lemma_field_at(rest, ':', second - colon - 1);
            assert(rest.take(second - colon - 1) =~= s@.subrange(colon + 1, second as int));
            assert(bare.take(colon as int) =~= s@.subrange(0, colon as int));
            assert(bare[colon as int] == ':');
        }
        match (parse_i32_range(&s, 0, colon), parse_i32_range(&s, colon + 1, second)) {
            (Some(h), Some(m)) => Some((h, m)),
            _ => None,
        }
    } else {
        proof {
            assert(!bare.contains(':'));
            assert(s@.subrange(0, n as int) =~= bare);
        }
        match parse_i32_range(&s, 0, n) {
            Some(h) => Some((h, 0)),
            None => None,
        }
    };
    assert(parsed == written_time(time_str@));
    let am = has_pair(&s, 'A', 'M');
    match parsed {
        None => Err(TimeError::InvalidNumber),
        Some((h, m)) => {
            if h == 12 {
                if am {
                    Ok((0, m))
                } else {
                    Ok((12, m))
                }
            } else if am {
                Ok((h, m))
            } else if h <= i32::MAX - 12 {
                Ok((h + 12, m))
            } else {
                Err(TimeError::HourOutOfRange)
            }
        },
    }
}

/// Separates the time line from the date line of a seminar's logistics.
pub const LINE_BREAK: &'static str = "<br>";

/// Separates the start time from the end time.
pub const TIME_SEPARATOR: &'static str = " – ";

/// A date line such as `Tuesday Oct 11, 2022`.
pub const DATE_PATTERN: &'static str = r"(\w+) (\w+) (\d+), (\d+)";

/// The seminar's number, in the link to its own page.
pub const SEMINAR_ID_PATTERN: &'static str = r"news-and-events/events/(\d*)";

/// How far the listing's clock times lie behind UTC: they are written in
/// UTC-5.
pub const UTC_LAG_SECONDS: i64 = 18000;

/// Why a seminar page could not be turned into an event.
#[derive(Clone, Copy, Debug, PartialEq, Eq)]
pub enum SeminarError {
    /// The seminar is only announced; its page has no details yet.
    ComingSoon,
    /// The logistics lack the time or the date line, or the time line lacks
    /// an end time.
    MissingLine,
    /// The date line or the page does not have the expected shape.
    CaptureFails,
    /// A number does not fit its type.
    ParseFails,
    /// The month is not one of `Jan` to `Dec`.
    UnknownMonth,
    /// A clock time could not be read.
    BadTime(TimeError),
    /// The date or a clock time does not exist.
    InvalidDate,
}

/// The number (1 to 12) of a three-letter English month name.
pub open spec fn month_of(name: Seq<char>) -> Option<u32> {
    if name == "Jan"@ {
        Some(1)
    } else if name == "Feb"@ {
        Some(2)
    } else if name == "Mar"@ {
        Some(3)
    } else if name == "Apr"@ {
        Some(4)
    } else if name == "May"@ {
        Some(5)
    } else if name == "Jun"@ {
        Some(6)
    } else if name == "Jul"@ {
        Some(7)
    } else if name == "Aug"@ {
        Some(8)
    } else if name == "Sep"@ {
        Some(9)
    } else if name == "Oct"@ {
        Some(10)
    } else if name == "Nov"@ {
        Some(11)
    } else if name == "Dec"@ {
        Some(12)
    } else {
        None
    }
}

/// The number of a three-letter English month name.
pub fn month_number(name: &String) -> (r: Option<u32>)
    ensures
        r == month_of(name@),
{
    if *name == String::from_str("Jan") {
        Some(1)
    } else if *name == String::from_str("Feb") {
        Some(2)
    } else if *name == String::from_str("Mar") {
        Some(3)
    } else if *name == String::from_str("Apr") {
        Some(4)
    } else if *name == String::from_str("May") {
        Some(5)
    } else if *name == String::from_str("Jun") {
        Some(6)
    } else if *name == String::from_str("Jul") {
        Some(7)
    } else if *name == String::from_str("Aug") {
        Some(8)
    } else if *name == String::from_str("Sep") {
        Some(9)
    } else if *name == String::from_str("Oct") {
        Some(10)
    } else if *name == String::from_str("Nov") {
        Some(11)
    } else if *name == String::from_str("Dec") {
        Some(12)
    } else {
        None
    }
}

/// When a seminar takes place, in the listing's own clock (UTC-5).
#[derive(Clone, Copy, Debug, PartialEq, Eq)]
pub struct Schedule {
    pub year: i32,
    pub month: u32,
    pub day: i32,
    pub start: (i32, i32),
    pub end: (i32, i32),
}

/// Year, month and day of a date line such as `Tuesday Oct 11, 2022`.
pub open spec fn date_of(line: Seq<char>) -> Result<(i32, u32, i32), SeminarError> {
    let caps = regex_captures(DATE_PATTERN@, line);
    match (group(caps, 3), group(caps, 2), group(caps, 4)) {
        (Some(day_text), Some(month_text), Some(year_text)) => match i32_value(day_text) {
            None => Err(SeminarError::ParseFails),
            Some(day) => match month_of(month_text) {
                None => Err(SeminarError::UnknownMonth),
                Some(month) => match i32_value(year_text) {
                    None => Err(SeminarError::ParseFails),
                    Some(year) => Ok((year, month, day)),
                },
            },
        },
        _ => Err(SeminarError::CaptureFails),
    }
}

/// Start and end of a time line such as `3:30 – 5PM`.
pub open spec fn times_of(line: Seq<char>) -> Result<((i32, i32), (i32, i32)), SeminarError> {
    match first_two_fields(line, TIME_SEPARATOR@) {
        None => Err(SeminarError::MissingLine),
        Some((from, to)) => match (time_of(from), time_of(to)) {
            (Ok(a), Ok(b)) => Ok((a, b)),
            (Err(e), _) => Err(SeminarError::BadTime(e)),
            (_, Err(e)) => Err(SeminarError::BadTime(e)),
        },
    }
}

/// What `parse_time` gives for a clock time.
pub open spec fn time_of(s: Seq<char>) -> Result<(i32, i32), TimeError> {
    match written_time(s) {
        None => Err(TimeError::InvalidNumber),
        Some((h, m)) => {
            let hour = clock_hour(h as int, contains_pair(s, 'A', 'M'));
            if i32::MIN <= hour <= i32::MAX {
                Ok((hour as i32, m))
            } else {
                Err(TimeError::HourOutOfRange)
            }
        },
    }
}

/// The logistics text without its tabs and line feeds.
pub open spec fn flattened(info: Seq<char>) -> Seq<char> {
    info.filter(|c: char| c != '\t' && c != '\n')
}

/// The schedule that a seminar's logistics paragraph gives: its first line
/// holds the times, its second the date.
pub open spec fn schedule_of(info: Seq<char>) -> Result<Schedule, SeminarError> {
    match first_two_fields(flattened(info), LINE_BREAK@) {
        None => Err(SeminarError::MissingLine),
        Some((time_line, date_line)) => match date_of(trimmed(date_line)) {
            Err(e) => Err(e),
            Ok((year, month, day)) => match times_of(trimmed(time_line)) {
                Err(e) => Err(e),
                Ok((start, end)) => Ok(Schedule { year, month, day, start, end }),
            },
        },
    }
}

fn flatten(info: &str) -> (r: String)
    ensures
        r@ == flattened(info@),
{
    let chars = chars_of(info);
    let ghost pred = |c: char| c != '\t' && c != '\n';
    let mut kept: Vec<char> = Vec::new();
    let mut i: usize = 0;
    while i < chars.len()
        invariant
            i <= chars@.len(),
            chars@ == info@,
            pred == (|c: char| c != '\t' && c != '\n'),
            kept@ == chars@.take(i as int).filter(pred),
        decreases chars.len() - i,
    {
        let c = chars[i];
        proof {
            reveal(Seq::filter);
            assert(chars@.take(i + 1).drop_last() =~= chars@.take(i as int));
            assert(chars@.take(i + 1).last() == c);
        }
        if c != '\t' && c != '\n' {
            kept.push(c);
        }
        i = i + 1;
    }
    assert(chars@.take(chars@.len() as int) =~= chars@);
    string_of(&kept)
}

fn group_of(caps: &Option<Vec<String>>, i: usize) -> (r: Option<String>)
    ensures
        match r {
            Some(t) => group(
                match caps {
                    Some(g) => Some(views(g@)),
                    None => None,
                },
                i as int,
            ) == Some(t@),
            None => group(
                match caps {
                    Some(g) => Some(views(g@)),
                    None => None,
                },
                i as int,
            ) is None,
        },
{
    match caps {
        Some(g) => if i < g.len() {
            Some(g[i].clone())
        } else {
            None
        },
        None => None,
    }
}

fn read_date(line: &str) -> (r: Result<(i32, u32, i32), SeminarError>)
    ensures
        r == date_of(line@),
{
    let caps = first_captures(DATE_PATTERN, line);
    let (day_text, month_text, year_text) = match (
        group_of(&caps, 3),
        group_of(&caps, 2),
        group_of(&caps, 4),
    ) {
        (Some(d), Some(m), Some(y)) => (d, m, y),
        _ => {
            return Err(SeminarError::CaptureFails);
        },
    };
    let day = match parse_i32_text(day_text.as_str()) {
        Some(d) => d,
        None => {
            return Err(SeminarError::ParseFails);
        },
    };
    let month = match month_number(&month_text) {
        Some(m) => m,
        None => {
            return Err(SeminarError::UnknownMonth);
        },
    };
    match parse_i32_text(year_text.as_str()) {
        Some(year) => Ok((year, month, day)),
        None => Err(SeminarError::ParseFails),
    }
}

fn read_times(line: &str) -> (r: Result<((i32, i32), (i32, i32)), SeminarError>)
    ensures
        r == times_of(line@),
{
    proof {
        reveal_strlit(" – ");
    }
    let (from, to) = match split_two(line, TIME_SEPARATOR) {
        Some(parts) => parts,
        None => {
            return Err(SeminarError::MissingLine);
        },
    };
    let start = parse_time(from.as_str());
    let end = parse_time(to.as_str());
    match (start, end) {
        (Ok(a), Ok(b)) => Ok((a, b)),
        (Err(e), _) => Err(SeminarError::BadTime(e)),
        (_, Err(e)) => Err(SeminarError::BadTime(e)),
    }
}

/// Reads the schedule from a seminar's logistics paragraph (its inner
/// HTML): `<start> – <end> <br> <weekday> <month> <day>, <year>`.
pub fn parse_schedule(info: &str) -> (r: Result<Schedule, SeminarError>)
    ensures
        r == schedule_of(info@),
{
    let flat = flatten(info);
    proof {
        reveal_strlit("<br>");
    }
    let (time_line, date_line) = match split_two(flat.as_str(), LINE_BREAK) {
        Some(parts) => parts,
        None => {
            return Err(SeminarError::MissingLine);
        },
    };
    let (year, month, day) = read_date(trim(date_line.as_str()).as_str())?;
    let (start, end) = read_times(trim(time_line.as_str()).as_str())?;
    Ok(Schedule { year, month, day, start, end })
}

/// A location given as a link: `<place>: <link>`.
pub fn zoom_location(place: &str, href: &str) -> (r: String)
    ensures
        r@ == place@ + ": "@ + href@,
{
    String::from_str(place).concat(": ").concat(href)
}

/// The number of a seminar, from the link to its own page.
pub open spec fn seminar_number(response: Seq<char>) -> Result<u32, SeminarError> {
    match group(regex_captures(SEMINAR_ID_PATTERN@, response), 1) {
        None => Err(SeminarError::CaptureFails),
        Some(t) => match u32_value(t) {
            None => Err(SeminarError::ParseFails),
            Some(n) => Ok(n),
        },
    }
}

pub open spec fn valid_clock(t: (i32, i32)) -> bool {
    0 <= t.0 <= 23 && 0 <= t.1 <= 59
}

/// Seconds since the Unix epoch of clock time `t` (UTC-5) on epoch day `day`.
pub open spec fn utc_seconds(day: int, t: (i32, i32)) -> int {
    day * 86400 + t.0 * 3600 + t.1 * 60 + UTC_LAG_SECONDS
}

pub open spec fn fits_i64(v: int) -> bool {
    i64::MIN <= v <= i64::MAX
}

/// The seminar number, schedule and epoch day of a seminar page given its
/// title, logistics paragraph and whole text, or the first failure met.
pub open spec fn seminar_parts(title: Seq<char>, info: Seq<char>, response: Seq<char>) -> Result<
    (u32, Schedule, int),
    SeminarError,
> {
    if occurs_at(title, "Coming soon"@, 0) {
        Err(SeminarError::ComingSoon)
    } else {
        match schedule_of(info) {
            Err(e) => Err(e),
            Ok(s) => match seminar_number(response) {
                Err(e) => Err(e),
                Ok(n) => if s.year < 0 || s.day < 0 || !valid_clock(s.start) || !valid_clock(
                    s.end,
                ) {
                    Err(SeminarError::InvalidDate)
                } else {
                    match epoch_day(s.year as int, s.month as int, s.day as int) {
                        None => Err(SeminarError::InvalidDate),
                        Some(d) => if fits_i64(utc_seconds(d, s.start)) && fits_i64(
                            utc_seconds(d, s.end),
                        ) {
                            Ok((n, s, d))
                        } else {
                            Err(SeminarError::InvalidDate)
                        },
                    }
                },
            },
        }
    }
}

/// Two decimal digits, zero-padded.
pub open spec fn two_digits(n: nat) -> Seq<char> {
    if n < 10 {
        "0"@ + decimal_digits(n)
    } else {
        decimal_digits(n)
    }
}

/// A year as `%Y` prints it: at least four digits, zero-padded, and a `+`
/// before years past 9999.
pub open spec fn year_digits(y: nat) -> Seq<char> {
    if y < 10 {
        "000"@ + decimal_digits(y)
    } else if y < 100 {
        "00"@ + decimal_digits(y)
    } else if y < 1000 {
        "0"@ + decimal_digits(y)
    } else if y < 10000 {
        decimal_digits(y)
    } else {
        "+"@ + decimal_digits(y)
    }
}

/// `YYYY-MM-DD HH:MM` of the seminar's start, in its own clock.
pub open spec fn start_stamp(s: Schedule) -> Seq<char> {
    year_digits(s.year as nat) + "-"@ + two_digits(s.month as nat) + "-"@ + two_digits(
        s.day as nat,
    ) + " "@ + two_digits(s.start.0 as nat) + ":"@ + two_digits(s.start.1 as nat)
}

/// `ut_oden_seminar|<number>|<start stamp>`.
pub open spec fn seminar_event_id(n: u32, s: Schedule) -> Seq<char> {
    IDENTIFIER@ + "|"@ + decimal_digits(n as nat) + "|"@ + start_stamp(s)
}

pub(crate) fn two_digit_text(n: u64) -> (r: String)
    requires
        n < 100,
    ensures
        r@ == two_digits(n as nat),
{
    if n < 10 {
        String::from_str("0").concat(decimal(n).as_str())
    } else {
        decimal(n)
    }
}

pub(crate) fn year_text(y: u64) -> (r: String)
    ensures
        r@ == year_digits(y as nat),
{
    let digits = decimal(y);
    if y < 10 {
        String::from_str("000").concat(digits.as_str())
    } else if y < 100 {
        String::from_str("00").concat(digits.as_str())
    } else if y < 1000 {
        String::from_str("0").concat(digits.as_str())
    } else if y < 10000 {
        digits
    } else {
        String::from_str("+").concat(digits.as_str())
    }
}

fn read_seminar_number(response: &str) -> (r: Result<u32, SeminarError>)
    ensures
        r == seminar_number(response@),
{
    let caps = first_captures(SEMINAR_ID_PATTERN, response);
    match group_of(&caps, 1) {
        None => Err(SeminarError::CaptureFails),
        Some(t) => match parse_u32_text(t.as_str()) {
            None => Err(SeminarError::ParseFails),
            Some(n) => Ok(n),
        },
    }
}

/// The event of a seminar page: its title, the speaker, the speaker's
/// affiliation, the abstract and the location as the page gives them, its
/// logistics paragraph (inner HTML) and the page's whole text.
pub fn seminar_event(
    title: String,
    speaker: &str,
    affiliation: &str,
    abstract_text: &str,
    location: &str,
    info: &str,
    response: &str,
) -> (r: Result<EventWithId, SeminarError>)
    ensures
        match r {
            Ok(e) => match seminar_parts(title@, info@, response@) {
                Ok((n, s, d)) => e.summary@ == title@ && e.id@ == seminar_event_id(n, s)
                    && e.duration == Duration::StartEnd(
                    utc_seconds(d, s.start) as i64,
                    utc_seconds(d, s.end) as i64,
                ) && e.description@ == speaker@ + ", "@ + affiliation@ + "\n"@ + abstract_text@
                    + "\n"@ + location@,
                Err(_) => false,
            },
            Err(x) => seminar_parts(title@, info@, response@) == Err::<
                (u32, Schedule, int),
                SeminarError,
            >(x),
        },
{
    let soon = String::from_str("Coming soon");
    let title_chars = chars_of(title.as_str());
    let soon_chars = chars_of(soon.as_str());
    proof {
        reveal_strlit("Coming soon");
    }
    if title_chars.len() >= soon_chars.len() && crate::text::find_pat(&title_chars, 0, &soon_chars)
        == 0 {
        return Err(SeminarError::ComingSoon);
    }
    proof {
        if occurs_at(title@, "Coming soon"@, 0) {
            assert(title_chars.len() >= soon_chars.len());
        }
    }
    let s = parse_schedule(info)?;
    let n = read_seminar_number(response)?;
    if s.year < 0 || s.day < 0 || !(0 <= s.start.0 && s.start.0 <= 23 && 0 <= s.start.1
        && s.start.1 <= 59) || !(0 <= s.end.0 && s.end.0 <= 23 && 0 <= s.end.1 && s.end.1
        <= 59) {
        return Err(SeminarError::InvalidDate);
    }
    let d = match epoch_day_of(s.year, s.month, s.day as u32) {
        Some(d) => d,
        None => {
            return Err(SeminarError::InvalidDate);
        },
    };
    let start: i128 = d as i128 * 86400 + s.start.0 as i128 * 3600 + s.start.1 as i128 * 60
        + UTC_LAG_SECONDS as i128;
    let end: i128 = d as i128 * 86400 + s.end.0 as i128 * 3600 + s.end.1 as i128 * 60
        + UTC_LAG_SECONDS as i128;
    if start < i64::MIN as i128 || start > i64::MAX as i128 || end < i64::MIN as i128 || end
        > i64::MAX as i128 {
        return Err(SeminarError::InvalidDate);
    }
    let stamp = year_text(s.year as u64).concat("-").concat(
        two_digit_text(s.month as u64).as_str(),
    ).concat("-").concat(two_digit_text(s.day as u64).as_str()).concat(" ").concat(
        two_digit_text(s.start.0 as u64).as_str(),
    ).concat(":").concat(two_digit_text(s.start.1 as u64).as_str());
    let id = String::from_str(IDENTIFIER).concat("|").concat(decimal(n as u64).as_str()).concat(
        "|",
    ).concat(stamp.as_str());
    let description = String::from_str(speaker).concat(", ").concat(affiliation).concat(
        "\n",
    ).concat(abstract_text).concat("\n").concat(location);
    Ok(
        EventWithId {
            summary: title,
            description,
            duration: Duration::StartEnd(start as i64, end as i64),
            id,
        },
    )
}

} // verus!
