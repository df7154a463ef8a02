use activity_sync::ut_oden_seminar::{detail_urls, parse_time, TimeError};

fn h(a: Result<(i32, i32), TimeError>, b: (i32, i32)) {
    match a {
        Ok(a) => {
            assert_eq!(a, b);
        }
        Err(e) => {
            println!("{:?}", e);
        }
    }
}

#[test]
fn test_parse_time() {
    h(parse_time("10AM"), (10, 0));
    h(parse_time("11AM"), (11, 0));
    h(parse_time("11:30AM"), (11, 30));
    h(parse_time("3PM"), (15, 0));
    h(parse_time("5PM"), (17, 0));
    h(parse_time("5:30PM"), (17, 30));
}

#[test]
fn parse_time_exact_values() {
    assert_eq!(parse_time("10AM"), Ok((10, 0)));
    assert_eq!(parse_time("11:30AM"), Ok((11, 30)));
    assert_eq!(parse_time("5:30PM"), Ok((17, 30)));
    assert_eq!(parse_time("3:30"), Ok((15, 30)));
}

#[test]
fn parse_time_noon_and_midnight() {
    assert_eq!(parse_time("12AM"), Ok((0, 0)));
    assert_eq!(parse_time("12PM"), Ok((12, 0)));
    assert_eq!(parse_time("12:15AM"), Ok((0, 15)));
}

#[test]
fn parse_time_rejects_bad_numbers() {
    assert_eq!(parse_time("noonAM"), Err(TimeError::InvalidNumber));
    assert_eq!(parse_time("5:xxPM"), Err(TimeError::InvalidNumber));
    assert_eq!(parse_time(""), Err(TimeError::InvalidNumber));
}

#[test]
fn parse_time_hour_out_of_range() {
    assert_eq!(parse_time("2147483647PM"), Err(TimeError::HourOutOfRange));
    assert_eq!(parse_time("2147483647AM"), Ok((2147483647, 0)));
}

#[test]
fn detail_urls_made_absolute_in_order() {
    let listing = "
<h3 class=\"event__title\"><a href=\"/news-and-events/events/1727---R\">Stochastic </a></h3>
<h3 class=\"event__title\"><a href=\"/news-and-events/events/1708---A\">Combining estimation</a></h3>
    ";
    let urls = detail_urls("https://oden.utexas.edu/news-and-events/events/", listing);
    assert_eq!(
        urls,
        Some(vec![
            "https://oden.utexas.edu/news-and-events/events/1727".to_string(),
            "https://oden.utexas.edu/news-and-events/events/1708".to_string(),
        ])
    );
}

#[test]
fn detail_urls_empty_listing_and_bad_url() {
    assert_eq!(detail_urls("https://oden.utexas.edu/x", "nothing here"), Some(vec![]));
    assert_eq!(detail_urls("http://oden.utexas.edu/x", "/news-and-events/events/1"), None);
}

use activity_sync::event::Duration;
use activity_sync::ut_oden_seminar::{parse_schedule, seminar_event, zoom_location, Schedule, SeminarError};

const INFO: &str = "\n            3:30 – 5PM <br>\n            Tuesday Oct 11, 2022\n        ";
const PAGE: &str = "<link rel=\"canonical\" href=\"https://oden.utexas.edu/news-and-events/events/1708/\" />";

#[test]
fn parse_schedule_reads_logistics() {
    assert_eq!(
        parse_schedule(INFO),
        Ok(Schedule { year: 2022, month: 10, day: 11, start: (15, 30), end: (17, 0) })
    );
}

#[test]
fn parse_schedule_errors() {
    assert_eq!(parse_schedule("3:30 – 5PM"), Err(SeminarError::MissingLine));
    assert_eq!(parse_schedule("3:30 – 5PM <br> soon"), Err(SeminarError::CaptureFails));
    assert_eq!(parse_schedule("3:30 – 5PM <br> Tuesday Foo 11, 2022"), Err(SeminarError::UnknownMonth));
    assert_eq!(
        parse_schedule("3:30 – 5PM <br> Tuesday Oct 11, 99999999999"),
        Err(SeminarError::ParseFails)
    );
    assert_eq!(parse_schedule("3:30 <br> Tuesday Oct 11, 2022"), Err(SeminarError::MissingLine));
    assert_eq!(
        parse_schedule("x – 5PM <br> Tuesday Oct 11, 2022"),
        Err(SeminarError::BadTime(TimeError::InvalidNumber))
    );
}

#[test]
fn seminar_event_from_page_parts() {
    let e = seminar_event(
        "Combining collections".to_string(),
        "Andrey Popov",
        "ASE/EM Dept., UT Austin",
        "Abstract text",
        &zoom_location("POB 6.304 &amp; Zoom", "https://utexas.zoom.us/j/965"),
        INFO,
        PAGE,
    )
    .unwrap();
    assert_eq!(e.summary, "Combining collections");
    assert_eq!(e.id, "ut_oden_seminar|1708|2022-10-11 15:30");
    assert_eq!(e.duration, Duration::StartEnd(1665520200, 1665525600));
    assert_eq!(
        e.description,
        "Andrey Popov, ASE/EM Dept., UT Austin\nAbstract text\nPOB 6.304 &amp; Zoom: https://utexas.zoom.us/j/965"
    );
}

#[test]
fn seminar_event_errors() {
    let event = |title: &str, info: &str, page: &str| seminar_event(title.to_string(), "", "", "", "", info, page);
    assert_eq!(event("Coming soon: a talk", INFO, PAGE).unwrap_err(), SeminarError::ComingSoon);
    assert_eq!(event("Talk", INFO, "no link").unwrap_err(), SeminarError::CaptureFails);
    assert_eq!(
        event("Talk", "3:30 – 5PM <br> Tuesday Feb 30, 2022", PAGE).unwrap_err(),
        SeminarError::InvalidDate
    );
    assert_eq!(
        event("Talk", "3:30 – 25:00 <br> Tuesday Oct 11, 2022", PAGE).unwrap_err(),
        SeminarError::InvalidDate
    );
}
