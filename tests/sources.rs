use activity_sync::bilibili;
use activity_sync::daylight::CalendarDate;
use activity_sync::event::Duration;
use activity_sync::league_of_legends;
use activity_sync::netflix;
use activity_sync::wakatime;
use activity_sync::youtube::{self, ViewDay, YoutubeHistoryItem};

#[test]
fn bilibili_event_uses_progress_or_part_length() {
    let item = |progress: i64, page: Option<bilibili::Page>| bilibili::Item {
        bvid: "BV1xx".to_string(),
        page,
        progress,
        redirect_link: "https://b23.tv/x".to_string(),
        title: "Video".to_string(),
        view_at: 1000,
    };
    let watched = bilibili::item_event(&item(30, None)).unwrap();
    assert_eq!(watched.duration, Duration::StartEnd(1000, 1030));
    assert_eq!(watched.id, "bilibili|BV1xx|0|1000");
    assert_eq!(watched.summary, "[Bilibili] Video");
    assert_eq!(watched.description, "[link] https://b23.tv/x\n[bvid] BV1xx\n[hash] bilibili|BV1xx|0|1000");
    let finished = bilibili::item_event(&item(-1, Some(bilibili::Page { page: 2, duration: 600 }))).unwrap();
    assert_eq!(finished.duration, Duration::StartEnd(1000, 1600));
    assert_eq!(finished.id, "bilibili|BV1xx|2|1000");
    let no_parts = bilibili::item_event(&item(-1, None)).unwrap();
    assert_eq!(no_parts.duration, Duration::StartEnd(1000, 1010));
    let negative = bilibili::Item { view_at: -5, ..item(1, Some(bilibili::Page { page: -3, duration: 0 })) };
    assert_eq!(negative.id(), "bilibili|BV1xx|-3|-5");
    let overflow = bilibili::Item { view_at: i64::MAX, ..item(1, None) };
    assert!(bilibili::item_event(&overflow).is_none());
}

#[test]
fn league_of_legends_event() {
    let game = league_of_legends::GameObject {
        game_id: 42,
        platform_id: "NA1".to_string(),
        game_creation: 1_666_411_915_909,
        game_duration: 1200,
        game_mode: "CLASSIC".to_string(),
        game_type: "MATCHED_GAME".to_string(),
        participant_account_ids: vec![7, 8],
    };
    let e = league_of_legends::game_event(&game, 9).unwrap();
    assert_eq!(e.id, "league_of_legends|NA1|42|7");
    assert_eq!(e.duration, Duration::StartEnd(1_666_411_915, 1_666_413_115));
    assert_eq!(e.summary, "[League of Legends] CLASSIC");
    assert_eq!(
        e.description,
        "[link] https://matchhistory.na.leagueoflegends.com/en/#match-details/NA1/42/9\n[mode] CLASSIC MATCHED_GAME\n[hash] league_of_legends|NA1|42|7"
    );
    let before_epoch = league_of_legends::GameObject { game_creation: -1500, game_duration: 0, ..game.clone() };
    assert_eq!(league_of_legends::game_event(&before_epoch, 9).unwrap().duration, Duration::StartEnd(-1, -1));
    let nobody = league_of_legends::GameObject { participant_account_ids: vec![], ..game };
    assert!(league_of_legends::game_event(&nobody, 9).is_none());
}

#[test]
fn netflix_event_is_whole_day() {
    let item = |link: &str, date: &str| netflix::Item {
        link: link.to_string(),
        title: "Show".to_string(),
        date: date.to_string(),
    };
    let e = netflix::item_event(&item("/title/80100172", "10/22/22")).unwrap();
    assert_eq!(e.id, "netflix|80100172|10/22/22");
    assert_eq!(e.duration, Duration::WholeDay(19287));
    assert_eq!(e.summary, "[Netflix] Show");
    assert_eq!(e.description, "[link] https://www.netflix.com/title/80100172\n[hash] netflix|80100172|10/22/22");
    assert_eq!(netflix::item_event(&item("/title/1", "2/29/00")).unwrap().duration, Duration::WholeDay(11016));
    assert!(netflix::item_event(&item("/title/1", "2/30/22")).is_none());
    assert!(netflix::item_event(&item("/title", "10/22/22")).is_none());
    assert!(netflix::item_event(&item("/title/x", "10/22/22")).is_none());
    assert!(netflix::item_event(&item("/title/1", "10/22")).is_none());
}

#[test]
fn wakatime_event() {
    let item = wakatime::Item {
        project: "calendar".to_string(),
        start: 1_666_400_000,
        duration: 95,
        time_text: "1666400000.25".to_string(),
    };
    let e = wakatime::item_event(&item).unwrap();
    assert_eq!(e.id, "wakatime|1666400000.25");
    assert_eq!(e.duration, Duration::StartEnd(1_666_400_000, 1_666_400_095));
    assert_eq!(e.summary, "[Wakatime] calendar");
    assert_eq!(e.description, "[link] https://wakatime.com/projects/calendar");
    assert!(wakatime::item_event(&wakatime::Item { start: i64::MAX, ..item }).is_none());
}

#[test]
fn youtube_headings() {
    assert_eq!(youtube::view_day(&"今天".to_string()), Ok(ViewDay::Today));
    assert_eq!(youtube::view_day(&"昨天".to_string()), Ok(ViewDay::Yesterday));
    assert_eq!(youtube::view_day(&"2021年3月4日".to_string()), Ok(ViewDay::Date(2021, 3, 4)));
    assert_eq!(youtube::view_day(&"3月4日".to_string()), Ok(ViewDay::ThisYear(3, 4)));
    assert_eq!(youtube::view_day(&"last week".to_string()), Err(youtube::ParseError::WrongViewDateInput));
}

#[test]
fn youtube_times_and_lengths() {
    assert_eq!(youtube::start_time("上午12:05"), Ok((0, 5)));
    assert_eq!(youtube::start_time("下午3:07"), Ok((15, 7)));
    assert_eq!(youtube::start_time("下午12:30"), Ok((12, 30)));
    assert_eq!(youtube::start_time("3:07"), Err(youtube::ParseError::WrongStartTimeInput));
    assert_eq!(youtube::total_length("1:02:03"), Ok(3723));
    assert_eq!(youtube::total_length("4:05"), Ok(245));
    assert_eq!(youtube::total_length("live"), Err(youtube::ParseError::WrongTotalLengthInput));
    assert_eq!(youtube::watched_length(200, None), Ok(200));
    assert_eq!(youtube::watched_length(200, Some(Some("width:45%"))), Ok(90));
    assert_eq!(youtube::watched_length(200, Some(None)), Err(youtube::ParseError::WrongPercentStyleInput));
    assert_eq!(youtube::watched_length(200, Some(Some("color:red"))), Err(youtube::ParseError::WrongPercentStyleInput));
}

#[test]
fn youtube_event() {
    let item = YoutubeHistoryItem {
        link: "https://www.youtube.com/watch?v=abc123".to_string(),
        title: "Talk".to_string(),
        author: "Someone".to_string(),
        length: 90,
        date: CalendarDate { year: 2022, month: 3, day: 4 },
        hour: 9,
        minute: 5,
        start: 1_646_384_700,
    };
    let e = youtube::item_event(&item).unwrap();
    assert_eq!(e.id, "youtube|abc123|2022-03-04 09:05");
    assert_eq!(e.duration, Duration::StartEnd(1_646_384_700, 1_646_384_790));
    assert_eq!(e.summary, "[Youtube] Talk");
    assert_eq!(
        e.description,
        "[link] https://www.youtube.com/watch?v=abc123\n[author] Someone\n[hash] youtube|abc123|2022-03-04 09:05"
    );
    let no_video = YoutubeHistoryItem { link: "https://www.youtube.com/".to_string(), ..item };
    assert!(youtube::item_event(&no_video).is_none());
}
