use activity_sync::cycle::{filter_events_to_be_posted, DeliveryAction, DeliveryCycle};
use activity_sync::daylight::{CalendarDate, DaylightSavingConfig};
use activity_sync::dedup::DedupStore;
use activity_sync::event::Duration::{StartEnd, WholeDay};
use activity_sync::event::{Duration, EventWithId};
use activity_sync::fetch::{DetailFetch, FetchAction, FetchEvent};
use activity_sync::filter::{filter_event, filter_event_at, FilterPolicy};
use activity_sync::modules::filter_loaded_modules;

fn event(summary: &str, duration: Duration, id: &str) -> EventWithId {
    EventWithId {
        summary: summary.to_string(),
        description: "".to_string(),
        duration,
        id: id.to_string(),
    }
}

fn summaries(events: &[EventWithId]) -> Vec<String> {
    events.iter().map(|e| e.summary.clone()).collect()
}

const MIN: i64 = 60;
const HOUR: i64 = 3600;
const DAY: i64 = 86400;

#[test]
fn test_filter_event() {
    let now = chrono::Utc::now().timestamp();
    let today = now.div_euclid(DAY);
    let events: Vec<EventWithId> = vec![
        event("1", StartEnd(now - 2 * HOUR, now - HOUR - 30 * MIN), ""),
        event("2", StartEnd(now - 3 * HOUR, now - 30 * MIN), ""),
        event("3", StartEnd(now - 40 * MIN, now + 30 * MIN), ""),
        event("4", WholeDay(today), ""),
        event("5", WholeDay(today - 1), ""),
        event("6", WholeDay(today + 1), ""),
    ];
    let filtered_events = filter_event(events, FilterPolicy::default());
    let filtered_ids = filtered_events.iter().map(|e| e.summary.parse::<i32>().unwrap()).collect::<Vec<i32>>();
    assert_eq!(filtered_ids, vec![1, 5])
}

#[test]
fn in_progress_boundary() {
    let t = 1_700_000_000;
    let events = vec![
        event("closed", StartEnd(t - 3 * HOUR, t - 61 * MIN), "a"),
        event("open", StartEnd(t - 3 * HOUR, t - 59 * MIN), "b"),
        event("exactly an hour", StartEnd(t - 3 * HOUR, t - HOUR), "c"),
    ];
    let kept = filter_event_at(events, t, FilterPolicy::default());
    assert_eq!(summaries(&kept), vec!["closed"]);
}

#[test]
fn whole_day_boundary() {
    let d = 19_000;
    let t = d * DAY + 12 * HOUR;
    let events = vec![
        event("today", WholeDay(d), "a"),
        event("yesterday", WholeDay(d - 1), "b"),
        event("tomorrow", WholeDay(d + 1), "c"),
    ];
    let kept = filter_event_at(events, t, FilterPolicy::default());
    assert_eq!(summaries(&kept), vec!["yesterday"]);
}

#[test]
fn whole_day_boundary_before_epoch() {
    let t = -1;
    let events = vec![event("day -1", WholeDay(-1), "a"), event("day -2", WholeDay(-2), "b")];
    let kept = filter_event_at(events, t, FilterPolicy::default());
    assert_eq!(summaries(&kept), vec!["day -2"]);
}

#[test]
fn minimum_duration_boundary() {
    let t = 1_700_000_000;
    let start = t - 5 * HOUR;
    let events = vec![
        event("five minutes", StartEnd(start, start + 5 * MIN), "a"),
        event("five minutes one second", StartEnd(start, start + 5 * MIN + 1), "b"),
        event("all day", WholeDay(0), "c"),
    ];
    let kept = filter_event_at(events, t, FilterPolicy::default());
    assert_eq!(summaries(&kept), vec!["five minutes one second", "all day"]);
}

#[test]
fn per_source_override() {
    let t = 1_700_000_000;
    let short = || vec![event("ten seconds", StartEnd(t - 3 * HOUR, t - 3 * HOUR + 10), "a")];
    let default_kept = filter_event_at(short(), t, FilterPolicy::default());
    assert!(default_kept.is_empty());
    let keeps_short = FilterPolicy { suppress_in_progress: true, suppress_short: false };
    let kept = filter_event_at(short(), t, keeps_short);
    assert_eq!(summaries(&kept), vec!["ten seconds"]);
    let open = || vec![event("open", StartEnd(t - HOUR, t + HOUR), "b")];
    assert!(filter_event_at(open(), t, FilterPolicy::default()).is_empty());
    let keeps_open = FilterPolicy { suppress_in_progress: false, suppress_short: true };
    assert_eq!(summaries(&filter_event_at(open(), t, keeps_open)), vec!["open"]);
}

#[test]
fn dedup_across_two_halves() {
    let mut store = DedupStore::new();
    let first = vec![
        event("a1", WholeDay(1), "s|a"),
        event("b1", WholeDay(1), "s|b"),
        event("a2", WholeDay(1), "s|a"),
    ];
    let second = vec![
        event("b2", WholeDay(1), "s|b"),
        event("c1", WholeDay(1), "s|c"),
        event("c2", WholeDay(1), "s|c"),
    ];
    let one = store.accept(first);
    let two = store.accept(second);
    assert_eq!(summaries(&one), vec!["a1", "b1"]);
    assert_eq!(summaries(&two), vec!["c1"]);
    assert_eq!(store.len(), 3);
    let again = store.accept(vec![event("a3", WholeDay(2), "s|a")]);
    assert!(again.is_empty());
}

#[test]
fn dedup_store_round_trip() {
    let store = DedupStore::from_ids(vec!["x".to_string(), "y".to_string(), "x".to_string()]);
    assert_eq!(store.len(), 2);
    assert!(store.contains(&"x".to_string()));
    assert!(!store.contains(&"z".to_string()));
    let mut ids = store.to_vec();
    ids.sort();
    assert_eq!(ids, vec!["x".to_string(), "y".to_string()]);
    let mut store = store;
    assert!(store.insert("z".to_string()));
    assert!(!store.insert("z".to_string()));
    assert_eq!(store.len(), 3);
}

#[test]
fn filter_then_dedup() {
    let t = 1_700_000_000;
    let mut store = DedupStore::from_ids(vec!["s|old".to_string()]);
    let events = vec![
        event("old", StartEnd(t - 5 * HOUR, t - 4 * HOUR), "s|old"),
        event("new", StartEnd(t - 5 * HOUR, t - 4 * HOUR), "s|new"),
        event("open", StartEnd(t - 5 * HOUR, t), "s|open"),
    ];
    let out = filter_events_to_be_posted(&mut store, events, t, FilterPolicy::default());
    assert_eq!(summaries(&out), vec!["new"]);
    assert!(store.contains(&"s|new".to_string()));
    assert!(!store.contains(&"s|open".to_string()));
}

#[test]
fn two_stage_fetch_in_order() {
    let urls = vec!["u1".to_string(), "u2".to_string(), "u3".to_string()];
    let mut run = DetailFetch::new("index".to_string(), Some(urls));
    let mut asked = vec![];
    loop {
        match run.next_action() {
            FetchAction::Get(url) => {
                let body = format!("body of {}", url);
                asked.push(url);
                run.record(FetchEvent::Fetched(body));
            }
            FetchAction::Parse => break,
            FetchAction::Abort => panic!("no fetch failed"),
        }
    }
    assert_eq!(asked, vec!["u1", "u2", "u3"]);
    assert_eq!(run.into_responses(), vec!["body of u1", "body of u2", "body of u3"]);
}

#[test]
fn fetch_without_detail_stage() {
    let run = DetailFetch::new("index".to_string(), None);
    assert!(matches!(run.next_action(), FetchAction::Parse));
    assert_eq!(run.into_responses(), vec!["index"]);
    let run = DetailFetch::new("index".to_string(), Some(vec![]));
    assert!(matches!(run.next_action(), FetchAction::Parse));
    assert!(run.into_responses().is_empty());
}

#[test]
fn failed_detail_fetch_aborts() {
    let mut run = DetailFetch::new("index".to_string(), Some(vec!["u1".to_string(), "u2".to_string()]));
    run.record(FetchEvent::Fetched("b1".to_string()));
    run.record(FetchEvent::Failed);
    assert!(matches!(run.next_action(), FetchAction::Abort));
}

#[test]
fn delivery_persists_only_when_all_delivered() {
    let events = || vec![event("a", WholeDay(1), "s|a"), event("b", WholeDay(1), "s|b")];
    let mut ok = DeliveryCycle::new(events());
    let mut delivered = vec![];
    loop {
        match ok.next_action() {
            DeliveryAction::Deliver(e) => {
                delivered.push(e.summary);
                ok.record(true);
            }
            DeliveryAction::Persist => break,
            DeliveryAction::Abandon => panic!("nothing failed"),
        }
    }
    assert_eq!(delivered, vec!["a", "b"]);
    let mut failing = DeliveryCycle::new(events());
    assert!(matches!(failing.next_action(), DeliveryAction::Deliver(_)));
    failing.record(false);
    assert!(matches!(failing.next_action(), DeliveryAction::Abandon));
    let mut empty = DeliveryCycle::new(vec![]);
    assert!(matches!(empty.next_action(), DeliveryAction::Persist));
}

#[test]
fn loaded_modules_keep_successes_in_order() {
    let modules: Vec<Result<&str, String>> = vec![Ok("a"), Err("missing config".to_string()), Ok("c")];
    assert_eq!(filter_loaded_modules(modules), vec!["a", "c"]);
}

#[test]
fn test_get_offset_on() {
    let config = DaylightSavingConfig {
        start: (3, 11),
        end: (11, 4),
        effective: -5,
        standard: -6,
        local: 0,
    };
    let date = |year, month, day| CalendarDate { year, month, day };

    assert_eq!(config.get_offset_on(&date(2020, 1, 2)), -6);
    assert_eq!(config.get_offset_on(&date(2020, 3, 1)), -6);
    assert_eq!(config.get_offset_on(&date(2020, 3, 15)), -5);
    assert_eq!(config.get_offset_on(&date(2020, 11, 1)), -5);
    assert_eq!(config.get_offset_on(&date(2020, 11, 12)), -6);
    assert_eq!(config.get_offset_on(&date(2020, 12, 2)), -6);
}

use activity_sync::schedule::{Scheduler, SchedulerAction};

#[test]
fn scheduler_runs_bounded_ticks() {
    let mut scheduler = Scheduler::new(2, Some(3));
    let mut actions = vec![];
    loop {
        let action = scheduler.next_action();
        actions.push(action);
        if action == SchedulerAction::Stop {
            break;
        }
    }
    let tick = [SchedulerAction::WaitForTick, SchedulerAction::RunCycle(0), SchedulerAction::RunCycle(1)];
    let mut expected: Vec<SchedulerAction> = tick.iter().cycle().take(9).copied().collect();
    expected.push(SchedulerAction::Stop);
    assert_eq!(actions, expected);
}

#[test]
fn scheduler_without_sources_only_waits() {
    let mut scheduler = Scheduler::new(0, None);
    for _ in 0..5 {
        assert_eq!(scheduler.next_action(), SchedulerAction::WaitForTick);
    }
}
