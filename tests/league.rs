use activity_sync::event::Duration;
use activity_sync::league_of_graphs::{game_event, parse_duration, parse_individual_game, GameObject, ParseError};

#[test]
fn test_parse_duration() {
    match parse_duration("10min 30s") {
        Ok(r) => assert_eq!(r, 630),
        Err(e) => {
            println!("{:?}", e);
            panic!()
        }
    }
}

#[test]
fn parse_duration_errors() {
    assert_eq!(parse_duration("ten minutes"), Err(ParseError::DurationError));
    assert_eq!(parse_duration("99999999999999999999min 1s"), Err(ParseError::ParseFails));
    assert_eq!(parse_duration("153722867280912931min 0s"), Err(ParseError::ParseFails));
    assert_eq!(parse_duration("153722867280912930min 7s"), Ok(i64::MAX));
    assert_eq!(parse_duration("0min 0s"), Ok(0));
}

const SCRIPT: &str = "var newTooltipData = {\"match-4471269577\": (new Date(1666411915909).toLocaleDateString() + \" \" + new Date(1666411915909).toLocaleTimeString()) + \" - 10min 20s\"};";

#[test]
fn parse_individual_game_reads_row() {
    let g = parse_individual_game(SCRIPT, "ARAM        ", "10min 20s        ").unwrap();
    assert_eq!(g.id, 4471269577);
    assert_eq!(g.creation, 1666411915909);
    assert_eq!(g.duration, 620);
    assert_eq!(g.mode, "ARAM");
}

#[test]
fn parse_individual_game_errors() {
    assert_eq!(parse_individual_game("no id", "ARAM", "1min 1s").unwrap_err(), ParseError::IdError);
    assert_eq!(parse_individual_game("match-12", "ARAM", "1min 1s").unwrap_err(), ParseError::DateError);
    assert_eq!(
        parse_individual_game("match-99999999999999999999 new Date(1", "ARAM", "1min 1s").unwrap_err(),
        ParseError::ParseFails
    );
    assert_eq!(
        parse_individual_game("match-1 new Date(1", "ARAM", "soon").unwrap_err(),
        ParseError::DurationError
    );
}

#[test]
fn game_event_text_and_window() {
    let g = GameObject { id: 4471269577, creation: 1666411915909, duration: 620, mode: "ARAM".to_string() };
    assert_eq!(g.id(), "league_of_graphs|4471269577");
    let e = game_event(&g).unwrap();
    assert_eq!(e.id, "league_of_graphs|4471269577");
    assert_eq!(e.summary, "[League of Legends] ARAM");
    assert_eq!(
        e.description,
        "[link] https://www.leagueofgraphs.com/match/na/4471269577\n[mode] ARAM\n[hash] league_of_graphs|4471269577"
    );
    assert_eq!(e.duration, Duration::StartEnd(1666411915, 1666412535));
}

#[test]
fn game_event_negative_creation_and_overflow() {
    let g = GameObject { id: 0, creation: -1, duration: 60, mode: String::new() };
    assert_eq!(game_event(&g).unwrap().duration, Duration::StartEnd(-1, 59));
    let g = GameObject { id: 7, creation: 0, duration: i64::MAX, mode: String::new() };
    assert_eq!(game_event(&g).unwrap().duration, Duration::StartEnd(0, i64::MAX));
    let g = GameObject { id: 7, creation: 1000, duration: i64::MAX, mode: String::new() };
    assert!(game_event(&g).is_none());
}
