use vstd::prelude::*;
use vstd::string::*;

use crate::event::{Duration, EventWithId};
use crate::filter::{floor_div, floor_div_spec};
use crate::number::{i64_value, parse_i64_text, parse_u64_text, u64_value};
use crate::pattern::{decimal, decimal_digits, first_captures, group, regex_captures, trim, trimmed, views};

verus! {

/// The name that namespaces this source's event ids.
pub const IDENTIFIER: &'static str = "league_of_graphs";

pub const DURATION_PATTERN: &'static str = r"(\d+)min (\d+)s";

pub const ID_PATTERN: &'static str = r"match-(\d+)";

pub const DATE_PATTERN: &'static str = r"new Date\((\d+)";

/// Why a row of the match-history page could not be read.
#[derive(Clone, Copy, Debug, PartialEq, Eq, Structural)]
pub enum ParseError {
    /// The duration text is not of the form `<m>min <s>s`.
    DurationError,
    /// A number in the row does not fit its type.
    ParseFails,
    /// The row's script names no `match-<id>`.
    IdError,
    /// The row's script holds no `new Date(<millis>)`.
    DateError,
}

/// One game of the match history.
#[derive(Clone, Debug)]
pub struct GameObject {
    pub id: u64,
    /// When the game was created, in milliseconds since the Unix epoch.
    pub creation: i64,
    /// How long the game lasted, in seconds.
    pub duration: i64,
    pub mode: String,
}

/// The seconds that a duration text such as `10min 30s` denotes.
pub open spec fn duration_of(s: Seq<char>) -> Result<i64, ParseError> {
    let caps = regex_captures(DURATION_PATTERN@, s);
    match (group(caps, 1), group(caps, 2)) {
        (Some(m), Some(sec)) => match (i64_value(m), i64_value(sec)) {
            (Some(m), Some(sec)) => if i64::MIN <= m * 60 + sec <= i64::MAX {
                Ok((m * 60 + sec) as i64)
            } else {
                Err(ParseError::ParseFails)
            },
            _ => Err(ParseError::ParseFails),
        },
        _ => Err(ParseError::DurationError),
    }
}

/// Reads a game duration such as `10min 30s` into seconds.
pub fn parse_duration(s: &str) -> (r: Result<i64, ParseError>)
    ensures
        r == duration_of(s@),
{
    let caps = first_captures(DURATION_PATTERN, s);
    let groups = match caps {
        Some(g) => g,
        None => {
            return Err(ParseError::DurationError);
        },
    };
    if groups.len() < 3 {
        return Err(ParseError::DurationError);
    }
    let minute = match parse_i64_text(groups[1].as_str()) {
        Some(v) => v,
        None => {
            return Err(ParseError::ParseFails);
        },
    };
    let second = match parse_i64_text(groups[2].as_str()) {
        Some(v) => v,
        None => {
            return Err(ParseError::ParseFails);
        },
    };
    let total: i128 = minute as i128 * 60 + second as i128;
    if total < i64::MIN as i128 || total > i64::MAX as i128 {
        return Err(ParseError::ParseFails);
    }
    Ok(total as i64)
}

/// The id, creation time and duration that a row's script and duration text
/// give, or the first failure met reading them.
pub open spec fn game_fields(script: Seq<char>, duration: Seq<char>) -> Result<
    (u64, i64, i64),
    ParseError,
> {
    let id_text = group(regex_captures(ID_PATTERN@, script), 1);
    let date_text = group(regex_captures(DATE_PATTERN@, script), 1);
    if id_text is None {
        Err(ParseError::IdError)
    } else if date_text is None {
        Err(ParseError::DateError)
    } else {
        match (u64_value(id_text->0), i64_value(date_text->0)) {
            (Some(id), Some(creation)) => match duration_of(trimmed(duration)) {
                Ok(d) => Ok((id, creation, d)),
                Err(e) => Err(e),
            },
            _ => Err(ParseError::ParseFails),
        }
    }
}

fn group_text(caps: Option<Vec<String>>, i: usize) -> (r: Option<String>)
    ensures
        match r {
            Some(t) => group(
                match caps {
                    Some(g) => Some(views(g@)),
                    None => None,
                },
                i as int,
            ) == Some(t@),
            None => group(
                match caps {
                    Some(g) => Some(views(g@)),
                    None => None,
                },
                i as int,
            ) is None,
        },
{
    match caps {
        Some(mut g) => {
            if i < g.len() {
                let ghost before = g@;
                let t = g.swap_remove(i);
                assert(t == before[i as int]);
                Some(t)
            } else {
                None
            }
        },
        None => None,
    }
}

/// Reads one row of the match history: the row's script, game-mode text and
/// duration text.
pub fn parse_individual_game(script: &str, mode: &str, duration: &str) -> (r: Result<
    GameObject,
    ParseError,
>)
    ensures
        match r {
            Ok(g) => game_fields(script@, duration@) == Ok::<(u64, i64, i64), ParseError>(
                (g.id, g.creation, g.duration),
            ) && g.mode@ == trimmed(mode@),
            Err(e) => game_fields(script@, duration@) == Err::<(u64, i64, i64), ParseError>(e),
        },
{
    let id_text = match group_text(first_captures(ID_PATTERN, script), 1) {
        Some(t) => t,
        None => {
            return Err(ParseError::IdError);
        },
    };
    let date_text = match group_text(first_captures(DATE_PATTERN, script), 1) {
        Some(t) => t,
        None => {
            return Err(ParseError::DateError);
        },
    };
    let id = match parse_u64_text(id_text.as_str()) {
        Some(v) => v,
        None => {
            return Err(ParseError::ParseFails);
        },
    };
    let creation = match parse_i64_text(date_text.as_str()) {
        Some(v) => v,
        None => {
            return Err(ParseError::ParseFails);
        },
    };
    let trimmed_duration = trim(duration);
    let seconds = parse_duration(trimmed_duration.as_str())?;
    Ok(GameObject { id, creation, duration: seconds, mode: trim(mode) })
}

/// The id of a game's event: the source name, then the game id.
pub open spec fn game_event_id(id: u64) -> Seq<char> {
    IDENTIFIER@ + "|"@ + decimal_digits(id as nat)
}

impl GameObject {
    /// The id of this game's event, `league_of_graphs|<game id>`.
    pub fn id(&self) -> (r: String)
        ensures
            r@ == game_event_id(self.id),
    {
        String::from_str(IDENTIFIER).concat("|").concat(decimal(self.id).as_str())
    }
}

/// The event of a game: from its creation (to the second) for as long as
/// it lasted; `None` when that end lies beyond the range of `i64` seconds.
pub fn game_event(g: &GameObject) -> (r: Option<EventWithId>)
    ensures
        ({
            let start = floor_div_spec(g.creation as int, 1000);
            let end = start + g.duration;
            match r {
                Some(e) => i64::MIN <= end <= i64::MAX && e.duration == Duration::StartEnd(
                    start as i64,
                    end as i64,
                ) && e.id@ == game_event_id(g.id) && e.summary@ == "[League of Legends] "@
                    + g.mode@ && e.description@ == "[link] https://www.leagueofgraphs.com/match/na/"@
                    + decimal_digits(g.id as nat) + "\n[mode] "@ + g.mode@ + "\n[hash] "@
                    + game_event_id(g.id),
                None => !(i64::MIN <= end <= i64::MAX),
            }
        }),
{
    let start = floor_div(g.creation, 1000);
    let end: i128 = start as i128 + g.duration as i128;
    if end < i64::MIN as i128 || end > i64::MAX as i128 {
        return None;
    }
    let id = g.id();
    let summary = String::from_str("[League of Legends] ").concat(g.mode.as_str());
    let description = String::from_str("[link] https://www.leagueofgraphs.com/match/na/").concat(
        decimal(g.id).as_str(),
    ).concat("\n[mode] ").concat(g.mode.as_str()).concat("\n[hash] ").concat(id.as_str());
    Some(EventWithId { summary, description, duration: Duration::StartEnd(start, end as i64), id })
}

} // verus!
