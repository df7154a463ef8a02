use vstd::prelude::*;
use vstd::string::*;

use crate::event::{Duration, EventWithId};
use crate::pattern::{signed, signed_decimal};

verus! {

/// The name that namespaces this source's event ids.
pub const IDENTIFIER: &'static str = "league_of_legends";

/// One game of the match-history response.
#[derive(Clone, Debug)]
pub struct GameObject {
    pub game_id: i64,
    pub platform_id: String,
    /// When the game was created, in milliseconds since the Unix epoch.
    pub game_creation: i64,
    /// How long the game lasted, in seconds.
    pub game_duration: i64,
    pub game_mode: String,
    pub game_type: String,
    /// The account id of each participant, in the response's order.
    pub participant_account_ids: Vec<i64>,
}

/// `league_of_legends|<platform>|<game id>|<first participant's account>`,
/// if the game has a participant.
pub open spec fn game_event_id(g: GameObject) -> Option<Seq<char>> {
    if g.participant_account_ids@.len() > 0 {
        Some(
            IDENTIFIER@ + "|"@ + g.platform_id@ + "|"@ + signed_decimal(g.game_id as int) + "|"@
                + signed_decimal(g.participant_account_ids@[0] as int),
        )
    } else {
        None
    }
}

/// `a / b` rounded towards zero, as Rust's integer division does.
pub open spec fn trunc_div(a: int, b: int) -> int {
    if a >= 0 {
        a / b
    } else {
        -((-a) / b)
    }
}

impl GameObject {
    pub fn id(&self) -> (r: Option<String>)
        ensures
            match r {
                Some(t) => game_event_id(*self) == Some(t@),
                None => game_event_id(*self) is None,
            },
    {
        if self.participant_account_ids.len() == 0 {
            return None;
        }
        Some(
            String::from_str(IDENTIFIER).concat("|").concat(self.platform_id.as_str()).concat(
                "|",
            ).concat(signed(self.game_id).as_str()).concat("|").concat(
                signed(self.participant_account_ids[0]).as_str(),
            ),
        )
    }
}

/// The event of a game of the history of account `account_id`: from its
/// creation (to the second) for as long as it lasted. `None` when the game
/// has no participant or its end lies beyond the range of `i64` seconds.
pub fn game_event(g: &GameObject, account_id: i64) -> (r: Option<EventWithId>)
    ensures
        ({
            let start = trunc_div(g.game_creation as int, 1000);
            let end = start + g.game_duration;
            match r {
                Some(e) => i64::MIN <= end <= i64::MAX && game_event_id(*g) == Some(e.id@)
                    && e.duration == Duration::StartEnd(start as i64, end as i64) && e.summary@
                    == "[League of Legends] "@ + g.game_mode@ && e.description@ == "[link] "@
                    + "https://matchhistory.na.leagueoflegends.com/en/#match-details/NA1/"@
                    + signed_decimal(g.game_id as int) + "/"@ + signed_decimal(account_id as int)
                    + "\n[mode] "@ + g.game_mode@ + " "@ + g.game_type@ + "\n[hash] "@ + e.id@,
                None => game_event_id(*g) is None || !(i64::MIN <= end <= i64::MAX),
            }
        }),
{
    let id = match g.id() {
        Some(id) => id,
        None => {
            return None;
        },
    };
    let creation = g.game_creation as i128;
    let start: i128 = if creation >= 0 {
        creation / 1000
    } else {
        -((-creation) / 1000)
    };
    let end: i128 = start + g.game_duration as i128;
    if end < i64::MIN as i128 || end > i64::MAX as i128 {
        return None;
    }
    let link = String::from_str(
        "https://matchhistory.na.leagueoflegends.com/en/#match-details/NA1/",
    ).concat(signed(g.game_id).as_str()).concat("/").concat(signed(account_id).as_str());
    let summary = String::from_str("[League of Legends] ").concat(g.game_mode.as_str());
    let description = String::from_str("[link] ").concat(link.as_str()).concat(
        "\n[mode] ",
    ).concat(g.game_mode.as_str()).concat(" ").concat(g.game_type.as_str()).concat(
        "\n[hash] ",
    ).concat(id.as_str());
    Some(
        EventWithId {
            summary,
            description,
            duration: Duration::StartEnd(start as i64, end as i64),
            id,
        },
    )
}

} // verus!
