//! Players: identity, activity and per-player match statistics.

use vstd::prelude::*;

use crate::team::Team;
use crate::text::all_digit_chars;
use crate::text::digits_value;
use crate::text::parse_digits_u8;
use crate::text::spec_has_prefix;
use crate::text::str_eq;
use crate::text::str_has_prefix;

verus! {

/// What can go wrong while reading player data.
#[derive(Debug, Clone, PartialEq, Eq)]
pub enum PlayersError {
    /// A player key did not hold a usable player number; the offending key is
    /// kept.
    ParseIDError(String),
    /// A player object held no player at all.
    EmptyPlayer,
}

/// What a player is currently doing.
#[derive(Debug)]
pub enum PlayerActivity {
    /// In the menus.
    Menu,
    /// In a match.
    Playing,
    /// Any other activity string, kept as received.
    Undefined(String),
}

/// The activity a name denotes.
pub open spec fn spec_player_activity_from(s: String) -> PlayerActivity {
    if s@ == "menu"@ {
        PlayerActivity::Menu
    } else if s@ == "playing"@ {
        PlayerActivity::Playing
    } else {
        PlayerActivity::Undefined(s)
    }
}

impl From<String> for PlayerActivity {
    /// Parse an activity name; unknown names are kept as `Undefined`.
    fn from(s: String) -> (r: PlayerActivity) {
        if str_eq(s.as_str(), "menu") {
            PlayerActivity::Menu
        } else if str_eq(s.as_str(), "playing") {
            PlayerActivity::Playing
        } else {
            PlayerActivity::Undefined(s)
        }
    }
}

impl vstd::std_specs::convert::FromSpecImpl<String> for PlayerActivity {
    open spec fn obeys_from_spec() -> bool {
        true
    }

    open spec fn from_spec(s: String) -> PlayerActivity {
        spec_player_activity_from(s)
    }
}

/// A player's slot number, as in the key `player3`.
#[derive(Debug, Clone, Copy, PartialEq, Eq, Structural)]
pub struct PlayerID(pub u8);

impl From<u8> for PlayerID {
    /// The slot with this number.
    fn from(n: u8) -> (r: PlayerID) {
        PlayerID(n)
    }
}

impl vstd::std_specs::convert::FromSpecImpl<u8> for PlayerID {
    open spec fn obeys_from_spec() -> bool {
        true
    }

    open spec fn from_spec(n: u8) -> PlayerID {
        PlayerID(n)
    }
}

/// Parse a key of the form `player<digits>` into a player ID. Anything else —
/// a different prefix, a missing or oversized number — is a parse error that
/// keeps the offending key.
pub fn parse_player_id(s: String) -> (r: Result<PlayerID, PlayersError>)
    ensures
        ({
            let digits = s@.skip("player"@.len() as int);
            if spec_has_prefix(s@, "player"@) && digits.len() > 0 && all_digit_chars(digits)
                && digits_value(digits) <= 255 {
                r matches Ok(id) && id.0 as int == digits_value(digits)
            } else {
                r == Err::<PlayerID, PlayersError>(PlayersError::ParseIDError(s))
            }
        }),
{
    if str_has_prefix(s.as_str(), "player") {
        let plen = "player".unicode_len();
        proof {
            assert("player"@.len() <= s@.len());
        }
        match parse_digits_u8(s.as_str(), plen) {
            Some(n) => Ok(PlayerID(n)),
            None => Err(PlayersError::ParseIDError(s)),
        }
    } else {
        Err(PlayersError::ParseIDError(s))
    }
}

/// One player's match statistics, as the telemetry reports them.
#[derive(Debug)]
pub struct PlayerInformation {
    pub steamid: String,
    pub name: String,
    pub activity: PlayerActivity,
    pub kills: u16,
    pub deaths: u16,
    pub assists: u16,
    pub last_hits: u16,
    pub denies: u16,
    pub kill_streak: u16,
    /// Victim name to kill count.
    pub kill_list: Vec<(String, u32)>,
    pub commands_issued: u32,
    pub team_name: Team,
    pub gold: u32,
    pub gold_reliable: u32,
    pub gold_unreliable: u32,
    pub gold_from_hero_kills: u32,
    pub gold_from_creep_kills: u32,
    pub gold_from_income: u32,
    pub gold_from_shared: u32,
    pub net_worth: Option<u32>,
    pub gpm: u32,
    pub xpm: u32,
}

/// A player together with the key it arrived under.
#[derive(Debug)]
pub struct Player {
    pub id: String,
    pub information: PlayerInformation,
}

/// Player data for everyone in the match (spectating) or for the one local
/// player (playing).
#[derive(Debug)]
pub enum GamePlayers {
    /// Per team, per slot: each player's statistics.
    Spectating(Vec<(Team, Vec<(PlayerID, PlayerInformation)>)>),
    /// The local player's statistics.
    Playing(PlayerInformation),
}

} // verus!
