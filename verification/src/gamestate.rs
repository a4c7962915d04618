//! The full telemetry snapshot: provider, map, players, heroes, abilities,
//! items, draft and wearables, with lookups into the spectator tables.

use vstd::prelude::*;

use crate::abilities::GameAbilities;
use crate::buildings::Buildings;
use crate::heroes::GameHeroes;
use crate::heroes::Hero;
use crate::items::GameItems;
use crate::items::Items;
use crate::players::GamePlayers;
use crate::players::PlayerID;
use crate::team::Team;
use crate::team::team_matches;
use crate::text::str_eq;
use crate::wearables::GameWearables;

verus! {

/// The sender's authentication token, when one is configured.
#[derive(Debug)]
pub struct Auth {
    pub token: Option<String>,
}

/// The match phase the game rules report.
#[derive(Debug)]
pub enum DotaGameRulesState {
    Disconnected,
    InProgress,
    HeroSelection,
    Starting,
    Ending,
    PostGame,
    PreGame,
    StrategyTime,
    WaitingForMap,
    WaitingForPlayers,
    CustomGameSetup,
    /// Any other phase string, kept as received.
    Undefined(String),
}

/// The phase a game-rules name denotes.
pub open spec fn spec_rules_state_from(s: String) -> DotaGameRulesState {
    if s@ == "DOTA_GAMERULES_STATE_DISCONNECT"@ {
        DotaGameRulesState::Disconnected
    } else if s@ == "DOTA_GAMERULES_STATE_GAME_IN_PROGRESS"@ {
        DotaGameRulesState::InProgress
    } else if s@ == "DOTA_GAMERULES_STATE_HERO_SELECTION"@ {
        DotaGameRulesState::HeroSelection
    } else if s@ == "DOTA_GAMERULES_STATE_INIT"@ {
        DotaGameRulesState::Starting
    } else if s@ == "DOTA_GAMERULES_STATE_LAST"@ {
        DotaGameRulesState::Ending
    } else if s@ == "DOTA_GAMERULES_STATE_POST_GAME"@ {
        DotaGameRulesState::PostGame
    } else if s@ == "DOTA_GAMERULES_STATE_PRE_GAME"@ {
        DotaGameRulesState::PreGame
    } else if s@ == "DOTA_GAMERULES_STATE_STRATEGY_TIME"@ {
        DotaGameRulesState::StrategyTime
    } else if s@ == "DOTA_GAMERULES_STATE_WAIT_FOR_MAP_TO_LOAD"@ {
        DotaGameRulesState::WaitingForMap
    } else if s@ == "DOTA_GAMERULES_STATE_WAIT_FOR_PLAYERS_TO_LOAD"@ {
        DotaGameRulesState::WaitingForPlayers
    } else if s@ == "DOTA_GAMERULES_STATE_CUSTOM_GAME_SETUP"@ {
        DotaGameRulesState::CustomGameSetup
    } else {
        DotaGameRulesState::Undefined(s)
    }
}

impl From<String> for DotaGameRulesState {
    /// Parse a game-rules phase name; unknown names are kept as `Undefined`.
    fn from(s: String) -> (r: DotaGameRulesState) {
        if str_eq(s.as_str(), "DOTA_GAMERULES_STATE_DISCONNECT") {
            DotaGameRulesState::Disconnected
        } else if str_eq(s.as_str(), "DOTA_GAMERULES_STATE_GAME_IN_PROGRESS") {
            DotaGameRulesState::InProgress
        } else if str_eq(s.as_str(), "DOTA_GAMERULES_STATE_HERO_SELECTION") {
            DotaGameRulesState::HeroSelection
        } else if str_eq(s.as_str(), "DOTA_GAMERULES_STATE_INIT") {
            DotaGameRulesState::Starting
        } else if str_eq(s.as_str(), "DOTA_GAMERULES_STATE_LAST") {
            DotaGameRulesState::Ending
        } else if str_eq(s.as_str(), "DOTA_GAMERULES_STATE_POST_GAME") {
            DotaGameRulesState::PostGame
        } else if str_eq(s.as_str(), "DOTA_GAMERULES_STATE_PRE_GAME") {
            DotaGameRulesState::PreGame
        } else if str_eq(s.as_str(), "DOTA_GAMERULES_STATE_STRATEGY_TIME") {
            DotaGameRulesState::StrategyTime
        } else if str_eq(s.as_str(), "DOTA_GAMERULES_STATE_WAIT_FOR_MAP_TO_LOAD") {
            DotaGameRulesState::WaitingForMap
        } else if str_eq(s.as_str(), "DOTA_GAMERULES_STATE_WAIT_FOR_PLAYERS_TO_LOAD") {
            DotaGameRulesState::WaitingForPlayers
        } else if str_eq(s.as_str(), "DOTA_GAMERULES_STATE_CUSTOM_GAME_SETUP") {
            DotaGameRulesState::CustomGameSetup
        } else {
            DotaGameRulesState::Undefined(s)
        }
    }
}

impl vstd::std_specs::convert::FromSpecImpl<String> for DotaGameRulesState {
    open spec fn obeys_from_spec() -> bool {
        true
    }

    open spec fn from_spec(s: String) -> DotaGameRulesState {
        spec_rules_state_from(s)
    }
}

/// Who is sending the telemetry.
#[derive(Debug)]
pub struct Provider {
    pub name: String,
    pub app_id: u32,
    pub version: u32,
    pub timestamp: u32,
}

/// The map and match clock.
#[derive(Debug)]
pub struct GameMap {
    pub name: String,
    pub match_id: String,
    pub game_time: u32,
    pub clock_time: i32,
    pub daytime: bool,
    pub nightstalker_night: bool,
    pub game_state: DotaGameRulesState,
    pub paused: bool,
    pub win_team: Team,
    pub customgamename: String,
    pub ward_purchase_cooldown: Option<u16>,
}

/// The first per-team entry whose team matches, if any.
pub open spec fn spec_team_lookup<T>(entries: Seq<(Team, T)>, team: Team) -> Option<T>
    decreases entries.len(),
{
    if entries.len() == 0 {
        None
    } else if team_matches(entries[0].0, team) {
        Some(entries[0].1)
    } else {
        spec_team_lookup(entries.skip(1), team)
    }
}

/// The first per-player entry for this slot, if any.
pub open spec fn spec_player_lookup<T>(entries: Seq<(PlayerID, T)>, id: PlayerID) -> Option<T>
    decreases entries.len(),
{
    if entries.len() == 0 {
        None
    } else if entries[0].0 == id {
        Some(entries[0].1)
    } else {
        spec_player_lookup(entries.skip(1), id)
    }
}

/// Find a team's entry in a spectator table.
fn lookup_team<'a, T>(entries: &'a Vec<(Team, T)>, team: &Team) -> (r: Option<&'a T>)
    ensures
        match r {
            Some(t) => spec_team_lookup(entries@, *team) == Some(*t),
            None => spec_team_lookup(entries@, *team) is None,
        },
{
    let n = entries.len();
    let mut i: usize = 0;
    proof {
        assert(entries@.skip(0) =~= entries@);
    }
    while i < n
        invariant
            n == entries@.len(),
            0 <= i <= n,
            spec_team_lookup(entries@, *team) == spec_team_lookup(entries@.skip(i as int), *team),
        decreases n - i,
    {
        let entry = &entries[i];
        proof {
            assert(entries@.skip(i as int)[0] == entries@[i as int]);
        }
        if entry.0 == *team {
            return Some(&entry.1);
        }
        proof {
            assert(entries@.skip(i as int).skip(1) =~= entries@.skip(i + 1));
        }
        i = i + 1;
    }
    None
}

/// Find a player's entry in a per-team table.
fn lookup_player<'a, T>(entries: &'a Vec<(PlayerID, T)>, id: &PlayerID) -> (r: Option<&'a T>)
    ensures
        match r {
            Some(t) => spec_player_lookup(entries@, *id) == Some(*t),
            None => spec_player_lookup(entries@, *id) is None,
        },
{
    let n = entries.len();
    let mut i: usize = 0;
    proof {
        assert(entries@.skip(0) =~= entries@);
    }
    while i < n
        invariant
            n == entries@.len(),
            0 <= i <= n,
            spec_player_lookup(entries@, *id) == spec_player_lookup(entries@.skip(i as int), *id),
        decreases n - i,
    {
        let entry = &entries[i];
        proof {
            assert(entries@.skip(i as int)[0] == entries@[i as int]);
        }
        if entry.0 == *id {
            return Some(&entry.1);
        }
        proof {
            assert(entries@.skip(i as int).skip(1) =~= entries@.skip(i + 1));
        }
        i = i + 1;
    }
    None
}

/// One full telemetry snapshot. Parts that did not arrive, or arrived as an
/// empty object, are absent. The draft is kept as the raw bytes of each
/// player's draft object: its schema belongs to the consumers.
#[derive(Debug)]
pub struct GameState {
    pub provider: Provider,
    pub buildings: Option<Vec<(Team, Buildings)>>,
    pub map: Option<GameMap>,
    pub players: Option<GamePlayers>,
    pub heroes: Option<GameHeroes>,
    pub abilities: Option<GameAbilities>,
    pub items: Option<GameItems>,
    pub draft: Option<Vec<(Team, Vec<(PlayerID, Vec<u8>)>)>>,
    pub wearables: Option<GameWearables>,
}

impl GameState {
    /// The local player's items, when playing.
    pub fn get_items(&self) -> (r: Option<&Items>)
        ensures
            match r {
                Some(i) => self.items matches Some(GameItems::Playing(it)) && *i == it,
                None => !(self.items matches Some(GameItems::Playing(_))),
            },
    {
        match &self.items {
            Option::Some(GameItems::Playing(i)) => Some(i),
            _ => None,
        }
    }

    /// The hero data in view, in whichever shape it arrived.
    pub fn get_heroes(&self) -> (r: Option<&GameHeroes>)
        ensures
            match r {
                Some(h) => self.heroes matches Some(hs) && *h == hs,
                None => self.heroes is None,
            },
    {
        self.heroes.as_ref()
    }

    /// The hero data in view, under the name the original callers use.
    pub fn get_players(&self) -> (r: Option<&GameHeroes>)
        ensures
            match r {
                Some(h) => self.heroes matches Some(hs) && *h == hs,
                None => self.heroes is None,
            },
    {
        self.heroes.as_ref()
    }

    /// The local player's hero, when playing.
    pub fn get_hero(&self) -> (r: Option<&Hero>)
        ensures
            match r {
                Some(h) => self.heroes matches Some(GameHeroes::Playing(hero)) && *h == hero,
                None => !(self.heroes matches Some(GameHeroes::Playing(_))),
            },
    {
        match &self.heroes {
            Option::Some(GameHeroes::Playing(h)) => Some(h),
            _ => None,
        }
    }

    /// A spectated player's items: the entry for their team, then for their
    /// slot.
    pub fn get_team_player_items(&self, team: &Team, id: &PlayerID) -> (r: Option<&Items>)
        ensures
            match self.items {
                Some(GameItems::Spectating(m)) => match spec_team_lookup(m@, *team) {
                    Some(per_team) => match spec_player_lookup(per_team@, *id) {
                        Some(it) => r matches Some(i) && *i == it,
                        None => r is None,
                    },
                    None => r is None,
                },
                _ => r is None,
            },
    {
        match &self.items {
            Option::Some(GameItems::Spectating(m)) => match lookup_team(m, team) {
                Option::Some(per_team) => lookup_player(per_team, id),
                Option::None => None,
            },
            _ => None,
        }
    }

    /// A spectated player's hero: the entry for their team, then for their
    /// slot.
    pub fn get_team_player_hero(&self, team: &Team, id: &PlayerID) -> (r: Option<&Hero>)
        ensures
            match self.heroes {
                Some(GameHeroes::Spectating(m)) => match spec_team_lookup(m@, *team) {
                    Some(per_team) => match spec_player_lookup(per_team@, *id) {
                        Some(h) => r matches Some(hero) && *hero == h,
                        None => r is None,
                    },
                    None => r is None,
                },
                _ => r is None,
            },
    {
        match &self.heroes {
            Option::Some(GameHeroes::Spectating(m)) => match lookup_team(m, team) {
                Option::Some(per_team) => lookup_player(per_team, id),
                Option::None => None,
            },
            _ => None,
        }
    }
}

} // verus!
