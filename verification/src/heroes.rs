//! Heroes: the local hero's full state, or every hero when spectating.
//!
//! During hero selection most readings are absent, so nearly every field is
//! optional; only the hero's numeric id always arrives (and is `-1` while no
//! hero is picked).

use vstd::prelude::*;

use crate::players::PlayerID;
use crate::team::Team;

verus! {

/// One hero's state, as the telemetry reports it. The field `break_active`
/// carries the reading the telemetry names `break` (passives disabled), which
/// is not a usable field name here.
#[derive(Debug)]
pub struct Hero {
    pub xpos: Option<i32>,
    pub ypos: Option<i32>,
    pub id: i16,
    pub name: Option<String>,
    pub level: Option<u8>,
    pub xp: Option<u32>,
    pub alive: Option<bool>,
    pub respawn_seconds: Option<u16>,
    pub buyback_cost: Option<u16>,
    pub buyback_cooldown: Option<u16>,
    pub health: Option<u16>,
    pub max_health: Option<u16>,
    pub health_percent: Option<u8>,
    pub mana: Option<u16>,
    pub max_mana: Option<u16>,
    pub mana_percent: Option<u16>,
    pub silenced: Option<bool>,
    pub stunned: Option<bool>,
    pub disarmed: Option<bool>,
    pub magicimmune: Option<bool>,
    pub hexed: Option<bool>,
    pub muted: Option<bool>,
    pub break_active: Option<bool>,
    pub aghanims_scepter: Option<bool>,
    pub aghanims_shard: Option<bool>,
    pub smoked: Option<bool>,
    pub has_debuff: Option<bool>,
    pub talent_1: Option<bool>,
    pub talent_2: Option<bool>,
    pub talent_3: Option<bool>,
    pub talent_4: Option<bool>,
    pub talent_5: Option<bool>,
    pub talent_6: Option<bool>,
    pub talent_7: Option<bool>,
    pub talent_8: Option<bool>,
}

/// Hero data for the one local hero (playing) or per team and player
/// (spectating).
#[derive(Debug)]
pub enum GameHeroes {
    /// Per team, per slot: each player's hero.
    Spectating(Vec<(Team, Vec<(PlayerID, Hero)>)>),
    /// The local player's hero.
    Playing(Hero),
}

} // verus!
