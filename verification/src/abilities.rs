//! Abilities: what each hero can cast, keyed by ability slot.

use vstd::prelude::*;

use crate::players::PlayerID;
use crate::team::Team;
use crate::text::all_digit_chars;
use crate::text::digits_value;
use crate::text::parse_digits_u8;
use crate::text::spec_has_prefix;
use crate::text::str_has_prefix;

verus! {

/// What can go wrong while reading ability data.
#[derive(Debug, Clone, PartialEq, Eq)]
pub enum AbilitiesError {
    /// An ability key did not hold a usable ability number; the offending key
    /// is kept.
    ParseIDError(String),
}

/// One ability's state.
#[derive(Debug)]
pub struct Ability {
    pub name: String,
    pub level: u8,
    pub can_cast: bool,
    pub passive: bool,
    pub ability_active: bool,
    pub cooldown: u16,
    pub ultimate: bool,
}

/// An ability's slot number, as in the key `ability2`.
#[derive(Debug, Clone, Copy, PartialEq, Eq, Structural)]
pub struct AbilityID(pub u8);

/// Parse a key of the form `ability<digits>` into an ability ID. Anything
/// else is a parse error that keeps the offending key.
pub fn parse_ability_id(s: String) -> (r: Result<AbilityID, AbilitiesError>)
    ensures
        ({
            let digits = s@.skip("ability"@.len() as int);
            if spec_has_prefix(s@, "ability"@) && digits.len() > 0 && all_digit_chars(digits)
                && digits_value(digits) <= 255 {
                r matches Ok(id) && id.0 as int == digits_value(digits)
            } else {
                r == Err::<AbilityID, AbilitiesError>(AbilitiesError::ParseIDError(s))
            }
        }),
{
    if str_has_prefix(s.as_str(), "ability") {
        let plen = "ability".unicode_len();
        proof {
            assert("ability"@.len() <= s@.len());
        }
        match parse_digits_u8(s.as_str(), plen) {
            Some(n) => Ok(AbilityID(n)),
            None => Err(AbilitiesError::ParseIDError(s)),
        }
    } else {
        Err(AbilitiesError::ParseIDError(s))
    }
}

/// Ability data for the one local hero (playing), per team and player
/// (spectating), or absent outside a match.
#[derive(Debug)]
pub enum GameAbilities {
    /// Per team, per slot: each player's abilities by ability slot.
    Spectating(Vec<(Team, Vec<(PlayerID, Vec<(AbilityID, Ability)>)>)>),
    /// The local hero's abilities by ability slot.
    Playing(Vec<(AbilityID, Ability)>),
    /// No match is running.
    NotInGame,
}

} // verus!
