//! The two sides of a match, as the telemetry names them.

use vstd::prelude::*;

use crate::text::str_eq;

verus! {

/// A team, parsed from the strings the telemetry sender uses.
#[derive(Debug)]
pub enum Team {
    /// `radiant` or `team2`.
    Radiant,
    /// `dire` or `team3`.
    Dire,
    /// `none`: no team, e.g. no winner yet.
    NoTeam,
    /// Any other string, kept as received.
    Undefined(String),
}

/// The team a name denotes.
pub open spec fn spec_team_from(s: String) -> Team {
    if s@ == "radiant"@ || s@ == "team2"@ {
        Team::Radiant
    } else if s@ == "dire"@ || s@ == "team3"@ {
        Team::Dire
    } else if s@ == "none"@ {
        Team::NoTeam
    } else {
        Team::Undefined(s)
    }
}

/// Two teams denote the same side; undefined names match by their text.
pub open spec fn team_matches(a: Team, b: Team) -> bool {
    match (a, b) {
        (Team::Radiant, Team::Radiant) => true,
        (Team::Dire, Team::Dire) => true,
        (Team::NoTeam, Team::NoTeam) => true,
        (Team::Undefined(x), Team::Undefined(y)) => x@ == y@,
        _ => false,
    }
}

impl From<String> for Team {
    /// Parse a team name; unknown names are kept as `Undefined`.
    fn from(s: String) -> (r: Team) {
        if str_eq(s.as_str(), "radiant") || str_eq(s.as_str(), "team2") {
            Team::Radiant
        } else if str_eq(s.as_str(), "dire") || str_eq(s.as_str(), "team3") {
            Team::Dire
        } else if str_eq(s.as_str(), "none") {
            Team::NoTeam
        } else {
            Team::Undefined(s)
        }
    }
}

impl vstd::std_specs::convert::FromSpecImpl<String> for Team {
    open spec fn obeys_from_spec() -> bool {
        true
    }

    open spec fn from_spec(s: String) -> Team {
        spec_team_from(s)
    }
}

impl PartialEq for Team {
    /// Equality by side; undefined names compare by their text.
    fn eq(&self, other: &Team) -> (r: bool) {
        match (self, other) {
            (Team::Radiant, Team::Radiant) => true,
            (Team::Dire, Team::Dire) => true,
            (Team::NoTeam, Team::NoTeam) => true,
            (Team::Undefined(x), Team::Undefined(y)) => str_eq(x.as_str(), y.as_str()),
            _ => false,
        }
    }
}

impl vstd::std_specs::cmp::PartialEqSpecImpl for Team {
    open spec fn obeys_eq_spec() -> bool {
        true
    }

    open spec fn eq_spec(&self, other: &Team) -> bool {
        team_matches(*self, *other)
    }
}

} // verus!
