//! Buildings: towers, barracks and ancients, looked up by their map name.

use vstd::prelude::*;

use crate::text::str_eq;

verus! {

/// What can go wrong while reading building data.
#[derive(Debug)]
pub enum BuildingsError {
    /// A building object held no building at all.
    EmptyBuilding,
}

/// One building's state.
#[derive(Debug, Clone, Copy, PartialEq, Eq, Structural)]
pub struct BuildingInformation {
    health: u32,
    max_health: u32,
}

impl BuildingInformation {
    /// Current health.
    pub closed spec fn health_spec(self) -> u32 {
        self.health
    }

    /// Health when untouched.
    pub closed spec fn max_health_spec(self) -> u32 {
        self.max_health
    }

    /// A building with the given health readings.
    pub fn new(health: u32, max_health: u32) -> (b: BuildingInformation)
        ensures
            b.health_spec() == health,
            b.max_health_spec() == max_health,
    {
        BuildingInformation { health, max_health }
    }
}

/// The kinds of building the map has.
#[derive(Debug, Clone, Copy, PartialEq, Eq, Structural)]
pub enum BuildingClass {
    Rax,
    Ancient,
    Tower,
}

/// The first entry named `name`, if any.
pub open spec fn spec_building_lookup(
    entries: Seq<(String, BuildingInformation)>,
    name: Seq<char>,
) -> Option<BuildingInformation>
    decreases entries.len(),
{
    if entries.len() == 0 {
        None
    } else if entries[0].0@ == name {
        Some(entries[0].1)
    } else {
        spec_building_lookup(entries.skip(1), name)
    }
}

/// One side's buildings, keyed by their map name (for example
/// `dota_badguys_tower3_mid`).
#[derive(Debug)]
pub struct Buildings {
    inner: Vec<(String, BuildingInformation)>,
}

impl Buildings {
    /// The named entries, in arrival order.
    pub closed spec fn entries(self) -> Seq<(String, BuildingInformation)> {
        self.inner@
    }

    /// No buildings at all.
    pub fn new() -> (b: Buildings)
        ensures
            b.entries() == Seq::<(String, BuildingInformation)>::empty(),
    {
        Buildings { inner: Vec::new() }
    }

    /// Buildings from named entries, kept in order. Lookups find the first
    /// entry with a name, so names are expected to be distinct, as the
    /// telemetry sends them.
    pub fn from_entries(entries: Vec<(String, BuildingInformation)>) -> (b: Buildings)
        ensures
            b.entries() == entries@,
    {
        Buildings { inner: entries }
    }

    /// The state of the building with this name, if it is known.
    pub fn get_building_information(&self, name: &str) -> (r: Option<&BuildingInformation>)
        ensures
            match r {
                Some(info) => spec_building_lookup(self.entries(), name@) == Some(*info),
                None => spec_building_lookup(self.entries(), name@) is None,
            },
    {
        let n = self.inner.len();
        let mut i: usize = 0;
        proof {
            assert(self.entries().skip(0) =~= self.entries());
        }
        while i < n
            invariant
                n == self.entries().len(),
                0 <= i <= n,
                spec_building_lookup(self.entries(), name@)
                    == spec_building_lookup(self.entries().skip(i as int), name@),
            decreases n - i,
        {
            let entry = &self.inner[i];
            proof {
                assert(self.entries().skip(i as int)[0] == self.entries()[i as int]);
            }
            if str_eq(entry.0.as_str(), name) {
                return Some(&entry.1);
            }
            proof {
                assert(self.entries().skip(i as int).skip(1) =~= self.entries().skip(i + 1));
            }
            i = i + 1;
        }
        None
    }

    /// Whether a building with this name is known.
    pub fn contains_building(&self, name: &str) -> (r: bool)
        ensures
            r == (spec_building_lookup(self.entries(), name@) is Some),
    {
        self.get_building_information(name).is_some()
    }

    /// How many buildings are known.
    pub fn len(&self) -> (n: usize)
        ensures
            n == self.entries().len(),
    {
        self.inner.len()
    }

    /// Whether no building is known.
    pub fn is_empty(&self) -> (r: bool)
        ensures
            r == (self.entries().len() == 0),
    {
        self.inner.len() == 0
    }
}

} // verus!
