//! Items: runes, slot containers, and the per-container item listing.
//!
//! The telemetry flattens a player's items into keys like `slot0`, `stash3`,
//! `teleport0`, `neutral0` or `preserved_neutral8`, each carrying one item
//! object (or the name `empty`). This module parses those keys, validates the
//! item objects, and routes each slot into its container.

use vstd::prelude::*;

use crate::team::Team;
use crate::players::PlayerID;
use crate::text::all_digit_chars;
use crate::text::digits_value;
use crate::text::is_digit_char;
use crate::text::parse_digits_u8;
use crate::text::str_eq;

verus! {

/// What can go wrong while reading item data.
#[derive(Debug, Clone, PartialEq, Eq)]
pub enum ItemsError {
    /// A container key holds no slot number; the offending key is kept.
    MissingSlotInContainer(String),
    /// The slot number is not a usable decimal number.
    ParseSlotError,
    /// An item object lacks a required field; the field's name and the
    /// container it sat in are kept.
    MissingRequiredField(String, ItemContainer),
    /// The container prefix is not one this telemetry uses; the prefix is
    /// kept.
    UnknownItemContainer(String),
}

/// A rune an item bottle can hold.
#[derive(Debug)]
pub enum Rune {
    Arcane,
    Bounty,
    DoubleDamage,
    Empty,
    Haste,
    Illusion,
    Invisibility,
    Regeneration,
    Shield,
    /// Any other rune name, kept as received.
    Undefined(String),
}

/// The rune a name denotes.
pub open spec fn spec_rune_from(s: String) -> Rune {
    if s@ == "arcane"@ {
        Rune::Arcane
    } else if s@ == "bounty"@ {
        Rune::Bounty
    } else if s@ == "double_damage"@ {
        Rune::DoubleDamage
    } else if s@ == "empty"@ {
        Rune::Empty
    } else if s@ == "haste"@ {
        Rune::Haste
    } else if s@ == "illusion"@ {
        Rune::Illusion
    } else if s@ == "invisibility"@ {
        Rune::Invisibility
    } else if s@ == "regen"@ {
        Rune::Regeneration
    } else if s@ == "shield"@ {
        Rune::Shield
    } else {
        Rune::Undefined(s)
    }
}

impl From<String> for Rune {
    /// Parse a rune name; unknown names are kept as `Undefined`.
    fn from(s: String) -> (r: Rune) {
        if str_eq(s.as_str(), "arcane") {
            Rune::Arcane
        } else if str_eq(s.as_str(), "bounty") {
            Rune::Bounty
        } else if str_eq(s.as_str(), "double_damage") {
            Rune::DoubleDamage
        } else if str_eq(s.as_str(), "empty") {
            Rune::Empty
        } else if str_eq(s.as_str(), "haste") {
            Rune::Haste
        } else if str_eq(s.as_str(), "illusion") {
            Rune::Illusion
        } else if str_eq(s.as_str(), "invisibility") {
            Rune::Invisibility
        } else if str_eq(s.as_str(), "regen") {
            Rune::Regeneration
        } else if str_eq(s.as_str(), "shield") {
            Rune::Shield
        } else {
            Rune::Undefined(s)
        }
    }
}

impl vstd::std_specs::convert::FromSpecImpl<String> for Rune {
    open spec fn obeys_from_spec() -> bool {
        true
    }

    open spec fn from_spec(s: String) -> Rune {
        spec_rune_from(s)
    }
}

/// Where an item sits: which container, and at which slot within it.
#[derive(Debug, Clone, Copy, PartialEq, Eq, Structural)]
pub enum ItemContainer {
    /// The hero's inventory, slots `slot0` and up.
    Inventory(u8),
    /// The stash, slots `stash0` and up.
    Stash(u8),
    /// The teleport scroll slot.
    Teleport,
    /// The neutral item slot.
    Neutral,
    /// A preserved neutral slot.
    PreservedNeutral,
}

/// The slot number within the container; containers with a single slot sit at
/// index zero.
pub open spec fn spec_container_index(c: ItemContainer) -> u8 {
    match c {
        ItemContainer::Inventory(n) => n,
        ItemContainer::Stash(n) => n,
        ItemContainer::Teleport => 0,
        ItemContainer::Neutral => 0,
        ItemContainer::PreservedNeutral => 0,
    }
}

/// Position of the first decimal digit of `s` at or after `i`, if any.
pub open spec fn spec_first_digit(s: Seq<char>, i: int) -> Option<int>
    decreases s.len() - i when 0 <= i <= s.len()
{
    if i >= s.len() {
        None
    } else if is_digit_char(s[i]) {
        Some(i)
    } else {
        spec_first_digit(s, i + 1)
    }
}

/// What `spec_first_digit` returns: the least digit position at or after `i`.
pub proof fn lemma_first_digit_bounds(s: Seq<char>, i: int)
    requires
        0 <= i <= s.len(),
    ensures
        match spec_first_digit(s, i) {
            Some(j) => i <= j < s.len() && is_digit_char(s[j])
                && forall|k: int| i <= k < j ==> !is_digit_char(s[k]),
            None => forall|k: int| i <= k < s.len() ==> !is_digit_char(s[k]),
        },
    decreases s.len() - i,
{
    if i >= s.len() {
    } else if is_digit_char(s[i]) {
    } else {
        lemma_first_digit_bounds(s, i + 1);
    }
}

/// The container a key denotes, when its prefix is known and its trailing
/// digits are a usable slot number.
pub open spec fn spec_container_from(s: Seq<char>) -> Option<ItemContainer> {
    match spec_first_digit(s, 0) {
        None => None,
        Some(i) => {
            let prefix = s.take(i);
            let digits = s.skip(i);
            if !(digits.len() > 0 && all_digit_chars(digits) && digits_value(digits) <= 255) {
                None
            } else {
                let n = digits_value(digits) as u8;
                if prefix == "slot"@ {
                    Some(ItemContainer::Inventory(n))
                } else if prefix == "stash"@ {
                    Some(ItemContainer::Stash(n))
                } else if prefix == "teleport"@ {
                    Some(ItemContainer::Teleport)
                } else if prefix == "neutral"@ {
                    Some(ItemContainer::Neutral)
                } else if prefix == "preserved_neutral"@ {
                    Some(ItemContainer::PreservedNeutral)
                } else {
                    None
                }
            }
        },
    }
}

/// Index of the first decimal digit of `s`, if any.
pub fn find_first_numeric(s: &str) -> (r: Option<usize>)
    ensures
        match r {
            Some(i) => spec_first_digit(s@, 0) == Some(i as int),
            None => spec_first_digit(s@, 0) is None,
        },
{
    let n = s.unicode_len();
    let mut i: usize = 0;
    while i < n
        invariant
            n == s@.len(),
            0 <= i <= n,
            spec_first_digit(s@, 0) == spec_first_digit(s@, i as int),
        decreases n - i,
    {
        let c = s.get_char(i);
        let code = c as u32;
        if code >= 48 && code <= 57 {
            proof {
                assert(is_digit_char(s@[i as int]));
            }
            return Some(i);
        }
        proof {
            assert(!is_digit_char(s@[i as int]));
            assert(spec_first_digit(s@, i as int) == spec_first_digit(s@, i + 1));
        }
        i = i + 1;
    }
    None
}

impl ItemContainer {
    /// The slot number within the container.
    pub fn index(&self) -> (n: u8)
        ensures
            n == spec_container_index(*self),
    {
        match self {
            ItemContainer::Inventory(n) => *n,
            ItemContainer::Stash(n) => *n,
            ItemContainer::Teleport => 0,
            ItemContainer::Neutral => 0,
            ItemContainer::PreservedNeutral => 0,
        }
    }

    /// Parse a container key such as `slot3` or `preserved_neutral8`: the
    /// prefix picks the container, the trailing digits the slot. A key with no
    /// digit, an unusable number, and an unknown prefix are three distinct
    /// errors.
    pub fn try_from(s: String) -> (r: Result<ItemContainer, ItemsError>)
        ensures
            match r {
                Ok(c) => spec_container_from(s@) == Some(c),
                Err(ItemsError::MissingSlotInContainer(m)) => spec_first_digit(s@, 0) is None
                    && m@ == s@,
                Err(ItemsError::ParseSlotError) => ({
                    &&& spec_first_digit(s@, 0) matches Some(i)
                    &&& !(all_digit_chars(s@.skip(spec_first_digit(s@, 0)->Some_0))
                        && digits_value(s@.skip(spec_first_digit(s@, 0)->Some_0)) <= 255)
                }),
                Err(ItemsError::UnknownItemContainer(m)) => ({
                    &&& spec_first_digit(s@, 0) matches Some(i)
                    &&& m@ == s@.take(spec_first_digit(s@, 0)->Some_0)
                    &&& spec_container_from(s@) is None
                }),
                Err(ItemsError::MissingRequiredField(_, _)) => false,
            },
    {
        let i = match find_first_numeric(s.as_str()) {
            None => {
                return Err(ItemsError::MissingSlotInContainer(s));
            },
            Some(i) => i,
        };
        proof {
            lemma_first_digit_bounds(s@, 0);
        }
        let n = match parse_digits_u8(s.as_str(), i) {
            None => {
                return Err(ItemsError::ParseSlotError);
            },
            Some(n) => n,
        };
        let prefix = s.as_str().substring_char(0, i);
        proof {
            assert(prefix@ == s@.subrange(0, i as int));
            assert(s@.subrange(0, i as int) =~= s@.take(i as int));
        }
        if str_eq(prefix, "slot") {
            Ok(ItemContainer::Inventory(n))
        } else if str_eq(prefix, "stash") {
            Ok(ItemContainer::Stash(n))
        } else if str_eq(prefix, "teleport") {
            Ok(ItemContainer::Teleport)
        } else if str_eq(prefix, "neutral") {
            Ok(ItemContainer::Neutral)
        } else if str_eq(prefix, "preserved_neutral") {
            Ok(ItemContainer::PreservedNeutral)
        } else {
            Err(ItemsError::UnknownItemContainer(prefix.to_owned()))
        }
    }
}

/// One item, as the telemetry reports it.
#[derive(Debug)]
pub struct Item {
    pub name: String,
    pub purchaser: i16,
    pub item_level: Option<u16>,
    pub contains_rune: Option<Rune>,
    pub can_cast: Option<bool>,
    pub cooldown: Option<u16>,
    pub passive: bool,
    pub charges: Option<u16>,
    pub item_charges: Option<u16>,
}

/// One slot of a container: empty, or holding an item.
#[derive(Debug)]
pub enum ItemSlot {
    Empty { index: u8 },
    Full { index: u8, item: Item },
}

/// One item object as it arrives, before validation: only the name is always
/// present.
#[derive(Debug)]
pub struct ItemEntry {
    pub name: String,
    pub purchaser: Option<i16>,
    pub item_level: Option<u16>,
    pub contains_rune: Option<Rune>,
    pub can_cast: Option<bool>,
    pub cooldown: Option<u16>,
    pub passive: Option<bool>,
    pub item_charges: Option<u16>,
    pub charges: Option<u16>,
}

/// The slot an entry denotes in container `c`: empty when named `empty`,
/// otherwise an item that must carry `purchaser` and `passive`. `None` when a
/// required field is missing.
pub open spec fn spec_slot_of(c: ItemContainer, e: ItemEntry) -> Option<ItemSlot> {
    if e.name@ == "empty"@ {
        Some(ItemSlot::Empty { index: spec_container_index(c) })
    } else if e.purchaser is None || e.passive is None {
        None
    } else {
        Some(
            ItemSlot::Full {
                index: spec_container_index(c),
                item: Item {
                    name: e.name,
                    purchaser: e.purchaser->Some_0,
                    item_level: e.item_level,
                    contains_rune: e.contains_rune,
                    can_cast: e.can_cast,
                    cooldown: e.cooldown,
                    passive: e.passive->Some_0,
                    charges: e.charges,
                    item_charges: e.item_charges,
                },
            },
        )
    }
}

/// Validate one entry into the slot it denotes in container `c`. An entry
/// named `empty` is an empty slot; any other needs `purchaser` and `passive`,
/// and the first missing one is reported with its name and the container.
pub fn slot_from_entry(c: ItemContainer, e: ItemEntry) -> (r: Result<ItemSlot, ItemsError>)
    ensures
        match r {
            Ok(slot) => spec_slot_of(c, e) == Some(slot),
            Err(ItemsError::MissingRequiredField(f, c2)) => {
                &&& spec_slot_of(c, e) is None
                &&& c2 == c
                &&& f@ == (if e.purchaser is None {
                    "purchaser"@
                } else {
                    "passive"@
                })
            },
            Err(_) => false,
        },
{
    if str_eq(e.name.as_str(), "empty") {
        Ok(ItemSlot::Empty { index: c.index() })
    } else {
        let purchaser = match e.purchaser {
            Option::None => {
                return Err(ItemsError::MissingRequiredField("purchaser".to_owned(), c));
            },
            Option::Some(p) => p,
        };
        let passive = match e.passive {
            Option::None => {
                return Err(ItemsError::MissingRequiredField("passive".to_owned(), c));
            },
            Option::Some(p) => p,
        };
        Ok(
            ItemSlot::Full {
                index: c.index(),
                item: Item {
                    name: e.name,
                    purchaser,
                    item_level: e.item_level,
                    contains_rune: e.contains_rune,
                    can_cast: e.can_cast,
                    cooldown: e.cooldown,
                    passive,
                    charges: e.charges,
                    item_charges: e.item_charges,
                },
            },
        )
    }
}

/// A player's items, one listing per container.
#[derive(Debug)]
pub struct Items {
    inventory: Vec<ItemSlot>,
    stash: Vec<ItemSlot>,
    teleport: ItemSlot,
    neutrals: Vec<ItemSlot>,
    preserved_neutrals: Vec<ItemSlot>,
}

/// The five containers as sequences: inventory, stash, teleport, neutrals,
/// preserved neutrals.
pub struct ItemsModel {
    pub inventory: Seq<ItemSlot>,
    pub stash: Seq<ItemSlot>,
    pub teleport: ItemSlot,
    pub neutrals: Seq<ItemSlot>,
    pub preserved_neutrals: Seq<ItemSlot>,
}

/// The slot `s` holds no item.
pub open spec fn slot_empty(s: ItemSlot) -> bool {
    s is Empty
}

/// Every slot of `s` is empty.
pub open spec fn all_slots_empty(s: Seq<ItemSlot>) -> bool {
    forall|i: int| 0 <= i < s.len() ==> slot_empty(#[trigger] s[i])
}

/// Routing the entries, in order, into the five containers: each key picks a
/// container, each entry becomes a slot appended to that container's listing
/// (the single teleport slot is replaced). `None` when any key or entry is
/// unusable.
pub open spec fn spec_fill_items(entries: Seq<(String, ItemEntry)>) -> Option<ItemsModel>
    decreases entries.len(),
{
    if entries.len() == 0 {
        Some(
            ItemsModel {
                inventory: Seq::empty(),
                stash: Seq::empty(),
                teleport: ItemSlot::Empty { index: 0 },
                neutrals: Seq::empty(),
                preserved_neutrals: Seq::empty(),
            },
        )
    } else {
        match spec_fill_items(entries.drop_last()) {
            None => None,
            Some(acc) => {
                let (key, e) = entries.last();
                match spec_container_from(key@) {
                    None => None,
                    Some(c) => match spec_slot_of(c, e) {
                        None => None,
                        Some(slot) => Some(
                            match c {
                                ItemContainer::Inventory(_) => ItemsModel {
                                    inventory: acc.inventory.push(slot),
                                    ..acc
                                },
                                ItemContainer::Stash(_) => ItemsModel {
                                    stash: acc.stash.push(slot),
                                    ..acc
                                },
                                ItemContainer::Teleport => ItemsModel { teleport: slot, ..acc },
                                ItemContainer::Neutral => ItemsModel {
                                    neutrals: acc.neutrals.push(slot),
                                    ..acc
                                },
                                ItemContainer::PreservedNeutral => ItemsModel {
                                    preserved_neutrals: acc.preserved_neutrals.push(slot),
                                    ..acc
                                },
                            },
                        ),
                    },
                }
            },
        }
    }
}

impl Items {
    /// The inventory listing, in arrival order.
    pub closed spec fn inventory_view(self) -> Seq<ItemSlot> {
        self.inventory@
    }

    /// The stash listing, in arrival order.
    pub closed spec fn stash_view(self) -> Seq<ItemSlot> {
        self.stash@
    }

    /// The teleport slot.
    pub closed spec fn teleport_view(self) -> ItemSlot {
        self.teleport
    }

    /// The neutral listing, in arrival order.
    pub closed spec fn neutrals_view(self) -> Seq<ItemSlot> {
        self.neutrals@
    }

    /// The preserved-neutral listing, in arrival order.
    pub closed spec fn preserved_neutrals_view(self) -> Seq<ItemSlot> {
        self.preserved_neutrals@
    }

    /// The five containers together.
    pub open spec fn model(self) -> ItemsModel {
        ItemsModel {
            inventory: self.inventory_view(),
            stash: self.stash_view(),
            teleport: self.teleport_view(),
            neutrals: self.neutrals_view(),
            preserved_neutrals: self.preserved_neutrals_view(),
        }
    }

    /// Build a player's items by routing flattened `(key, entry)` pairs, in
    /// order, into their containers. Fails exactly when some key or entry is
    /// unusable; the per-key and per-entry conditions are those of
    /// [`ItemContainer::try_from`] and [`slot_from_entry`].
    pub fn from_entries(entries: Vec<(String, ItemEntry)>) -> (r: Result<Items, ItemsError>)
        ensures
            match r {
                Ok(items) => spec_fill_items(entries@) == Some(items.model()),
                Err(_) => spec_fill_items(entries@) is None,
            },
    {
        let mut items = Items {
            inventory: Vec::new(),
            stash: Vec::new(),
            teleport: ItemSlot::Empty { index: 0 },
            neutrals: Vec::new(),
            preserved_neutrals: Vec::new(),
        };
        let mut rest = entries;
        let ghost all = rest@;
        let n = rest.len();
        let mut i: usize = 0;
        proof {
            assert(spec_fill_items(all.take(0)) == Some(items.model()));
        }
        while i < n
            invariant
                all == entries@,
                n == all.len(),
                0 <= i <= n,
                rest@ == all.skip(i as int),
                spec_fill_items(all.take(i as int)) == Some(items.model()),
            decreases n - i,
        {
            let (key, e) = rest.remove(0);
            proof {
                assert(all.skip(i as int)[0] == all[i as int]);
                assert(rest@ =~= all.skip(i + 1));
                assert(all.take(i + 1).drop_last() =~= all.take(i as int));
                assert(all.take(i + 1).last() == all[i as int]);
            }
            let c = match ItemContainer::try_from(key) {
                Err(err) => {
                    proof {
                        assert(spec_container_from(all[i as int].0@) is None);
                        assert(spec_fill_items(all.take(i + 1)) is None);
                        lemma_fill_items_failure_stable(all, i + 1);
                    }
                    return Err(err);
                },
                Ok(c) => c,
            };
            let slot = match slot_from_entry(c, e) {
                Err(err) => {
                    proof {
                        assert(spec_slot_of(c, all[i as int].1) is None);
                        assert(spec_fill_items(all.take(i + 1)) is None);
                        lemma_fill_items_failure_stable(all, i + 1);
                    }
                    return Err(err);
                },
                Ok(s) => s,
            };
            match c {
                ItemContainer::Inventory(_) => items.inventory.push(slot),
                ItemContainer::Stash(_) => items.stash.push(slot),
                ItemContainer::Teleport => {
                    items.teleport = slot;
                },
                ItemContainer::Neutral => items.neutrals.push(slot),
                ItemContainer::PreservedNeutral => items.preserved_neutrals.push(slot),
            }
            i = i + 1;
        }
        proof {
            assert(all.take(n as int) =~= all);
        }
        Ok(items)
    }

    /// The teleport slot.
    pub fn teleport(&self) -> (r: &ItemSlot)
        ensures
            *r == self.teleport_view(),
    {
        &self.teleport
    }

    /// No inventory slot holds an item.
    pub fn is_inventory_empty(&self) -> (r: bool)
        ensures
            r == all_slots_empty(self.inventory_view()),
    {
        all_empty(&self.inventory)
    }

    /// No stash slot holds an item.
    pub fn is_stash_empty(&self) -> (r: bool)
        ensures
            r == all_slots_empty(self.stash_view()),
    {
        all_empty(&self.stash)
    }

    /// The teleport slot holds no item.
    pub fn is_teleport_empty(&self) -> (r: bool)
        ensures
            r == slot_empty(self.teleport_view()),
    {
        matches!(self.teleport, ItemSlot::Empty { .. })
    }

    /// No neutral slot holds an item.
    pub fn is_neutrals_empty(&self) -> (r: bool)
        ensures
            r == all_slots_empty(self.neutrals_view()),
    {
        all_empty(&self.neutrals)
    }

    /// No preserved-neutral slot holds an item.
    pub fn is_preserved_neutrals_empty(&self) -> (r: bool)
        ensures
            r == all_slots_empty(self.preserved_neutrals_view()),
    {
        all_empty(&self.preserved_neutrals)
    }
}

/// Once routing has failed on a prefix of the entries, it fails on the whole.
proof fn lemma_fill_items_failure_stable(entries: Seq<(String, ItemEntry)>, i: int)
    requires
        0 <= i <= entries.len(),
        spec_fill_items(entries.take(i)) is None,
    ensures
        spec_fill_items(entries) is None,
    decreases entries.len() - i,
{
    if i == entries.len() {
        assert(entries.take(i) =~= entries);
    } else {
        assert(entries.take(i + 1).drop_last() =~= entries.take(i));
        lemma_fill_items_failure_stable(entries, i + 1);
    }
}

/// Every slot of the listing is empty.
fn all_empty(slots: &Vec<ItemSlot>) -> (r: bool)
    ensures
        r == all_slots_empty(slots@),
{
    let n = slots.len();
    let mut i: usize = 0;
    while i < n
        invariant
            n == slots@.len(),
            0 <= i <= n,
            forall|j: int| 0 <= j < i ==> slot_empty(#[trigger] slots@[j]),
        decreases n - i,
    {
        if matches!(&slots[i], ItemSlot::Full { .. }) {
            proof {
                assert(!slot_empty(slots@[i as int]));
            }
            return false;
        }
        i = i + 1;
    }
    true
}

/// Items for the one local player (playing) or per team and player
/// (spectating).
#[derive(Debug)]
pub enum GameItems {
    /// The local player's items.
    Playing(Items),
    /// Per team, per slot: each player's items.
    Spectating(Vec<(Team, Vec<(PlayerID, Items)>)>),
}

} // verus!
