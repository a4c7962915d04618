//! Wearables: cosmetic items, keyed by wearable slot.
//!
//! The telemetry flattens wearables into pairs of keys: `wearable<n>` carries
//! the item id for slot `n`, and an optional `style<n>` carries that slot's
//! style. Building the slot table means parsing each key and merging the two
//! kinds of reading per slot.

use vstd::prelude::*;

use crate::players::PlayerID;
use crate::team::Team;
use crate::text::all_digit_chars;
use crate::text::digits_value;
use crate::text::parse_digits_u8;
use crate::text::spec_has_prefix;
use crate::text::str_has_prefix;

verus! {

/// What can go wrong while reading wearable data.
#[derive(Debug, Clone, PartialEq, Eq)]
pub enum WearablesError {
    /// A key held no usable slot number; the offending key is kept.
    ParseSlotError(String),
    /// A slot's value was not a number; a rendering of the value is kept.
    ParseWearableError(String),
    /// A wearables object held no slot at all.
    EmptyWearablesSlot,
}

/// A wearable slot number, as in the key `wearable4`.
#[derive(Debug, Clone, Copy, PartialEq, Eq, Structural)]
pub struct WearableSlot(pub u8);

impl From<u8> for WearableSlot {
    /// The slot with this number.
    fn from(n: u8) -> (r: WearableSlot) {
        WearableSlot(n)
    }
}

impl vstd::std_specs::convert::FromSpecImpl<u8> for WearableSlot {
    open spec fn obeys_from_spec() -> bool {
        true
    }

    open spec fn from_spec(n: u8) -> WearableSlot {
        WearableSlot(n)
    }
}

/// One slot's cosmetic item and its style, either of which may not have
/// arrived yet.
#[derive(Debug, Clone, Copy, PartialEq, Eq, Structural)]
pub struct Wearable {
    pub id: Option<u32>,
    pub style: Option<u32>,
}

impl Wearable {
    /// A wearable with the given readings.
    pub fn new(id: Option<u32>, style: Option<u32>) -> (w: Wearable)
        ensures
            w == (Wearable { id, style }),
    {
        Wearable { id, style }
    }
}

/// What one key contributes: which slot, and whether it is the slot's style
/// or its item id.
pub struct WearableKey {
    pub slot: u8,
    pub is_style: bool,
}

/// The contribution a key denotes: `wearable<n>` is slot `n`'s item id,
/// `style<n>` is slot `n`'s style.
pub open spec fn spec_wearable_key(s: Seq<char>) -> Option<WearableKey> {
    if spec_has_prefix(s, "wearable"@) && valid_index(s, "wearable"@.len() as int) {
        Some(
            WearableKey {
                slot: digits_value(s.skip("wearable"@.len() as int)) as u8,
                is_style: false,
            },
        )
    } else if spec_has_prefix(s, "style"@) && valid_index(s, "style"@.len() as int) {
        Some(WearableKey { slot: digits_value(s.skip("style"@.len() as int)) as u8, is_style: true })
    } else {
        None
    }
}

/// The characters of `s` from `from` on are digits denoting a slot number.
pub open spec fn valid_index(s: Seq<char>, from: int) -> bool {
    &&& s.skip(from).len() > 0
    &&& all_digit_chars(s.skip(from))
    &&& digits_value(s.skip(from)) <= 255
}

/// Parse one wearables key. A key with neither prefix, or without a usable
/// slot number, is a parse error that keeps the offending key.
pub fn parse_wearable_key(s: String) -> (r: Result<WearableKey, WearablesError>)
    ensures
        match r {
            Ok(k) => spec_wearable_key(s@) matches Some(k2) && k.slot == k2.slot && k.is_style
                == k2.is_style,
            Err(WearablesError::ParseSlotError(m)) => spec_wearable_key(s@) is None && m@ == s@,
            Err(_) => false,
        },
{
    if str_has_prefix(s.as_str(), "wearable") {
        let plen = "wearable".unicode_len();
        proof {
            assert("wearable"@.len() <= s@.len());
        }
        match parse_digits_u8(s.as_str(), plen) {
            Some(n) => Ok(WearableKey { slot: n, is_style: false }),
            None => {
                proof {
                    // A key cannot begin with both `wearable` and `style`.
                    reveal_strlit("wearable");
                    reveal_strlit("style");
                    assert(s@.take("wearable"@.len() as int)[0] == s@[0]);
                    if spec_has_prefix(s@, "style"@) {
                        assert(s@.take("style"@.len() as int)[0] == s@[0]);
                        assert(false);
                    }
                }
                Err(WearablesError::ParseSlotError(s))
            },
        }
    } else if str_has_prefix(s.as_str(), "style") {
        let plen = "style".unicode_len();
        proof {
            assert("style"@.len() <= s@.len());
        }
        match parse_digits_u8(s.as_str(), plen) {
            Some(n) => Ok(WearableKey { slot: n, is_style: true }),
            None => Err(WearablesError::ParseSlotError(s)),
        }
    } else {
        Err(WearablesError::ParseSlotError(s))
    }
}

/// `w` updated by one reading: a style key sets the style, a wearable key
/// sets the item id.
pub open spec fn spec_wear_merged(w: Wearable, value: u32, is_style: bool) -> Wearable {
    if is_style {
        Wearable { style: Some(value), ..w }
    } else {
        Wearable { id: Some(value), ..w }
    }
}

/// A slot's first reading.
pub open spec fn spec_wear_fresh(value: u32, is_style: bool) -> Wearable {
    if is_style {
        Wearable { id: None, style: Some(value) }
    } else {
        Wearable { id: Some(value), style: None }
    }
}

/// The slot table updated by one reading: the slot's entry is updated where
/// one exists, else a new entry is appended.
pub open spec fn spec_wear_update(
    entries: Seq<(u8, Wearable)>,
    slot: u8,
    value: u32,
    is_style: bool,
) -> Seq<(u8, Wearable)>
    decreases entries.len(),
{
    if entries.len() == 0 {
        seq![(slot, spec_wear_fresh(value, is_style))]
    } else if entries[0].0 == slot {
        seq![(slot, spec_wear_merged(entries[0].1, value, is_style))] + entries.skip(1)
    } else {
        seq![entries[0]] + spec_wear_update(entries.skip(1), slot, value, is_style)
    }
}

/// When the slot already has an entry (first at `idx`), the update rewrites
/// exactly that entry.
proof fn lemma_wear_update_found(
    entries: Seq<(u8, Wearable)>,
    slot: u8,
    value: u32,
    is_style: bool,
    idx: int,
)
    requires
        0 <= idx < entries.len(),
        entries[idx].0 == slot,
        forall|k: int| 0 <= k < idx ==> (#[trigger] entries[k]).0 != slot,
    ensures
        spec_wear_update(entries, slot, value, is_style) =~= entries.update(
            idx,
            (slot, spec_wear_merged(entries[idx].1, value, is_style)),
        ),
    decreases idx,
{
    if idx == 0 {
    } else {
        assert(entries.skip(1)[idx - 1].0 == slot);
        assert forall|k: int| 0 <= k < idx - 1 implies (#[trigger] entries.skip(1)[k]).0 != slot by {
            assert(entries.skip(1)[k] == entries[k + 1]);
        }
        lemma_wear_update_found(entries.skip(1), slot, value, is_style, idx - 1);
    }
}

/// When the slot has no entry yet, the update appends a fresh one.
proof fn lemma_wear_update_missing(entries: Seq<(u8, Wearable)>, slot: u8, value: u32, is_style: bool)
    requires
        forall|k: int| 0 <= k < entries.len() ==> (#[trigger] entries[k]).0 != slot,
    ensures
        spec_wear_update(entries, slot, value, is_style) =~= entries.push(
            (slot, spec_wear_fresh(value, is_style)),
        ),
    decreases entries.len(),
{
    if entries.len() > 0 {
        assert forall|k: int| 0 <= k < entries.skip(1).len() implies (#[trigger] entries.skip(
            1,
        )[k]).0 != slot by {
            assert(entries.skip(1)[k] == entries[k + 1]);
        }
        lemma_wear_update_missing(entries.skip(1), slot, value, is_style);
    }
}

/// The slot table built by merging the readings in order. `None` when some
/// key is unusable.
pub open spec fn spec_fill_wearables(pairs: Seq<(String, u32)>) -> Option<Seq<(u8, Wearable)>>
    decreases pairs.len(),
{
    if pairs.len() == 0 {
        Some(Seq::empty())
    } else {
        match spec_fill_wearables(pairs.drop_last()) {
            None => None,
            Some(acc) => {
                let (key, value) = pairs.last();
                match spec_wearable_key(key@) {
                    None => None,
                    Some(k) => Some(spec_wear_update(acc, k.slot, value, k.is_style)),
                }
            },
        }
    }
}

/// Once merging has failed on a prefix of the readings, it fails on the whole.
proof fn lemma_fill_wearables_failure_stable(pairs: Seq<(String, u32)>, i: int)
    requires
        0 <= i <= pairs.len(),
        spec_fill_wearables(pairs.take(i)) is None,
    ensures
        spec_fill_wearables(pairs) is None,
    decreases pairs.len() - i,
{
    if i == pairs.len() {
        assert(pairs.take(i) =~= pairs);
    } else {
        assert(pairs.take(i + 1).drop_last() =~= pairs.take(i));
        lemma_fill_wearables_failure_stable(pairs, i + 1);
    }
}

/// The wearables on display, one entry per slot.
#[derive(Debug)]
pub struct Wearables {
    inner: Vec<(u8, Wearable)>,
}

impl Wearables {
    /// The slot entries, in first-appearance order.
    pub closed spec fn entries(self) -> Seq<(u8, Wearable)> {
        self.inner@
    }

    /// The first entry for `slot`, if any.
    pub open spec fn spec_get(self, slot: u8) -> Option<Wearable> {
        spec_slot_lookup(self.entries(), slot)
    }

    /// Build the slot table from flattened `(key, value)` readings, in order:
    /// `wearable<n>` sets slot `n`'s item id, `style<n>` its style, merged per
    /// slot. Fails exactly when some key is unusable.
    pub fn from_pairs(pairs: Vec<(String, u32)>) -> (r: Result<Wearables, WearablesError>)
        ensures
            match r {
                Ok(w) => spec_fill_wearables(pairs@) == Some(w.entries()),
                Err(_) => spec_fill_wearables(pairs@) is None,
            },
    {
        let mut w = Wearables { inner: Vec::new() };
        let mut rest = pairs;
        let ghost all = rest@;
        let n = rest.len();
        let mut i: usize = 0;
        proof {
            assert(spec_fill_wearables(all.take(0)) == Some(w.entries()));
        }
        while i < n
            invariant
                all == pairs@,
                n == all.len(),
                0 <= i <= n,
                rest@ == all.skip(i as int),
                spec_fill_wearables(all.take(i as int)) == Some(w.entries()),
            decreases n - i,
        {
            let (key, value) = rest.remove(0);
            proof {
                assert(all.skip(i as int)[0] == all[i as int]);
                assert(rest@ =~= all.skip(i + 1));
                assert(all.take(i + 1).drop_last() =~= all.take(i as int));
                assert(all.take(i + 1).last() == all[i as int]);
            }
            let k = match parse_wearable_key(key) {
                Err(err) => {
                    proof {
                        assert(spec_wearable_key(all[i as int].0@) is None);
                        assert(spec_fill_wearables(all.take(i + 1)) is None);
                        lemma_fill_wearables_failure_stable(all, i + 1);
                    }
                    return Err(err);
                },
                Ok(k) => k,
            };
            w.apply_reading(k.slot, value, k.is_style);
            proof {
                assert(spec_fill_wearables(all.take(i + 1)) == Some(w.entries()));
            }
            i = i + 1;
        }
        proof {
            assert(all.take(n as int) =~= all);
        }
        Ok(w)
    }

    /// Merge one reading into the slot table.
    fn apply_reading(&mut self, slot: u8, value: u32, is_style: bool)
        ensures
            final(self).entries() == spec_wear_update(old(self).entries(), slot, value, is_style),
    {
        let n = self.inner.len();
        let mut i: usize = 0;
        while i < n
            invariant
                n == self.inner@.len(),
                0 <= i <= n,
                *self == *old(self),
                forall|k: int| 0 <= k < i ==> (#[trigger] self.inner@[k]).0 != slot,
            decreases n - i,
        {
            let entry = &self.inner[i];
            if entry.0 == slot {
                let merged = if is_style {
                    Wearable { style: Some(value), ..entry.1 }
                } else {
                    Wearable { id: Some(value), ..entry.1 }
                };
                proof {
                    lemma_wear_update_found(self.inner@, slot, value, is_style, i as int);
                }
                self.inner[i] = (slot, merged);
                return;
            }
            i = i + 1;
        }
        proof {
            lemma_wear_update_missing(self.inner@, slot, value, is_style);
        }
        let fresh = if is_style {
            Wearable { id: None, style: Some(value) }
        } else {
            Wearable { id: Some(value), style: None }
        };
        self.inner.push((slot, fresh));
    }

    /// How many slots have a reading.
    pub fn len(&self) -> (n: usize)
        ensures
            n == self.entries().len(),
    {
        self.inner.len()
    }

    /// Whether no slot has a reading.
    pub fn is_empty(&self) -> (r: bool)
        ensures
            r == (self.entries().len() == 0),
    {
        self.inner.len() == 0
    }

    /// The wearable at `slot`, if any reading arrived for it.
    pub fn get(&self, slot: &WearableSlot) -> (r: Option<&Wearable>)
        ensures
            match r {
                Some(w) => self.spec_get(slot.0) == Some(*w),
                None => self.spec_get(slot.0) is None,
            },
    {
        let n = self.inner.len();
        let mut i: usize = 0;
        proof {
            assert(self.entries().skip(0) =~= self.entries());
        }
        while i < n
            invariant
                n == self.entries().len(),
                0 <= i <= n,
                spec_slot_lookup(self.entries(), slot.0)
                    == spec_slot_lookup(self.entries().skip(i as int), slot.0),
            decreases n - i,
        {
            let entry = &self.inner[i];
            proof {
                assert(self.entries().skip(i as int)[0] == self.entries()[i as int]);
            }
            if entry.0 == slot.0 {
                return Some(&entry.1);
            }
            proof {
                assert(self.entries().skip(i as int).skip(1) =~= self.entries().skip(i + 1));
            }
            i = i + 1;
        }
        None
    }
}

/// The first entry for `slot`, if any.
pub open spec fn spec_slot_lookup(entries: Seq<(u8, Wearable)>, slot: u8) -> Option<Wearable>
    decreases entries.len(),
{
    if entries.len() == 0 {
        None
    } else if entries[0].0 == slot {
        Some(entries[0].1)
    } else {
        spec_slot_lookup(entries.skip(1), slot)
    }
}

/// Wearables for the one local hero (playing) or per team and player
/// (spectating).
#[derive(Debug)]
pub enum GameWearables {
    /// Per team, per slot: each player's wearables.
    Spectating(Vec<(Team, Vec<(PlayerID, Wearables)>)>),
    /// The local hero's wearables.
    Playing(Wearables),
}

} // verus!
