//! Tracking of the latest Wayland event serial of each kind (needed to
//! answer requests such as setting the cursor or the clipboard).

use vstd::prelude::*;
use rapidhash::RapidHashMap;

verus! {

/// The hasher state of rapidhash's hash maps.
#[verifier::external_type_specification]
#[verifier::external_body]
pub struct ExRapidRandomState<const AVALANCHE: bool, const SPONGE: bool, const COMPACT: bool, const PROTECTED: bool>(
    rapidhash::inner::RandomState<AVALANCHE, SPONGE, COMPACT, PROTECTED>,
);

/// The kinds of serial that are tracked.
#[derive(Debug, Clone, Copy, Hash, PartialEq, Eq, Structural)]
pub enum SerialKind {
    DataDevice,
    InputMethod,
    MouseEnter,
    MousePress,
    KeyPress,
}

/// A tracked serial.
pub struct SerialData {
    pub serial: u32,
}

impl SerialData {
    /// A record of serial `value`.
    pub fn new(value: u32) -> (d: Self)
        ensures
            d.serial == value,
    {
        SerialData { serial: value }
    }
}

/// The map from serial kind to its latest serial.
type SerialMap = RapidHashMap<SerialKind, SerialData>;

/// `RapidHashMap::default()`: an empty map.
#[verifier::external_body]
fn serial_map_new() -> (map: SerialMap)
    ensures
        map@.dom().is_empty(),
{
    RapidHashMap::default()
}

/// `HashMap::insert`: afterwards the map sends `kind` to `data` and is
/// otherwise unchanged (keys compare by the derived `Eq` and `Hash`).
#[verifier::external_body]
fn serial_map_insert(m: &mut SerialMap, kind: SerialKind, data: SerialData)
    ensures
        final(m)@ == old(m)@.insert(kind, data),
{
    m.insert(kind, data);
}

/// `HashMap::get`: the serial stored under `kind`, if any.
#[verifier::external_body]
fn serial_map_get(m: &SerialMap, kind: &SerialKind) -> (r: Option<u32>)
    ensures
        r == if m@.contains_key(*kind) {
            Some(m@[*kind].serial)
        } else {
            None
        },
{
    m.get(kind).map(|data| data.serial)
}

/// Helper for tracking of different serial kinds.
pub struct SerialTracker {
    serials: SerialMap,
}

impl SerialTracker {
    /// The latest serial of each tracked kind.
    pub closed spec fn spec_serials(&self) -> Map<SerialKind, u32> {
        Map::new(|k: SerialKind| self.serials@.contains_key(k), |k: SerialKind| self.serials@[k].serial)
    }

    /// A tracker that has seen no serial.
    pub fn new() -> (t: Self)
        ensures
            t.spec_serials() == Map::<SerialKind, u32>::empty(),
    {
        let t = SerialTracker { serials: serial_map_new() };
        assert(t.spec_serials() =~= Map::<SerialKind, u32>::empty());
        t
    }

    /// Records `value` as the latest serial of `kind`.
    pub fn update(&mut self, kind: SerialKind, value: u32)
        ensures
            final(self).spec_serials() == old(self).spec_serials().insert(kind, value),
    {
        serial_map_insert(&mut self.serials, kind, SerialData::new(value));
        assert(self.spec_serials() =~= old(self).spec_serials().insert(kind, value));
    }

    /// The latest tracked serial of `kind`, or 0 if none is tracked.
    pub fn get(&self, kind: SerialKind) -> (serial: u32)
        ensures
            serial == if self.spec_serials().contains_key(kind) {
                self.spec_serials()[kind]
            } else {
                0
            },
    {
        match serial_map_get(&self.serials, &kind) {
            Some(serial) => serial,
            None => 0,
        }
    }
}

/// The serial read back for a kind is the last one recorded for it; other
/// kinds keep theirs, and a kind never recorded reads as 0.
pub proof fn lemma_get_after_update(before: Map<SerialKind, u32>, after: Map<SerialKind, u32>, kind: SerialKind, value: u32, other: SerialKind)
    requires
        after == before.insert(kind, value),
        other != kind,
    ensures
        after.contains_key(kind) && after[kind] == value,
        after.contains_key(other) == before.contains_key(other),
        after.contains_key(other) ==> after[other] == before[other],
{
}

/// The serials tracked after recording `updates` in order on top of `serials`.
pub open spec fn after_updates(serials: Map<SerialKind, u32>, updates: Seq<(SerialKind, u32)>) -> Map<SerialKind, u32>
    decreases updates.len(),
{
    if updates.len() == 0 {
        serials
    } else {
        after_updates(serials, updates.drop_last()).insert(updates.last().0, updates.last().1)
    }
}

/// The last serial recorded for `kind` among `updates`, if any.
pub open spec fn last_recorded(updates: Seq<(SerialKind, u32)>, kind: SerialKind) -> Option<u32>
    decreases updates.len(),
{
    if updates.len() == 0 {
        None
    } else if updates.last().0 == kind {
        Some(updates.last().1)
    } else {
        last_recorded(updates.drop_last(), kind)
    }
}

/// What [`SerialTracker::get`] reads for `kind` from the tracked serials.
pub open spec fn read_serial(serials: Map<SerialKind, u32>, kind: SerialKind) -> u32 {
    if serials.contains_key(kind) {
        serials[kind]
    } else {
        0
    }
}

/// After any number of updates on a fresh tracker, the serial read for a
/// kind is the last one recorded for it, or 0 if none was.
pub proof fn lemma_get_after_updates(updates: Seq<(SerialKind, u32)>, kind: SerialKind)
    ensures
        read_serial(after_updates(Map::empty(), updates), kind) == match last_recorded(updates, kind) {
            Some(v) => v,
            None => 0,
        },
        after_updates(Map::empty(), updates).contains_key(kind) == last_recorded(updates, kind) is Some,
    decreases updates.len(),
{
    if updates.len() > 0 {
        lemma_get_after_updates(updates.drop_last(), kind);
    }
}

} // verus!
