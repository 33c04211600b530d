//! Bookkeeping of the cache of font hinting instances: which cached slot a
//! font configuration uses, when a new slot is opened, and which slot is
//! recycled (the least recently used one) once the cache is full.
//!
//! The hinting instances themselves are built by the font backend and kept
//! next to these slots, one per slot, by the caller.

use vstd::prelude::*;

verus! {

/// The most hinting instances kept per outline format.
pub const MAX_CACHED_HINT_INSTANCES: usize = 16;

/// The configuration a hinting instance is built for: the font (its blob id
/// and index in the blob), the size (the bit pattern of the pixels-per-em
/// value) and the normalized variation coordinates.
pub struct HintKey {
    pub font_id: u64,
    pub font_index: u32,
    pub size_bits: u32,
    pub coords: Vec<i16>,
}

/// One cache slot: the configuration its instance currently has and the
/// serial number of its last use.
pub struct HintSlot {
    pub font_id: u64,
    pub font_index: u32,
    pub size_bits: u32,
    pub coords: Vec<i16>,
    pub serial: u64,
}

/// Where a configuration is found in a slot list.
#[derive(Clone, Copy, Debug, PartialEq, Eq, Structural)]
pub enum HintLookup {
    /// The slot at this index already holds the configuration.
    Found(usize),
    /// No slot holds it and there is room for one more.
    Vacant,
    /// No slot holds it, the list is full, and the slot at this index is the
    /// least recently used one.
    Evict(usize),
}

/// The cache of hinting slots, split by outline format (glyf and the others)
/// because an instance is only reused for the format it was built for.
pub struct HintCache {
    glyf_entries: Vec<HintSlot>,
    cff_entries: Vec<HintSlot>,
    serial: u64,
}

/// A slot holds the configuration of `key`.
pub open spec fn slot_matches(slot: HintSlot, key: HintKey) -> bool {
    &&& slot.font_id == key.font_id
    &&& slot.font_index == key.font_index
    &&& slot.size_bits == key.size_bits
    &&& slot.coords@ == key.coords@
}

/// The answer a lookup owes for `key` in the slot list `slots`.
pub open spec fn lookup_result(slots: Seq<HintSlot>, key: HintKey, r: HintLookup) -> bool {
    match r {
        HintLookup::Found(ix) => {
            &&& ix < slots.len()
            &&& slot_matches(slots[ix as int], key)
            &&& forall|j: int| 0 <= j < ix ==> !slot_matches(#[trigger] slots[j], key)
        },
        HintLookup::Vacant => {
            &&& forall|j: int| 0 <= j < slots.len() ==> !slot_matches(#[trigger] slots[j], key)
            &&& slots.len() < MAX_CACHED_HINT_INSTANCES
        },
        HintLookup::Evict(ix) => {
            &&& forall|j: int| 0 <= j < slots.len() ==> !slot_matches(#[trigger] slots[j], key)
            &&& slots.len() >= MAX_CACHED_HINT_INSTANCES
            &&& ix < slots.len()
            &&& forall|j: int| 0 <= j < slots.len() ==> slots[ix as int].serial <= #[trigger] slots[j].serial
            &&& forall|j: int| 0 <= j < ix ==> slots[ix as int].serial < #[trigger] slots[j].serial
        },
    }
}

fn coords_equal(a: &Vec<i16>, b: &Vec<i16>) -> (eq: bool)
    ensures
        eq == (a@ == b@),
{
    if a.len() != b.len() {
        return false;
    }
    let n = a.len();
    let mut i: usize = 0;
    while i < n
        invariant
            n == a@.len(),
            n == b@.len(),
            0 <= i <= n,
            forall|j: int| 0 <= j < i ==> a@[j] == b@[j],
        decreases n - i,
    {
        if a[i] != b[i] {
            return false;
        }
        i = i + 1;
    }
    assert(a@ =~= b@);
    true
}

fn slot_matches_exec(slot: &HintSlot, key: &HintKey) -> (m: bool)
    ensures
        m == slot_matches(*slot, *key),
{
    slot.font_id == key.font_id && slot.font_index == key.font_index && slot.size_bits == key.size_bits
        && coords_equal(&slot.coords, &key.coords)
}

/// Looks `key` up in `entries`: the first slot that holds it; otherwise room
/// for a new slot, or (when full) the least recently used slot, the first one
/// with the smallest serial.
pub fn find(entries: &Vec<HintSlot>, key: &HintKey) -> (r: HintLookup)
    ensures
        lookup_result(entries@, *key, r),
{
    let mut found_serial: u64 = u64::MAX;
    let mut found_index: usize = 0;
    let n = entries.len();
    let mut ix: usize = 0;
    while ix < n
        invariant
            n == entries@.len(),
            0 <= ix <= n,
            forall|j: int| 0 <= j < ix ==> !slot_matches(#[trigger] entries@[j], *key),
            ix > 0 ==> found_index < ix && found_serial == entries@[found_index as int].serial,
            forall|j: int| 0 <= j < ix ==> found_serial <= #[trigger] entries@[j].serial,
            forall|j: int| 0 <= j < found_index ==> found_serial < #[trigger] entries@[j].serial,
            ix == 0 ==> found_index == 0 && found_serial == u64::MAX,
        decreases n - ix,
    {
        let entry = &entries[ix];
        if slot_matches_exec(entry, key) {
            return HintLookup::Found(ix);
        }
        if entry.serial < found_serial {
            found_serial = entry.serial;
            found_index = ix;
        }
        ix = ix + 1;
    }
    if n < MAX_CACHED_HINT_INSTANCES {
        HintLookup::Vacant
    } else {
        HintLookup::Evict(found_index)
    }
}

impl HintCache {
    /// The slots of the given format.
    pub closed spec fn slots(&self, glyf: bool) -> Seq<HintSlot> {
        if glyf {
            self.glyf_entries@
        } else {
            self.cff_entries@
        }
    }

    /// The serial number of the most recent use.
    pub closed spec fn current_serial(&self) -> u64 {
        self.serial
    }

    /// An empty cache.
    pub fn new() -> (cache: Self)
        ensures
            cache.slots(true).len() == 0,
            cache.slots(false).len() == 0,
            cache.current_serial() == 0,
    {
        HintCache { glyf_entries: Vec::new(), cff_entries: Vec::new(), serial: 0 }
    }

    /// Drops every slot and restarts the serial numbers.
    pub fn clear(&mut self)
        ensures
            final(self).slots(true).len() == 0,
            final(self).slots(false).len() == 0,
            final(self).current_serial() == 0,
    {
        self.glyf_entries.clear();
        self.cff_entries.clear();
        self.serial = 0;
    }

    /// Looks `key` up among the slots of the given format.
    pub fn lookup(&self, glyf: bool, key: &HintKey) -> (r: HintLookup)
        ensures
            lookup_result(self.slots(glyf), *key, r),
    {
        if glyf {
            find(&self.glyf_entries, key)
        } else {
            find(&self.cff_entries, key)
        }
    }

    /// Opens a new slot for `key` (whose instance the caller has just built)
    /// and returns its index. A new slot starts with serial 0.
    pub fn insert(&mut self, glyf: bool, key: HintKey) -> (ix: usize)
        requires
            old(self).slots(glyf).len() < MAX_CACHED_HINT_INSTANCES,
        ensures
            ix == old(self).slots(glyf).len(),
            final(self).slots(glyf) == old(self).slots(glyf).push(
                HintSlot {
                    font_id: key.font_id,
                    font_index: key.font_index,
                    size_bits: key.size_bits,
                    coords: key.coords,
                    serial: 0,
                },
            ),
            final(self).slots(!glyf) == old(self).slots(!glyf),
            final(self).current_serial() == old(self).current_serial(),
    {
        let slot = HintSlot {
            font_id: key.font_id,
            font_index: key.font_index,
            size_bits: key.size_bits,
            coords: key.coords,
            serial: 0,
        };
        if glyf {
            let ix = self.glyf_entries.len();
            self.glyf_entries.push(slot);
            ix
        } else {
            let ix = self.cff_entries.len();
            self.cff_entries.push(slot);
            ix
        }
    }

    /// Marks slot `ix` as the most recently used: the serial advances by one
    /// and the slot takes the new serial.
    pub fn touch(&mut self, glyf: bool, ix: usize)
        requires
            ix < old(self).slots(glyf).len(),
            old(self).current_serial() < u64::MAX,
        ensures
            final(self).current_serial() == old(self).current_serial() + 1,
            final(self).slots(glyf).len() == old(self).slots(glyf).len(),
            final(self).slots(glyf)[ix as int].serial == final(self).current_serial(),
            final(self).slots(glyf)[ix as int].font_id == old(self).slots(glyf)[ix as int].font_id,
            final(self).slots(glyf)[ix as int].font_index == old(self).slots(glyf)[ix as int].font_index,
            final(self).slots(glyf)[ix as int].size_bits == old(self).slots(glyf)[ix as int].size_bits,
            final(self).slots(glyf)[ix as int].coords@ == old(self).slots(glyf)[ix as int].coords@,
            forall|j: int| 0 <= j < final(self).slots(glyf).len() && j != ix ==> #[trigger] final(self).slots(glyf)[j] == old(self).slots(glyf)[j],
            final(self).slots(!glyf) == old(self).slots(!glyf),
    {
        self.serial = self.serial + 1;
        let serial = self.serial;
        if glyf {
            let mut slot = self.glyf_entries.remove(ix);
            slot.serial = serial;
            self.glyf_entries.insert(ix, slot);
        } else {
            let mut slot = self.cff_entries.remove(ix);
            slot.serial = serial;
            self.cff_entries.insert(ix, slot);
        }
    }

    /// Gives slot `ix` the configuration of `key` (after the caller has
    /// reconfigured its instance); its serial is kept.
    pub fn reassign(&mut self, glyf: bool, ix: usize, key: HintKey)
        requires
            ix < old(self).slots(glyf).len(),
        ensures
            final(self).current_serial() == old(self).current_serial(),
            final(self).slots(glyf) == old(self).slots(glyf).update(
                ix as int,
                HintSlot {
                    font_id: key.font_id,
                    font_index: key.font_index,
                    size_bits: key.size_bits,
                    coords: key.coords,
                    serial: old(self).slots(glyf)[ix as int].serial,
                },
            ),
            final(self).slots(!glyf) == old(self).slots(!glyf),
    {
        let serial = if glyf { self.glyf_entries[ix].serial } else { self.cff_entries[ix].serial };
        let slot = HintSlot {
            font_id: key.font_id,
            font_index: key.font_index,
            size_bits: key.size_bits,
            coords: key.coords,
            serial,
        };
        if glyf {
            self.glyf_entries.set(ix, slot);
        } else {
            self.cff_entries.set(ix, slot);
        }
    }
}

/// The slot list after slot `ix` is stamped with `serial` and, where
/// `owner` is given, with that font (its id and index in the blob).
pub open spec fn stamped(slots: Seq<HintSlot>, ix: int, serial: u64, owner: Option<(u64, u32)>) -> Seq<HintSlot> {
    let old_slot = slots[ix];
    slots.update(
        ix,
        HintSlot {
            font_id: match owner {
                Some(o) => o.0,
                None => old_slot.font_id,
            },
            font_index: match owner {
                Some(o) => o.1,
                None => old_slot.font_index,
            },
            size_bits: old_slot.size_bits,
            coords: old_slot.coords,
            serial,
        },
    )
}

/// The slot a configuration gets when its instance is (re)built for it.
pub open spec fn slot_for(key: HintKey, serial: u64) -> HintSlot {
    HintSlot {
        font_id: key.font_id,
        font_index: key.font_index,
        size_bits: key.size_bits,
        coords: key.coords,
        serial,
    }
}

/// One use of the cache for `key`, given where the lookup found it and
/// whether the font backend's work for that case succeeded (building a new
/// instance for a vacant slot, reconfiguring the recycled one): the slots of
/// the format afterwards, the serial afterwards, and the slot whose instance
/// is handed out (`None` when the backend failed).
///
/// A found slot is stamped with the next serial. A vacant place is filled
/// with a new slot stamped with the next serial, or left alone if no
/// instance could be built. A recycled slot is stamped with the next serial
/// and takes the key's font before its instance is reconfigured; if that
/// fails, it keeps the size and coordinates it recorded.
pub open spec fn spec_record_use(
    slots: Seq<HintSlot>,
    serial: u64,
    key: HintKey,
    found: HintLookup,
    backend_ok: bool,
) -> (Seq<HintSlot>, u64, Option<usize>) {
    let next = (serial + 1) as u64;
    match found {
        HintLookup::Found(ix) => (stamped(slots, ix as int, next, None), next, Some(ix)),
        HintLookup::Vacant => if backend_ok {
            (slots.push(slot_for(key, next)), next, Some(slots.len() as usize))
        } else {
            (slots, serial, None)
        },
        HintLookup::Evict(ix) => if backend_ok {
            (slots.update(ix as int, slot_for(key, next)), next, Some(ix))
        } else {
            (stamped(slots, ix as int, next, Some((key.font_id, key.font_index))), next, None)
        },
    }
}

fn stamp_slot(entries: &mut Vec<HintSlot>, ix: usize, serial: u64, owner: Option<(u64, u32)>)
    requires
        ix < old(entries)@.len(),
    ensures
        final(entries)@ == stamped(old(entries)@, ix as int, serial, owner),
{
    let mut slot = entries.remove(ix);
    slot.serial = serial;
    if let Some(o) = owner {
        slot.font_id = o.0;
        slot.font_index = o.1;
    }
    entries.insert(ix, slot);
    assert(entries@ =~= stamped(old(entries)@, ix as int, serial, owner));
}

impl HintCache {
    /// Records one use of the cache for `key`, where `found` is what
    /// [`HintCache::lookup`] answered and `backend_ok` whether the font
    /// backend built (for a vacant place) or reconfigured (for a recycled
    /// slot) the instance; returns the slot whose instance serves the key,
    /// as [`spec_record_use`] says. The slots of the other format are left
    /// alone.
    pub fn record_use(&mut self, glyf: bool, key: HintKey, found: HintLookup, backend_ok: bool) -> (r: Option<usize>)
        requires
            lookup_result(old(self).slots(glyf), key, found),
            old(self).current_serial() < u64::MAX,
        ensures
            (final(self).slots(glyf), final(self).current_serial(), r) == spec_record_use(
                old(self).slots(glyf),
                old(self).current_serial(),
                key,
                found,
                backend_ok,
            ),
            final(self).slots(!glyf) == old(self).slots(!glyf),
    {
        match found {
            HintLookup::Found(ix) => {
                self.serial = self.serial + 1;
                if glyf {
                    stamp_slot(&mut self.glyf_entries, ix, self.serial, None);
                } else {
                    stamp_slot(&mut self.cff_entries, ix, self.serial, None);
                }
                Some(ix)
            },
            HintLookup::Vacant => {
                if !backend_ok {
                    return None;
                }
                self.serial = self.serial + 1;
                let slot = HintSlot {
                    font_id: key.font_id,
                    font_index: key.font_index,
                    size_bits: key.size_bits,
                    coords: key.coords,
                    serial: self.serial,
                };
                if glyf {
                    let ix = self.glyf_entries.len();
                    self.glyf_entries.push(slot);
                    Some(ix)
                } else {
                    let ix = self.cff_entries.len();
                    self.cff_entries.push(slot);
                    Some(ix)
                }
            },
            HintLookup::Evict(ix) => {
                self.serial = self.serial + 1;
                if backend_ok {
                    let slot = HintSlot {
                        font_id: key.font_id,
                        font_index: key.font_index,
                        size_bits: key.size_bits,
                        coords: key.coords,
                        serial: self.serial,
                    };
                    if glyf {
                        self.glyf_entries.set(ix, slot);
                    } else {
                        self.cff_entries.set(ix, slot);
                    }
                    Some(ix)
                } else {
                    let owner = Some((key.font_id, key.font_index));
                    if glyf {
                        stamp_slot(&mut self.glyf_entries, ix, self.serial, owner);
                    } else {
                        stamp_slot(&mut self.cff_entries, ix, self.serial, owner);
                    }
                    None
                }
            },
        }
    }
}

/// A use of the cache that hands out a slot hands out one that holds the
/// key's configuration and carries the newest serial.
pub proof fn lemma_record_use_serves_key(
    slots: Seq<HintSlot>,
    serial: u64,
    key: HintKey,
    found: HintLookup,
    backend_ok: bool,
)
    requires
        lookup_result(slots, key, found),
        serial < u64::MAX,
    ensures
        ({
            let (after, next, r) = spec_record_use(slots, serial, key, found, backend_ok);
            r matches Some(ix) ==> ix < after.len() && slot_matches(after[ix as int], key)
                && after[ix as int].serial == next
        }),
{
}

/// No slot carries a serial beyond the current one.
pub open spec fn serials_bounded(slots: Seq<HintSlot>, serial: u64) -> bool {
    forall|j: int| 0 <= j < slots.len() ==> #[trigger] slots[j].serial <= serial
}

/// Every use that hands out a slot advances the serial by one and makes
/// that slot the single most recently used one: its serial is the new
/// current serial and every other slot's is smaller. No slot is then beyond
/// the current serial, so this holds again at the next use.
pub proof fn lemma_record_use_makes_slot_most_recent(
    slots: Seq<HintSlot>,
    serial: u64,
    key: HintKey,
    found: HintLookup,
    backend_ok: bool,
)
    requires
        lookup_result(slots, key, found),
        serial < u64::MAX,
        serials_bounded(slots, serial),
    ensures
        ({
            let (after, next, r) = spec_record_use(slots, serial, key, found, backend_ok);
            &&& serials_bounded(after, next)
            &&& (r matches Some(ix) ==> {
                &&& next == serial + 1
                &&& ix < after.len()
                &&& after[ix as int].serial == next
                &&& forall|j: int| 0 <= j < after.len() && j != ix ==> #[trigger] after[j].serial < after[ix as int].serial
            })
            &&& (r is None ==> next == serial || next == serial + 1)
        }),
{
    let (after, next, r) = spec_record_use(slots, serial, key, found, backend_ok);
    assert forall|j: int| 0 <= j < after.len() implies #[trigger] after[j].serial <= next by {
        if j < slots.len() {
            assert(slots[j].serial <= serial);
        }
    }
    if let Some(ix) = r {
        assert forall|j: int| 0 <= j < after.len() && j != ix implies #[trigger] after[j].serial < after[ix as int].serial by {
            assert(slots[j].serial <= serial);
        }
    }
}

/// A slot that was used more recently than every other slot is never the one
/// recycled: when a lookup has to evict and there is more than one slot, it
/// picks another slot.
pub proof fn lemma_most_recent_slot_not_evicted(slots: Seq<HintSlot>, ix: usize, key: HintKey, r: HintLookup)
    requires
        0 <= ix < slots.len(),
        slots.len() >= 2,
        forall|j: int| 0 <= j < slots.len() && j != ix ==> #[trigger] slots[j].serial < slots[ix as int].serial,
        lookup_result(slots, key, r),
    ensures
        r != HintLookup::Evict(ix),
{
    if r == HintLookup::Evict(ix) {
        let other = if ix == 0 { 1int } else { 0int };
        assert(slots[ix as int].serial <= slots[other].serial);
        assert(slots[other].serial < slots[ix as int].serial);
    }
}

/// Once a slot has been given a configuration, looking that configuration
/// up finds a slot holding it, that slot or an earlier one.
pub proof fn lemma_lookup_finds_assigned_slot(slots: Seq<HintSlot>, ix: usize, key: HintKey, r: HintLookup)
    requires
        0 <= ix < slots.len(),
        slot_matches(slots[ix as int], key),
        lookup_result(slots, key, r),
    ensures
        r matches HintLookup::Found(j) && j <= ix,
{
    match r {
        HintLookup::Found(j) => {
            if j > ix {
                assert(!slot_matches(slots[ix as int], key));
            }
        },
        HintLookup::Vacant => {
            assert(!slot_matches(slots[ix as int], key));
        },
        HintLookup::Evict(_) => {
            assert(!slot_matches(slots[ix as int], key));
        },
    }
}

} // verus!
