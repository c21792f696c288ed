//! Mailbox of register payloads.
//!
//! A slot is addressed by unit type, unit id and register, and for registers
//! `03` and `04` also by the zone in the first payload byte. The destination of
//! a record is no part of its address.
use crate::registers::decoded::DecodedRegister;
use crate::registers::ids::{group_unit_id, RegId, UnitId, UnitType, UNIT_ID_MAX};
use crate::registers::wire::{CanRecord, Dest};
use vstd::prelude::*;

verus! {

/// Registers with one slot for each zone.
pub const ZONE_BEARING_REGS: [u8; 2] = [0x03, 0x04];

/// Whether a register has one slot for each zone.
pub open spec fn zone_bearing(reg: RegId) -> bool {
    reg.0 == 0x03 || reg.0 == 0x04
}

/// Whether `reg` has one slot for each zone.
pub fn is_zone_bearing(reg: RegId) -> (r: bool)
    ensures
        r == zone_bearing(reg),
{
    reg.get() == ZONE_BEARING_REGS[0] || reg.get() == ZONE_BEARING_REGS[1]
}

/// Address of a mailbox slot.
#[derive(Debug, Clone, Copy, PartialEq, Eq, Hash, Structural)]
pub struct BankKey {
    /// Top-level unit type.
    pub unit_type: UnitType,
    /// 20-bit unit identifier.
    pub unit_id: UnitId,
    /// Register identifier.
    pub reg: RegId,
    /// Zone of a zone-bearing register.
    pub zone: Option<u8>,
}

impl BankKey {
    /// The slot that a record goes to.
    pub open spec fn of(record: CanRecord) -> BankKey {
        BankKey {
            unit_type: record.unit_type,
            unit_id: record.unit_id,
            reg: record.reg,
            zone: if zone_bearing(record.reg) {
                Some(record.data[0])
            } else {
                None
            },
        }
    }

    /// The slot that `record` goes to.
    pub fn from_record(record: &CanRecord) -> (key: BankKey)
        ensures
            key == BankKey::of(*record),
    {
        let zone = if is_zone_bearing(record.reg) {
            Some(record.data[0])
        } else {
            None
        };
        BankKey { unit_type: record.unit_type, unit_id: record.unit_id, reg: record.reg, zone }
    }

    /// Address without a zone.
    pub fn non_zone(unit_type: UnitType, unit_id: UnitId, reg: RegId) -> (key: BankKey)
        ensures
            key == (BankKey { unit_type, unit_id, reg, zone: None }),
    {
        BankKey { unit_type, unit_id, reg, zone: None }
    }

    /// Address with a zone.
    pub fn with_zone(unit_type: UnitType, unit_id: UnitId, reg: RegId, zone: u8) -> (key: BankKey)
        ensures
            key == (BankKey { unit_type, unit_id, reg, zone: Some(zone) }),
    {
        BankKey { unit_type, unit_id, reg, zone: Some(zone) }
    }

    /// Place of an address in the order by unit type, unit id, register, zone.
    pub open spec fn rank(self) -> int {
        ((self.unit_type.0 * 0x10_0000 + self.unit_id@) * 256 + self.reg.0) * 257
            + match self.zone {
            None => 0,
            Some(z) => z + 1,
        }
    }

    /// Place of this address in the order of addresses.
    pub fn place(self) -> (r: u64)
        ensures
            r == self.rank(),
            self.unit_id@ <= UNIT_ID_MAX,
    {
        let z: u64 = match self.zone {
            None => 0,
            Some(z) => z as u64 + 1,
        };
        ((self.unit_type.get() as u64 * 0x10_0000 + self.unit_id.get() as u64) * 256
            + self.reg.get() as u64) * 257 + z
    }
}

/// Addresses are told apart by their place.
pub proof fn lemma_rank(a: BankKey, b: BankKey)
    requires
        a.unit_id@ <= UNIT_ID_MAX,
        b.unit_id@ <= UNIT_ID_MAX,
    ensures
        a.rank() == b.rank() ==> a == b,
        a.unit_type.0 < b.unit_type.0 ==> a.rank() < b.rank(),
        a.unit_type == b.unit_type && a.unit_id@ < b.unit_id@ ==> a.rank() < b.rank(),
        a.unit_type == b.unit_type && a.unit_id == b.unit_id && a.reg.0 < b.reg.0 ==> a.rank()
            < b.rank(),
{
    broadcast use group_unit_id;

    if a.rank() == b.rank() {
        assert(a.unit_type.0 == b.unit_type.0);
        assert(a.unit_id@ == b.unit_id@);
        assert(UnitId::of(a.unit_id@) == a.unit_id);
        assert(a.reg.0 == b.reg.0);
    }
}

/// One occupied slot.
#[derive(Debug, Clone, Copy)]
struct Slot {
    key: BankKey,
    data: [u8; 7],
}

/// Whether `data` can stand in the slot `key`.
pub open spec fn fits(key: BankKey, data: [u8; 7]) -> bool {
    &&& key.unit_id@ <= UNIT_ID_MAX
    &&& key.zone == if zone_bearing(key.reg) {
        Some(data[0])
    } else {
        None
    }
}

/// Mailbox in which the last write of a slot wins.
#[derive(Debug)]
pub struct RegisterBank {
    slots: Vec<Slot>,
}

/// The contents of a list of slots.
spec fn slots_map(slots: Seq<Slot>) -> Map<BankKey, [u8; 7]>
    decreases slots.len(),
{
    if slots.len() == 0 {
        Map::empty()
    } else {
        slots_map(slots.drop_last()).insert(slots.last().key, slots.last().data)
    }
}

spec fn sorted(slots: Seq<Slot>) -> bool {
    &&& forall|i: int| 0 <= i < slots.len() ==> fits((#[trigger] slots[i]).key, slots[i].data)
    &&& forall|i: int, j: int|
        0 <= i < j < slots.len() ==> (#[trigger] slots[i]).key.rank() < (
        #[trigger] slots[j]).key.rank()
}

proof fn lemma_slots_map(slots: Seq<Slot>)
    requires
        sorted(slots),
    ensures
        slots_map(slots).dom().finite(),
        slots_map(slots).dom().len() == slots.len(),
        forall|k: BankKey| #[trigger]
            slots_map(slots).dom().contains(k) ==> exists|i: int|
                0 <= i < slots.len() && (#[trigger] slots[i]).key == k && slots_map(slots)[k]
                    == slots[i].data,
        forall|i: int|
            0 <= i < slots.len() ==> slots_map(slots).dom().contains((#[trigger] slots[i]).key)
                && slots_map(slots)[slots[i].key] == slots[i].data,
    decreases slots.len(),
{
    if slots.len() > 0 {
        let init = slots.drop_last();
        let last = slots.last();
        assert forall|i: int| 0 <= i < init.len() implies init[i] == slots[i] by {}
        assert(sorted(init)) by {
            assert forall|i: int| 0 <= i < init.len() implies fits(
                (#[trigger] init[i]).key,
                init[i].data,
            ) by {
                assert(init[i] == slots[i]);
            }
            assert forall|i: int, j: int| 0 <= i < j < init.len() implies (#[trigger] init[i]).key.rank()
                < (#[trigger] init[j]).key.rank() by {
                assert(init[i] == slots[i] && init[j] == slots[j]);
            }
        }
        lemma_slots_map(init);
        let m = slots_map(init);
        assert(!m.dom().contains(last.key)) by {
            if m.dom().contains(last.key) {
                let i = choose|i: int| 0 <= i < init.len() && (#[trigger] init[i]).key == last.key;
                assert(slots[i].key.rank() < slots[slots.len() - 1].key.rank());
            }
        }
        assert forall|k: BankKey| #[trigger]
            slots_map(slots).dom().contains(k) implies exists|i: int|
            0 <= i < slots.len() && (#[trigger] slots[i]).key == k && slots_map(slots)[k]
                == slots[i].data by {
            if k == last.key {
                assert(slots[slots.len() - 1].key == k);
            } else {
                assert(m.dom().contains(k));
                let i = choose|i: int|
                    0 <= i < init.len() && (#[trigger] init[i]).key == k && m[k] == init[i].data;
                assert(slots[i].key == k);
            }
        }
        assert forall|i: int| 0 <= i < slots.len() implies slots_map(slots).dom().contains(
            (#[trigger] slots[i]).key,
        ) && slots_map(slots)[slots[i].key] == slots[i].data by {
            if i < init.len() {
                assert(init[i] == slots[i]);
                assert(slots[i].key.rank() < slots[slots.len() - 1].key.rank());
            }
        }
    }
}

impl View for RegisterBank {
    type V = Map<BankKey, [u8; 7]>;

    closed spec fn view(&self) -> Map<BankKey, [u8; 7]> {
        slots_map(self.slots@)
    }
}

/// The value of a slot, if it is occupied.
pub open spec fn lookup(bank: Map<BankKey, [u8; 7]>, key: BankKey) -> Option<[u8; 7]> {
    if bank.dom().contains(key) {
        Some(bank[key])
    } else {
        None
    }
}

/// The mailbox after records were stored in order.
pub open spec fn stored(bank: Map<BankKey, [u8; 7]>, records: Seq<CanRecord>) -> Map<
    BankKey,
    [u8; 7],
>
    decreases records.len(),
{
    if records.len() == 0 {
        bank
    } else {
        stored(bank, records.drop_last()).insert(BankKey::of(records.last()), records.last().data)
    }
}

/// Whether every payload stands in a slot that it fits, of which there are finitely
/// many.
pub open spec fn well_kept(bank: Map<BankKey, [u8; 7]>) -> bool {
    &&& bank.dom().finite()
    &&& forall|k: BankKey| #[trigger] bank.dom().contains(k) ==> fits(k, bank[k])
}

/// Whether some slot of the unit is occupied.
pub open spec fn unit_present(
    bank: Map<BankKey, [u8; 7]>,
    unit_type: UnitType,
    unit_id: UnitId,
) -> bool {
    exists|k: BankKey| #[trigger]
        bank.dom().contains(k) && k.unit_type == unit_type && k.unit_id == unit_id
}

/// Whether `id` is the smallest unit id of `unit_type`.
pub open spec fn smallest_unit(
    bank: Map<BankKey, [u8; 7]>,
    unit_type: UnitType,
    id: UnitId,
) -> bool {
    &&& unit_present(bank, unit_type, id)
    &&& forall|k: BankKey| #[trigger]
        bank.dom().contains(k) && k.unit_type == unit_type ==> id@ <= k.unit_id@
}

/// Whether some slot of the unit type is occupied.
pub open spec fn type_present(bank: Map<BankKey, [u8; 7]>, unit_type: UnitType) -> bool {
    exists|k: BankKey| #[trigger] bank.dom().contains(k) && k.unit_type == unit_type
}

/// The record of a slot, addressed to the tablet.
pub open spec fn tablet_record(key: BankKey, data: [u8; 7]) -> CanRecord {
    CanRecord {
        unit_type: key.unit_type,
        dest: Dest::Tablet,
        unit_id: key.unit_id,
        reg: key.reg,
        data,
    }
}

/// Whether `out` lists exactly the slots that `wanted` picks, as records to the
/// tablet in the order of their addresses.
pub open spec fn lists(
    bank: Map<BankKey, [u8; 7]>,
    wanted: spec_fn(BankKey) -> bool,
    out: Seq<CanRecord>,
) -> bool {
    &&& forall|i: int|
        0 <= i < out.len() ==> {
            let key = BankKey::of(#[trigger] out[i]);
            bank.dom().contains(key) && wanted(key) && out[i] == tablet_record(key, bank[key])
        }
    &&& forall|i: int, j: int|
        0 <= i < j < out.len() ==> BankKey::of(#[trigger] out[i]).rank() < BankKey::of(
            #[trigger] out[j],
        ).rank()
    &&& forall|k: BankKey| #[trigger]
        bank.dom().contains(k) && wanted(k) ==> exists|i: int|
            0 <= i < out.len() && BankKey::of(#[trigger] out[i]) == k
}

/// The keys of one unit.
pub open spec fn of_unit(unit_type: UnitType, unit_id: UnitId) -> spec_fn(BankKey) -> bool {
    |k: BankKey| k.unit_type == unit_type && k.unit_id == unit_id
}

/// The keys of one unit type.
pub open spec fn of_type(unit_type: UnitType) -> spec_fn(BankKey) -> bool {
    |k: BankKey| k.unit_type == unit_type
}

/// Every key.
pub open spec fn any_key() -> spec_fn(BankKey) -> bool {
    |k: BankKey| true
}

/// The records of a whole bank, in the order of their addresses.
pub open spec fn listing(bank: Map<BankKey, [u8; 7]>) -> Seq<CanRecord> {
    choose|out: Seq<CanRecord>| lists(bank, any_key(), out)
}

impl RegisterBank {
    #[verifier::type_invariant]
    spec fn ordered(self) -> bool {
        sorted(self.slots@)
    }

    /// An empty bank.
    pub fn new() -> (bank: RegisterBank)
        ensures
            bank@ == Map::<BankKey, [u8; 7]>::empty(),
    {
        RegisterBank { slots: Vec::new() }
    }

    /// Number of occupied slots.
    pub fn len(&self) -> (n: usize)
        ensures
            well_kept(self@),
            n == self@.dom().len(),
    {
        proof {
            use_type_invariant(self);
            lemma_slots_map(self.slots@);
            assert forall|k: BankKey| #[trigger] self@.dom().contains(k) implies fits(
                k,
                self@[k],
            ) by {
                let i = choose|i: int|
                    0 <= i < self.slots@.len() && (#[trigger] self.slots@[i]).key == k && slots_map(
                        self.slots@,
                    )[k] == self.slots@[i].data;
                assert(fits(self.slots@[i].key, self.slots@[i].data));
            }
        }
        self.slots.len()
    }

    /// Whether no slot is occupied.
    pub fn is_empty(&self) -> (r: bool)
        ensures
            r == (self@ == Map::<BankKey, [u8; 7]>::empty()),
    {
        proof {
            use_type_invariant(self);
            lemma_slots_map(self.slots@);
            if self.slots@.len() > 0 {
                assert(self@.dom().contains(self.slots@[0].key));
            }
        }
        self.slots.len() == 0
    }

    /// First slot at or after the place of `key`.
    fn seek(&self, key: BankKey) -> (i: usize)
        ensures
            i <= self.slots@.len(),
            key.unit_id@ <= UNIT_ID_MAX,
            forall|j: int| 0 <= j < i ==> (#[trigger] self.slots@[j]).key.rank() < key.rank(),
            i < self.slots@.len() ==> self.slots@[i as int].key.rank() >= key.rank(),
    {
        let place: u64 = key.place();
        let mut i: usize = 0;
        while i < self.slots.len() && self.slots[i].key.place() < place
            invariant
                i <= self.slots@.len(),
                place == key.rank(),
                forall|j: int| 0 <= j < i ==> (#[trigger] self.slots@[j]).key.rank() < key.rank(),
            decreases self.slots@.len() - i,
        {
            i = i + 1;
        }
        i
    }

    /// Stores the payload of `record` in its slot; the last write wins.
    pub fn apply(&mut self, record: &CanRecord)
        ensures
            final(self)@ == old(self)@.insert(BankKey::of(*record), record.data),
    {
        proof {
            use_type_invariant(&*self);
        }
        let key = BankKey::from_record(record);
        let i: usize = self.seek(key);
        let ghost before = self.slots@;
        let slot = Slot { key, data: record.data };
        let mut slots: Vec<Slot> = Vec::new();
        std::mem::swap(&mut slots, &mut self.slots);
        if i < slots.len() && slots[i].key == key {
            slots[i] = slot;
            proof {
                lemma_replaced(before, i as int, slot);
            }
        } else {
            proof {
                if i < before.len() {
                    lemma_rank(before[i as int].key, key);
                }
                lemma_inserted(before, i as int, slot);
            }
            slots.insert(i, slot);
        }
        self.slots = slots;
    }

    /// Value of the slot `key`.
    pub fn get_key(&self, key: &BankKey) -> (r: Option<[u8; 7]>)
        ensures
            r == lookup(self@, *key),
    {
        proof {
            use_type_invariant(self);
            lemma_slots_map(self.slots@);
        }
        let i: usize = self.seek(*key);
        if i < self.slots.len() && self.slots[i].key == *key {
            Some(self.slots[i].data)
        } else {
            proof {
                if self@.dom().contains(*key) {
                    let j = choose|j: int|
                        0 <= j < self.slots@.len() && (#[trigger] self.slots@[j]).key == *key;
                    if i < j {
                        assert(self.slots@[i as int].key.rank() < self.slots@[j].key.rank());
                    }
                    if j < i {
                        assert(self.slots@[j].key.rank() < key.rank());
                    }
                }
            }
            None
        }
    }

    /// Value of a slot without a zone.
    pub fn get(&self, unit_type: UnitType, unit_id: UnitId, reg: RegId) -> (r: Option<[u8; 7]>)
        ensures
            r == lookup(self@, (BankKey { unit_type, unit_id, reg, zone: None })),
    {
        self.get_key(&BankKey::non_zone(unit_type, unit_id, reg))
    }

    /// Value of the slot of a zone.
    pub fn get_zone(&self, unit_type: UnitType, unit_id: UnitId, reg: RegId, zone: u8) -> (r:
        Option<[u8; 7]>)
        ensures
            r == lookup(self@, (BankKey { unit_type, unit_id, reg, zone: Some(zone) })),
    {
        self.get_key(&BankKey::with_zone(unit_type, unit_id, reg, zone))
    }

    /// Typed value of a slot without a zone.
    pub fn get_decoded(&self, unit_type: UnitType, unit_id: UnitId, reg: RegId) -> (r: Option<
        DecodedRegister,
    >)
        ensures
            match lookup(self@, (BankKey { unit_type, unit_id, reg, zone: None })) {
                Some(data) => r == Some(DecodedRegister::of(reg, data)),
                None => r is None,
            },
    {
        match self.get(unit_type, unit_id, reg) {
            Some(data) => Some(DecodedRegister::from_reg_data(reg, data)),
            None => None,
        }
    }

    /// Typed value of the slot of a zone.
    pub fn get_zone_decoded(&self, unit_type: UnitType, unit_id: UnitId, reg: RegId, zone: u8) -> (r:
        Option<DecodedRegister>)
        ensures
            match lookup(self@, (BankKey { unit_type, unit_id, reg, zone: Some(zone) })) {
                Some(data) => r == Some(DecodedRegister::of(reg, data)),
                None => r is None,
            },
    {
        match self.get_zone(unit_type, unit_id, reg, zone) {
            Some(data) => Some(DecodedRegister::from_reg_data(reg, data)),
            None => None,
        }
    }

    /// Whether any slot of the unit is occupied.
    pub fn has_unit(&self, unit_type: UnitType, unit_id: UnitId) -> (r: bool)
        ensures
            r == unit_present(self@, unit_type, unit_id),
    {
        proof {
            use_type_invariant(self);
            lemma_slots_map(self.slots@);
        }
        let mut i: usize = 0;
        while i < self.slots.len()
            invariant
                i <= self.slots@.len(),
                forall|j: int|
                    0 <= j < i ==> !((#[trigger] self.slots@[j]).key.unit_type == unit_type
                        && self.slots@[j].key.unit_id == unit_id),
                forall|j: int|
                    0 <= j < self.slots@.len() ==> self@.dom().contains(
                        (#[trigger] self.slots@[j]).key,
                    ),
            decreases self.slots@.len() - i,
        {
            if self.slots[i].key.unit_type == unit_type && self.slots[i].key.unit_id == unit_id {
                proof {
                    assert(self@.dom().contains(self.slots@[i as int].key));
                }
                return true;
            }
            i = i + 1;
        }
        false
    }

    /// `hint` if the bank has that unit; else the smallest id of the type; else
    /// `hint` all the same; else zero.
    pub fn preferred_unit_id(&self, unit_type: UnitType, hint: Option<UnitId>) -> (id: UnitId)
        ensures
            match hint {
                Some(h) => if unit_present(self@, unit_type, h) || !type_present(
                    self@,
                    unit_type,
                ) {
                    id == h
                } else {
                    smallest_unit(self@, unit_type, id)
                },
                None => if type_present(self@, unit_type) {
                    smallest_unit(self@, unit_type, id)
                } else {
                    id == UnitId::of(0)
                },
            },
    {
        if let Some(h) = hint {
            if self.has_unit(unit_type, h) {
                return h;
            }
        }
        proof {
            use_type_invariant(self);
            lemma_slots_map(self.slots@);
        }
        let mut i: usize = 0;
        while i < self.slots.len()
            invariant
                i <= self.slots@.len(),
                sorted(self.slots@),
                forall|j: int| 0 <= j < i ==> (#[trigger] self.slots@[j]).key.unit_type != unit_type,
                forall|j: int|
                    0 <= j < self.slots@.len() ==> self@.dom().contains(
                        (#[trigger] self.slots@[j]).key,
                    ),
                forall|k: BankKey| #[trigger]
                    self@.dom().contains(k) ==> exists|j: int|
                        0 <= j < self.slots@.len() && (#[trigger] self.slots@[j]).key == k,
                hint matches Some(h) ==> !unit_present(self@, unit_type, h),
            decreases self.slots@.len() - i,
        {
            if self.slots[i].key.unit_type == unit_type {
                let id = self.slots[i].key.unit_id;
                proof {
                    let first = self.slots@[i as int].key;
                    assert(self@.dom().contains(first));
                    assert forall|k: BankKey| #[trigger]
                        self@.dom().contains(k) && k.unit_type == unit_type implies id@
                        <= k.unit_id@ by {
                        let j = choose|j: int|
                            0 <= j < self.slots@.len() && (#[trigger] self.slots@[j]).key == k;
                        if i < j {
                            assert(first.rank() < k.rank());
                            lemma_rank(k, first);
                        }
                    }
                }
                return id;
            }
            i = i + 1;
        }
        match hint {
            Some(h) => h,
            None => UnitId::zero(),
        }
    }

    /// The slots of one unit as records to the tablet, by register and zone.
    pub fn records_for_unit(&self, unit_type: UnitType, unit_id: UnitId) -> (out: Vec<CanRecord>)
        ensures
            lists(self@, of_unit(unit_type, unit_id), out@),
    {
        let mut out: Vec<CanRecord> = Vec::new();
        let mut i: usize = 0;
        let ghost wanted = of_unit(unit_type, unit_id);
        proof {
            use_type_invariant(self);
            lemma_slots_map(self.slots@);
        }
        while i < self.slots.len()
            invariant
                i <= self.slots@.len(),
                sorted(self.slots@),
                wanted == of_unit(unit_type, unit_id),
                listed_before(self.slots@, i as int, wanted, out@),
            decreases self.slots@.len() - i,
        {
            let slot = self.slots[i];
            if slot.key.unit_type == unit_type && slot.key.unit_id == unit_id {
                out.push(slot_record(slot));
            }
            proof {
                lemma_listed_step(self.slots@, i as int, wanted);
            }
            i = i + 1;
        }
        proof {
            lemma_lists(self.slots@, wanted, out@);
        }
        out
    }

    /// The slots of one unit type as records to the tablet, by unit id, register
    /// and zone.
    pub fn records_for_any_unit(&self, unit_type: UnitType) -> (out: Vec<CanRecord>)
        ensures
            lists(self@, of_type(unit_type), out@),
    {
        let mut out: Vec<CanRecord> = Vec::new();
        let mut i: usize = 0;
        let ghost wanted = of_type(unit_type);
        proof {
            use_type_invariant(self);
            lemma_slots_map(self.slots@);
        }
        while i < self.slots.len()
            invariant
                i <= self.slots@.len(),
                sorted(self.slots@),
                wanted == of_type(unit_type),
                listed_before(self.slots@, i as int, wanted, out@),
            decreases self.slots@.len() - i,
        {
            let slot = self.slots[i];
            if slot.key.unit_type == unit_type {
                out.push(slot_record(slot));
            }
            proof {
                lemma_listed_step(self.slots@, i as int, wanted);
            }
            i = i + 1;
        }
        proof {
            lemma_lists(self.slots@, wanted, out@);
        }
        out
    }

    /// Every slot as a record to the tablet, by unit type, unit id, register and
    /// zone.
    pub fn all_records(&self) -> (out: Vec<CanRecord>)
        ensures
            lists(self@, any_key(), out@),
            out@ == listing(self@),
    {
        let mut out: Vec<CanRecord> = Vec::new();
        let mut i: usize = 0;
        let ghost wanted = any_key();
        proof {
            use_type_invariant(self);
            lemma_slots_map(self.slots@);
        }
        while i < self.slots.len()
            invariant
                i <= self.slots@.len(),
                sorted(self.slots@),
                wanted == any_key(),
                listed_before(self.slots@, i as int, wanted, out@),
            decreases self.slots@.len() - i,
        {
            out.push(slot_record(self.slots[i]));
            proof {
                lemma_listed_step(self.slots@, i as int, wanted);
            }
            i = i + 1;
        }
        proof {
            lemma_lists(self.slots@, wanted, out@);
            law_lists_unique(self@, wanted, out@, listing(self@));
        }
        out
    }

    /// The unit types with an occupied slot, ascending.
    pub fn unit_types(&self) -> (out: Vec<UnitType>)
        ensures
            forall|i: int, j: int|
                0 <= i < j < out@.len() ==> (#[trigger] out@[i]).0 < (#[trigger] out@[j]).0,
            forall|t: UnitType| out@.contains(t) <==> type_present(self@, t),
    {
        proof {
            use_type_invariant(self);
            lemma_slots_map(self.slots@);
        }
        let mut out: Vec<UnitType> = Vec::new();
        let mut i: usize = 0;
        while i < self.slots.len()
            invariant
                i <= self.slots@.len(),
                sorted(self.slots@),
                forall|a: int, b: int|
                    0 <= a < b < out@.len() ==> (#[trigger] out@[a]).0 < (#[trigger] out@[b]).0,
                forall|a: int|
                    0 <= a < out@.len() ==> exists|j: int|
                        0 <= j < i && (#[trigger] self.slots@[j]).key.unit_type == #[trigger] out@[a],
                forall|j: int|
                    0 <= j < i ==> out@.contains((#[trigger] self.slots@[j]).key.unit_type),
                forall|j: int|
                    0 <= j < i && out@.len() > 0 ==> (#[trigger] self.slots@[j]).key.unit_type.0
                        <= out@.last().0,
            decreases self.slots@.len() - i,
        {
            let t = self.slots[i].key.unit_type;
            let ghost before = out@;
            if out.len() == 0 || out[out.len() - 1] != t {
                proof {
                    if out@.len() > 0 {
                        let a = out@.len() - 1;
                        let j = choose|j: int|
                            0 <= j < i && (#[trigger] self.slots@[j]).key.unit_type == out@[a];
                        lemma_rank(self.slots@[i as int].key, self.slots@[j].key);
                        assert(self.slots@[j].key.rank() < self.slots@[i as int].key.rank());
                        assert(out@[a].0 < t.0);
                    }
                }
                out.push(t);
                proof {
                    assert(out@[before.len() as int] == t);
                    assert forall|a: int| 0 <= a < out@.len() implies exists|j: int|
                        0 <= j < i + 1 && (#[trigger] self.slots@[j]).key.unit_type
                            == #[trigger] out@[a] by {
                        if a < before.len() {
                            assert(out@[a] == before[a]);
                            let j = choose|j: int|
                                0 <= j < i && (#[trigger] self.slots@[j]).key.unit_type
                                    == before[a];
                            assert(self.slots@[j].key.unit_type == out@[a]);
                        } else {
                            assert(self.slots@[i as int].key.unit_type == out@[a]);
                        }
                    }
                    assert forall|j: int| 0 <= j < i + 1 implies out@.contains(
                        (#[trigger] self.slots@[j]).key.unit_type,
                    ) by {
                        if j < i {
                            let x = self.slots@[j].key.unit_type;
                            assert(before.contains(x));
                            let a = choose|a: int| 0 <= a < before.len() && before[a] == x;
                            assert(out@[a] == x);
                        }
                    }
                }
            }
            i = i + 1;
        }
        proof {
            assert forall|t: UnitType| out@.contains(t) <==> type_present(self@, t) by {
                if out@.contains(t) {
                    let a = choose|a: int| 0 <= a < out@.len() && out@[a] == t;
                    let j = choose|j: int|
                        0 <= j < i && (#[trigger] self.slots@[j]).key.unit_type == out@[a];
                    assert(self@.dom().contains(self.slots@[j].key));
                }
                if type_present(self@, t) {
                    let k = choose|k: BankKey| #[trigger]
                        self@.dom().contains(k) && k.unit_type == t;
                    let j = choose|j: int|
                        0 <= j < self.slots@.len() && (#[trigger] self.slots@[j]).key == k;
                    assert(out@.contains(self.slots@[j].key.unit_type));
                }
            }
        }
        out
    }

    /// The unit ids of one type with an occupied slot, ascending.
    pub fn unit_ids(&self, unit_type: UnitType) -> (out: Vec<UnitId>)
        ensures
            forall|i: int, j: int|
                0 <= i < j < out@.len() ==> (#[trigger] out@[i])@ < (#[trigger] out@[j])@,
            forall|id: UnitId| out@.contains(id) <==> unit_present(self@, unit_type, id),
    {
        proof {
            use_type_invariant(self);
            lemma_slots_map(self.slots@);
        }
        let mut out: Vec<UnitId> = Vec::new();
        let mut i: usize = 0;
        while i < self.slots.len()
            invariant
                i <= self.slots@.len(),
                sorted(self.slots@),
                forall|a: int, b: int|
                    0 <= a < b < out@.len() ==> (#[trigger] out@[a])@ < (#[trigger] out@[b])@,
                forall|a: int|
                    0 <= a < out@.len() ==> exists|j: int|
                        0 <= j < i && (#[trigger] self.slots@[j]).key.unit_id == #[trigger] out@[a]
                            && self.slots@[j].key.unit_type == unit_type,
                forall|j: int|
                    0 <= j < i && (#[trigger] self.slots@[j]).key.unit_type == unit_type
                        ==> out@.contains(self.slots@[j].key.unit_id),
            decreases self.slots@.len() - i,
        {
            let key = self.slots[i].key;
            let ghost before = out@;
            if key.unit_type == unit_type && (out.len() == 0 || out[out.len() - 1]
                != key.unit_id) {
                proof {
                    if out@.len() > 0 {
                        let a = out@.len() - 1;
                        let j = choose|j: int|
                            0 <= j < i && (#[trigger] self.slots@[j]).key.unit_id == out@[a]
                                && self.slots@[j].key.unit_type == unit_type;
                        lemma_rank(self.slots@[i as int].key, self.slots@[j].key);
                        assert(self.slots@[j].key.rank() < self.slots@[i as int].key.rank());
                        assert(out@[a]@ != key.unit_id@) by {
                            if out@[a]@ == key.unit_id@ {
                                out@[a].lemma_of_view();
                                key.unit_id.lemma_of_view();
                            }
                        }
                        assert(out@[a]@ < key.unit_id@);
                    }
                }
                out.push(key.unit_id);
                proof {
                    assert(out@[before.len() as int] == key.unit_id);
                    assert forall|a: int| 0 <= a < out@.len() implies exists|j: int|
                        0 <= j < i + 1 && (#[trigger] self.slots@[j]).key.unit_id
                            == #[trigger] out@[a] && self.slots@[j].key.unit_type == unit_type by {
                        if a < before.len() {
                            assert(out@[a] == before[a]);
                            let j = choose|j: int|
                                0 <= j < i && (#[trigger] self.slots@[j]).key.unit_id == before[a]
                                    && self.slots@[j].key.unit_type == unit_type;
                            assert(self.slots@[j].key.unit_id == out@[a]);
                        } else {
                            assert(self.slots@[i as int].key.unit_id == out@[a]);
                        }
                    }
                    assert forall|j: int|
                        0 <= j < i + 1 && (#[trigger] self.slots@[j]).key.unit_type
                            == unit_type implies out@.contains(self.slots@[j].key.unit_id) by {
                        if j < i {
                            let x = self.slots@[j].key.unit_id;
                            assert(before.contains(x));
                            let a = choose|a: int| 0 <= a < before.len() && before[a] == x;
                            assert(out@[a] == x);
                        }
                    }
                }
            }
            i = i + 1;
        }
        proof {
            assert forall|id: UnitId| out@.contains(id) <==> unit_present(self@, unit_type, id) by {
                if out@.contains(id) {
                    let a = choose|a: int| 0 <= a < out@.len() && out@[a] == id;
                    let j = choose|j: int|
                        0 <= j < i && (#[trigger] self.slots@[j]).key.unit_id == out@[a]
                            && self.slots@[j].key.unit_type == unit_type;
                    assert(self@.dom().contains(self.slots@[j].key));
                }
                if unit_present(self@, unit_type, id) {
                    let k = choose|k: BankKey| #[trigger]
                        self@.dom().contains(k) && k.unit_type == unit_type && k.unit_id == id;
                    let j = choose|j: int|
                        0 <= j < self.slots@.len() && (#[trigger] self.slots@[j]).key == k;
                    assert(out@.contains(self.slots@[j].key.unit_id));
                }
            }
        }
        out
    }
}

impl Clone for RegisterBank {
    fn clone(&self) -> (r: RegisterBank)
        ensures
            r@ == self@,
    {
        proof {
            use_type_invariant(self);
        }
        let slots = self.slots.clone();
        proof {
            assert(slots@ =~= self.slots@);
        }
        RegisterBank { slots }
    }
}

impl Default for RegisterBank {
    fn default() -> (r: RegisterBank)
        ensures
            r@ == Map::<BankKey, [u8; 7]>::empty(),
    {
        RegisterBank::new()
    }
}

fn slot_record(slot: Slot) -> (r: CanRecord)
    ensures
        r == tablet_record(slot.key, slot.data),
{
    CanRecord {
        unit_type: slot.key.unit_type,
        dest: Dest::Tablet,
        unit_id: slot.key.unit_id,
        reg: slot.key.reg,
        data: slot.data,
    }
}

proof fn lemma_replaced(slots: Seq<Slot>, i: int, slot: Slot)
    requires
        sorted(slots),
        0 <= i < slots.len(),
        slots[i].key == slot.key,
        fits(slot.key, slot.data),
    ensures
        sorted(slots.update(i, slot)),
        slots_map(slots.update(i, slot)) == slots_map(slots).insert(slot.key, slot.data),
{
    let after = slots.update(i, slot);
    assert(sorted(after)) by {
        assert forall|a: int, b: int| 0 <= a < b < after.len() implies (
        #[trigger] after[a]).key.rank() < (#[trigger] after[b]).key.rank() by {
            assert(slots[a].key.rank() < slots[b].key.rank());
        }
    }
    lemma_slots_map(slots);
    lemma_slots_map(after);
    assert(after[i] == slot);
    assert forall|j: int| 0 <= j < after.len() implies #[trigger] after[j] == slot
        || slots.contains(after[j]) by {
        if j != i {
            assert(after[j] == slots[j]);
        }
    }
    lemma_same_map(slots, after, slot, |j: int| j);
}

proof fn lemma_inserted(slots: Seq<Slot>, i: int, slot: Slot)
    requires
        sorted(slots),
        0 <= i <= slots.len(),
        fits(slot.key, slot.data),
        forall|j: int| 0 <= j < i ==> (#[trigger] slots[j]).key.rank() < slot.key.rank(),
        i < slots.len() ==> slot.key.rank() < slots[i].key.rank(),
    ensures
        sorted(slots.insert(i, slot)),
        slots_map(slots.insert(i, slot)) == slots_map(slots).insert(slot.key, slot.data),
{
    let after = slots.insert(i, slot);
    assert forall|j: int| i <= j < slots.len() implies slot.key.rank() < (
    #[trigger] slots[j]).key.rank() by {
        if i < j {
            assert(slots[i].key.rank() < slots[j].key.rank());
        }
    }
    assert(sorted(after)) by {
        assert forall|a: int| 0 <= a < after.len() implies fits(
            (#[trigger] after[a]).key,
            after[a].data,
        ) by {
            if a < i {
                assert(after[a] == slots[a]);
            } else if a > i {
                assert(after[a] == slots[a - 1]);
            }
        }
        assert forall|a: int, b: int| 0 <= a < b < after.len() implies (
        #[trigger] after[a]).key.rank() < (#[trigger] after[b]).key.rank() by {
            if b < i {
                assert(slots[a].key.rank() < slots[b].key.rank());
            } else if b == i {
                assert(after[a] == slots[a]);
            } else if a < i {
                assert(slots[a].key.rank() < slots[b - 1].key.rank());
            } else if a == i {
                assert(after[b] == slots[b - 1]);
            } else {
                assert(slots[a - 1].key.rank() < slots[b - 1].key.rank());
            }
        }
    }
    lemma_slots_map(slots);
    lemma_slots_map(after);
    assert(after[i] == slot);
    assert forall|j: int| 0 <= j < after.len() implies #[trigger] after[j] == slot
        || slots.contains(after[j]) by {
        if j < i {
            assert(after[j] == slots[j]);
        } else if j > i {
            assert(after[j] == slots[j - 1]);
        }
    }
    lemma_same_map(slots, after, slot, |j: int| if j < i { j } else { j + 1 });
}

/// `after` holds `slot` and otherwise what `slots` holds, moved by `at`.
proof fn lemma_same_map(slots: Seq<Slot>, after: Seq<Slot>, slot: Slot, at: spec_fn(int) -> int)
    requires
        sorted(slots),
        sorted(after),
        forall|j: int|
            0 <= j < slots.len() && (#[trigger] slots[j]).key != slot.key ==> 0 <= at(j)
                < after.len() && after[at(j)] == slots[j],
        after.contains(slot),
        forall|j: int|
            0 <= j < after.len() ==> #[trigger] after[j] == slot || slots.contains(after[j]),
    ensures
        slots_map(after) == slots_map(slots).insert(slot.key, slot.data),
{
    lemma_slots_map(slots);
    lemma_slots_map(after);
    let m = slots_map(slots).insert(slot.key, slot.data);
    let n = slots_map(after);
    let w = choose|w: int| 0 <= w < after.len() && after[w] == slot;
    assert forall|k: BankKey| n.dom().contains(k) == m.dom().contains(k) && (n.dom().contains(k)
        ==> n[k] == m[k]) by {
        if k == slot.key {
            assert(after[w].key == k);
        } else {
            if m.dom().contains(k) {
                let j = choose|j: int|
                    0 <= j < slots.len() && (#[trigger] slots[j]).key == k && slots_map(slots)[k]
                        == slots[j].data;
                assert(after[at(j)].key == k);
            }
            if n.dom().contains(k) {
                let j = choose|j: int|
                    0 <= j < after.len() && (#[trigger] after[j]).key == k && n[k]
                        == after[j].data;
                assert(slots.contains(after[j]));
                let a = choose|a: int| 0 <= a < slots.len() && slots[a] == after[j];
                assert(slots[a].key == k);
            }
        }
    }
    assert(n =~= m);
}

/// Whether `out` lists what `wanted` picks among the first `n` slots.
spec fn listed_before(
    slots: Seq<Slot>,
    n: int,
    wanted: spec_fn(BankKey) -> bool,
    out: Seq<CanRecord>,
) -> bool {
    out == picked(slots.take(n), wanted)
}

spec fn picked(slots: Seq<Slot>, wanted: spec_fn(BankKey) -> bool) -> Seq<CanRecord>
    decreases slots.len(),
{
    if slots.len() == 0 {
        seq![]
    } else {
        let init = picked(slots.drop_last(), wanted);
        if wanted(slots.last().key) {
            init.push(tablet_record(slots.last().key, slots.last().data))
        } else {
            init
        }
    }
}

proof fn lemma_listed_step(slots: Seq<Slot>, i: int, wanted: spec_fn(BankKey) -> bool)
    requires
        0 <= i < slots.len(),
    ensures
        picked(slots.take(i + 1), wanted) == if wanted(slots[i].key) {
            picked(slots.take(i), wanted).push(tablet_record(slots[i].key, slots[i].data))
        } else {
            picked(slots.take(i), wanted)
        },
{
    assert(slots.take(i + 1).drop_last() =~= slots.take(i));
}

/// What a slot's record says of it.
proof fn lemma_slot_key(slot: Slot)
    requires
        fits(slot.key, slot.data),
    ensures
        BankKey::of(tablet_record(slot.key, slot.data)) == slot.key,
{
}

proof fn lemma_picked(slots: Seq<Slot>, wanted: spec_fn(BankKey) -> bool)
    requires
        sorted(slots),
    ensures
        lists(slots_map(slots), wanted, picked(slots, wanted)),
        forall|i: int|
            0 <= i < picked(slots, wanted).len() ==> exists|j: int|
                0 <= j < slots.len() && BankKey::of(#[trigger] picked(slots, wanted)[i]) == (
                #[trigger] slots[j]).key,
    decreases slots.len(),
{
    let out = picked(slots, wanted);
    let m = slots_map(slots);
    lemma_slots_map(slots);
    if slots.len() > 0 {
        let init = slots.drop_last();
        let last = slots.last();
        assert(sorted(init)) by {
            assert forall|i: int| 0 <= i < init.len() implies fits(
                (#[trigger] init[i]).key,
                init[i].data,
            ) by {
                assert(init[i] == slots[i]);
            }
            assert forall|i: int, j: int| 0 <= i < j < init.len() implies (
            #[trigger] init[i]).key.rank() < (#[trigger] init[j]).key.rank() by {
                assert(init[i] == slots[i] && init[j] == slots[j]);
            }
        }
        lemma_picked(init, wanted);
        lemma_slots_map(init);
        lemma_slot_key(last);
        let head = picked(init, wanted);
        let mi = slots_map(init);
        assert(slots[slots.len() - 1] == last);
        assert forall|i: int| 0 <= i < out.len() implies exists|j: int|
            0 <= j < slots.len() && BankKey::of(#[trigger] out[i]) == (#[trigger] slots[j]).key by {
            if i < head.len() {
                assert(out[i] == head[i]);
                let j = choose|j: int|
                    0 <= j < init.len() && BankKey::of(head[i]) == (#[trigger] init[j]).key;
                assert(slots[j] == init[j]);
                assert(BankKey::of(out[i]) == slots[j].key);
            } else {
                assert(BankKey::of(out[i]) == slots[slots.len() - 1].key);
            }
        }
        assert forall|i: int| 0 <= i < head.len() implies BankKey::of(#[trigger] head[i]).rank()
            < last.key.rank() by {
            let j = choose|j: int|
                0 <= j < init.len() && BankKey::of(head[i]) == (#[trigger] init[j]).key;
            assert(slots[j].key.rank() < slots[slots.len() - 1].key.rank());
        }
        assert forall|i: int| 0 <= i < out.len() implies ({
            let key = BankKey::of(#[trigger] out[i]);
            m.dom().contains(key) && wanted(key) && out[i] == tablet_record(key, m[key])
        }) by {
            if i < head.len() {
                assert(out[i] == head[i]);
                assert(BankKey::of(head[i]) != last.key);
            }
        }
        assert forall|i: int, j: int| 0 <= i < j < out.len() implies BankKey::of(
            #[trigger] out[i],
        ).rank() < BankKey::of(#[trigger] out[j]).rank() by {
            assert(out[i] == head[i]);
            if j < head.len() {
                assert(out[j] == head[j]);
            }
        }
        assert forall|k: BankKey| #[trigger] m.dom().contains(k) && wanted(k) implies exists|i: int|
            0 <= i < out.len() && BankKey::of(#[trigger] out[i]) == k by {
            if k == last.key {
                assert(BankKey::of(out[out.len() - 1]) == k);
            } else {
                assert(mi.dom().contains(k));
                let i = choose|i: int|
                    0 <= i < head.len() && BankKey::of(#[trigger] head[i]) == k;
                assert(out[i] == head[i]);
            }
        }
    }
}

proof fn lemma_lists(slots: Seq<Slot>, wanted: spec_fn(BankKey) -> bool, out: Seq<CanRecord>)
    requires
        sorted(slots),
        listed_before(slots, slots.len() as int, wanted, out),
    ensures
        lists(slots_map(slots), wanted, out),
{
    assert(slots.take(slots.len() as int) =~= slots);
    lemma_picked(slots, wanted);
}

/// A listing is determined by the bank and by what is wanted.
pub proof fn law_lists_unique(
    bank: Map<BankKey, [u8; 7]>,
    wanted: spec_fn(BankKey) -> bool,
    a: Seq<CanRecord>,
    b: Seq<CanRecord>,
)
    requires
        lists(bank, wanted, a),
        lists(bank, wanted, b),
    ensures
        a == b,
    decreases a.len() + b.len(),
{
    if a.len() == 0 {
        if b.len() > 0 {
            let k = BankKey::of(b[0]);
            assert(bank.dom().contains(k));
        }
    } else if b.len() == 0 {
        let k = BankKey::of(a[0]);
        assert(bank.dom().contains(k));
    } else {
        let x = a.last();
        let y = b.last();
        let kx = BankKey::of(x);
        let ky = BankKey::of(y);
        assert(a[a.len() - 1] == x && b[b.len() - 1] == y);
        assert(bank.dom().contains(kx) && bank.dom().contains(ky));
        let i = choose|i: int| 0 <= i < b.len() && BankKey::of(#[trigger] b[i]) == kx;
        let j = choose|j: int| 0 <= j < a.len() && BankKey::of(#[trigger] a[j]) == ky;
        if i < b.len() - 1 {
            assert(BankKey::of(b[i]).rank() < BankKey::of(b[b.len() - 1]).rank());
            if j < a.len() - 1 {
                assert(BankKey::of(a[j]).rank() < BankKey::of(a[a.len() - 1]).rank());
            }
        }
        assert(kx == ky);
        assert(x == y);
        let less = |k: BankKey| wanted(k) && k != kx;
        lemma_lists_init(bank, wanted, a);
        lemma_lists_init(bank, wanted, b);
        law_lists_unique(bank, less, a.drop_last(), b.drop_last());
        assert(a =~= a.drop_last().push(x));
        assert(b =~= b.drop_last().push(y));
    }
}

pub proof fn lemma_lists_init(
    bank: Map<BankKey, [u8; 7]>,
    wanted: spec_fn(BankKey) -> bool,
    a: Seq<CanRecord>,
)
    requires
        lists(bank, wanted, a),
        a.len() > 0,
    ensures
        lists(bank, |k: BankKey| wanted(k) && k != BankKey::of(a.last()), a.drop_last()),
{
    let last = BankKey::of(a.last());
    let less = |k: BankKey| wanted(k) && k != last;
    let b = a.drop_last();
    assert(a[a.len() - 1] == a.last());
    assert forall|i: int| 0 <= i < b.len() implies ({
        let key = BankKey::of(#[trigger] b[i]);
        bank.dom().contains(key) && less(key) && b[i] == tablet_record(key, bank[key])
    }) by {
        assert(b[i] == a[i]);
        assert(BankKey::of(a[i]).rank() < BankKey::of(a[a.len() - 1]).rank());
    }
    assert forall|i: int, j: int| 0 <= i < j < b.len() implies BankKey::of(#[trigger] b[i]).rank()
        < BankKey::of(#[trigger] b[j]).rank() by {
        assert(b[i] == a[i] && b[j] == a[j]);
    }
    assert forall|k: BankKey| #[trigger] bank.dom().contains(k) && less(k) implies exists|i: int|
        0 <= i < b.len() && BankKey::of(#[trigger] b[i]) == k by {
        let i = choose|i: int| 0 <= i < a.len() && BankKey::of(#[trigger] a[i]) == k;
        assert(b[i] == a[i]);
    }
}

/// Reading a slot gives back the last payload written to it, other slots keep
/// theirs, and writing the same record again changes nothing.
pub proof fn law_last_write_wins(
    bank: Map<BankKey, [u8; 7]>,
    record: CanRecord,
    other: BankKey,
)
    ensures
        ({
            let after = bank.insert(BankKey::of(record), record.data);
            &&& lookup(after, BankKey::of(record)) == Some(record.data)
            &&& other != BankKey::of(record) ==> lookup(after, other) == lookup(bank, other)
            &&& after.insert(BankKey::of(record), record.data) == after
        }),
{
    let after = bank.insert(BankKey::of(record), record.data);
    assert(after.insert(BankKey::of(record), record.data) =~= after);
}

/// The destination of a record is no part of its address.
pub proof fn law_dest_ignored(a: CanRecord, b: CanRecord)
    requires
        a.unit_type == b.unit_type,
        a.unit_id == b.unit_id,
        a.reg == b.reg,
        a.data == b.data,
    ensures
        BankKey::of(a) == BankKey::of(b),
{
}

} // verus!
