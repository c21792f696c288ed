//! The contents of a mailbox as clients see them.
use crate::mailbox::convert::{decode_payload, decoded};
use crate::mailbox::value::{Payload, PayloadModel};
use crate::registers::bank::{
    is_zone_bearing, lookup, unit_present, zone_bearing, BankKey, RegisterBank,
};
use crate::registers::ids::{id_digits, push_id_digits, RegId, UnitId, UnitType};
use crate::registers::wire::CanRecord;
use crate::text::{hex_byte, push_hex_byte};
use vstd::prelude::*;
use vstd::string::*;

verus! {

/// Greatest zone of a snapshot.
pub const MAX_ZONE: u8 = 10;

/// The payload of one zone.
#[derive(Debug, Clone, PartialEq, Eq)]
pub struct ZoneSnapshot {
    /// Zone.
    pub zone: u8,
    /// Payload.
    pub payload: Payload,
}

/// What a register holds.
#[derive(Debug, Clone, PartialEq, Eq)]
pub enum Content {
    /// One payload.
    Single(Payload),
    /// A payload for each zone.
    Zones(Vec<ZoneSnapshot>),
}

/// A register and what it holds.
#[derive(Debug, Clone, PartialEq, Eq)]
pub struct RegisterSnapshot {
    /// Register.
    pub reg: RegId,
    /// What it holds.
    pub content: Content,
}

/// The registers of a unit.
#[derive(Debug, Clone, PartialEq, Eq)]
pub struct UnitSnapshot {
    /// Unit type.
    pub unit_type: UnitType,
    /// Unit id.
    pub unit_id: UnitId,
    /// Registers, in order.
    pub registers: Vec<RegisterSnapshot>,
}

/// What the contents of a register say.
#[verifier::ext_equal]
pub ghost enum ContentModel {
    Single(PayloadModel),
    Zones(Seq<(u8, PayloadModel)>),
}

/// What a list of zones says.
pub open spec fn zones_model(zones: Seq<ZoneSnapshot>) -> Seq<(u8, PayloadModel)> {
    zones.map_values(|z: ZoneSnapshot| (z.zone, z.payload@))
}

impl View for Content {
    type V = ContentModel;

    open spec fn view(&self) -> ContentModel {
        match *self {
            Content::Single(payload) => ContentModel::Single(payload@),
            Content::Zones(zones) => ContentModel::Zones(zones_model(zones@)),
        }
    }
}

/// What a list of registers says.
pub open spec fn registers_model(registers: Seq<RegisterSnapshot>) -> Seq<(RegId, ContentModel)> {
    registers.map_values(|r: RegisterSnapshot| (r.reg, r.content@))
}

/// The occupied zones of a register from 1 to `n`, in order.
pub open spec fn zones_of(
    bank: Map<BankKey, [u8; 7]>,
    unit_type: UnitType,
    unit_id: UnitId,
    reg: RegId,
    n: int,
) -> Seq<(u8, PayloadModel)>
    decreases n,
{
    if n <= 0 {
        seq![]
    } else {
        let before = zones_of(bank, unit_type, unit_id, reg, n - 1);
        match lookup(bank, BankKey { unit_type, unit_id, reg, zone: Some(n as u8) }) {
            Some(data) => before.push((n as u8, decoded(reg, data))),
            None => before,
        }
    }
}

/// What a register of a unit holds, if anything.
pub open spec fn content_of(
    bank: Map<BankKey, [u8; 7]>,
    unit_type: UnitType,
    unit_id: UnitId,
    reg: RegId,
) -> Option<ContentModel> {
    if zone_bearing(reg) {
        let zones = zones_of(bank, unit_type, unit_id, reg, MAX_ZONE as int);
        if zones.len() == 0 {
            None
        } else {
            Some(ContentModel::Zones(zones))
        }
    } else {
        match lookup(bank, BankKey { unit_type, unit_id, reg, zone: None }) {
            Some(data) => Some(ContentModel::Single(decoded(reg, data))),
            None => None,
        }
    }
}

/// The registers below `n` of a unit that hold something, in order.
pub open spec fn registers_of(
    bank: Map<BankKey, [u8; 7]>,
    unit_type: UnitType,
    unit_id: UnitId,
    n: int,
) -> Seq<(RegId, ContentModel)>
    decreases n,
{
    if n <= 0 {
        seq![]
    } else {
        let before = registers_of(bank, unit_type, unit_id, n - 1);
        let reg = RegId((n - 1) as u8);
        match content_of(bank, unit_type, unit_id, reg) {
            Some(content) => before.push((reg, content)),
            None => before,
        }
    }
}

/// The key of a unit: its type, a colon and its id.
pub open spec fn unit_key(unit_type: UnitType, unit_id: UnitId) -> Seq<char> {
    hex_byte(unit_type.0) + ":"@ + id_digits(unit_id@)
}

impl UnitSnapshot {
    /// The key of this unit.
    pub fn key(&self) -> (out: String)
        ensures
            out@ == unit_key(self.unit_type, self.unit_id),
    {
        let mut out = String::new();
        push_hex_byte(&mut out, self.unit_type.get());
        out.append(":");
        push_id_digits(&mut out, self.unit_id);
        proof {
            assert(out@ =~= unit_key(self.unit_type, self.unit_id));
        }
        out
    }
}

/// The occupied zones of a register.
fn zone_snapshots(bank: &RegisterBank, unit_type: UnitType, unit_id: UnitId, reg: RegId) -> (out:
    Vec<ZoneSnapshot>)
    ensures
        zones_model(out@) == zones_of(bank@, unit_type, unit_id, reg, MAX_ZONE as int),
{
    let mut out: Vec<ZoneSnapshot> = Vec::new();
    let mut zone: u8 = 0;
    proof {
        assert(zones_model(out@) =~= seq![]);
    }
    while zone < MAX_ZONE
        invariant
            zone <= MAX_ZONE,
            zones_model(out@) == zones_of(bank@, unit_type, unit_id, reg, zone as int),
        decreases MAX_ZONE - zone,
    {
        zone = zone + 1;
        let ghost before = out@;
        if let Some(data) = bank.get_zone(unit_type, unit_id, reg, zone) {
            if let Ok(payload) = decode_payload(reg, data) {
                let ghost shown = payload@;
                out.push(ZoneSnapshot { zone, payload });
                proof {
                    assert(zones_model(out@) =~= zones_model(before).push((zone, shown)));
                }
            }
        }
    }
    out
}

/// What a register of a unit holds, if anything.
fn register_content(bank: &RegisterBank, unit_type: UnitType, unit_id: UnitId, reg: RegId) -> (r:
    Option<Content>)
    ensures
        match r {
            Some(content) => content_of(bank@, unit_type, unit_id, reg) == Some(content@),
            None => content_of(bank@, unit_type, unit_id, reg) is None,
        },
{
    if is_zone_bearing(reg) {
        let zones = zone_snapshots(bank, unit_type, unit_id, reg);
        assert(zones_model(zones@).len() == zones@.len());
        if zones.len() == 0 {
            None
        } else {
            Some(Content::Zones(zones))
        }
    } else {
        match bank.get(unit_type, unit_id, reg) {
            Some(data) => match decode_payload(reg, data) {
                Ok(payload) => Some(Content::Single(payload)),
                Err(_) => None,
            },
            None => None,
        }
    }
}

/// The registers of a unit that hold something.
fn register_snapshots(bank: &RegisterBank, unit_type: UnitType, unit_id: UnitId) -> (out: Vec<
    RegisterSnapshot,
>)
    ensures
        registers_model(out@) == registers_of(bank@, unit_type, unit_id, 256),
{
    let mut out: Vec<RegisterSnapshot> = Vec::new();
    let mut n: u16 = 0;
    proof {
        assert(registers_model(out@) =~= seq![]);
    }
    while n < 256
        invariant
            n <= 256,
            registers_model(out@) == registers_of(bank@, unit_type, unit_id, n as int),
        decreases 256 - n,
    {
        let reg = RegId::new(n as u8);
        let ghost before = out@;
        assert(reg == RegId((n + 1 - 1) as u8));
        if let Some(content) = register_content(bank, unit_type, unit_id, reg) {
            let ghost shown = content@;
            out.push(RegisterSnapshot { reg, content });
            proof {
                assert(registers_model(out@) =~= registers_model(before).push((reg, shown)));
            }
        }
        n = n + 1;
    }
    out
}

/// Whether one unit comes before another: by unit type, then by unit id.
pub open spec fn unit_before(a: UnitSnapshot, b: UnitSnapshot) -> bool {
    a.unit_type.0 < b.unit_type.0 || (a.unit_type == b.unit_type && a.unit_id@ < b.unit_id@)
}

/// Whether units are in order, each once, each with its registers.
pub open spec fn units_sound(bank: Map<BankKey, [u8; 7]>, units: Seq<UnitSnapshot>) -> bool {
    &&& forall|i: int, j: int|
        0 <= i < j < units.len() ==> unit_before(#[trigger] units[i], #[trigger] units[j])
    &&& forall|i: int|
        0 <= i < units.len() ==> registers_model((#[trigger] units[i]).registers@) == registers_of(
            bank,
            units[i].unit_type,
            units[i].unit_id,
            256,
        )
}

/// Whether a unit is listed.
pub open spec fn listed(units: Seq<UnitSnapshot>, unit_type: UnitType, unit_id: UnitId) -> bool {
    exists|i: int|
        0 <= i < units.len() && (#[trigger] units[i]).unit_type == unit_type && units[i].unit_id
            == unit_id
}

/// The units of one type, appended to those of smaller types.
fn push_units(bank: &RegisterBank, unit_type: UnitType, units: &mut Vec<UnitSnapshot>)
    requires
        units_sound(bank@, old(units)@),
        forall|i: int|
            0 <= i < old(units)@.len() ==> (#[trigger] old(units)@[i]).unit_type.0 < unit_type.0,
    ensures
        units_sound(bank@, final(units)@),
        forall|i: int|
            0 <= i < final(units)@.len() ==> (#[trigger] final(units)@[i]).unit_type.0
                <= unit_type.0,
        forall|t: UnitType, id: UnitId| #[trigger]
            listed(final(units)@, t, id) <==> listed(old(units)@, t, id) || (t == unit_type
                && unit_present(bank@, t, id)),
{
    let ids = bank.unit_ids(unit_type);
    let ghost first = units@;
    let mut k: usize = 0;
    while k < ids.len()
        invariant
            k <= ids@.len(),
            first.len() + k == units@.len(),
            forall|i: int| 0 <= i < first.len() ==> (#[trigger] first[i]).unit_type.0 < unit_type.0,
            forall|i: int| 0 <= i < first.len() ==> #[trigger] units@[i] == first[i],
            forall|i: int|
                first.len() <= i < units@.len() ==> (#[trigger] units@[i]).unit_type == unit_type
                    && units@[i].unit_id == ids@[i - first.len()],
            forall|i: int, j: int|
                0 <= i < j < ids@.len() ==> (#[trigger] ids@[i])@ < (#[trigger] ids@[j])@,
            units_sound(bank@, units@),
        decreases ids@.len() - k,
    {
        let unit_id = ids[k];
        let registers = register_snapshots(bank, unit_type, unit_id);
        let unit = UnitSnapshot { unit_type, unit_id, registers };
        let ghost before = units@;
        units.push(unit);
        proof {
            assert forall|i: int, j: int| 0 <= i < j < units@.len() implies unit_before(
                #[trigger] units@[i],
                #[trigger] units@[j],
            ) by {
                assert(units@[i] == before[i]);
                if j < before.len() {
                    assert(units@[j] == before[j]);
                } else if i < first.len() {
                    assert(before[i] == first[i]);
                } else {
                    assert(ids@[i - first.len()]@ < ids@[k as int]@);
                }
            }
            assert forall|i: int| 0 <= i < units@.len() implies registers_model(
                (#[trigger] units@[i]).registers@,
            ) == registers_of(bank@, units@[i].unit_type, units@[i].unit_id, 256) by {
                if i < before.len() {
                    assert(units@[i] == before[i]);
                }
            }
        }
        k = k + 1;
    }
    proof {
        assert forall|t: UnitType, id: UnitId| #[trigger] listed(units@, t, id) <==> listed(
            first,
            t,
            id,
        ) || (t == unit_type && unit_present(bank@, t, id)) by {
            if listed(first, t, id) {
                let i = choose|i: int|
                    0 <= i < first.len() && (#[trigger] first[i]).unit_type == t && first[i].unit_id
                        == id;
                assert(units@[i] == first[i]);
            }
            if t == unit_type && unit_present(bank@, t, id) {
                assert(ids@.contains(id));
                let j = choose|j: int| 0 <= j < ids@.len() && ids@[j] == id;
                assert(units@[first.len() + j].unit_id == id);
            }
            if listed(units@, t, id) {
                let i = choose|i: int|
                    0 <= i < units@.len() && (#[trigger] units@[i]).unit_type == t
                        && units@[i].unit_id == id;
                if i < first.len() {
                    assert(units@[i] == first[i]);
                } else {
                    assert(ids@[i - first.len()] == id);
                    assert(ids@.contains(id));
                }
            }
        }
    }
}

/// The units of a mailbox, in order, each with its registers. Registers without
/// zones stand for their payload; registers with zones stand for their occupied
/// zones and are left out where no zone is occupied.
pub fn snapshot_units(bank: &RegisterBank) -> (units: Vec<UnitSnapshot>)
    ensures
        units_sound(bank@, units@),
        forall|t: UnitType, id: UnitId| #[trigger]
            listed(units@, t, id) <==> unit_present(bank@, t, id),
{
    let types = bank.unit_types();
    let mut units: Vec<UnitSnapshot> = Vec::new();
    let mut k: usize = 0;
    while k < types.len()
        invariant
            k <= types@.len(),
            units_sound(bank@, units@),
            forall|i: int, j: int|
                0 <= i < j < types@.len() ==> (#[trigger] types@[i]).0 < (#[trigger] types@[j]).0,
            forall|i: int|
                0 <= i < units@.len() && k < types@.len() ==> (#[trigger] units@[i]).unit_type.0
                    < types@[k as int].0,
            forall|t: UnitType, id: UnitId| #[trigger]
                listed(units@, t, id) <==> types@.take(k as int).contains(t) && unit_present(
                    bank@,
                    t,
                    id,
                ),
        decreases types@.len() - k,
    {
        push_units(bank, types[k], &mut units);
        proof {
            let seen = types@.take(k as int);
            assert(types@.take(k + 1) =~= seen.push(types@[k as int]));
            assert forall|t: UnitType| types@.take(k + 1).contains(t) <==> seen.contains(t) || t
                == types@[k as int] by {
                if seen.contains(t) {
                    let j = choose|j: int| 0 <= j < seen.len() && seen[j] == t;
                    assert(types@.take(k + 1)[j] == t);
                }
                assert(types@.take(k + 1)[k as int] == types@[k as int]);
            }
            if k + 1 < types@.len() {
                assert(types@[k as int].0 < types@[k + 1].0);
            }
        }
        k = k + 1;
    }
    proof {
        assert(types@.take(k as int) =~= types@);
        assert forall|t: UnitType, id: UnitId| #[trigger] listed(units@, t, id)
            <==> unit_present(bank@, t, id) by {
            if unit_present(bank@, t, id) {
                let key = choose|key: BankKey| #[trigger]
                    bank@.dom().contains(key) && key.unit_type == t && key.unit_id == id;
                assert(crate::registers::bank::type_present(bank@, t));
                assert(types@.contains(t));
            }
        }
    }
    units
}

proof fn lemma_registers_of(
    bank: Map<BankKey, [u8; 7]>,
    unit_type: UnitType,
    unit_id: UnitId,
    n: int,
    reg: RegId,
    content: ContentModel,
)
    requires
        0 <= n <= 256,
    ensures
        registers_of(bank, unit_type, unit_id, n).contains((reg, content)) <==> reg.0 < n
            && content_of(bank, unit_type, unit_id, reg) == Some(content),
    decreases n,
{
    if n > 0 {
        let before = registers_of(bank, unit_type, unit_id, n - 1);
        let last = RegId((n - 1) as u8);
        lemma_registers_of(bank, unit_type, unit_id, n - 1, reg, content);
        match content_of(bank, unit_type, unit_id, last) {
            Some(c) => {
                assert(before.push((last, c))[before.len() as int] == (last, c));
                assert forall|x: (RegId, ContentModel)|
                    before.push((last, c)).contains(x) <==> before.contains(x) || x == (
                    last,
                    c,
                ) by {
                    if before.contains(x) {
                        let i = choose|i: int| 0 <= i < before.len() && before[i] == x;
                        assert(before.push((last, c))[i] == x);
                    }
                }
                assert(reg == last <==> reg.0 == n - 1);
            },
            None => {
                assert(reg == last <==> reg.0 == n - 1);
            },
        }
    }
}

/// A unit of a snapshot has exactly the registers that hold something, each with
/// what it holds.
pub proof fn law_snapshot_has_what_is_held(
    bank: Map<BankKey, [u8; 7]>,
    units: Seq<UnitSnapshot>,
    i: int,
    reg: RegId,
    content: ContentModel,
)
    requires
        units_sound(bank, units),
        0 <= i < units.len(),
    ensures
        registers_model(units[i].registers@).contains((reg, content)) <==> content_of(
            bank,
            units[i].unit_type,
            units[i].unit_id,
            reg,
        ) == Some(content),
{
    lemma_registers_of(bank, units[i].unit_type, units[i].unit_id, 256, reg, content);
}

proof fn lemma_zones_of(
    bank: Map<BankKey, [u8; 7]>,
    unit_type: UnitType,
    unit_id: UnitId,
    reg: RegId,
    n: int,
    zone: u8,
)
    requires
        1 <= zone <= n <= 255,
        lookup(bank, (BankKey { unit_type, unit_id, reg, zone: Some(zone) })) is Some,
    ensures
        zones_of(bank, unit_type, unit_id, reg, n).contains(
            (zone, decoded(reg, bank[BankKey { unit_type, unit_id, reg, zone: Some(zone) }])),
        ),
    decreases n,
{
    let before = zones_of(bank, unit_type, unit_id, reg, n - 1);
    let all = zones_of(bank, unit_type, unit_id, reg, n);
    let shown = (zone, decoded(reg, bank[BankKey { unit_type, unit_id, reg, zone: Some(zone) }]));
    if zone == n {
        assert(all[before.len() as int] == shown);
    } else {
        lemma_zones_of(bank, unit_type, unit_id, reg, n - 1, zone);
        let i = choose|i: int| 0 <= i < before.len() && before[i] == shown;
        assert(all[i] == shown);
    }
}

/// A snapshot shows what was stored last: the register of a record holds the
/// payload of the record, under its zone where the register has zones.
pub proof fn law_snapshot_shows_the_last_record(bank: Map<BankKey, [u8; 7]>, record: CanRecord)
    requires
        zone_bearing(record.reg) ==> 1 <= record.data[0] <= MAX_ZONE,
    ensures
        match content_of(
            bank.insert(BankKey::of(record), record.data),
            record.unit_type,
            record.unit_id,
            record.reg,
        ) {
            Some(ContentModel::Single(payload)) => !zone_bearing(record.reg) && payload == decoded(
                record.reg,
                record.data,
            ),
            Some(ContentModel::Zones(zones)) => zone_bearing(record.reg) && zones.contains(
                (record.data[0], decoded(record.reg, record.data)),
            ),
            None => false,
        },
{
    let after = bank.insert(BankKey::of(record), record.data);
    if zone_bearing(record.reg) {
        lemma_zones_of(
            after,
            record.unit_type,
            record.unit_id,
            record.reg,
            MAX_ZONE as int,
            record.data[0],
        );
    }
}

/// The zones of a snapshot are in order, and each holds what the mailbox holds.
proof fn lemma_zones_in_order(
    bank: Map<BankKey, [u8; 7]>,
    unit_type: UnitType,
    unit_id: UnitId,
    reg: RegId,
    n: int,
)
    requires
        0 <= n <= 255,
    ensures
        ({
            let zones = zones_of(bank, unit_type, unit_id, reg, n);
            &&& forall|i: int|
                0 <= i < zones.len() ==> 1 <= (#[trigger] zones[i]).0 <= n && bank.dom().contains(
                    BankKey { unit_type, unit_id, reg, zone: Some(zones[i].0) },
                ) && zones[i].1 == decoded(
                    reg,
                    bank[BankKey { unit_type, unit_id, reg, zone: Some(zones[i].0) }],
                )
            &&& forall|i: int, j: int|
                0 <= i < j < zones.len() ==> (#[trigger] zones[i]).0 < (#[trigger] zones[j]).0
        }),
    decreases n,
{
    if n > 0 {
        lemma_zones_in_order(bank, unit_type, unit_id, reg, n - 1);
    }
}

/// What clients see of registers `03` and `04`: of zones 1 to 10 each that the mailbox
/// holds, in order, with its value, and nothing else. Without any of them they do not
/// see the register.
pub proof fn law_zones_of_a_snapshot(
    bank: Map<BankKey, [u8; 7]>,
    unit_type: UnitType,
    unit_id: UnitId,
    reg: RegId,
    zone: u8,
)
    requires
        reg.0 == 0x03 || reg.0 == 0x04,
    ensures
        match content_of(bank, unit_type, unit_id, reg) {
            Some(ContentModel::Zones(zones)) => {
                &&& zones.len() > 0
                &&& forall|i: int|
                    0 <= i < zones.len() ==> 1 <= (#[trigger] zones[i]).0 <= 10
                        && bank.dom().contains(
                        BankKey { unit_type, unit_id, reg, zone: Some(zones[i].0) },
                    ) && zones[i].1 == decoded(
                        reg,
                        bank[BankKey { unit_type, unit_id, reg, zone: Some(zones[i].0) }],
                    )
                &&& forall|i: int, j: int|
                    0 <= i < j < zones.len() ==> (#[trigger] zones[i]).0 < (#[trigger] zones[j]).0
                &&& 1 <= zone <= 10 && bank.dom().contains(
                    BankKey { unit_type, unit_id, reg, zone: Some(zone) },
                ) ==> exists|i: int| 0 <= i < zones.len() && (#[trigger] zones[i]).0 == zone
            },
            Some(ContentModel::Single(_)) => false,
            None => !(1 <= zone <= 10 && bank.dom().contains(
                BankKey { unit_type, unit_id, reg, zone: Some(zone) },
            )),
        },
{
    lemma_zones_in_order(bank, unit_type, unit_id, reg, 10);
    let key = BankKey { unit_type, unit_id, reg, zone: Some(zone) };
    if 1 <= zone <= 10 && bank.dom().contains(key) {
        lemma_zones_of(bank, unit_type, unit_id, reg, 10, zone);
        let zones = zones_of(bank, unit_type, unit_id, reg, 10);
        let i = choose|i: int|
            0 <= i < zones.len() && zones[i] == (zone, decoded(reg, bank[key]));
        assert(zones[i].0 == zone);
    }
}

/// What clients see of a register without zones: its value, where the mailbox holds
/// one.
pub proof fn law_single_registers_of_a_snapshot(
    bank: Map<BankKey, [u8; 7]>,
    unit_type: UnitType,
    unit_id: UnitId,
    reg: RegId,
)
    requires
        reg.0 != 0x03,
        reg.0 != 0x04,
    ensures
        ({
            let key = BankKey { unit_type, unit_id, reg, zone: None };
            &&& bank.dom().contains(key) ==> content_of(bank, unit_type, unit_id, reg) == Some(
                ContentModel::Single(decoded(reg, bank[key])),
            )
            &&& !bank.dom().contains(key) ==> content_of(bank, unit_type, unit_id, reg) is None
        }),
{
}

/// The registers of a snapshot are in order.
pub proof fn law_registers_in_order(
    bank: Map<BankKey, [u8; 7]>,
    unit_type: UnitType,
    unit_id: UnitId,
    n: int,
)
    requires
        0 <= n <= 256,
    ensures
        ({
            let registers = registers_of(bank, unit_type, unit_id, n);
            &&& forall|i: int| 0 <= i < registers.len() ==> (#[trigger] registers[i]).0.0 < n
            &&& forall|i: int, j: int|
                0 <= i < j < registers.len() ==> (#[trigger] registers[i]).0.0 < (
                #[trigger] registers[j]).0.0
        }),
    decreases n,
{
    if n > 0 {
        law_registers_in_order(bank, unit_type, unit_id, n - 1);
        let before = registers_of(bank, unit_type, unit_id, n - 1);
        let registers = registers_of(bank, unit_type, unit_id, n);
        assert forall|i: int| 0 <= i < registers.len() implies (#[trigger] registers[i]).0.0
            < n by {
            if i < before.len() {
                assert(registers[i] == before[i]);
            }
        }
        assert forall|i: int, j: int| 0 <= i < j < registers.len() implies (
        #[trigger] registers[i]).0.0 < (#[trigger] registers[j]).0.0 by {
            assert(registers[i] == before[i]);
            if j < before.len() {
                assert(registers[j] == before[j]);
            }
        }
    }
}

/// Units are shown under the digits of their type, a colon and the digits of their id.
pub proof fn law_key_of_a_unit(unit_type: UnitType, unit_id: UnitId)
    ensures
        unit_key(unit_type, unit_id).len() == 8,
        unit_key(unit_type, unit_id).take(2) == hex_byte(unit_type.0),
        unit_key(unit_type, unit_id)[2] == ':',
        unit_key(unit_type, unit_id).skip(3) == id_digits(unit_id@),
{
    reveal_strlit(":");
    let key = unit_key(unit_type, unit_id);
    assert(key.take(2) =~= hex_byte(unit_type.0));
    assert(key.skip(3) =~= id_digits(unit_id@));
}

} // verus!
