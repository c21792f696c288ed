//! Which unit is addressed, and what is written there, case by case.
use crate::daemon::address::{
    addressed_zone, completed, default_unit, first_type, held_value, least, least_unit,
    named_id, named_type, primary, readable, resolved, stamped, type_with, write_fields,
    write_record, write_slot, written_bytes, zone_suffix, Contents,
};
use crate::daemon::client::{decide, ClientModel, Decision};
use crate::mailbox::convert::{decoded, encoded, merged, write_fault};
use crate::mailbox::dto::AckStatus;
use crate::mailbox::message::Saying;
use crate::mailbox::value::{lemma_position, position, without_field, Fields, PayloadModel};
use crate::registers::bank::{lookup, unit_present, BankKey};
use crate::registers::ids::{byte_from_hex, id_from_hex, RegId, UnitId, UnitType};
use crate::registers::wire::{CanRecord, Dest};
use crate::text::{decimal, hex_byte};
use vstd::prelude::*;

verus! {

/// The type that stands for a unit id is the smallest of those that report under it.
pub proof fn law_type_of_an_id(bank: Map<BankKey, [u8; 7]>, id: UnitId, key: BankKey)
    ensures
        type_with(bank, id) matches Some(t) ==> {
            &&& exists|k: BankKey| #[trigger]
                bank.dom().contains(k) && k.unit_type == t && k.unit_id == id
            &&& bank.dom().contains(key) && key.unit_id == id ==> t.0 <= key.unit_type.0
        },
        bank.dom().contains(key) && key.unit_id == id ==> type_with(bank, id) is Some,
    decreases key.unit_type.0,
{
    if let Some(t) = type_with(bank, id) {
        assert(first_type(bank, id, t));
        assert(unit_present(bank, t, id));
    }
    if bank.dom().contains(key) && key.unit_id == id {
        assert(unit_present(bank, key.unit_type, id));
        if !first_type(bank, id, key.unit_type) {
            let k = choose|k: BankKey| #[trigger]
                bank.dom().contains(k) && k.unit_id == id && k.unit_type.0 < key.unit_type.0;
            law_type_of_an_id(bank, id, k);
        }
    }
}

/// The least unit has the smallest id of all units that report, and of those with this
/// id the smallest type.
pub proof fn law_least_unit(bank: Map<BankKey, [u8; 7]>, key: BankKey)
    ensures
        least(bank) matches Some(u) ==> {
            &&& exists|k: BankKey| #[trigger]
                bank.dom().contains(k) && k.unit_type == u.0 && k.unit_id == u.1
            &&& bank.dom().contains(key) ==> u.1@ < key.unit_id@ || (u.1@ == key.unit_id@ && u.0.0
                <= key.unit_type.0)
        },
        bank.dom().contains(key) ==> least(bank) is Some,
    decreases key.unit_id@, key.unit_type.0,
{
    if let Some(u) = least(bank) {
        assert(least_unit(bank, u));
        assert(unit_present(bank, u.0, u.1));
    }
    if bank.dom().contains(key) {
        let unit = (key.unit_type, key.unit_id);
        assert(unit_present(bank, unit.0, unit.1));
        if !least_unit(bank, unit) {
            let k = choose|k: BankKey| #[trigger]
                bank.dom().contains(k) && !(unit.1@ < k.unit_id@ || (unit.1@ == k.unit_id@
                    && unit.0.0 <= k.unit_type.0));
            law_least_unit(bank, k);
        }
    }
}

/// The primary unit is the hinted one where it reports, as an air conditioning unit
/// where it is one. Else it is the least unit, and where none reports the hint stands
/// for an air conditioning unit.
pub proof fn law_primary_unit(bank: Map<BankKey, [u8; 7]>, h: UnitId, key: BankKey)
    ensures
        primary(bank, None) == least(bank),
        bank.dom().contains(key) && key.unit_type.0 == 0x07 && key.unit_id == h ==> primary(
            bank,
            Some(h),
        ) == Some((UnitType(0x07), h)),
        primary(bank, Some(h)) matches Some(u) && ({
            ||| u.1 == h && u.0.0 == 0x07
            ||| u.1 == h && type_with(bank, h) == Some(u.0)
            ||| type_with(bank, h) is None && least(bank) == Some(u)
        }),
        type_with(bank, h) is None && least(bank) is Some ==> primary(bank, Some(h)) == least(bank),
        type_with(bank, h) is None && least(bank) is None ==> primary(bank, Some(h)) == Some(
            (UnitType(0x07), h),
        ),
        !(exists|k: BankKey| #[trigger]
            bank.dom().contains(k) && k.unit_type.0 == 0x07 && k.unit_id == h) && type_with(bank, h)
            is Some ==> primary(bank, Some(h)) == Some((type_with(bank, h)->0, h)),
{
    if unit_present(bank, UnitType(0x07), h) {
        let k = choose|k: BankKey| #[trigger]
            bank.dom().contains(k) && k.unit_type == UnitType(0x07) && k.unit_id == h;
        assert(bank.dom().contains(k));
        law_type_of_an_id(bank, h, k);
    }
    if bank.dom().contains(key) && key.unit_type.0 == 0x07 && key.unit_id == h {
        assert(unit_present(bank, UnitType(0x07), h));
    }
}

/// Without a mailbox the hint stands for an air conditioning unit, and without either
/// no unit is addressed.
pub proof fn law_default_unit(
    bank: Map<BankKey, [u8; 7]>,
    h: UnitId,
    hint: Option<UnitId>,
    unit_type: Option<Seq<char>>,
    unit_id: Option<Seq<char>>,
)
    ensures
        default_unit(None, Some(h)) == Some((UnitType(0x07), h)),
        default_unit(None, None) is None,
        default_unit(Some(bank), hint) == primary(bank, hint),
        resolved(None, None, unit_type, unit_id) == Err::<(UnitType, UnitId), Seq<char>>(
            "no primary unit available"@,
        ),
        primary(bank, hint) is None ==> resolved(Some(bank), hint, unit_type, unit_id) == Err::<
            (UnitType, UnitId),
            Seq<char>,
        >("no primary unit available"@),
{
}

/// What a client names counts: the unit id and the unit type as they are named, where
/// both can be read. An id without a type has the type that reports under it, and
/// whatever is left out is that of the primary unit.
pub proof fn law_named_units(
    bank: Contents,
    hint: Option<UnitId>,
    type_text: Seq<char>,
    id_text: Seq<char>,
    t: u8,
    id: UnitId,
)
    requires
        byte_from_hex(type_text) == Some(t),
        id_from_hex(id_text) == Some(id),
        default_unit(bank, hint) is Some,
    ensures
        resolved(bank, hint, Some(type_text), Some(id_text)) == Ok::<
            (UnitType, UnitId),
            Seq<char>,
        >((UnitType(t), id)),
        resolved(bank, hint, Some(type_text), None) == Ok::<(UnitType, UnitId), Seq<char>>(
            (UnitType(t), (default_unit(bank, hint)->0).1),
        ),
        resolved(bank, hint, None, None) == Ok::<(UnitType, UnitId), Seq<char>>(
            default_unit(bank, hint)->0,
        ),
        resolved(bank, hint, None, Some(id_text)) == Ok::<(UnitType, UnitId), Seq<char>>(
            (
                if bank is Some && type_with(bank->0, id) is Some {
                    type_with(bank->0, id)->0
                } else {
                    (default_unit(bank, hint)->0).0
                },
                id,
            ),
        ),
{
}

/// A unit type or a unit id that cannot be read is refused, the type first.
pub proof fn law_unreadable_units(
    bank: Contents,
    hint: Option<UnitId>,
    unit_type: Option<Seq<char>>,
    unit_id: Option<Seq<char>>,
    bad: Seq<char>,
)
    requires
        default_unit(bank, hint) is Some,
    ensures
        byte_from_hex(bad) is None ==> resolved(bank, hint, Some(bad), unit_id) == Err::<
            (UnitType, UnitId),
            Seq<char>,
        >("invalid unit_type: BadHex"@),
        id_from_hex(bad) is None && (unit_type matches Some(t) ==> byte_from_hex(t) is Some)
            ==> resolved(bank, hint, unit_type, Some(bad)) == Err::<(UnitType, UnitId), Seq<char>>(
            "invalid unit_id: BadHex"@,
        ),
        named_type(None) == Ok::<Option<UnitType>, Seq<char>>(None),
        named_id(None) == Ok::<Option<UnitId>, Seq<char>>(None),
{
}

/// Which registers clients may read: all but `07` and `09`, and `03` and `04` only with
/// a zone.
pub proof fn law_readable_registers(register: Seq<char>, zone: Option<u8>, b: u8)
    ensures
        byte_from_hex(register) is None ==> readable(register, zone) == Err::<RegId, Seq<char>>(
            "invalid register: BadHex"@,
        ),
        byte_from_hex(register) == Some(b) ==> {
            &&& b == 0x09 ==> readable(register, zone) == Err::<RegId, Seq<char>>(
                "register "@ + hex_byte(b) + " is write-only"@,
            )
            &&& b == 0x07 ==> readable(register, zone) == Err::<RegId, Seq<char>>(
                "register "@ + hex_byte(b) + " is handled internally"@,
            )
            &&& (b == 0x03 || b == 0x04) && zone is None ==> readable(register, zone) == Err::<
                RegId,
                Seq<char>,
            >("zone required for register "@ + hex_byte(b))
            &&& (b == 0x03 || b == 0x04) && zone is Some ==> readable(register, zone) == Ok::<
                RegId,
                Seq<char>,
            >(RegId(b))
            &&& b != 0x03 && b != 0x04 && b != 0x07 && b != 0x09 ==> readable(register, zone)
                == Ok::<RegId, Seq<char>>(RegId(b))
        },
{
}

/// A read asks for the register of the unit that the client addresses, in the zone that
/// it names where the register has zones. A read that cannot be made is refused under
/// its own id, with the reason.
pub proof fn law_reads_ask_for_what_is_named(
    bank: Contents,
    hint: Option<UnitId>,
    msg_id: Seq<char>,
    unit_type: Option<Seq<char>>,
    unit_id: Option<Seq<char>>,
    register: Seq<char>,
    zone: Option<u8>,
)
    ensures
        ({
            let d = decide(
                bank,
                hint,
                ClientModel::Read { msg_id, unit_type, unit_id, register, zone },
            );
            match (readable(register, zone), resolved(bank, hint, unit_type, unit_id)) {
                (Err(reason), _) => d == Decision::Answer(
                    Saying::Ack { msg_id, status: AckStatus::Error, reason: Some(reason) },
                ),
                (Ok(_), Err(reason)) => d == Decision::Answer(
                    Saying::Ack { msg_id, status: AckStatus::Error, reason: Some(reason) },
                ),
                (Ok(reg), Ok(unit)) => d matches Decision::Read { key, msg_id: id } && id == msg_id
                    && key.unit_type == unit.0 && key.unit_id == unit.1 && key.reg == reg && (
                reg.0 == 0x03 || reg.0 == 0x04 ==> key.zone == zone) && (reg.0 != 0x03 && reg.0
                    != 0x04 ==> key.zone is None),
            }
        }),
{
}

/// The slot of a write is that of the unit, the register and the zone, which is `0`
/// where none is named; registers without zones have one slot.
pub proof fn law_slot_of_a_write(
    unit_type: UnitType,
    unit_id: UnitId,
    reg: RegId,
    zone: Option<u8>,
    z: u8,
)
    ensures
        ({
            let slot = write_slot(unit_type, unit_id, reg, zone);
            &&& slot.unit_type == unit_type
            &&& slot.unit_id == unit_id
            &&& slot.reg == reg
            &&& slot.zone == if reg.0 == 0x03 || reg.0 == 0x04 {
                if zone is Some {
                    zone
                } else {
                    Some(0u8)
                }
            } else {
                None
            }
        }),
        addressed_zone(reg, zone) == if reg.0 == 0x03 || reg.0 == 0x04 {
            zone
        } else {
            None
        },
        (reg.0 == 0x03 || reg.0 == 0x04) ==> zone_suffix(reg, Some(z)) == " [zone "@ + decimal(
            z as nat,
        ) + "]"@ && zone_suffix(reg, None) == " [zone "@ + decimal(0) + "]"@,
        reg.0 != 0x03 && reg.0 != 0x04 ==> zone_suffix(reg, zone).len() == 0,
{
}

/// The zone that is named stands in the first byte of registers `03` and `04`; all
/// other bytes are sent as they are.
pub proof fn law_zone_byte(reg: RegId, z: u8, zone: Option<u8>, data: [u8; 7])
    ensures
        reg.0 == 0x03 || reg.0 == 0x04 ==> stamped(reg, Some(z), data)@ == data@.update(0, z),
        stamped(reg, None, data) == data,
        reg.0 != 0x03 && reg.0 != 0x04 ==> stamped(reg, zone, data) == data,
{
    assert(stamped(reg, Some(z), data)@ =~= if reg.0 == 0x03 || reg.0 == 0x04 {
        data@.update(0, z)
    } else {
        data@
    });
}

/// Register `12` is written without the fields that only its reports have; no other
/// field and no other register loses anything.
pub proof fn law_fields_that_are_written(reg: RegId, payload: PayloadModel)
    ensures
        reg.0 != 0x12 || !(payload is Object) ==> write_fields(reg, payload) == payload,
        reg.0 == 0x12 && payload is Object ==> write_fields(reg, payload) == PayloadModel::Object(
            without_field(without_field(payload->Object_0, "pairing"@), "sensor_rev"@),
        ),
{
}

/// A field that is taken out leaves the others as they are, in their order.
pub proof fn law_field_is_taken_out(fields: Fields, name: Seq<char>)
    ensures
        ({
            let after = without_field(fields, name);
            match position(fields, name) {
                Some(i) => 0 <= i < fields.len() && fields[i].0 == name && after == fields.take(i)
                    + fields.skip(i + 1),
                None => after == fields && forall|j: int|
                    0 <= j < fields.len() ==> (#[trigger] fields[j]).0 != name,
            }
        }),
{
    lemma_position(fields, name);
    if let Some(i) = position(fields, name) {
        assert(fields.remove(i) =~= fields.take(i) + fields.skip(i + 1));
    }
}

/// Fields of a client are completed from the slot that they are written to, and
/// what comes out is held to the rules of writing.
pub proof fn law_writes_are_completed(
    bank: Contents,
    unit_type: UnitType,
    unit_id: UnitId,
    reg: RegId,
    zone: Option<u8>,
    fields: Fields,
)
    ensures
        ({
            let sent = PayloadModel::Object(fields);
            let slot = BankKey {
                unit_type,
                unit_id,
                reg,
                zone: if reg.0 == 0x03 || reg.0 == 0x04 {
                    if zone is Some {
                        zone
                    } else {
                        Some(0u8)
                    }
                } else {
                    None
                },
            };
            let r = completed(bank, unit_type, unit_id, reg, zone, sent);
            if bank is Some && bank->0.dom().contains(slot) {
                let held = decoded(reg, bank->0[slot]);
                let whole = write_fields(reg, merged(held, sent));
                if held is Text {
                    r == Err::<PayloadModel, Seq<char>>(
                        "cannot merge: bank state for register "@ + hex_byte(reg.0)
                            + " is not typed; send a full payload or issue a read first"@,
                    )
                } else {
                    match write_fault(reg, sent, whole, false) {
                        Some(e) => r == Err::<PayloadModel, Seq<char>>(e.text()),
                        None => r == Ok::<PayloadModel, Seq<char>>(whole),
                    }
                }
            } else {
                r == Err::<PayloadModel, Seq<char>>(
                    "no bank state for register "@ + hex_byte(reg.0) + zone_suffix(reg, zone)
                        + "; send a full payload or issue a read first"@,
                )
            }
        }),
{
    let slot = write_slot(unit_type, unit_id, reg, zone);
    if let Some(b) = bank {
        assert(held_value(bank, slot) == lookup(b, slot));
    }
}

/// What is written: the bytes of what the client sent, raw or completed, with the zone
/// in its place, in one record to the control box. Everything else is refused with its
/// reason.
pub proof fn law_write_records(
    bank: Contents,
    hint: Option<UnitId>,
    msg_id: Seq<char>,
    unit_type: Option<Seq<char>>,
    unit_id: Option<Seq<char>>,
    register: Seq<char>,
    zone: Option<u8>,
    payload: PayloadModel,
)
    ensures
        ({
            let r = write_record(bank, hint, unit_type, unit_id, register, zone, payload);
            match (resolved(bank, hint, unit_type, unit_id), byte_from_hex(register)) {
                (Err(reason), _) => r == Err::<CanRecord, Seq<char>>(reason),
                (Ok(_), None) => r == Err::<CanRecord, Seq<char>>("invalid register: BadHex"@),
                (Ok(unit), Some(b)) => match written_bytes(bank, unit, RegId(b), zone, payload) {
                    Err(reason) => r == Err::<CanRecord, Seq<char>>(reason),
                    Ok(data) => r == Ok::<CanRecord, Seq<char>>(
                        CanRecord {
                            unit_type: unit.0,
                            dest: Dest::ControlBox,
                            unit_id: unit.1,
                            reg: RegId(b),
                            data,
                        },
                    ),
                },
            }
        }),
        ({
            let r = write_record(bank, hint, unit_type, unit_id, register, zone, payload);
            let d = decide(
                bank,
                hint,
                ClientModel::Write { msg_id, unit_type, unit_id, register, zone, payload },
            );
            match r {
                Ok(record) => d == (Decision::Write { record, msg_id }),
                Err(reason) => d == Decision::Answer(
                    Saying::Ack { msg_id, status: AckStatus::Error, reason: Some(reason) },
                ),
            }
        }),
{
}

/// The bytes of a write: those of raw text as they are, those of fields as they were
/// completed, with the zone in its place.
pub proof fn law_bytes_of_a_write(
    bank: Contents,
    unit: (UnitType, UnitId),
    reg: RegId,
    zone: Option<u8>,
    hex: Seq<char>,
    fields: Fields,
)
    ensures
        ({
            let sent = PayloadModel::Text(hex);
            match (write_fault(reg, sent, sent, true), encoded(reg, sent)) {
                (Some(e), _) => written_bytes(bank, unit, reg, zone, sent) == Err::<
                    [u8; 7],
                    Seq<char>,
                >(e.text()),
                (None, Err(e)) => written_bytes(bank, unit, reg, zone, sent) == Err::<
                    [u8; 7],
                    Seq<char>,
                >(e.text()),
                (None, Ok(data)) => written_bytes(bank, unit, reg, zone, sent) == Ok::<
                    [u8; 7],
                    Seq<char>,
                >(stamped(reg, zone, data)),
            }
        }),
        ({
            let sent = PayloadModel::Object(fields);
            match completed(bank, unit.0, unit.1, reg, zone, sent) {
                Err(reason) => written_bytes(bank, unit, reg, zone, sent) == Err::<
                    [u8; 7],
                    Seq<char>,
                >(reason),
                Ok(whole) => match encoded(reg, whole) {
                    Err(e) => written_bytes(bank, unit, reg, zone, sent) == Err::<
                        [u8; 7],
                        Seq<char>,
                    >(e.text()),
                    Ok(data) => written_bytes(bank, unit, reg, zone, sent) == Ok::<
                        [u8; 7],
                        Seq<char>,
                    >(stamped(reg, zone, data)),
                },
            }
        }),
{
}

/// What is neither fields nor raw text is never written.
pub proof fn law_other_payloads_are_refused(
    bank: Contents,
    unit: (UnitType, UnitId),
    reg: RegId,
    zone: Option<u8>,
    payload: PayloadModel,
)
    requires
        !(payload is Text || payload is Object),
    ensures
        written_bytes(bank, unit, reg, zone, payload) is Err,
{
}

} // verus!
