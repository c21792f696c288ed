//! Which unit a client addresses, and what it would write there.
use crate::mailbox::codec::raw;
use crate::mailbox::convert::{
    bounds, broken_bound, decode_payload, decoded, encode_payload, encoded, merge_payload, merged,
    validate_write, validate_write_merged, write_fault,
};
use crate::mailbox::convert_laws::{law_decoded_is_encoded, law_raw_text_passes, settled};
use crate::mailbox::error::register_text;
use crate::mailbox::policy::{mode_of, write_policy, PolicyMode};
use crate::mailbox::value::{remove_field, without_field, Payload, PayloadModel};
use crate::registers::bank::{
    is_zone_bearing, lookup, type_present, unit_present, zone_bearing, BankKey, RegisterBank,
};
use crate::registers::ids::{
    byte_from_hex, group_unit_id, id_from_hex, IdError, RegId, UnitId, UnitType,
};
use crate::registers::wire::{CanRecord, Dest};
use crate::text::{decimal, hex_byte, push_decimal, push_hex_byte, str_option};
use vstd::prelude::*;
use vstd::string::*;

verus! {

/// The contents of a mailbox, where there is one.
pub type Contents = Option<Map<BankKey, [u8; 7]>>;

/// What a mailbox that may be there holds.
pub open spec fn contents(bank: Option<&RegisterBank>) -> Contents {
    match bank {
        Some(b) => Some(b@),
        None => None,
    }
}

/// Whether `t` is the smallest unit type that has a unit with an id.
pub open spec fn first_type(bank: Map<BankKey, [u8; 7]>, id: UnitId, t: UnitType) -> bool {
    &&& unit_present(bank, t, id)
    &&& forall|k: BankKey| #[trigger]
        bank.dom().contains(k) && k.unit_id == id ==> t.0 <= k.unit_type.0
}

/// The smallest unit type that has a unit with an id, if there is one.
pub open spec fn type_with(bank: Map<BankKey, [u8; 7]>, id: UnitId) -> Option<UnitType> {
    if exists|t: UnitType| first_type(bank, id, t) {
        Some(choose|t: UnitType| first_type(bank, id, t))
    } else {
        None
    }
}

/// Whether a unit has the smallest id of all units, and of those with this id the
/// smallest type.
pub open spec fn least_unit(bank: Map<BankKey, [u8; 7]>, unit: (UnitType, UnitId)) -> bool {
    &&& unit_present(bank, unit.0, unit.1)
    &&& forall|k: BankKey| #[trigger]
        bank.dom().contains(k) ==> unit.1@ < k.unit_id@ || (unit.1@ == k.unit_id@ && unit.0.0
            <= k.unit_type.0)
}

/// The unit with the smallest id, if there is a unit.
pub open spec fn least(bank: Map<BankKey, [u8; 7]>) -> Option<(UnitType, UnitId)> {
    if exists|unit: (UnitType, UnitId)| least_unit(bank, unit) {
        Some(choose|unit: (UnitType, UnitId)| least_unit(bank, unit))
    } else {
        None
    }
}

/// The unit that a client means when it names none. A hint that is present wins,
/// and air conditioning wins over other types; else the unit with the smallest id
/// is meant; in an empty mailbox the hint stands for an air conditioning unit.
pub open spec fn primary(bank: Map<BankKey, [u8; 7]>, hint: Option<UnitId>) -> Option<
    (UnitType, UnitId),
> {
    match hint {
        Some(h) => if unit_present(bank, UnitType(0x07), h) {
            Some((UnitType(0x07), h))
        } else {
            match type_with(bank, h) {
                Some(t) => Some((t, h)),
                None => match least(bank) {
                    Some(unit) => Some(unit),
                    None => Some((UnitType(0x07), h)),
                },
            }
        },
        None => least(bank),
    }
}

proof fn lemma_type_with(bank: Map<BankKey, [u8; 7]>, id: UnitId, t: UnitType)
    requires
        first_type(bank, id, t),
    ensures
        type_with(bank, id) == Some(t),
{
    let other = choose|t: UnitType| first_type(bank, id, t);
    assert(first_type(bank, id, other));
    let a = choose|k: BankKey| #[trigger]
        bank.dom().contains(k) && k.unit_type == t && k.unit_id == id;
    let b = choose|k: BankKey| #[trigger]
        bank.dom().contains(k) && k.unit_type == other && k.unit_id == id;
    assert(bank.dom().contains(a) && bank.dom().contains(b));
    assert(t.0 == other.0);
}

proof fn lemma_no_type(bank: Map<BankKey, [u8; 7]>, id: UnitId)
    requires
        forall|t: UnitType| !unit_present(bank, t, id),
    ensures
        type_with(bank, id) is None,
{
}

proof fn lemma_least(bank: Map<BankKey, [u8; 7]>, unit: (UnitType, UnitId))
    requires
        least_unit(bank, unit),
    ensures
        least(bank) == Some(unit),
{
    broadcast use group_unit_id;

    let other = choose|unit: (UnitType, UnitId)| least_unit(bank, unit);
    assert(least_unit(bank, other));
    let a = choose|k: BankKey| #[trigger]
        bank.dom().contains(k) && k.unit_type == unit.0 && k.unit_id == unit.1;
    let b = choose|k: BankKey| #[trigger]
        bank.dom().contains(k) && k.unit_type == other.0 && k.unit_id == other.1;
    assert(bank.dom().contains(a) && bank.dom().contains(b));
    assert(unit.1@ == other.1@);
    assert(UnitId::of(unit.1@) == unit.1);
    assert(UnitId::of(other.1@) == other.1);
    assert(unit.0.0 == other.0.0);
}

/// The smallest unit type that has a unit with an id.
fn find_type(bank: &RegisterBank, id: UnitId) -> (r: Option<UnitType>)
    ensures
        r == type_with(bank@, id),
{
    let types = bank.unit_types();
    let mut i: usize = 0;
    while i < types.len()
        invariant
            i <= types@.len(),
            forall|a: int, b: int|
                0 <= a < b < types@.len() ==> (#[trigger] types@[a]).0 < (#[trigger] types@[b]).0,
            forall|t: UnitType| types@.contains(t) <==> type_present(bank@, t),
            forall|j: int| 0 <= j < i ==> !unit_present(bank@, #[trigger] types@[j], id),
        decreases types@.len() - i,
    {
        if bank.has_unit(types[i], id) {
            proof {
                let t = types@[i as int];
                assert forall|k: BankKey| #[trigger]
                    bank@.dom().contains(k) && k.unit_id == id implies t.0 <= k.unit_type.0 by {
                    assert(type_present(bank@, k.unit_type));
                    assert(types@.contains(k.unit_type));
                    let j = choose|j: int| 0 <= j < types@.len() && types@[j] == k.unit_type;
                    assert(unit_present(bank@, k.unit_type, id));
                    assert(j >= i);
                    if j > i {
                        assert(types@[i as int].0 < types@[j].0);
                    }
                }
                lemma_type_with(bank@, id, t);
            }
            return Some(types[i]);
        }
        i = i + 1;
    }
    proof {
        assert forall|t: UnitType| !unit_present(bank@, t, id) by {
            if unit_present(bank@, t, id) {
                let k = choose|k: BankKey| #[trigger]
                    bank@.dom().contains(k) && k.unit_type == t && k.unit_id == id;
                assert(type_present(bank@, t));
                assert(types@.contains(t));
                let j = choose|j: int| 0 <= j < types@.len() && types@[j] == t;
                assert(!unit_present(bank@, types@[j], id));
            }
        }
        lemma_no_type(bank@, id);
    }
    None
}

/// Whether a unit is the least of those whose type is among the first `n`.
spec fn least_among(
    bank: Map<BankKey, [u8; 7]>,
    types: Seq<UnitType>,
    n: int,
    unit: (UnitType, UnitId),
) -> bool {
    &&& unit_present(bank, unit.0, unit.1)
    &&& forall|k: BankKey, j: int|
        #![trigger bank.dom().contains(k), types[j]]
        bank.dom().contains(k) && 0 <= j < n && types[j] == k.unit_type ==> unit.1@ < k.unit_id@
            || (unit.1@ == k.unit_id@ && unit.0.0 <= k.unit_type.0)
}

/// The unit with the smallest id.
fn find_least(bank: &RegisterBank) -> (r: Option<(UnitType, UnitId)>)
    ensures
        r == least(bank@),
{
    let types = bank.unit_types();
    let mut best: Option<(UnitType, UnitId)> = None;
    let mut i: usize = 0;
    while i < types.len()
        invariant
            i <= types@.len(),
            forall|a: int, b: int|
                0 <= a < b < types@.len() ==> (#[trigger] types@[a]).0 < (#[trigger] types@[b]).0,
            forall|t: UnitType| types@.contains(t) <==> type_present(bank@, t),
            i == 0 <==> best is None,
            best matches Some(unit) ==> least_among(bank@, types@, i as int, unit) && exists|j: int|
                0 <= j < i && types@[j] == unit.0,
        decreases types@.len() - i,
    {
        let unit_type = types[i];
        let ids = bank.unit_ids(unit_type);
        proof {
            assert(types@.contains(unit_type));
            let k = choose|k: BankKey| #[trigger]
                bank@.dom().contains(k) && k.unit_type == unit_type;
            assert(unit_present(bank@, unit_type, k.unit_id));
            assert(ids@.contains(k.unit_id));
        }
        let id = ids[0];
        proof {
            assert(ids@.contains(id)) by {
                assert(ids@[0] == id);
            }
            assert forall|k: BankKey| #[trigger]
                bank@.dom().contains(k) && k.unit_type == unit_type implies id@ <= k.unit_id@ by {
                assert(unit_present(bank@, unit_type, k.unit_id));
                assert(ids@.contains(k.unit_id));
                let j = choose|j: int| 0 <= j < ids@.len() && ids@[j] == k.unit_id;
                if j > 0 {
                    assert(ids@[0]@ < ids@[j]@);
                }
            }
        }
        let better = match best {
            None => true,
            Some((best_type, best_id)) => id.get() < best_id.get() || (id.get() == best_id.get()
                && unit_type.get() < best_type.get()),
        };
        let ghost before = best;
        if better {
            best = Some((unit_type, id));
        }
        proof {
            match best {
                Some(unit) => {
                    assert forall|k: BankKey, j: int|
                        #![trigger bank@.dom().contains(k), types@[j]]
                        bank@.dom().contains(k) && 0 <= j < i + 1 && types@[j]
                            == k.unit_type implies unit.1@ < k.unit_id@ || (unit.1@ == k.unit_id@
                        && unit.0.0 <= k.unit_type.0) by {
                        match before {
                            Some(old_unit) => {
                                let m = choose|m: int| 0 <= m < i && types@[m] == old_unit.0;
                                assert(types@[m].0 < types@[i as int].0);
                                if j < i {
                                    assert(bank@.dom().contains(k) && types@[j] == k.unit_type);
                                    assert(old_unit.1@ < k.unit_id@ || (old_unit.1@ == k.unit_id@
                                        && old_unit.0.0 <= k.unit_type.0));
                                } else {
                                    assert(id@ <= k.unit_id@);
                                }
                            },
                            None => {},
                        }
                    }
                    if better {
                        assert(types@[i as int] == unit.0);
                    } else {
                        let m = choose|m: int| 0 <= m < i && types@[m] == unit.0;
                        assert(0 <= m < i + 1 && types@[m] == unit.0);
                    }
                },
                None => {},
            }
        }
        i = i + 1;
    }
    proof {
        match best {
            Some(unit) => {
                assert forall|k: BankKey| #[trigger] bank@.dom().contains(k) implies unit.1@
                    < k.unit_id@ || (unit.1@ == k.unit_id@ && unit.0.0 <= k.unit_type.0) by {
                    assert(type_present(bank@, k.unit_type));
                    assert(types@.contains(k.unit_type));
                    let j = choose|j: int| 0 <= j < types@.len() && types@[j] == k.unit_type;
                    assert(types@[j] == k.unit_type);
                }
                lemma_least(bank@, unit);
            },
            None => {
                assert forall|unit: (UnitType, UnitId)| !least_unit(bank@, unit) by {
                    if least_unit(bank@, unit) {
                        let k = choose|k: BankKey| #[trigger]
                            bank@.dom().contains(k) && k.unit_type == unit.0 && k.unit_id
                                == unit.1;
                        assert(type_present(bank@, k.unit_type));
                        assert(types@.contains(k.unit_type));
                    }
                }
            },
        }
    }
    best
}

/// The unit that a client means when it names none.
pub fn primary_unit(bank: &RegisterBank, hint: Option<UnitId>) -> (r: Option<(UnitType, UnitId)>)
    ensures
        r == primary(bank@, hint),
{
    match hint {
        Some(h) => {
            if bank.has_unit(UnitType::aircon(), h) {
                return Some((UnitType::aircon(), h));
            }
            match find_type(bank, h) {
                Some(t) => Some((t, h)),
                None => match find_least(bank) {
                    Some(unit) => Some(unit),
                    None => Some((UnitType::aircon(), h)),
                },
            }
        },
        None => find_least(bank),
    }
}

/// What an outcome with a reason says.
pub open spec fn plain<T>(r: Result<T, String>) -> Result<T, Seq<char>> {
    match r {
        Ok(v) => Ok(v),
        Err(reason) => Err(reason@),
    }
}

/// The unit type that a text names, if there is a text.
pub open spec fn named_type(text: Option<Seq<char>>) -> Result<Option<UnitType>, Seq<char>> {
    match text {
        Some(s) => match byte_from_hex(s) {
            Some(b) => Ok(Some(UnitType(b))),
            None => Err("invalid unit_type: BadHex"@),
        },
        None => Ok(None),
    }
}

/// The unit id that a text names, if there is a text.
pub open spec fn named_id(text: Option<Seq<char>>) -> Result<Option<UnitId>, Seq<char>> {
    match text {
        Some(s) => match id_from_hex(s) {
            Some(id) => Ok(Some(id)),
            None => Err("invalid unit_id: BadHex"@),
        },
        None => Ok(None),
    }
}

/// The unit that a client means when it names none, where there may be no mailbox
/// yet.
pub open spec fn default_unit(bank: Contents, hint: Option<UnitId>) -> Option<(UnitType, UnitId)> {
    match bank {
        Some(b) => primary(b, hint),
        None => match hint {
            Some(h) => Some((UnitType(0x07), h)),
            None => None,
        },
    }
}

/// The unit that a client addresses. A type or an id that it names counts; a type
/// that it does not name is the one under which its id is present; all else comes
/// from the unit that is meant when none is named.
pub open spec fn resolved(
    bank: Contents,
    hint: Option<UnitId>,
    unit_type: Option<Seq<char>>,
    unit_id: Option<Seq<char>>,
) -> Result<(UnitType, UnitId), Seq<char>> {
    match default_unit(bank, hint) {
        None => Err("no primary unit available"@),
        Some((main_type, main_id)) => match (named_type(unit_type), named_id(unit_id)) {
            (Err(reason), _) => Err(reason),
            (_, Err(reason)) => Err(reason),
            (Ok(t), Ok(id)) => Ok(
                (
                    match (t, id, bank) {
                        (Some(t), _, _) => t,
                        (None, Some(id), Some(b)) => match type_with(b, id) {
                            Some(t) => t,
                            None => main_type,
                        },
                        _ => main_type,
                    },
                    match id {
                        Some(id) => id,
                        None => main_id,
                    },
                ),
            ),
        },
    }
}

/// The name of an identifier error.
pub open spec fn id_fault(e: IdError) -> Seq<char> {
    match e {
        IdError::OutOfRange => "OutOfRange"@,
        IdError::BadHex => "BadHex"@,
    }
}

/// `head` and the name of an identifier error.
fn id_text(head: &str, e: IdError) -> (out: String)
    ensures
        out@ == head@ + id_fault(e),
{
    let mut out = head.to_owned();
    match e {
        IdError::OutOfRange => out.append("OutOfRange"),
        IdError::BadHex => out.append("BadHex"),
    }
    out
}

/// The unit that a client addresses.
pub fn resolve_unit(
    bank: Option<&RegisterBank>,
    hint: Option<UnitId>,
    unit_type: Option<&str>,
    unit_id: Option<&str>,
) -> (r: Result<(UnitType, UnitId), String>)
    ensures
        plain(r) == resolved(contents(bank), hint, str_option(unit_type), str_option(unit_id)),
{
    let main = match bank {
        Some(b) => primary_unit(b, hint),
        None => match hint {
            Some(h) => Some((UnitType::aircon(), h)),
            None => None,
        },
    };
    let (main_type, main_id) = match main {
        Some(unit) => unit,
        None => {
            return Err("no primary unit available".to_owned());
        },
    };
    let named_type: Option<UnitType> = match unit_type {
        Some(s) => match UnitType::from_hex(s) {
            Ok(t) => Some(t),
            Err(e) => {
                proof {
                    reveal_strlit("invalid unit_type: ");
                    reveal_strlit("BadHex");
                    reveal_strlit("invalid unit_type: BadHex");
                    assert("invalid unit_type: "@ + "BadHex"@ =~= "invalid unit_type: BadHex"@);
                }
                return Err(id_text("invalid unit_type: ", e));
            },
        },
        None => None,
    };
    let named_id: Option<UnitId> = match unit_id {
        Some(s) => match UnitId::from_hex(s) {
            Ok(id) => Some(id),
            Err(e) => {
                proof {
                    reveal_strlit("invalid unit_id: ");
                    reveal_strlit("BadHex");
                    reveal_strlit("invalid unit_id: BadHex");
                    assert("invalid unit_id: "@ + "BadHex"@ =~= "invalid unit_id: BadHex"@);
                }
                return Err(id_text("invalid unit_id: ", e));
            },
        },
        None => None,
    };
    let t = match (named_type, named_id, bank) {
        (Some(t), _, _) => t,
        (None, Some(id), Some(b)) => match find_type(b, id) {
            Some(t) => t,
            None => main_type,
        },
        _ => main_type,
    };
    let id = match named_id {
        Some(id) => id,
        None => main_id,
    };
    Ok((t, id))
}

/// The register that a client may read.
pub open spec fn readable(register: Seq<char>, zone: Option<u8>) -> Result<RegId, Seq<char>> {
    match byte_from_hex(register) {
        None => Err("invalid register: BadHex"@),
        Some(b) => {
            let reg = RegId(b);
            match mode_of(reg) {
                PolicyMode::WriteOnly => Err("register "@ + hex_byte(b) + " is write-only"@),
                PolicyMode::Internal => Err("register "@ + hex_byte(b) + " is handled internally"@),
                _ => if zone_bearing(reg) && zone is None {
                    Err("zone required for register "@ + hex_byte(b))
                } else {
                    Ok(reg)
                },
            }
        },
    }
}

/// The register of two digits.
fn parse_register(register: &str) -> (r: Result<RegId, String>)
    ensures
        plain(r) == match byte_from_hex(register@) {
            Some(b) => Ok::<RegId, Seq<char>>(RegId(b)),
            None => Err("invalid register: BadHex"@),
        },
{
    match RegId::from_hex(register) {
        Ok(reg) => Ok(reg),
        Err(e) => {
            proof {
                reveal_strlit("invalid register: ");
                reveal_strlit("BadHex");
                reveal_strlit("invalid register: BadHex");
                assert("invalid register: "@ + "BadHex"@ =~= "invalid register: BadHex"@);
            }
            Err(id_text("invalid register: ", e))
        },
    }
}

/// Checks the register of a read before it goes to the bus. Registers that are
/// write-only or handled internally cannot be read, and zone-bearing registers
/// need a zone.
pub fn validate_read_register(register: &str, zone: Option<u8>) -> (r: Result<RegId, String>)
    ensures
        plain(r) == readable(register@, zone),
{
    let reg = match parse_register(register) {
        Ok(reg) => reg,
        Err(reason) => {
            return Err(reason);
        },
    };
    match write_policy(reg).mode {
        PolicyMode::WriteOnly => {
            return Err(register_text("register ", reg.get(), " is write-only"));
        },
        PolicyMode::Internal => {
            return Err(register_text("register ", reg.get(), " is handled internally"));
        },
        _ => {},
    }
    if is_zone_bearing(reg) && zone.is_none() {
        let mut reason = "zone required for register ".to_owned();
        push_hex_byte(&mut reason, reg.get());
        return Err(reason);
    }
    Ok(reg)
}

/// The zone of an address: that of the client for a zone-bearing register, none for
/// any other.
pub open spec fn addressed_zone(reg: RegId, zone: Option<u8>) -> Option<u8> {
    if zone_bearing(reg) {
        zone
    } else {
        None
    }
}

/// The mailbox slot that a write completes: of a zone-bearing register the slot of
/// the zone, `0` where the client gives none.
pub open spec fn write_slot(
    unit_type: UnitType,
    unit_id: UnitId,
    reg: RegId,
    zone: Option<u8>,
) -> BankKey {
    BankKey {
        unit_type,
        unit_id,
        reg,
        zone: if zone_bearing(reg) {
            match zone {
                Some(z) => Some(z),
                None => Some(0),
            }
        } else {
            None
        },
    }
}

/// What the mailbox holds where a write goes.
pub open spec fn held_value(bank: Contents, slot: BankKey) -> Option<[u8; 7]> {
    match bank {
        Some(b) => lookup(b, slot),
        None => None,
    }
}

/// What is said of a zone after the register, for zone-bearing registers.
pub open spec fn zone_suffix(reg: RegId, zone: Option<u8>) -> Seq<char> {
    if zone_bearing(reg) {
        " [zone "@ + decimal(
            match zone {
                Some(z) => z as nat,
                None => 0,
            },
        ) + "]"@
    } else {
        Seq::empty()
    }
}

/// A completed payload without the fields that register `12` has only when it is
/// read, so that it keeps the shape that is written.
pub open spec fn write_fields(reg: RegId, payload: PayloadModel) -> PayloadModel {
    match payload {
        PayloadModel::Object(fields) => if reg.0 == 0x12 {
            PayloadModel::Object(
                without_field(without_field(fields, "pairing"@), "sensor_rev"@),
            )
        } else {
            payload
        },
        _ => payload,
    }
}

/// Drops the fields that register `12` has only when it is read.
pub fn drop_reg12_read_only_fields(payload: &mut Payload, reg: RegId)
    ensures
        final(payload)@ == write_fields(reg, old(payload)@),
{
    if reg.get() == 0x12 {
        let mut taken = Payload::Null;
        std::mem::swap(&mut taken, payload);
        match taken {
            Payload::Object(mut members) => {
                remove_field(&mut members, "pairing");
                remove_field(&mut members, "sensor_rev");
                *payload = Payload::Object(members);
            },
            other => {
                *payload = other;
            },
        }
    }
}

/// The payload that a client's fields make together with what the mailbox holds at
/// their address, or why they make none.
pub open spec fn completed(
    bank: Contents,
    unit_type: UnitType,
    unit_id: UnitId,
    reg: RegId,
    zone: Option<u8>,
    payload: PayloadModel,
) -> Result<PayloadModel, Seq<char>> {
    if !(payload is Object) {
        Err(
            match encoded(reg, payload) {
                Err(e) => e.text(),
                Ok(_) => "bad register payload: expected an object"@,
            },
        )
    } else {
        match held_value(bank, write_slot(unit_type, unit_id, reg, zone)) {
            None => Err(
                "no bank state for register "@ + hex_byte(reg.0) + zone_suffix(reg, zone)
                    + "; send a full payload or issue a read first"@,
            ),
            Some(data) => if decoded(reg, data) is Text {
                Err(
                    "cannot merge: bank state for register "@ + hex_byte(reg.0)
                        + " is not typed; send a full payload or issue a read first"@,
                )
            } else {
                let whole = write_fields(reg, merged(decoded(reg, data), payload));
                match write_fault(reg, payload, whole, false) {
                    Some(e) => Err(e.text()),
                    None => Ok(whole),
                }
            },
        }
    }
}

/// Whether an outcome is a payload or the same reason.
pub open spec fn payload_outcome(r: Result<Payload, String>) -> Result<PayloadModel, Seq<char>> {
    match r {
        Ok(p) => Ok(p@),
        Err(reason) => Err(reason@),
    }
}

/// What is said where the mailbox holds nothing at an address.
fn no_state_text(reg: RegId, zone: Option<u8>) -> (out: String)
    ensures
        out@ == "no bank state for register "@ + hex_byte(reg.0) + zone_suffix(reg, zone)
            + "; send a full payload or issue a read first"@,
{
    let mut out = "no bank state for register ".to_owned();
    push_hex_byte(&mut out, reg.get());
    let ghost head = out@;
    if is_zone_bearing(reg) {
        let z: u8 = match zone {
            Some(z) => z,
            None => 0,
        };
        out.append(" [zone ");
        push_decimal(&mut out, z as u64);
        out.append("]");
    }
    proof {
        assert(out@ =~= head + zone_suffix(reg, zone));
    }
    out.append("; send a full payload or issue a read first");
    out
}

/// Completes the fields of a client from the mailbox. Where the mailbox holds
/// nothing typed at the address, the write is refused rather than filled with
/// zeros.
pub fn sparse_merge_payload(
    bank: Option<&RegisterBank>,
    unit_type: UnitType,
    unit_id: UnitId,
    reg: RegId,
    zone: Option<u8>,
    payload: &Payload,
) -> (r: Result<Payload, String>)
    ensures
        payload_outcome(r) == completed(
            contents(bank),
            unit_type,
            unit_id,
            reg,
            zone,
            payload@,
        ),
{
    match payload {
        Payload::Object(_) => {},
        _ => {
            return match encode_payload(reg, payload) {
                Err(e) => Err(e.describe()),
                Ok(_) => Err("bad register payload: expected an object".to_owned()),
            };
        },
    }
    let held: Option<[u8; 7]> = match bank {
        Some(b) => if is_zone_bearing(reg) {
            let z: u8 = match zone {
                Some(z) => z,
                None => 0,
            };
            b.get_zone(unit_type, unit_id, reg, z)
        } else {
            b.get(unit_type, unit_id, reg)
        },
        None => None,
    };
    let data = match held {
        Some(data) => data,
        None => {
            return Err(no_state_text(reg, zone));
        },
    };
    let base = match decode_payload(reg, data) {
        Ok(p) => p,
        Err(e) => {
            return Err(e.describe());
        },
    };
    if let Payload::Text(_) = base {
        return Err(
            register_text(
                "cannot merge: bank state for register ",
                reg.get(),
                " is not typed; send a full payload or issue a read first",
            ),
        );
    }
    let mut whole = merge_payload(&base, payload);
    drop_reg12_read_only_fields(&mut whole, reg);
    match validate_write_merged(reg, payload, &whole) {
        Ok(_) => Ok(whole),
        Err(e) => Err(e.describe()),
    }
}

/// Seven bytes with the zone of the client in place of the first one, for
/// zone-bearing registers.
pub open spec fn stamped(reg: RegId, zone: Option<u8>, data: [u8; 7]) -> [u8; 7] {
    match addressed_zone(reg, zone) {
        Some(z) => [z, data[1], data[2], data[3], data[4], data[5], data[6]],
        None => data,
    }
}

/// Puts the zone into the bytes.
fn stamp_zone(reg: RegId, zone: Option<u8>, data: [u8; 7]) -> (r: [u8; 7])
    ensures
        r == stamped(reg, zone, data),
{
    if !is_zone_bearing(reg) {
        return data;
    }
    match zone {
        Some(z) => {
            let r: [u8; 7] = [z, data[1], data[2], data[3], data[4], data[5], data[6]];
            proof {
                assert(r =~= stamped(reg, zone, data));
            }
            r
        },
        None => data,
    }
}

/// The bytes that a client's payload is written as: raw text as it stands, fields
/// after they were completed from the mailbox.
pub open spec fn written_bytes(
    bank: Contents,
    unit: (UnitType, UnitId),
    reg: RegId,
    zone: Option<u8>,
    payload: PayloadModel,
) -> Result<[u8; 7], Seq<char>> {
    let whole = if payload is Text {
        match write_fault(reg, payload, payload, true) {
            Some(e) => Err(e.text()),
            None => Ok(payload),
        }
    } else {
        completed(bank, unit.0, unit.1, reg, zone, payload)
    };
    match whole {
        Err(reason) => Err(reason),
        Ok(p) => match encoded(reg, p) {
            Err(e) => Err(e.text()),
            Ok(data) => Ok(stamped(reg, zone, data)),
        },
    }
}

/// The record that a write queues, or why it queues none.
pub open spec fn write_record(
    bank: Contents,
    hint: Option<UnitId>,
    unit_type: Option<Seq<char>>,
    unit_id: Option<Seq<char>>,
    register: Seq<char>,
    zone: Option<u8>,
    payload: PayloadModel,
) -> Result<CanRecord, Seq<char>> {
    match resolved(bank, hint, unit_type, unit_id) {
        Err(reason) => Err(reason),
        Ok(unit) => match byte_from_hex(register) {
            None => Err("invalid register: BadHex"@),
            Some(b) => match written_bytes(bank, unit, RegId(b), zone, payload) {
                Err(reason) => Err(reason),
                Ok(data) => Ok(
                    CanRecord {
                        unit_type: unit.0,
                        dest: Dest::ControlBox,
                        unit_id: unit.1,
                        reg: RegId(b),
                        data,
                    },
                ),
            },
        },
    }
}

/// The bytes that a client's payload is written as.
fn write_bytes(
    bank: Option<&RegisterBank>,
    unit_type: UnitType,
    unit_id: UnitId,
    reg: RegId,
    zone: Option<u8>,
    payload: &Payload,
) -> (r: Result<[u8; 7], String>)
    ensures
        plain(r) == written_bytes(contents(bank), (unit_type, unit_id), reg, zone, payload@),
{
    let encoding = if let Payload::Text(_) = payload {
        match validate_write(reg, payload) {
            Ok(_) => {},
            Err(e) => {
                return Err(e.describe());
            },
        }
        encode_payload(reg, payload)
    } else {
        match sparse_merge_payload(bank, unit_type, unit_id, reg, zone, payload) {
            Ok(whole) => encode_payload(reg, &whole),
            Err(reason) => {
                return Err(reason);
            },
        }
    };
    match encoding {
        Ok(data) => Ok(stamp_zone(reg, zone, data)),
        Err(e) => Err(e.describe()),
    }
}

/// The record that a write queues.
pub fn build_write_record(
    bank: Option<&RegisterBank>,
    hint: Option<UnitId>,
    unit_type: Option<&str>,
    unit_id: Option<&str>,
    register: &str,
    zone: Option<u8>,
    payload: &Payload,
) -> (r: Result<CanRecord, String>)
    ensures
        plain(r) == write_record(
            contents(bank),
            hint,
            str_option(unit_type),
            str_option(unit_id),
            register@,
            zone,
            payload@,
        ),
{
    let (unit_type, unit_id) = match resolve_unit(bank, hint, unit_type, unit_id) {
        Ok(unit) => unit,
        Err(reason) => {
            return Err(reason);
        },
    };
    let reg = match parse_register(register) {
        Ok(reg) => reg,
        Err(reason) => {
            return Err(reason);
        },
    };
    match write_bytes(bank, unit_type, unit_id, reg, zone, payload) {
        Ok(data) => Ok(CanRecord { unit_type, dest: Dest::ControlBox, unit_id, reg, data }),
        Err(reason) => Err(reason),
    }
}

/// A raw write is exact: the record carries the bytes that the text stands for,
/// with the zone of the client in zone-bearing registers, whatever the mailbox
/// holds.
pub proof fn law_raw_write_is_exact(
    bank: Contents,
    unit: (UnitType, UnitId),
    reg: RegId,
    zone: Option<u8>,
    data: [u8; 7],
)
    requires
        mode_of(reg) is ReadWrite || mode_of(reg) is WriteOnly,
    ensures
        written_bytes(bank, unit, reg, zone, raw(data)) == Ok::<[u8; 7], Seq<char>>(
            stamped(reg, zone, data),
        ),
{
    law_raw_text_passes(reg, data);
}

/// A write without fields writes back what the mailbox holds, as it is encoded,
/// with the zone of the client. Register `12` is left out: it is read and written
/// with different fields.
pub proof fn law_empty_write_keeps_the_value(
    bank: Map<BankKey, [u8; 7]>,
    unit: (UnitType, UnitId),
    reg: RegId,
    zone: Option<u8>,
)
    requires
        mode_of(reg) is ReadWrite || mode_of(reg) is WriteOnly,
        reg.0 != 0x12,
        lookup(bank, write_slot(unit.0, unit.1, reg, zone)) matches Some(data) && decoded(
            reg,
            data,
        ) is Object && broken_bound(bounds(reg.0), settled(reg, data), 0) is None,
    ensures
        written_bytes(Some(bank), unit, reg, zone, PayloadModel::Object(seq![])) == Ok::<
            [u8; 7],
            Seq<char>,
        >(stamped(reg, zone, settled(reg, bank[write_slot(unit.0, unit.1, reg, zone)]))),
{
    let data = bank[write_slot(unit.0, unit.1, reg, zone)];
    law_decoded_is_encoded(reg, data);
}

} // verus!
