//! Payloads of any register: encoding, decoding and the checks of a write.
use crate::mailbox::codec::{
    activation_code_bytes, activation_code_payload, decode_activation_code, decode_firmware,
    decode_info_byte, decode_rf_device_calibration, decode_rf_device_pairing,
    decode_sensor_pairing, decode_system_error, decode_system_status, decode_unit_activation,
    decode_unit_announcement, decode_zone_config, decode_zone_limits, decode_zone_state,
    encode_activation_code, encode_firmware, encode_info_byte, encode_rf_device_calibration,
    encode_rf_device_pairing, encode_sensor_pairing, encode_system_error, encode_system_status,
    encode_unit_activation, encode_unit_announcement, encode_zone_config, encode_zone_limits,
    encode_zone_state, error_bytes, firmware_in, firmware_payload, hex_payload, hex_to_bytes,
    info_byte_in, info_byte_payload, outcome, raw, rf_device_calibration_in,
    rf_device_calibration_payload, rf_device_pairing_in, rf_device_pairing_payload,
    sensor_pairing_bytes, sensor_pairing_payload, slice_to_hex, system_error_payload,
    system_status_in, system_status_payload, typed, unit_activation_in, unit_activation_payload,
    zone_config_in, zone_config_payload, zone_limits_in, zone_limits_payload, zone_state_in,
    zone_state_payload, Encoding,
};
use crate::mailbox::error::{EncodeError, EncodeFault, WriteError, WriteFault};
use crate::mailbox::kind::Kind;
use crate::mailbox::policy::{mode_of, names, read_only_of, write_policy, PolicyMode};
use crate::mailbox::schema::{entries_model, is_full, members_full, Entry, Shape};
use crate::mailbox::value::{
    copy_field, copy_members, copy_payload, members_model, overlaid, set_field, text_in, Fields,
    Member, Payload, PayloadModel,
};
use crate::registers::bank::{is_zone_bearing, zone_bearing};
use crate::registers::ids::RegId;
use crate::registers::payloads::UnitAnnouncement;
use crate::registers::wire::CanRecord;
use crate::text::{
    comes_before, hex_byte, push_hex_byte, same_text, str_option, text_before, text_option,
};
use vstd::prelude::*;

verus! {

/// The bytes of a payload of a register: of raw hexadecimal text for any
/// register, of typed fields for the registers that have them.
pub open spec fn encoded(reg: RegId, payload: PayloadModel) -> Encoding {
    match payload {
        PayloadModel::Text(hex) => hex_payload(hex),
        _ => match reg.0 {
            0x01 => match typed(Shape::ZoneConfig, payload) {
                Ok(f) => Ok(zone_config_in(f).bytes()),
                Err(e) => Err(e),
            },
            0x02 => match typed(Shape::UnitActivation, payload) {
                Ok(f) => Ok(unit_activation_in(f).bytes()),
                Err(e) => Err(e),
            },
            0x03 => match typed(Shape::ZoneState, payload) {
                Ok(f) => Ok(zone_state_in(f).bytes()),
                Err(e) => Err(e),
            },
            0x04 => match typed(Shape::ZoneLimits, payload) {
                Ok(f) => Ok(zone_limits_in(f).bytes()),
                Err(e) => Err(e),
            },
            0x05 => match typed(Shape::SystemStatus, payload) {
                Ok(f) => Ok(system_status_in(f).bytes()),
                Err(e) => Err(e),
            },
            0x06 => match typed(Shape::Firmware, payload) {
                Ok(f) => Ok(firmware_in(f).bytes()),
                Err(e) => Err(e),
            },
            0x08 => match typed(Shape::SystemError, payload) {
                Ok(f) => error_bytes(text_in(f, "error_code"@)),
                Err(e) => Err(e),
            },
            0x09 => match typed(Shape::ActivationCode, payload) {
                Ok(f) => activation_code_bytes(f),
                Err(e) => Err(e),
            },
            0x0a => match typed(Shape::UnitAnnouncement, payload) {
                Ok(_) => Ok((UnitAnnouncement {  }).bytes()),
                Err(e) => Err(e),
            },
            0x12 => sensor_pairing_bytes(payload),
            0x13 => match typed(Shape::InfoByte, payload) {
                Ok(f) => Ok(info_byte_in(f).bytes()),
                Err(e) => Err(e),
            },
            0x26 => match typed(Shape::RfDevicePairing, payload) {
                Ok(f) => Ok(rf_device_pairing_in(f).bytes()),
                Err(e) => Err(e),
            },
            0x27 => match typed(Shape::RfDeviceCalibration, payload) {
                Ok(f) => Ok(rf_device_calibration_in(f).bytes()),
                Err(e) => Err(e),
            },
            _ => Err(EncodeFault::UnknownRegister(hex_byte(reg.0))),
        },
    }
}

/// The payload of seven bytes of a register: typed fields where the register
/// has them and they can hold the bytes, else raw hexadecimal text.
pub open spec fn decoded(reg: RegId, data: [u8; 7]) -> PayloadModel {
    match reg.0 {
        0x01 => zone_config_payload(data),
        0x02 => unit_activation_payload(data),
        0x03 => zone_state_payload(data),
        0x04 => zone_limits_payload(data),
        0x05 => system_status_payload(data),
        0x06 => firmware_payload(data),
        0x08 => system_error_payload(data),
        0x09 => activation_code_payload(data),
        0x0a => PayloadModel::Object(seq![]),
        0x12 => sensor_pairing_payload(data),
        0x13 => info_byte_payload(data),
        0x26 => rf_device_pairing_payload(data),
        0x27 => rf_device_calibration_payload(data),
        _ => raw(data),
    }
}

/// Encodes a payload of a register.
pub fn encode_payload(reg: RegId, payload: &Payload) -> (r: Result<[u8; 7], EncodeError>)
    ensures
        outcome(r) == encoded(reg, payload@),
{
    if let Payload::Text(hex) = payload {
        return hex_to_bytes(hex.as_str());
    }
    match reg.get() {
        0x01 => encode_zone_config(payload),
        0x02 => encode_unit_activation(payload),
        0x03 => encode_zone_state(payload),
        0x04 => encode_zone_limits(payload),
        0x05 => encode_system_status(payload),
        0x06 => encode_firmware(payload),
        0x08 => encode_system_error(payload),
        0x09 => encode_activation_code(payload),
        0x0a => encode_unit_announcement(payload),
        0x12 => encode_sensor_pairing(payload),
        0x13 => encode_info_byte(payload),
        0x26 => encode_rf_device_pairing(payload),
        0x27 => encode_rf_device_calibration(payload),
        _ => {
            let mut text = String::new();
            push_hex_byte(&mut text, reg.get());
            proof {
                assert(text@ =~= hex_byte(reg.0));
            }
            Err(EncodeError::UnknownRegister(text))
        },
    }
}

/// Decodes seven bytes of a register; this never fails.
pub fn decode_payload(reg: RegId, data: [u8; 7]) -> (r: Result<Payload, EncodeError>)
    ensures
        r matches Ok(payload) && payload@ == decoded(reg, data),
{
    let payload = match reg.get() {
        0x01 => decode_zone_config(data),
        0x02 => decode_unit_activation(data),
        0x03 => decode_zone_state(data),
        0x04 => decode_zone_limits(data),
        0x05 => decode_system_status(data),
        0x06 => decode_firmware(data),
        0x08 => decode_system_error(data),
        0x09 => decode_activation_code(data),
        0x0a => decode_unit_announcement(data),
        0x12 => decode_sensor_pairing(data),
        0x13 => decode_info_byte(data),
        0x26 => decode_rf_device_pairing(data),
        0x27 => decode_rf_device_calibration(data),
        _ => Payload::Text(slice_to_hex(&data)),
    };
    Ok(payload)
}

/// Bound of one byte of a register.
#[derive(Debug, Clone, Copy, PartialEq, Eq)]
pub struct WireRange {
    /// Index of the byte.
    pub index: usize,
    /// Name of the value.
    pub field: &'static str,
    /// Greatest permitted value.
    pub max: u8,
    /// Bits of the byte that hold the value.
    pub mask: u8,
}

/// Bound of one byte: its index, the name of the value, the greatest permitted
/// value, and the bits that hold the value.
pub type Bound = (int, Seq<char>, u8, u8);

/// The bounds of a register, in the order in which they are checked.
pub open spec fn bounds(reg: u8) -> Seq<Bound> {
    match reg {
        0x01 => seq![(1, "numZones"@, 10, 0xff), (2, "numConstants"@, 3, 0xff)],
        0x03 => seq![
            (1, "damper"@, 100, 0x7f),
            (3, "setTemp×2"@, 80, 0xff),
            (5, "measDec"@, 9, 0xff),
        ],
        0x04 => seq![(3, "motion"@, 22, 0xff), (4, "motionConfig"@, 2, 0xff)],
        0x05 => seq![
            (1, "mode"@, 6, 0xff),
            (3, "setTemp×2"@, 80, 0xff),
            (5, "freshAir"@, 2, 0xff),
            (6, "rfSysId"@, 16, 0xff),
            (4, "myzone"@, 10, 0xff),
        ],
        _ => seq![],
    }
}

/// What a list of ranges says.
pub open spec fn ranges_model(ranges: Seq<WireRange>) -> Seq<Bound> {
    ranges.map_values(|r: WireRange| (r.index as int, r.field@, r.max, r.mask))
}

/// The bounds of a register.
pub fn wire_ranges(reg: u8) -> (out: Vec<WireRange>)
    ensures
        ranges_model(out@) == bounds(reg),
        forall|i: int| 0 <= i < out@.len() ==> (#[trigger] out@[i]).index < 7,
{
    let mut out: Vec<WireRange> = Vec::new();
    match reg {
        0x01 => {
            out.push(WireRange { index: 1, field: "numZones", max: 10, mask: 0xff });
            out.push(WireRange { index: 2, field: "numConstants", max: 3, mask: 0xff });
        },
        0x03 => {
            out.push(WireRange { index: 1, field: "damper", max: 100, mask: 0x7f });
            out.push(WireRange { index: 3, field: "setTemp×2", max: 80, mask: 0xff });
            out.push(WireRange { index: 5, field: "measDec", max: 9, mask: 0xff });
        },
        0x04 => {
            out.push(WireRange { index: 3, field: "motion", max: 22, mask: 0xff });
            out.push(WireRange { index: 4, field: "motionConfig", max: 2, mask: 0xff });
        },
        0x05 => {
            out.push(WireRange { index: 1, field: "mode", max: 6, mask: 0xff });
            out.push(WireRange { index: 3, field: "setTemp×2", max: 80, mask: 0xff });
            out.push(WireRange { index: 5, field: "freshAir", max: 2, mask: 0xff });
            out.push(WireRange { index: 6, field: "rfSysId", max: 16, mask: 0xff });
            out.push(WireRange { index: 4, field: "myzone", max: 10, mask: 0xff });
        },
        _ => {},
    }
    proof {
        assert(ranges_model(out@) =~= bounds(reg));
    }
    out
}

/// The first bound from `at` on that seven bytes break.
pub open spec fn broken_bound(list: Seq<Bound>, data: [u8; 7], at: int) -> Option<WriteFault>
    decreases list.len() - at,
{
    if at < 0 || at >= list.len() {
        None
    } else {
        let (index, field, max, mask) = list[at];
        let value = data[index] & mask;
        if value > max {
            Some(WriteFault::OutOfRange { field, value, max })
        } else {
            broken_bound(list, data, at + 1)
        }
    }
}

/// What the outcome of a check says.
pub open spec fn verdict(r: Result<(), WriteError>) -> Option<WriteFault> {
    match r {
        Ok(_) => None,
        Err(e) => Some(e@),
    }
}

/// Checks seven bytes against the bounds of their register; the first broken
/// bound is reported.
pub fn check_ranges(reg: u8, data: [u8; 7]) -> (r: Result<(), WriteError>)
    ensures
        verdict(r) == broken_bound(bounds(reg), data, 0),
{
    let ranges = wire_ranges(reg);
    let ghost list = bounds(reg);
    let mut at: usize = 0;
    while at < ranges.len()
        invariant
            at <= ranges@.len(),
            list == bounds(reg),
            ranges_model(ranges@) == list,
            forall|i: int| 0 <= i < ranges@.len() ==> (#[trigger] ranges@[i]).index < 7,
            broken_bound(list, data, 0) == broken_bound(list, data, at as int),
        decreases ranges@.len() - at,
    {
        let range = ranges[at];
        assert(list[at as int] == (range.index as int, range.field@, range.max, range.mask));
        let value: u8 = data[range.index] & range.mask;
        if value > range.max {
            return Err(
                WriteError::OutOfRange { field: range.field, value, max: range.max },
            );
        }
        at = at + 1;
    }
    Ok(())
}

/// The shape that a register is written with.
pub open spec fn write_shape(reg: RegId) -> Option<Shape> {
    match reg.0 {
        0x01 => Some(Shape::ZoneConfig),
        0x03 => Some(Shape::ZoneState),
        0x04 => Some(Shape::ZoneLimits),
        0x05 => Some(Shape::SystemStatus),
        0x09 => Some(Shape::ActivationCode),
        0x12 => Some(Shape::SensorPairingWrite),
        0x26 => Some(Shape::RfDevicePairing),
        0x27 => Some(Shape::RfDeviceCalibration),
        _ => None,
    }
}

/// The shape that a register is written with.
fn shape_written(reg: RegId) -> (r: Option<Shape>)
    ensures
        r == write_shape(reg),
{
    match reg.get() {
        0x01 => Some(Shape::ZoneConfig),
        0x03 => Some(Shape::ZoneState),
        0x04 => Some(Shape::ZoneLimits),
        0x05 => Some(Shape::SystemStatus),
        0x09 => Some(Shape::ActivationCode),
        0x12 => Some(Shape::SensorPairingWrite),
        0x26 => Some(Shape::RfDevicePairing),
        0x27 => Some(Shape::RfDeviceCalibration),
        _ => None,
    }
}

/// The names of the fields that a register is written with.
pub open spec fn field_names(reg: RegId) -> Seq<Seq<char>> {
    match write_shape(reg) {
        Some(shape) => shape.schema().map_values(|e: (Seq<char>, Kind)| e.0),
        None => seq![],
    }
}

/// The names of the fields that a register is written with.
pub fn dto_field_names(reg: RegId) -> (out: Vec<&'static str>)
    ensures
        names(out@) == field_names(reg),
{
    let mut out: Vec<&'static str> = Vec::new();
    match shape_written(reg) {
        Some(shape) => {
            let entries = shape.entries();
            let mut i: usize = 0;
            while i < entries.len()
                invariant
                    i <= entries@.len(),
                    out@ == entries@.take(i as int).map_values(|e: Entry| e.name),
                decreases entries@.len() - i,
            {
                out.push(entries[i].name);
                proof {
                    assert(entries@.take(i + 1).map_values(|e: Entry| e.name)
                        =~= entries@.take(i as int).map_values(|e: Entry| e.name).push(
                        entries@[i as int].name,
                    ));
                }
                i = i + 1;
            }
            proof {
                assert(entries@.take(i as int) =~= entries@);
                assert(names(out@) =~= field_names(reg)) by {
                    assert forall|j: int| 0 <= j < entries@.len() implies names(out@)[j]
                        == field_names(reg)[j] by {
                        assert(entries_model(entries@)[j] == shape.schema()[j]);
                    }
                }
            }
        },
        None => {
            proof {
                assert(names(out@) =~= field_names(reg));
            }
        },
    }
    out
}

/// Of the names of the first `n` fields that are (or are not) in a list, the one
/// that comes first.
pub open spec fn first_named(
    fields: Fields,
    list: Seq<Seq<char>>,
    listed: bool,
    n: int,
) -> Option<Seq<char>>
    decreases n,
{
    if n <= 0 {
        None
    } else {
        let name = fields[n - 1].0;
        let before = first_named(fields, list, listed, n - 1);
        if list.contains(name) != listed {
            before
        } else {
            match before {
                Some(other) => if text_before(name, other) {
                    Some(name)
                } else {
                    Some(other)
                },
                None => Some(name),
            }
        }
    }
}

/// Place of a name in a list.
fn find_name(list: &Vec<&'static str>, name: &str) -> (r: Option<usize>)
    ensures
        match r {
            Some(i) => i < list@.len() && list@[i as int]@ == name@ && names(list@).contains(name@),
            None => !names(list@).contains(name@),
        },
{
    let mut i: usize = 0;
    while i < list.len()
        invariant
            i <= list@.len(),
            forall|j: int| 0 <= j < i ==> (#[trigger] list@[j])@ != name@,
        decreases list@.len() - i,
    {
        if same_text(list[i], name) {
            proof {
                assert(names(list@)[i as int] == name@);
            }
            return Some(i);
        }
        i = i + 1;
    }
    proof {
        if names(list@).contains(name@) {
            let j = choose|j: int| 0 <= j < names(list@).len() && names(list@)[j] == name@;
            assert(list@[j]@ == name@);
        }
    }
    None
}

/// Of the names of members that are in a list, the one that comes first.
fn find_listed(members: &Vec<Member>, list: &Vec<&'static str>) -> (r: Option<&'static str>)
    ensures
        str_option(r) == first_named(
            members_model(members@),
            names(list@),
            true,
            members@.len() as int,
        ),
{
    let ghost fields = members_model(members@);
    let mut found: Option<&'static str> = None;
    let mut n: usize = 0;
    while n < members.len()
        invariant
            n <= members@.len(),
            fields == members_model(members@),
            str_option(found) == first_named(fields, names(list@), true, n as int),
        decreases members@.len() - n,
    {
        assert(fields[n as int].0 == members@[n as int].name@);
        match find_name(list, members[n].name.as_str()) {
            Some(i) => {
                let first: bool = match found {
                    Some(other) => comes_before(list[i], other),
                    None => true,
                };
                if first {
                    found = Some(list[i]);
                }
            },
            None => {},
        }
        n = n + 1;
    }
    found
}

/// Of the names of members that are not in a list, the one that comes first.
fn find_unlisted(members: &Vec<Member>, list: &Vec<&'static str>) -> (r: Option<String>)
    ensures
        text_option(r) == first_named(
            members_model(members@),
            names(list@),
            false,
            members@.len() as int,
        ),
{
    let ghost fields = members_model(members@);
    let mut found: Option<String> = None;
    let mut n: usize = 0;
    while n < members.len()
        invariant
            n <= members@.len(),
            fields == members_model(members@),
            text_option(found) == first_named(fields, names(list@), false, n as int),
        decreases members@.len() - n,
    {
        assert(fields[n as int].0 == members@[n as int].name@);
        if find_name(list, members[n].name.as_str()).is_none() {
            let first: bool = match &found {
                Some(other) => comes_before(members[n].name.as_str(), other.as_str()),
                None => true,
            };
            if first {
                found = Some(members[n].name.clone());
            }
        }
        n = n + 1;
    }
    found
}

/// Why a register cannot be written at all.
pub open spec fn mode_fault(reg: RegId) -> Option<WriteFault> {
    match mode_of(reg) {
        PolicyMode::ReadOnly => Some(WriteFault::ReadOnlyRegister { reg: reg.0 }),
        PolicyMode::Internal => Some(WriteFault::InternalRegister { reg: reg.0 }),
        PolicyMode::Unverified => Some(WriteFault::UnverifiedRegister { reg: reg.0 }),
        PolicyMode::WriteOnly | PolicyMode::ReadWrite => None,
    }
}

/// Why the fields of a client may not be written: a read-only field, or, where
/// `strict`, a field that the register does not have. Of several the one whose name
/// comes first is reported.
pub open spec fn field_fault(reg: RegId, client: PayloadModel, strict: bool) -> Option<WriteFault> {
    match client {
        PayloadModel::Object(fields) => match first_named(
            fields,
            read_only_of(reg),
            true,
            fields.len() as int,
        ) {
            Some(field) => Some(WriteFault::ReadOnlyField { reg: reg.0, field }),
            None => if strict {
                match first_named(fields, field_names(reg), false, fields.len() as int) {
                    Some(field) => Some(WriteFault::UnknownField { reg: reg.0, field }),
                    None => None,
                }
            } else {
                None
            },
        },
        _ => None,
    }
}

/// Why the bytes of a payload may not be written. A payload without bytes is
/// not judged here.
pub open spec fn range_fault(reg: RegId, payload: PayloadModel) -> Option<WriteFault> {
    match encoded(reg, payload) {
        Ok(data) => broken_bound(bounds(reg.0), data, 0),
        Err(_) => None,
    }
}

/// Why a write is not permitted, where `client` is what the client sent and
/// `written` what would be written. The access mode comes first, the client's
/// fields come next, and the bounds come last. Raw text is only held to the
/// access mode.
pub open spec fn write_fault(
    reg: RegId,
    client: PayloadModel,
    written: PayloadModel,
    strict: bool,
) -> Option<WriteFault> {
    match mode_fault(reg) {
        Some(e) => Some(e),
        None => if client is Text {
            None
        } else {
            match field_fault(reg, client, strict) {
                Some(e) => Some(e),
                None => range_fault(reg, written),
            }
        },
    }
}

/// Checks the access mode of a register.
fn check_mode(reg: RegId) -> (r: Result<(), WriteError>)
    ensures
        verdict(r) == mode_fault(reg),
{
    match write_policy(reg).mode {
        PolicyMode::ReadOnly => Err(WriteError::ReadOnlyRegister { reg: reg.get() }),
        PolicyMode::Internal => Err(WriteError::InternalRegister { reg: reg.get() }),
        PolicyMode::Unverified => Err(WriteError::UnverifiedRegister { reg: reg.get() }),
        PolicyMode::WriteOnly | PolicyMode::ReadWrite => Ok(()),
    }
}

/// Checks the fields that a client sent.
fn check_fields(reg: RegId, client: &Payload, strict: bool) -> (r: Result<(), WriteError>)
    ensures
        verdict(r) == field_fault(reg, client@, strict),
{
    match client {
        Payload::Object(members) => {
            let policy = write_policy(reg);
            match find_listed(members, &policy.read_only_fields) {
                Some(field) => Err(WriteError::ReadOnlyField { reg: reg.get(), field }),
                None => if strict {
                    let known = dto_field_names(reg);
                    match find_unlisted(members, &known) {
                        Some(field) => Err(WriteError::UnknownField { reg: reg.get(), field }),
                        None => Ok(()),
                    }
                } else {
                    Ok(())
                },
            }
        },
        _ => Ok(()),
    }
}

/// Checks the bytes of a payload.
fn check_bytes(reg: RegId, payload: &Payload) -> (r: Result<(), WriteError>)
    ensures
        verdict(r) == range_fault(reg, payload@),
{
    match encode_payload(reg, payload) {
        Ok(data) => check_ranges(reg.get(), data),
        Err(_) => Ok(()),
    }
}

/// Checks a write.
pub fn validate_write(reg: RegId, payload: &Payload) -> (r: Result<(), WriteError>)
    ensures
        verdict(r) == write_fault(reg, payload@, payload@, true),
{
    match check_mode(reg) {
        Ok(_) => {},
        Err(e) => {
            return Err(e);
        },
    }
    if let Payload::Text(_) = payload {
        return Ok(());
    }
    match check_fields(reg, payload, true) {
        Ok(_) => {},
        Err(e) => {
            return Err(e);
        },
    }
    check_bytes(reg, payload)
}

/// Checks a write whose payload was completed from the mailbox: only what the
/// client sent is held to the read-only fields, only what would be written is
/// held to the bounds.
pub fn validate_write_merged(reg: RegId, client: &Payload, merged: &Payload) -> (r: Result<
    (),
    WriteError,
>)
    ensures
        verdict(r) == write_fault(reg, client@, merged@, false),
{
    match check_mode(reg) {
        Ok(_) => {},
        Err(e) => {
            return Err(e);
        },
    }
    if let Payload::Text(_) = client {
        return Ok(());
    }
    match check_fields(reg, client, false) {
        Ok(_) => {},
        Err(e) => {
            return Err(e);
        },
    }
    check_bytes(reg, merged)
}

/// The fields of `bank` with those of `overlay` set. Where `bank` has no fields
/// the overlay stands alone; where only the overlay has none, `bank` stands.
pub open spec fn merged(bank: PayloadModel, overlay: PayloadModel) -> PayloadModel {
    match (bank, overlay) {
        (PayloadModel::Object(base), PayloadModel::Object(over)) => PayloadModel::Object(
            overlaid(base, over),
        ),
        (PayloadModel::Object(_), _) => bank,
        _ => overlay,
    }
}

/// Lays the fields of a client over those of the mailbox.
pub fn merge_payload(bank: &Payload, overlay: &Payload) -> (r: Payload)
    ensures
        r@ == merged(bank@, overlay@),
{
    match (bank, overlay) {
        (Payload::Object(base), Payload::Object(over)) => {
            let mut out = copy_members(base);
            let ghost fields = members_model(base@);
            let mut i: usize = 0;
            while i < over.len()
                invariant
                    i <= over@.len(),
                    members_model(out@) == overlaid(fields, members_model(over@).take(i as int)),
                decreases over@.len() - i,
            {
                set_field(&mut out, over[i].name.as_str(), copy_field(&over[i].value));
                proof {
                    let next = members_model(over@).take(i + 1);
                    assert(next.drop_last() =~= members_model(over@).take(i as int));
                    assert(next.last() == members_model(over@)[i as int]);
                }
                i = i + 1;
            }
            proof {
                assert(members_model(over@).take(i as int) =~= members_model(over@));
            }
            Payload::Object(out)
        },
        (Payload::Object(_), _) => copy_payload(bank),
        _ => copy_payload(overlay),
    }
}

/// Whether a payload needs nothing from the mailbox: its fields are all there,
/// or what is said of them is not that one is missing.
pub open spec fn full_payload(reg: RegId, payload: PayloadModel) -> bool {
    match (payload, write_shape(reg)) {
        (PayloadModel::Object(fields), Some(shape)) => is_full(shape.schema(), fields),
        _ => false,
    }
}

/// Whether a payload needs nothing from the mailbox.
pub fn is_full_payload(reg: RegId, payload: &Payload) -> (r: bool)
    ensures
        r == full_payload(reg, payload@),
{
    match (payload, shape_written(reg)) {
        (Payload::Object(members), Some(shape)) => members_full(shape, members),
        _ => false,
    }
}

/// What an event says of a record: the register, the zone of a zone-bearing
/// register, and the payload.
pub fn event_body(record: &CanRecord) -> (r: (String, Option<u8>, Payload))
    ensures
        r.0@ == hex_byte(record.reg.0),
        r.1 == if zone_bearing(record.reg) {
            Some(record.data[0])
        } else {
            None
        },
        r.2@ == decoded(record.reg, record.data),
{
    let mut register = String::new();
    push_hex_byte(&mut register, record.reg.get());
    proof {
        assert(register@ =~= hex_byte(record.reg.0));
    }
    let zone = if is_zone_bearing(record.reg) {
        Some(record.data[0])
    } else {
        None
    };
    match decode_payload(record.reg, record.data) {
        Ok(payload) => (register, zone, payload),
        Err(_) => (register, zone, Payload::Text(slice_to_hex(&record.data))),
    }
}

} // verus!
