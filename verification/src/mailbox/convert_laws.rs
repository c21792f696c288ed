//! What holds of encoding, decoding and checking together.
use crate::mailbox::codec::{
    activation_code_bytes, all_ascii, all_hex, code_chars, error_bytes, hex_payload, pair,
    pairing_read_bytes, raw, sensor_pairing_bytes, system_status_in, trim_code, typed, uid_bytes,
    unlock_bytes,
};
use crate::mailbox::convert::{
    bounds, broken_bound, decoded, encoded, first_named, merged, write_fault,
};
use crate::mailbox::dto::{
    triple_numbers, FirmwareDto, InfoByteDto, RfDeviceCalibrationDto, RfDevicePairingDto,
    SystemStatusDto, UnitActivationDto, ZoneConfigDto, ZoneLimitsDto, ZoneStateDto,
};
use crate::mailbox::error::EncodeFault;
use crate::mailbox::kind::lemma_triple_complaint;
use crate::mailbox::policy::{mode_of, read_only_of};
use crate::mailbox::schema::{fits, lemma_fault, lemma_own_fields, Shape};
use crate::mailbox::value::{
    field, lemma_position, lemma_with_field, overlaid, position, triple_in, FieldModel, Fields,
    Number, PayloadModel,
};
use crate::mailbox::words::{
    law_words_of_action_enum, law_words_of_activation_status, law_words_of_fan_enum,
    law_words_of_fresh_air_enum, law_words_of_mode_enum, law_words_of_power_enum,
    law_words_of_sensor_type_enum, law_words_of_unit_type_enum, ActionEnum, ActivationStatus,
    FanEnum, FreshAirEnum, ModeEnum, PowerEnum, SensorTypeEnum, UnitTypeEnum,
};
use crate::registers::ids::RegId;
use crate::registers::payloads::{
    ActivationCode, FirmwareStatus, InfoByte, RfDeviceCalibration, RfDevicePairing,
    SensorPairingRead, SystemError, SystemStatus, UnitActivation, UnitAnnouncement, ZoneConfig,
    ZoneLimits, ZoneState,
};
use crate::text::{hex_byte, hex_text, hex_value, lemma_hex_char, lemma_hex_text};
use vstd::prelude::*;

verus! {

/// Two digits in the hexadecimal text of bytes stand for their byte.
proof fn lemma_pair(bytes: Seq<u8>, i: int)
    requires
        0 <= i < bytes.len(),
    ensures
        hex_text(bytes).len() == 2 * bytes.len(),
        hex_value(hex_text(bytes)[2 * i]) is Some,
        hex_value(hex_text(bytes)[2 * i + 1]) is Some,
        pair(hex_text(bytes), 2 * i) == bytes[i],
{
    lemma_hex_text(bytes);
    let b = bytes[i];
    let two = hex_text(bytes).subrange(2 * i, 2 * i + 2);
    assert(two == hex_byte(b));
    assert(two[0] == hex_text(bytes)[2 * i]);
    assert(two[1] == hex_text(bytes)[2 * i + 1]);
    lemma_hex_char(b as int / 16);
    lemma_hex_char(b as int % 16);
}

/// The hexadecimal text of bytes is made of digits.
proof fn lemma_all_hex(bytes: Seq<u8>)
    ensures
        all_hex(hex_text(bytes)),
{
    let s = hex_text(bytes);
    lemma_hex_text(bytes);
    assert forall|k: int| 0 <= k < s.len() implies hex_value(#[trigger] s[k]) is Some by {
        lemma_pair(bytes, k / 2);
        if k % 2 == 0 {
            assert(k == 2 * (k / 2));
        } else {
            assert(k == 2 * (k / 2) + 1);
        }
    }
}

/// Raw text passes byte for byte: for any register, the hexadecimal text of
/// seven bytes is encoded as these bytes.
pub proof fn law_raw_text_passes(reg: RegId, data: [u8; 7])
    ensures
        encoded(reg, raw(data)) == Ok::<[u8; 7], EncodeFault>(data),
{
    lemma_all_hex(data@);
    lemma_pair(data@, 0);
    lemma_pair(data@, 1);
    lemma_pair(data@, 2);
    lemma_pair(data@, 3);
    lemma_pair(data@, 4);
    lemma_pair(data@, 5);
    lemma_pair(data@, 6);
    match hex_payload(hex_text(data@)) {
        Ok(d) => {
            assert(d =~= data);
        },
        Err(_) => {},
    }
}

/// Fields that are in the order of a shape and fit it are a payload of it.
pub proof fn lemma_typed(shape: Shape, fields: Fields)
    requires
        fields.len() == shape.schema().len(),
        forall|i: int| 0 <= i < fields.len() ==> (#[trigger] fields[i]).0 == shape.schema()[i].0,
        forall|i: int|
            0 <= i < fields.len() ==> shape.schema()[i].1.accepts((#[trigger] fields[i]).1),
    ensures
        typed(shape, PayloadModel::Object(fields)) == Ok::<Fields, EncodeFault>(fields),
        forall|i: int|
            0 <= i < fields.len() ==> field(fields, (#[trigger] shape.schema()[i]).0) == Some(
                fields[i].1,
            ),
{
    lemma_own_fields(shape, fields);
    lemma_fault(shape.schema(), fields);
    assert(fits(shape.schema(), fields)) by {
        let schema = shape.schema();
        assert forall|i: int| 0 <= i < schema.len() implies (field(
            fields,
            (#[trigger] schema[i]).0,
        ) matches Some(value) && schema[i].1.accepts(value)) by {
            assert(schema[i].1.accepts(fields[i].1));
        }
    }
}

/// What is left of seven bytes of a register when their typed payload is encoded
/// again: the zone of a zone-bearing register is no part of the payload, bytes
/// without a meaning are zero, more than nine tenths are carried, and of the info
/// byte of register `12` only the pairing bit stays.
pub open spec fn settled(reg: RegId, data: [u8; 7]) -> [u8; 7] {
    match reg.0 {
        0x01 => ZoneConfig::of(data).bytes(),
        0x02 => UnitActivation::of(data).bytes(),
        0x03 => {
            let v = ZoneState::of(data);
            let m = (Number::Tenths { whole: v.meas_int, tenths: v.meas_dec }).measured();
            (ZoneState { zone: 0, meas_int: m.0, meas_dec: m.1, ..v }).bytes()
        },
        0x04 => (ZoneLimits { zone: 0, ..ZoneLimits::of(data) }).bytes(),
        0x05 => SystemStatus::of(data).bytes(),
        0x06 => FirmwareStatus::of(data).bytes(),
        0x08 => SystemError::of(data).bytes(),
        0x09 => ActivationCode::of(data).bytes(),
        0x0a => (UnitAnnouncement {  }).bytes(),
        0x12 => {
            let v = SensorPairingRead::of(data);
            (SensorPairingRead {
                info_byte: if v.info_byte & 0x40 != 0 {
                    0x40
                } else {
                    0
                },
                ..v
            }).bytes()
        },
        0x13 => (InfoByte { rest: [0u8, 0u8, 0u8, 0u8, 0u8, 0u8], ..InfoByte::of(data) }).bytes(),
        0x26 => RfDevicePairing::of(data).bytes(),
        0x27 => RfDeviceCalibration::of(data).bytes(),
        _ => data,
    }
}

/// Whether the error code of register `08` is five ASCII characters of which the
/// last is no padding.
pub open spec fn full_code(data: [u8; 7]) -> bool {
    let code = code_chars(SystemError::of(data).error_code);
    trim_code(code) == code && all_ascii(code)
}

proof fn lemma_zone_config(data: [u8; 7])
    ensures
        encoded(RegId(0x01), decoded(RegId(0x01), data)) == Ok::<[u8; 7], EncodeFault>(
            settled(RegId(0x01), data),
        ),
{
    let v = ZoneConfig::of(data);
    let dto = ZoneConfigDto {
        header: v.header,
        total_zones: v.num_zones,
        constant_zones: v.num_constant,
        constant_zone_ids: v.constant,
        filter_clean_required: v.filter_clean,
    };
    let f = dto.fields();
    lemma_triple_complaint(triple_numbers(v.constant));
    lemma_typed(Shape::ZoneConfig, f);
    let s = Shape::ZoneConfig.schema();
    assert(s[0].0 == "header"@ && s[1].0 == "total_zones"@ && s[2].0 == "constant_zones"@ && s[3].0
        == "constant_zone_ids"@ && s[4].0 == "filter_clean_required"@);
    assert(triple_in(f, "constant_zone_ids"@) =~= v.constant);
}

proof fn lemma_unit_activation(data: [u8; 7])
    requires
        decoded(RegId(0x02), data) is Object,
    ensures
        encoded(RegId(0x02), decoded(RegId(0x02), data)) == Ok::<[u8; 7], EncodeFault>(
            settled(RegId(0x02), data),
        ),
{
    let v = UnitActivation::of(data);
    match (UnitTypeEnum::of_wire(v.unit_type), ActivationStatus::of_wire(v.activation_status)) {
        (Some(unit_type), Some(activation_status)) => {
            law_words_of_unit_type_enum(unit_type);
            law_words_of_activation_status(activation_status);
            let dto = UnitActivationDto {
                unit_type,
                activation_status,
                dict_fw_major: v.dict_fw_major,
                dict_fw_minor: v.dict_fw_minor,
            };
            lemma_typed(Shape::UnitActivation, dto.fields());
            let s = Shape::UnitActivation.schema();
            assert(s[0].0 == "unit_type"@ && s[1].0 == "activation_status"@ && s[2].0
                == "dict_fw_major"@ && s[3].0 == "dict_fw_minor"@);
        },
        _ => {},
    }
}

proof fn lemma_zone_state(data: [u8; 7])
    requires
        decoded(RegId(0x03), data) is Object,
    ensures
        encoded(RegId(0x03), decoded(RegId(0x03), data)) == Ok::<[u8; 7], EncodeFault>(
            settled(RegId(0x03), data),
        ),
{
    let v = ZoneState::of(data);
    match SensorTypeEnum::of_wire(v.sensor) {
        Some(sensor_type) => {
            law_words_of_sensor_type_enum(sensor_type);
            let dto = ZoneStateDto {
                open: v.open,
                damper_pct: v.percent,
                sensor_type,
                target_temp_c: Number::Halves(v.set_temp_x2),
                measured_temp_c: (Number::Tenths { whole: v.meas_int, tenths: v.meas_dec }),
            };
            lemma_typed(Shape::ZoneState, dto.fields());
            let s = Shape::ZoneState.schema();
            assert(s[0].0 == "open"@ && s[1].0 == "damper_pct"@ && s[2].0 == "sensor_type"@
                && s[3].0 == "target_temp_c"@ && s[4].0 == "measured_temp_c"@);
        },
        None => {},
    }
}

proof fn lemma_zone_limits(data: [u8; 7])
    ensures
        encoded(RegId(0x04), decoded(RegId(0x04), data)) == Ok::<[u8; 7], EncodeFault>(
            settled(RegId(0x04), data),
        ),
{
    let v = ZoneLimits::of(data);
    let dto = ZoneLimitsDto {
        min_damper: v.min_damper,
        max_damper: v.max_damper,
        motion_status: v.motion_status,
        motion_config: v.motion_config,
        zone_error: v.zone_error,
        rssi: v.rssi,
    };
    lemma_typed(Shape::ZoneLimits, dto.fields());
    let s = Shape::ZoneLimits.schema();
    assert(s[0].0 == "min_damper"@ && s[1].0 == "max_damper"@ && s[2].0 == "motion_status"@
        && s[3].0 == "motion_config"@ && s[4].0 == "zone_error"@ && s[5].0 == "rssi"@);
}

/// The fields of a status hold the status.
proof fn lemma_status_fields(dto: SystemStatusDto)
    ensures
        typed(Shape::SystemStatus, PayloadModel::Object(dto.fields())) == Ok::<
            Fields,
            EncodeFault,
        >(dto.fields()),
        system_status_in(dto.fields()) == (SystemStatus {
            power: dto.power.wire(),
            mode: dto.mode.wire(),
            fan: dto.fan.wire(),
            set_temp_x2: dto.target_temp_c.half_degrees(),
            myzone_id: dto.myzone_id,
            fresh_air: dto.fresh_air.wire(),
            rf_sys_id: dto.rf_sys_id,
        }),
{
    law_words_of_power_enum(dto.power);
    law_words_of_mode_enum(dto.mode);
    law_words_of_fan_enum(dto.fan);
    law_words_of_fresh_air_enum(dto.fresh_air);
    lemma_typed(Shape::SystemStatus, dto.fields());
    let s = Shape::SystemStatus.schema();
    assert(s[0].0 == "power"@ && s[1].0 == "mode"@ && s[2].0 == "fan"@ && s[3].0
        == "target_temp_c"@ && s[4].0 == "myzone_id"@ && s[5].0 == "fresh_air"@ && s[6].0
        == "rf_sys_id"@);
}

proof fn lemma_system_status(data: [u8; 7])
    requires
        decoded(RegId(0x05), data) is Object,
    ensures
        encoded(RegId(0x05), decoded(RegId(0x05), data)) == Ok::<[u8; 7], EncodeFault>(
            settled(RegId(0x05), data),
        ),
{
    let v = SystemStatus::of(data);
    match (
        PowerEnum::of_wire(v.power),
        ModeEnum::of_wire(v.mode),
        FanEnum::of_wire(v.fan),
        FreshAirEnum::of_wire(v.fresh_air),
    ) {
        (Some(power), Some(mode), Some(fan), Some(fresh_air)) => {
            lemma_status_fields(
                SystemStatusDto {
                    power,
                    mode,
                    fan,
                    target_temp_c: Number::Halves(v.set_temp_x2),
                    myzone_id: v.myzone_id,
                    fresh_air,
                    rf_sys_id: v.rf_sys_id,
                },
            );
        },
        _ => {},
    }
}

proof fn lemma_firmware(data: [u8; 7])
    ensures
        encoded(RegId(0x06), decoded(RegId(0x06), data)) == Ok::<[u8; 7], EncodeFault>(
            settled(RegId(0x06), data),
        ),
{
    let v = FirmwareStatus::of(data);
    let dto = FirmwareDto {
        fw_major: v.fw_major,
        fw_minor: v.fw_minor,
        cb_type: v.cb_type,
        rf_fw_major: v.rf_fw_major,
    };
    lemma_typed(Shape::Firmware, dto.fields());
    let s = Shape::Firmware.schema();
    assert(s[0].0 == "fw_major"@ && s[1].0 == "fw_minor"@ && s[2].0 == "cb_type"@ && s[3].0
        == "rf_fw_major"@);
}

proof fn lemma_system_error(data: [u8; 7])
    requires
        full_code(data),
    ensures
        encoded(RegId(0x08), decoded(RegId(0x08), data)) == Ok::<[u8; 7], EncodeFault>(
            settled(RegId(0x08), data),
        ),
{
    let v = SystemError::of(data);
    let code = code_chars(v.error_code);
    let f: Fields = seq![("error_code"@, FieldModel::Text(code))];
    lemma_typed(Shape::SystemError, f);
    let s = Shape::SystemError.schema();
    assert(s[0].0 == "error_code"@);
    match error_bytes(code) {
        Ok(d) => {
            assert(d =~= v.bytes());
        },
        Err(_) => {},
    }
}

/// The unlock code of two bytes reads back.
proof fn lemma_unlock_code(bytes: [u8; 2])
    ensures
        unlock_bytes(hex_text(bytes@)) == Ok::<[u8; 2], EncodeFault>(bytes),
{
    let code = hex_text(bytes@);
    lemma_all_hex(bytes@);
    lemma_pair(bytes@, 0);
    lemma_pair(bytes@, 1);
    assert forall|i: int| 0 <= i < code.len() implies #[trigger] code[i] <= '\u{7f}' by {
        assert(hex_value(code[i]) is Some);
    }
    assert forall|i: int| 0 <= i < 2 implies hex_value(#[trigger] code.take(2)[i]) is Some by {
        assert(code.take(2)[i] == code[i]);
    }
    assert forall|i: int| 0 <= i < 2 implies hex_value(#[trigger] code.skip(2)[i]) is Some by {
        assert(code.skip(2)[i] == code[i + 2]);
    }
    match unlock_bytes(code) {
        Ok(b) => {
            assert(b =~= bytes);
        },
        Err(_) => {},
    }
}

/// The fields of an activation code hold the activation code.
proof fn lemma_activation_fields(action: ActionEnum, code: [u8; 2], days: u8, f: Fields)
    requires
        f == seq![
            ("action"@, FieldModel::Text(action.word())),
            ("unlock_code"@, FieldModel::Text(hex_text(code@))),
            ("activation_days"@, FieldModel::Number(Number::Integer(days as u64))),
        ],
    ensures
        typed(Shape::ActivationCode, PayloadModel::Object(f)) == Ok::<Fields, EncodeFault>(f),
        activation_code_bytes(f) == Ok::<[u8; 7], EncodeFault>(
            (ActivationCode {
                action: action.wire(),
                unlock_code: code,
                activation_days: days,
            }).bytes(),
        ),
{
    law_words_of_action_enum(action);
    lemma_unlock_code(code);
    lemma_typed(Shape::ActivationCode, f);
    let s = Shape::ActivationCode.schema();
    assert(s[0].0 == "action"@ && s[1].0 == "unlock_code"@ && s[2].0 == "activation_days"@);
}

proof fn lemma_activation_code(data: [u8; 7])
    requires
        decoded(RegId(0x09), data) is Object,
    ensures
        encoded(RegId(0x09), decoded(RegId(0x09), data)) == Ok::<[u8; 7], EncodeFault>(
            settled(RegId(0x09), data),
        ),
{
    let v = ActivationCode::of(data);
    match (ActionEnum::of_wire(v.action), decoded(RegId(0x09), data)) {
        (Some(action), PayloadModel::Object(f)) => {
            lemma_activation_fields(action, v.unlock_code, v.activation_days, f);
        },
        _ => {},
    }
}

/// The hexadecimal text of a sensor uid stands for its bytes.
proof fn lemma_uid(uid: [u8; 3])
    ensures
        uid_bytes(hex_text(uid@)) == Ok::<[u8; 3], EncodeFault>(uid),
{
    lemma_all_hex(uid@);
    lemma_pair(uid@, 0);
    lemma_pair(uid@, 1);
    lemma_pair(uid@, 2);
    match uid_bytes(hex_text(uid@)) {
        Ok(b) => {
            assert(b =~= uid);
        },
        Err(_) => {},
    }
}

proof fn lemma_sensor_pairing(data: [u8; 7])
    ensures
        encoded(RegId(0x12), decoded(RegId(0x12), data)) == Ok::<[u8; 7], EncodeFault>(
            settled(RegId(0x12), data),
        ),
{
    let v = SensorPairingRead::of(data);
    let uid = hex_text(v.sensor_uid@);
    let f: Fields = seq![
        ("sensor_uid"@, FieldModel::Text(uid)),
        ("pairing"@, FieldModel::Bool(v.info_byte & 0x40 != 0)),
        ("sensor_rev"@, FieldModel::Number(Number::Integer(v.sensor_rev as u64))),
    ];
    assert(uid_bytes(uid) == Ok::<[u8; 3], EncodeFault>(v.sensor_uid)) by {
        lemma_uid(v.sensor_uid);
    }
    lemma_typed(Shape::SensorPairing, f);
    let s = Shape::SensorPairing.schema();
    assert(s[0].0 == "sensor_uid"@ && s[1].0 == "pairing"@ && s[2].0 == "sensor_rev"@);
    assert(decoded(RegId(0x12), data) == PayloadModel::Object(f));
    assert(sensor_pairing_bytes(PayloadModel::Object(f)) == pairing_read_bytes(f));
}

proof fn lemma_unit_announcement(data: [u8; 7])
    ensures
        encoded(RegId(0x0a), decoded(RegId(0x0a), data)) == Ok::<[u8; 7], EncodeFault>(
            settled(RegId(0x0a), data),
        ),
{
    let none: Fields = seq![];
    lemma_typed(Shape::UnitAnnouncement, none);
}

proof fn lemma_info_byte(data: [u8; 7])
    ensures
        encoded(RegId(0x13), decoded(RegId(0x13), data)) == Ok::<[u8; 7], EncodeFault>(
            settled(RegId(0x13), data),
        ),
{
    let dto = InfoByteDto { info_byte: InfoByte::of(data).info_byte };
    lemma_typed(Shape::InfoByte, dto.fields());
    let s = Shape::InfoByte.schema();
    assert(s[0].0 == "info_byte"@);
}

proof fn lemma_rf_device_pairing(data: [u8; 7])
    ensures
        encoded(RegId(0x26), decoded(RegId(0x26), data)) == Ok::<[u8; 7], EncodeFault>(
            settled(RegId(0x26), data),
        ),
{
    let v = RfDevicePairing::of(data);
    let dto = RfDevicePairingDto {
        pairing_control: v.pairing_control,
        rf_device_type: v.rf_device_type,
        zone_channel: v.zone_channel,
    };
    lemma_typed(Shape::RfDevicePairing, dto.fields());
    let s = Shape::RfDevicePairing.schema();
    assert(s[0].0 == "pairing_control"@ && s[1].0 == "rf_device_type"@ && s[2].0
        == "zone_channel"@);
}

proof fn lemma_rf_device_calibration(data: [u8; 7])
    ensures
        encoded(RegId(0x27), decoded(RegId(0x27), data)) == Ok::<[u8; 7], EncodeFault>(
            settled(RegId(0x27), data),
        ),
{
    let v = RfDeviceCalibration::of(data);
    let dto = RfDeviceCalibrationDto {
        calibration_control: v.calibration_control,
        channel: v.channel,
        up_down_position: v.up_down_position,
    };
    lemma_typed(Shape::RfDeviceCalibration, dto.fields());
    let s = Shape::RfDeviceCalibration.schema();
    assert(s[0].0 == "calibration_control"@ && s[1].0 == "channel"@ && s[2].0
        == "up_down_position"@);
}

/// What was decoded is encoded again: of every register, the payload of seven
/// bytes is encoded as these bytes, up to what [`settled`] says of typed payloads.
/// Error codes shorter than five ASCII characters cannot be written back.
pub proof fn law_decoded_is_encoded(reg: RegId, data: [u8; 7])
    requires
        reg.0 == 0x08 ==> full_code(data),
    ensures
        encoded(reg, decoded(reg, data)) == Ok::<[u8; 7], EncodeFault>(
            if decoded(reg, data) is Object {
                settled(reg, data)
            } else {
                data
            },
        ),
{
    law_raw_text_passes(reg, data);
    match reg.0 {
        0x01 => lemma_zone_config(data),
        0x02 => if decoded(reg, data) is Object {
            lemma_unit_activation(data);
        },
        0x03 => if decoded(reg, data) is Object {
            lemma_zone_state(data);
        },
        0x04 => lemma_zone_limits(data),
        0x05 => if decoded(reg, data) is Object {
            lemma_system_status(data);
        },
        0x06 => lemma_firmware(data),
        0x08 => lemma_system_error(data),
        0x09 => if decoded(reg, data) is Object {
            lemma_activation_code(data);
        },
        0x12 => lemma_sensor_pairing(data),
        0x0a => lemma_unit_announcement(data),
        0x13 => lemma_info_byte(data),
        0x26 => lemma_rf_device_pairing(data),
        0x27 => lemma_rf_device_calibration(data),
        _ => {},
    }
}

/// No name stands twice.
pub open spec fn names_once(fields: Fields) -> bool {
    forall|i: int, j: int|
        0 <= i < j < fields.len() ==> (#[trigger] fields[i]).0 != (#[trigger] fields[j]).0
}

/// The client's fields win over those of the mailbox, and all other fields of the
/// mailbox are kept.
pub proof fn law_client_fields_win(base: Fields, over: Fields, name: Seq<char>)
    requires
        names_once(over),
    ensures
        merged(PayloadModel::Object(base), PayloadModel::Object(over)) == PayloadModel::Object(
            overlaid(base, over),
        ),
        field(overlaid(base, over), name) == match field(over, name) {
            Some(value) => Some(value),
            None => field(base, name),
        },
    decreases over.len(),
{
    if over.len() > 0 {
        let init = over.drop_last();
        let last = over.last();
        assert forall|i: int, j: int| 0 <= i < j < init.len() implies (#[trigger] init[i]).0 != (
        #[trigger] init[j]).0 by {
            assert(init[i] == over[i] && init[j] == over[j]);
        }
        law_client_fields_win(base, init, name);
        lemma_with_field(overlaid(base, init), last.0, last.1, name);
        lemma_position(init, name);
        lemma_position(over, name);
        if last.0 == name {
            match position(over, name) {
                Some(i) => {
                    if i < over.len() - 1 {
                        assert(over[i].0 != over[over.len() - 1].0);
                    }
                },
                None => {
                    assert(over[over.len() - 1].0 != name);
                },
            }
        } else {
            match (position(init, name), position(over, name)) {
                (Some(i), Some(j)) => {
                    assert(init[i] == over[i]);
                    if i < j {
                        assert(over[i].0 != name);
                    }
                    if j < i {
                        assert(init[j] == over[j]);
                    }
                },
                (Some(i), None) => {
                    assert(init[i] == over[i]);
                },
                (None, Some(j)) => {
                    if j < init.len() {
                        assert(init[j] == over[j]);
                    }
                },
                (None, None) => {},
            }
        }
    }
}

proof fn lemma_first_named(fields: Fields, list: Seq<Seq<char>>, n: int)
    requires
        first_named(fields, list, true, n) is None,
        0 <= n <= fields.len(),
    ensures
        forall|i: int| 0 <= i < n ==> !list.contains((#[trigger] fields[i]).0),
    decreases n,
{
    if n > 0 {
        lemma_first_named(fields, list, n - 1);
    }
}

/// A permitted write goes to a register that may be written, carries no
/// read-only field of the client, and what it writes is within the bounds,
/// unless the client sent raw text.
pub proof fn law_permitted_writes(
    reg: RegId,
    client: PayloadModel,
    written: PayloadModel,
    strict: bool,
)
    requires
        write_fault(reg, client, written, strict) is None,
    ensures
        mode_of(reg) is ReadWrite || mode_of(reg) is WriteOnly,
        client matches PayloadModel::Object(fields) ==> forall|i: int|
            0 <= i < fields.len() ==> !read_only_of(reg).contains((#[trigger] fields[i]).0),
        !(client is Text) ==> (encoded(reg, written) matches Ok(data) ==> broken_bound(
            bounds(reg.0),
            data,
            0,
        ) is None),
{
    match client {
        PayloadModel::Object(fields) => {
            lemma_first_named(fields, read_only_of(reg), fields.len() as int);
        },
        _ => {},
    }
}

} // verus!
