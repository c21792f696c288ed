//! What the payloads of registers hold, byte by byte.
use crate::mailbox::codec::{all_ascii, all_hex, trim_code, typed, uid_bytes};
use crate::mailbox::convert::{
    bounds, broken_bound, decoded, encoded, field_names, first_named, merged, write_fault, Bound,
};
use crate::mailbox::error::{EncodeFault, WriteFault};
use crate::mailbox::kind::{lemma_triple_complaint, Kind};
use crate::mailbox::policy::{mode_of, read_only_of, writable_of};
use crate::mailbox::schema::{
    fits, law_list_stands_for_object, lemma_fault, list_fault, Shape,
};
use crate::mailbox::value::{
    byte_in, field, flag_in, lemma_position, lemma_position_is, number_in, text_in, triple_in,
    word_in, FieldModel, Fields, NestedModel, Number, PayloadModel,
};
use crate::registers::ids::RegId;
use crate::text::{hex_byte, hex_text, hex_value, quoted};
use vstd::prelude::*;

verus! {

/// What clients see of register `01`, zone configuration: every field is its own bytes.
pub proof fn law_decoded_01(data: [u8; 7])
    ensures
        decoded(RegId(0x01), data) == PayloadModel::Object(
            seq![
                ("header"@, FieldModel::Number(Number::Integer(data[0] as u64))),
                ("total_zones"@, FieldModel::Number(Number::Integer(data[1] as u64))),
                ("constant_zones"@, FieldModel::Number(Number::Integer(data[2] as u64))),
                (
                    "constant_zone_ids"@,
                    FieldModel::List(
                        seq![
                            NestedModel::Number(Number::Integer(data[3] as u64)),
                            NestedModel::Number(Number::Integer(data[4] as u64)),
                            NestedModel::Number(Number::Integer(data[5] as u64)),
                        ],
                    ),
                ),
                ("filter_clean_required"@, FieldModel::Bool(data[6] != 0)),
            ],
        ),
{
}

/// What clients see of register `02`, the activation of a unit: every field is its own
/// bytes, and bytes that no word stands for are shown as they are.
pub proof fn law_decoded_02(data: [u8; 7])
    ensures
        decoded(RegId(0x02), data) == if (data[0] == 0x11 || data[0] == 0x12 || data[0] == 0x13
            || data[0] == 0x19) && (data[1] == 0x00 || data[1] == 0x01 || data[1] == 0x02) {
            PayloadModel::Object(
                seq![
                    (
                        "unit_type"@,
                        FieldModel::Text(
                            if data[0] == 0x11 {
                                "daikin"@
                            } else if data[0] == 0x12 {
                                "panasonic"@
                            } else if data[0] == 0x13 {
                                "fujitsu"@
                            } else {
                                "samsung_dvm"@
                            },
                        ),
                    ),
                    (
                        "activation_status"@,
                        FieldModel::Text(
                            if data[1] == 0x00 {
                                "no_code"@
                            } else if data[1] == 0x01 {
                                "code_enabled"@
                            } else {
                                "expired"@
                            },
                        ),
                    ),
                    ("dict_fw_major"@, FieldModel::Number(Number::Integer(data[2] as u64))),
                    ("dict_fw_minor"@, FieldModel::Number(Number::Integer(data[3] as u64))),
                ],
            )
        } else {
            PayloadModel::Text(hex_text(data@))
        },
{
}

/// What clients see of register `03`, the state of a zone: every field is its own
/// bytes, and bytes that no word stands for are shown as they are.
pub proof fn law_decoded_03(data: [u8; 7])
    ensures
        decoded(RegId(0x03), data) == if (data[2] == 0x00 || data[2] == 0x01 || data[2] == 0x02
            || data[2] == 0x03 || data[2] == 0x04) {
            PayloadModel::Object(
                seq![
                    ("open"@, FieldModel::Bool(data[1] >= 0x80)),
                    ("damper_pct"@, FieldModel::Number(Number::Integer((data[1] % 0x80) as u64))),
                    (
                        "sensor_type"@,
                        FieldModel::Text(
                            if data[2] == 0x00 {
                                "no_sensor"@
                            } else if data[2] == 0x01 {
                                "rf"@
                            } else if data[2] == 0x02 {
                                "wired"@
                            } else if data[2] == 0x03 {
                                "rf2can_booster"@
                            } else {
                                "rf_x"@
                            },
                        ),
                    ),
                    ("target_temp_c"@, FieldModel::Number(Number::Halves(data[3]))),
                    (
                        "measured_temp_c"@,
                        FieldModel::Number(Number::Tenths { whole: data[4], tenths: data[5] }),
                    ),
                ],
            )
        } else {
            PayloadModel::Text(hex_text(data@))
        },
{
}

/// What clients see of register `04`, the limits of a zone: every field is its own
/// bytes.
pub proof fn law_decoded_04(data: [u8; 7])
    ensures
        decoded(RegId(0x04), data) == PayloadModel::Object(
            seq![
                ("min_damper"@, FieldModel::Number(Number::Integer(data[1] as u64))),
                ("max_damper"@, FieldModel::Number(Number::Integer(data[2] as u64))),
                ("motion_status"@, FieldModel::Number(Number::Integer(data[3] as u64))),
                ("motion_config"@, FieldModel::Number(Number::Integer(data[4] as u64))),
                ("zone_error"@, FieldModel::Number(Number::Integer(data[5] as u64))),
                ("rssi"@, FieldModel::Number(Number::Integer(data[6] as u64))),
            ],
        ),
{
}

/// What clients see of register `05`, the status of the system: every field is its own
/// bytes, and bytes that no word stands for are shown as they are.
pub proof fn law_decoded_05(data: [u8; 7])
    ensures
        decoded(RegId(0x05), data) == if (data[0] == 0x01 || data[0] == 0x00) && (data[1] == 0x01
            || data[1] == 0x02 || data[1] == 0x03 || data[1] == 0x04 || data[1] == 0x05
            || data[1] == 0x06) && (data[2] == 0x00 || data[2] == 0x01 || data[2] == 0x02
            || data[2] == 0x03 || data[2] == 0x04 || data[2] == 0x05) && (data[5] == 0x00
            || data[5] == 0x01 || data[5] == 0x02) {
            PayloadModel::Object(
                seq![
                    (
                        "power"@,
                        FieldModel::Text(
                            if data[0] == 0x01 {
                                "on"@
                            } else {
                                "off"@
                            },
                        ),
                    ),
                    (
                        "mode"@,
                        FieldModel::Text(
                            if data[1] == 0x01 {
                                "cool"@
                            } else if data[1] == 0x02 {
                                "heat"@
                            } else if data[1] == 0x03 {
                                "vent"@
                            } else if data[1] == 0x04 {
                                "auto"@
                            } else if data[1] == 0x05 {
                                "dry"@
                            } else {
                                "myauto"@
                            },
                        ),
                    ),
                    (
                        "fan"@,
                        FieldModel::Text(
                            if data[2] == 0x00 {
                                "off"@
                            } else if data[2] == 0x01 {
                                "low"@
                            } else if data[2] == 0x02 {
                                "medium"@
                            } else if data[2] == 0x03 {
                                "high"@
                            } else if data[2] == 0x04 {
                                "auto"@
                            } else {
                                "auto_aa"@
                            },
                        ),
                    ),
                    ("target_temp_c"@, FieldModel::Number(Number::Halves(data[3]))),
                    ("myzone_id"@, FieldModel::Number(Number::Integer(data[4] as u64))),
                    (
                        "fresh_air"@,
                        FieldModel::Text(
                            if data[5] == 0x00 {
                                "none"@
                            } else if data[5] == 0x01 {
                                "off"@
                            } else {
                                "on"@
                            },
                        ),
                    ),
                    ("rf_sys_id"@, FieldModel::Number(Number::Integer(data[6] as u64))),
                ],
            )
        } else {
            PayloadModel::Text(hex_text(data@))
        },
{
}

/// What clients see of register `06`, the firmware: every field is its own bytes.
pub proof fn law_decoded_06(data: [u8; 7])
    ensures
        decoded(RegId(0x06), data) == PayloadModel::Object(
            seq![
                ("fw_major"@, FieldModel::Number(Number::Integer(data[0] as u64))),
                ("fw_minor"@, FieldModel::Number(Number::Integer(data[1] as u64))),
                ("cb_type"@, FieldModel::Number(Number::Integer(data[2] as u64))),
                ("rf_fw_major"@, FieldModel::Number(Number::Integer(data[3] as u64))),
            ],
        ),
{
}

/// What clients see of register `09`, an activation code: every field is its own bytes,
/// and bytes that no word stands for are shown as they are.
pub proof fn law_decoded_09(data: [u8; 7])
    ensures
        decoded(RegId(0x09), data) == if (data[0] == 0x01 || data[0] == 0x02) {
            PayloadModel::Object(
                seq![
                    (
                        "action"@,
                        FieldModel::Text(
                            if data[0] == 0x01 {
                                "set_code"@
                            } else {
                                "unlock"@
                            },
                        ),
                    ),
                    ("unlock_code"@, FieldModel::Text(hex_text(seq![data[1], data[2]]))),
                    ("activation_days"@, FieldModel::Number(Number::Integer(data[3] as u64))),
                ],
            )
        } else {
            PayloadModel::Text(hex_text(data@))
        },
{
    let d = crate::registers::payloads::ActivationCode::of(data);
    assert(d.unlock_code@ =~= seq![data[1], data[2]]);
}

/// What clients see of register `0a`, an announcement: every field is its own bytes.
pub proof fn law_decoded_0a(data: [u8; 7])
    ensures
        decoded(RegId(0x0a), data) == PayloadModel::Object(seq![]),
{
}

/// What clients see of register `12`, the pairing of a sensor: every field is its own
/// bytes.
pub proof fn law_decoded_12(data: [u8; 7])
    ensures
        decoded(RegId(0x12), data) == PayloadModel::Object(
            seq![
                ("sensor_uid"@, FieldModel::Text(hex_text(seq![data[0], data[1], data[2]]))),
                ("pairing"@, FieldModel::Bool(data[3] & 0x40 != 0)),
                ("sensor_rev"@, FieldModel::Number(Number::Integer(data[4] as u64))),
            ],
        ),
{
    let d = crate::registers::payloads::SensorPairingRead::of(data);
    assert(d.sensor_uid@ =~= seq![data[0], data[1], data[2]]);
}

/// What clients see of register `13`, the info byte: every field is its own bytes.
pub proof fn law_decoded_13(data: [u8; 7])
    ensures
        decoded(RegId(0x13), data) == PayloadModel::Object(
            seq![("info_byte"@, FieldModel::Number(Number::Integer(data[0] as u64)))],
        ),
{
}

/// What clients see of register `26`, the pairing of a radio device: every field is its
/// own bytes.
pub proof fn law_decoded_26(data: [u8; 7])
    ensures
        decoded(RegId(0x26), data) == PayloadModel::Object(
            seq![
                ("pairing_control"@, FieldModel::Number(Number::Integer(data[0] as u64))),
                ("rf_device_type"@, FieldModel::Number(Number::Integer(data[1] as u64))),
                ("zone_channel"@, FieldModel::Number(Number::Integer(data[2] as u64))),
            ],
        ),
{
}

/// What clients see of register `27`, the calibration of a radio device: every field is
/// its own bytes.
pub proof fn law_decoded_27(data: [u8; 7])
    ensures
        decoded(RegId(0x27), data) == PayloadModel::Object(
            seq![
                ("calibration_control"@, FieldModel::Number(Number::Integer(data[0] as u64))),
                ("channel"@, FieldModel::Number(Number::Integer(data[1] as u64))),
                ("up_down_position"@, FieldModel::Number(Number::Integer(data[2] as u64))),
            ],
        ),
{
}

/// The bytes that a payload of register `01` is sent as, each from its own field.
pub proof fn law_encoded_01(payload: PayloadModel, f: Fields)
    requires
        !(payload is Text),
        typed(Shape::ZoneConfig, payload) == Ok::<Fields, EncodeFault>(f),
    ensures
        encoded(RegId(0x01), payload) is Ok,
        encoded(RegId(0x01), payload)->Ok_0[0] == byte_in(f, "header"@),
        encoded(RegId(0x01), payload)->Ok_0[1] == byte_in(f, "total_zones"@),
        encoded(RegId(0x01), payload)->Ok_0[2] == byte_in(f, "constant_zones"@),
        encoded(RegId(0x01), payload)->Ok_0[3] == triple_in(f, "constant_zone_ids"@)[0],
        encoded(RegId(0x01), payload)->Ok_0[4] == triple_in(f, "constant_zone_ids"@)[1],
        encoded(RegId(0x01), payload)->Ok_0[5] == triple_in(f, "constant_zone_ids"@)[2],
        encoded(RegId(0x01), payload)->Ok_0[6] == (
            if flag_in(f, "filter_clean_required"@) {
                1u8
            } else {
                0u8
            }
        ),
{
}

/// The bytes that a payload of register `02` is sent as, each from its own field.
pub proof fn law_encoded_02(payload: PayloadModel, f: Fields)
    requires
        !(payload is Text),
        typed(Shape::UnitActivation, payload) == Ok::<Fields, EncodeFault>(f),
    ensures
        encoded(RegId(0x02), payload) is Ok,
        encoded(RegId(0x02), payload)->Ok_0[0] == (
            if word_in(f, "unit_type"@) == "daikin"@ {
                0x11u8
            } else if word_in(f, "unit_type"@) == "panasonic"@ {
                0x12u8
            } else if word_in(f, "unit_type"@) == "fujitsu"@ {
                0x13u8
            } else if word_in(f, "unit_type"@) == "samsung_dvm"@ {
                0x19u8
            } else {
                0x11u8
            }
        ),
        encoded(RegId(0x02), payload)->Ok_0[1] == (
            if word_in(f, "activation_status"@) == "no_code"@ {
                0x00u8
            } else if word_in(f, "activation_status"@) == "code_enabled"@ {
                0x01u8
            } else if word_in(f, "activation_status"@) == "expired"@ {
                0x02u8
            } else {
                0x00u8
            }
        ),
        encoded(RegId(0x02), payload)->Ok_0[2] == byte_in(f, "dict_fw_major"@),
        encoded(RegId(0x02), payload)->Ok_0[3] == byte_in(f, "dict_fw_minor"@),
        encoded(RegId(0x02), payload)->Ok_0[4] == 0,
        encoded(RegId(0x02), payload)->Ok_0[5] == 0,
        encoded(RegId(0x02), payload)->Ok_0[6] == 0,
{
}

/// The bytes that a payload of register `03` is sent as, each from its own field.
pub proof fn law_encoded_03(payload: PayloadModel, f: Fields)
    requires
        !(payload is Text),
        typed(Shape::ZoneState, payload) == Ok::<Fields, EncodeFault>(f),
    ensures
        encoded(RegId(0x03), payload) is Ok,
        encoded(RegId(0x03), payload)->Ok_0[0] == 0,
        encoded(RegId(0x03), payload)->Ok_0[1] == (
            if flag_in(f, "open"@) {
                (0x80 + byte_in(f, "damper_pct"@) % 0x80) as u8
            } else {
                byte_in(f, "damper_pct"@) % 0x80
            }
        ),
        encoded(RegId(0x03), payload)->Ok_0[2] == (
            if word_in(f, "sensor_type"@) == "no_sensor"@ {
                0x00u8
            } else if word_in(f, "sensor_type"@) == "rf"@ {
                0x01u8
            } else if word_in(f, "sensor_type"@) == "wired"@ {
                0x02u8
            } else if word_in(f, "sensor_type"@) == "rf2can_booster"@ {
                0x03u8
            } else if word_in(f, "sensor_type"@) == "rf_x"@ {
                0x04u8
            } else {
                0x00u8
            }
        ),
        encoded(RegId(0x03), payload)->Ok_0[3] == number_in(f, "target_temp_c"@).half_degrees(),
        encoded(RegId(0x03), payload)->Ok_0[4] == number_in(f, "measured_temp_c"@).measured().0,
        encoded(RegId(0x03), payload)->Ok_0[5] == number_in(f, "measured_temp_c"@).measured().1,
        encoded(RegId(0x03), payload)->Ok_0[6] == 0,
{
}

/// The bytes that a payload of register `04` is sent as, each from its own field.
pub proof fn law_encoded_04(payload: PayloadModel, f: Fields)
    requires
        !(payload is Text),
        typed(Shape::ZoneLimits, payload) == Ok::<Fields, EncodeFault>(f),
    ensures
        encoded(RegId(0x04), payload) is Ok,
        encoded(RegId(0x04), payload)->Ok_0[0] == 0,
        encoded(RegId(0x04), payload)->Ok_0[1] == byte_in(f, "min_damper"@),
        encoded(RegId(0x04), payload)->Ok_0[2] == byte_in(f, "max_damper"@),
        encoded(RegId(0x04), payload)->Ok_0[3] == byte_in(f, "motion_status"@),
        encoded(RegId(0x04), payload)->Ok_0[4] == byte_in(f, "motion_config"@),
        encoded(RegId(0x04), payload)->Ok_0[5] == byte_in(f, "zone_error"@),
        encoded(RegId(0x04), payload)->Ok_0[6] == byte_in(f, "rssi"@),
{
}

/// The bytes that a payload of register `05` is sent as, each from its own field.
pub proof fn law_encoded_05(payload: PayloadModel, f: Fields)
    requires
        !(payload is Text),
        typed(Shape::SystemStatus, payload) == Ok::<Fields, EncodeFault>(f),
    ensures
        encoded(RegId(0x05), payload) is Ok,
        encoded(RegId(0x05), payload)->Ok_0[0] == (
            if word_in(f, "power"@) == "on"@ {
                0x01u8
            } else if word_in(f, "power"@) == "off"@ {
                0x00u8
            } else {
                0x01u8
            }
        ),
        encoded(RegId(0x05), payload)->Ok_0[1] == (
            if word_in(f, "mode"@) == "cool"@ {
                0x01u8
            } else if word_in(f, "mode"@) == "heat"@ {
                0x02u8
            } else if word_in(f, "mode"@) == "vent"@ {
                0x03u8
            } else if word_in(f, "mode"@) == "auto"@ {
                0x04u8
            } else if word_in(f, "mode"@) == "dry"@ {
                0x05u8
            } else if word_in(f, "mode"@) == "myauto"@ {
                0x06u8
            } else {
                0x01u8
            }
        ),
        encoded(RegId(0x05), payload)->Ok_0[2] == (
            if word_in(f, "fan"@) == "off"@ {
                0x00u8
            } else if word_in(f, "fan"@) == "low"@ {
                0x01u8
            } else if word_in(f, "fan"@) == "medium"@ {
                0x02u8
            } else if word_in(f, "fan"@) == "high"@ {
                0x03u8
            } else if word_in(f, "fan"@) == "auto"@ {
                0x04u8
            } else if word_in(f, "fan"@) == "auto_aa"@ {
                0x05u8
            } else {
                0x00u8
            }
        ),
        encoded(RegId(0x05), payload)->Ok_0[3] == number_in(f, "target_temp_c"@).half_degrees(),
        encoded(RegId(0x05), payload)->Ok_0[4] == byte_in(f, "myzone_id"@),
        encoded(RegId(0x05), payload)->Ok_0[5] == (
            if word_in(f, "fresh_air"@) == "none"@ {
                0x00u8
            } else if word_in(f, "fresh_air"@) == "off"@ {
                0x01u8
            } else if word_in(f, "fresh_air"@) == "on"@ {
                0x02u8
            } else {
                0x00u8
            }
        ),
        encoded(RegId(0x05), payload)->Ok_0[6] == byte_in(f, "rf_sys_id"@),
{
}

/// The bytes that a payload of register `06` is sent as, each from its own field.
pub proof fn law_encoded_06(payload: PayloadModel, f: Fields)
    requires
        !(payload is Text),
        typed(Shape::Firmware, payload) == Ok::<Fields, EncodeFault>(f),
    ensures
        encoded(RegId(0x06), payload) is Ok,
        encoded(RegId(0x06), payload)->Ok_0[0] == byte_in(f, "fw_major"@),
        encoded(RegId(0x06), payload)->Ok_0[1] == byte_in(f, "fw_minor"@),
        encoded(RegId(0x06), payload)->Ok_0[2] == byte_in(f, "cb_type"@),
        encoded(RegId(0x06), payload)->Ok_0[3] == byte_in(f, "rf_fw_major"@),
        encoded(RegId(0x06), payload)->Ok_0[4] == 0,
        encoded(RegId(0x06), payload)->Ok_0[5] == 0,
        encoded(RegId(0x06), payload)->Ok_0[6] == 0,
{
}

/// The bytes that a payload of register `13` is sent as, each from its own field.
pub proof fn law_encoded_13(payload: PayloadModel, f: Fields)
    requires
        !(payload is Text),
        typed(Shape::InfoByte, payload) == Ok::<Fields, EncodeFault>(f),
    ensures
        encoded(RegId(0x13), payload) is Ok,
        encoded(RegId(0x13), payload)->Ok_0[0] == byte_in(f, "info_byte"@),
        encoded(RegId(0x13), payload)->Ok_0[1] == 0,
        encoded(RegId(0x13), payload)->Ok_0[2] == 0,
        encoded(RegId(0x13), payload)->Ok_0[3] == 0,
        encoded(RegId(0x13), payload)->Ok_0[4] == 0,
        encoded(RegId(0x13), payload)->Ok_0[5] == 0,
        encoded(RegId(0x13), payload)->Ok_0[6] == 0,
{
}

/// The bytes that a payload of register `26` is sent as, each from its own field.
pub proof fn law_encoded_26(payload: PayloadModel, f: Fields)
    requires
        !(payload is Text),
        typed(Shape::RfDevicePairing, payload) == Ok::<Fields, EncodeFault>(f),
    ensures
        encoded(RegId(0x26), payload) is Ok,
        encoded(RegId(0x26), payload)->Ok_0[0] == byte_in(f, "pairing_control"@),
        encoded(RegId(0x26), payload)->Ok_0[1] == byte_in(f, "rf_device_type"@),
        encoded(RegId(0x26), payload)->Ok_0[2] == byte_in(f, "zone_channel"@),
        encoded(RegId(0x26), payload)->Ok_0[3] == 0,
        encoded(RegId(0x26), payload)->Ok_0[4] == 0,
        encoded(RegId(0x26), payload)->Ok_0[5] == 0,
        encoded(RegId(0x26), payload)->Ok_0[6] == 0,
{
}

/// The bytes that a payload of register `27` is sent as, each from its own field.
pub proof fn law_encoded_27(payload: PayloadModel, f: Fields)
    requires
        !(payload is Text),
        typed(Shape::RfDeviceCalibration, payload) == Ok::<Fields, EncodeFault>(f),
    ensures
        encoded(RegId(0x27), payload) is Ok,
        encoded(RegId(0x27), payload)->Ok_0[0] == byte_in(f, "calibration_control"@),
        encoded(RegId(0x27), payload)->Ok_0[1] == byte_in(f, "channel"@),
        encoded(RegId(0x27), payload)->Ok_0[2] == byte_in(f, "up_down_position"@),
        encoded(RegId(0x27), payload)->Ok_0[3] == 0,
        encoded(RegId(0x27), payload)->Ok_0[4] == 0,
        encoded(RegId(0x27), payload)->Ok_0[5] == 0,
        encoded(RegId(0x27), payload)->Ok_0[6] == 0,
{
}

/// The bytes that a payload of register `0a` is sent as, each from its own field.
pub proof fn law_encoded_0a(payload: PayloadModel, f: Fields)
    requires
        !(payload is Text),
        typed(Shape::UnitAnnouncement, payload) == Ok::<Fields, EncodeFault>(f),
    ensures
        encoded(RegId(0x0a), payload) is Ok,
        encoded(RegId(0x0a), payload)->Ok_0[0] == 0,
        encoded(RegId(0x0a), payload)->Ok_0[1] == 0,
        encoded(RegId(0x0a), payload)->Ok_0[2] == 0,
        encoded(RegId(0x0a), payload)->Ok_0[3] == 0,
        encoded(RegId(0x0a), payload)->Ok_0[4] == 0,
        encoded(RegId(0x0a), payload)->Ok_0[5] == 0,
        encoded(RegId(0x0a), payload)->Ok_0[6] == 0,
{
}

/// Registers without fields are shown as their fourteen digits, and take nothing but
/// those.
pub proof fn law_registers_without_fields(reg: RegId, data: [u8; 7], payload: PayloadModel)
    requires
        reg.0 == 0x00 || reg.0 == 0x07 || 0x0b <= reg.0 <= 0x11 || 0x14 <= reg.0 <= 0x25 || reg.0
            >= 0x28,
    ensures
        decoded(reg, data) == PayloadModel::Text(hex_text(data@)),
        !(payload is Text) ==> encoded(reg, payload) == Err::<[u8; 7], EncodeFault>(
            EncodeFault::UnknownRegister(hex_byte(reg.0)),
        ),
{
}

/// A text is sent as the bytes of its digits, for every register: fourteen hexadecimal
/// digits, two for each byte, the high one first. Every other text is refused as it is.
pub proof fn law_encoded_text(reg: RegId, hex: Seq<char>)
    ensures
        hex.len() == 14 && (forall|i: int| 0 <= i < 14 ==> hex_value(#[trigger] hex[i]) is Some)
            ==> (encoded(reg, PayloadModel::Text(hex)) matches Ok(data) && data[0] == 16
            * hex_value(hex[0])->0 + hex_value(hex[1])->0 && data[1] == 16 * hex_value(hex[2])->0
            + hex_value(hex[3])->0 && data[2] == 16 * hex_value(hex[4])->0 + hex_value(hex[5])->0
            && data[3] == 16 * hex_value(hex[6])->0 + hex_value(hex[7])->0 && data[4] == 16
            * hex_value(hex[8])->0 + hex_value(hex[9])->0 && data[5] == 16 * hex_value(hex[10])->0
            + hex_value(hex[11])->0 && data[6] == 16 * hex_value(hex[12])->0 + hex_value(
            hex[13],
        )->0),
        hex.len() != 14 || (exists|i: int| 0 <= i < 14 && hex_value(#[trigger] hex[i]) is None)
            ==> encoded(reg, PayloadModel::Text(hex)) == Err::<[u8; 7], EncodeFault>(
            EncodeFault::BadHex(hex),
        ),
{
}

/// An error code is shown without the padding at its end: what is shown is the beginning
/// of the code, what is cut off is NUL or space, and the last character that is shown is
/// neither.
pub proof fn law_padding_is_cut(s: Seq<char>)
    ensures
        trim_code(s).len() <= s.len(),
        trim_code(s) == s.take(trim_code(s).len() as int),
        forall|i: int|
            trim_code(s).len() <= i < s.len() ==> #[trigger] s[i] == '\0' || s[i] == ' ',
        trim_code(s).len() > 0 ==> trim_code(s).last() != '\0' && trim_code(s).last() != ' ',
    decreases s.len(),
{
    if s.len() > 0 && (s.last() == '\0' || s.last() == ' ') {
        let r = s.drop_last();
        law_padding_is_cut(r);
        assert(r.take(trim_code(r).len() as int) =~= s.take(trim_code(r).len() as int));
        assert forall|i: int| trim_code(s).len() <= i < s.len() implies #[trigger] s[i] == '\0'
            || s[i] == ' ' by {
            if i < r.len() {
                assert(r[i] == s[i]);
            }
        }
    } else {
        assert(s.take(s.len() as int) =~= s);
    }
}

/// What clients see of register `08`: the characters of its first five bytes, without
/// the padding.
pub proof fn law_decoded_08(data: [u8; 7])
    ensures
        decoded(RegId(0x08), data) == PayloadModel::Object(
            seq![
                (
                    "error_code"@,
                    FieldModel::Text(
                        trim_code(
                            seq![
                                data[0] as char,
                                data[1] as char,
                                data[2] as char,
                                data[3] as char,
                                data[4] as char,
                            ],
                        ),
                    ),
                ),
            ],
        ),
{
}

/// The bytes that a payload of register `08` is sent as: five ASCII characters, then
/// zeros. Every other code is refused.
pub proof fn law_encoded_08(payload: PayloadModel, f: Fields)
    requires
        !(payload is Text),
        typed(Shape::SystemError, payload) == Ok::<Fields, EncodeFault>(f),
    ensures
        ({
            let code = text_in(f, "error_code"@);
            let good = code.len() == 5 && forall|i: int|
                0 <= i < 5 ==> (#[trigger] code[i]) as int <= 0x7f;
            &&& good ==> (encoded(RegId(0x08), payload) matches Ok(data) && data[0] == code[0] as u8
                && data[1] == code[1] as u8 && data[2] == code[2] as u8 && data[3] == code[3] as u8
                && data[4] == code[4] as u8 && data[5] == 0 && data[6] == 0)
            &&& !good ==> encoded(RegId(0x08), payload) == Err::<[u8; 7], EncodeFault>(
                EncodeFault::BadPayload(
                    "error_code must be exactly 5 ASCII chars: "@ + quoted(code),
                ),
            )
        }),
{
}

/// The bytes that a payload of register `09` is sent as: the action, the two bytes of
/// four hexadecimal digits, and the days. Every other code is refused.
pub proof fn law_encoded_09(payload: PayloadModel, f: Fields)
    requires
        !(payload is Text),
        typed(Shape::ActivationCode, payload) == Ok::<Fields, EncodeFault>(f),
    ensures
        ({
            let code = text_in(f, "unlock_code"@);
            let good = code.len() == 4 && forall|i: int|
                0 <= i < 4 ==> hex_value(#[trigger] code[i]) is Some;
            &&& good ==> (encoded(RegId(0x09), payload) matches Ok(data) && data[0] == (if word_in(
                f,
                "action"@,
            ) == "set_code"@ {
                1u8
            } else if word_in(f, "action"@) == "unlock"@ {
                2u8
            } else {
                1u8
            }) && data[1] == 16 * hex_value(code[0])->0 + hex_value(code[1])->0 && data[2] == 16
                * hex_value(code[2])->0 + hex_value(code[3])->0 && data[3] == byte_in(
                f,
                "activation_days"@,
            ) && data[4] == 0 && data[5] == 0 && data[6] == 0)
            &&& !good ==> (encoded(RegId(0x09), payload) matches Err(EncodeFault::BadHex(part))
                && (part == code || part == code.take(2) || part == code.skip(2)))
            &&& code.len() != 4 ==> encoded(RegId(0x09), payload) == Err::<[u8; 7], EncodeFault>(
                EncodeFault::BadHex(code),
            )
        }),
{
    let code = text_in(f, "unlock_code"@);
    if code.len() == 4 {
        let a = code.take(2);
        let b = code.skip(2);
        assert(a[0] == code[0] && a[1] == code[1] && b[0] == code[2] && b[1] == code[3]);
        if forall|i: int| 0 <= i < 4 ==> hex_value(#[trigger] code[i]) is Some {
            assert(all_ascii(code)) by {
                assert forall|i: int| 0 <= i < code.len() implies #[trigger] code[i]
                    <= '\u{7f}' by {
                    assert(hex_value(code[i]) is Some);
                }
            }
            assert(all_hex(a)) by {
                assert forall|i: int| 0 <= i < a.len() implies hex_value(
                    #[trigger] a[i],
                ) is Some by {
                    assert(hex_value(code[i]) is Some);
                }
            }
            assert(all_hex(b)) by {
                assert forall|i: int| 0 <= i < b.len() implies hex_value(
                    #[trigger] b[i],
                ) is Some by {
                    assert(hex_value(code[i + 2]) is Some);
                }
            }
        } else {
            let i = choose|i: int| 0 <= i < 4 && hex_value(#[trigger] code[i]) is None;
            if i < 2 {
                assert(a[i] == code[i]);
            } else {
                assert(b[i - 2] == code[i]);
            }
        }
    }
}

/// The bytes that a payload of register `12` is sent as: the three bytes of six
/// hexadecimal digits, and then either the pairing bit and the revision, where the
/// payload has the shape that is read, or the zone.
pub proof fn law_encoded_12(payload: PayloadModel)
    requires
        !(payload is Text),
    ensures
        ({
            let sent = encoded(RegId(0x12), payload);
            match (
                typed(Shape::SensorPairing, payload),
                typed(Shape::SensorPairingWrite, payload),
            ) {
                (Ok(f), _) => match uid_bytes(text_in(f, "sensor_uid"@)) {
                    Ok(uid) => sent matches Ok(data) && data[0] == uid[0] && data[1] == uid[1]
                        && data[2] == uid[2] && data[3] == (if flag_in(f, "pairing"@) {
                        0x40u8
                    } else {
                        0u8
                    }) && data[4] == byte_in(f, "sensor_rev"@) && data[5] == 0 && data[6] == 0,
                    Err(e) => sent == Err::<[u8; 7], EncodeFault>(e),
                },
                (_, Ok(f)) => match uid_bytes(text_in(f, "sensor_uid"@)) {
                    Ok(uid) => sent matches Ok(data) && data[0] == uid[0] && data[1] == uid[1]
                        && data[2] == uid[2] && data[3] == byte_in(f, "zone"@) && data[4] == 0
                        && data[5] == 0 && data[6] == 0,
                    Err(e) => sent == Err::<[u8; 7], EncodeFault>(e),
                },
                (_, Err(e)) => sent == Err::<[u8; 7], EncodeFault>(e),
            }
        }),
{
}

/// The bytes of a sensor uid: six hexadecimal digits, two for each byte. Every other
/// text is refused as it is.
pub proof fn law_uid_bytes(uid: Seq<char>)
    ensures
        uid.len() == 6 && (forall|i: int| 0 <= i < 6 ==> hex_value(#[trigger] uid[i]) is Some)
            ==> (uid_bytes(uid) matches Ok(b) && b[0] == 16 * hex_value(uid[0])->0 + hex_value(
            uid[1],
        )->0 && b[1] == 16 * hex_value(uid[2])->0 + hex_value(uid[3])->0 && b[2] == 16 * hex_value(
            uid[4],
        )->0 + hex_value(uid[5])->0),
        uid.len() != 6 || (exists|i: int| 0 <= i < 6 && hex_value(#[trigger] uid[i]) is None)
            ==> uid_bytes(uid) == Err::<[u8; 3], EncodeFault>(EncodeFault::BadHex(uid)),
{
}

/// What is taken from a field is what the field holds.
pub proof fn law_values_in_fields(f: Fields, name: Seq<char>)
    ensures
        match field(f, name) {
            Some(FieldModel::Number(n)) => {
                &&& number_in(f, name) == n
                &&& (n is Integer && n->Integer_0 <= 255) ==> byte_in(f, name) == n->Integer_0
            },
            Some(FieldModel::Decimal { number, .. }) => number_in(f, name) == number,
            Some(FieldModel::Bool(b)) => flag_in(f, name) == b,
            Some(FieldModel::Text(s)) => text_in(f, name) == s && word_in(f, name) == s,
            Some(FieldModel::Single { key, .. }) => word_in(f, name) == key,
            Some(FieldModel::List(items)) => items.len() == 3 && (forall|i: int|
                0 <= i < 3 ==> ((#[trigger] items[i]) matches NestedModel::Number(
                    Number::Integer(k),
                ) && k <= 255)) ==> forall|i: int|
                0 <= i < 3 ==> #[trigger] items[i] == NestedModel::Number(
                    Number::Integer(triple_in(f, name)[i] as u64),
                ),
            _ => true,
        },
{
    match field(f, name) {
        Some(FieldModel::List(items)) => {
            if items.len() == 3 && forall|i: int|
                0 <= i < 3 ==> ((#[trigger] items[i]) matches NestedModel::Number(
                    Number::Integer(k),
                ) && k <= 255) {
                assert(items[0] is Number && items[1] is Number && items[2] is Number);
                let t = triple_in(f, name);
                assert forall|i: int| 0 <= i < 3 implies #[trigger] items[i]
                    == NestedModel::Number(Number::Integer(t[i] as u64)) by {
                    if i == 0 {
                    } else if i == 1 {
                    } else {
                        assert(i == 2);
                    }
                }
            }
        },
        _ => {},
    }
}

/// Which values each kind of field takes.
pub proof fn law_kinds(value: FieldModel, word: Seq<char>)
    ensures
        Kind::Byte.accepts(value) <==> (value matches FieldModel::Number(Number::Integer(n)) && n
            <= 255),
        Kind::Flag.accepts(value) <==> value is Bool,
        Kind::Text.accepts(value) <==> value is Text,
        Kind::Temperature.accepts(value) <==> value is Number || value is Decimal,
        Kind::Triple.accepts(value) <==> (value matches FieldModel::List(items) && items.len() == 3
            && (items[0] matches NestedModel::Number(Number::Integer(n)) && n <= 255) && (
        items[1] matches NestedModel::Number(Number::Integer(n)) && n <= 255) && (
        items[2] matches NestedModel::Number(Number::Integer(n)) && n <= 255)),
        Kind::Power.knows(word) <==> word == "on"@ || word == "off"@,
        Kind::Mode.knows(word) <==> word == "cool"@ || word == "heat"@ || word == "vent"@ || word
            == "auto"@ || word == "dry"@ || word == "myauto"@,
        Kind::Fan.knows(word) <==> word == "off"@ || word == "low"@ || word == "medium"@ || word
            == "high"@ || word == "auto"@ || word == "auto_aa"@,
        Kind::FreshAir.knows(word) <==> word == "none"@ || word == "off"@ || word == "on"@,
        Kind::Sensor.knows(word) <==> word == "no_sensor"@ || word == "rf"@ || word == "wired"@
            || word == "rf2can_booster"@ || word == "rf_x"@,
        Kind::Activation.knows(word) <==> word == "no_code"@ || word == "code_enabled"@ || word
            == "expired"@,
        Kind::UnitType.knows(word) <==> word == "daikin"@ || word == "panasonic"@ || word
            == "fujitsu"@ || word == "samsung_dvm"@,
        Kind::Action.knows(word) <==> word == "set_code"@ || word == "unlock"@,
{
    if let FieldModel::List(items) = value {
        lemma_triple_complaint(items);
    }
}

/// Which values a field of words takes: a known word as text, or as the one key of an
/// object without a value.
pub proof fn law_word_kinds(kind: Kind, value: FieldModel)
    requires
        !(kind is Byte || kind is Flag || kind is Text || kind is Triple || kind is Temperature),
    ensures
        kind.is_word(),
        kind.accepts(value) <==> (value matches FieldModel::Text(w) && kind.knows(w)) || (
        value matches FieldModel::Single { key, value: v } && kind.knows(key) && v is Null),
{
}

/// Which registers clients may read and write, of all 256.
pub proof fn law_access(reg: RegId)
    ensures
        mode_of(reg) is ReadWrite <==> reg.0 == 0x01 || reg.0 == 0x03 || reg.0 == 0x04 || reg.0
            == 0x05 || reg.0 == 0x12 || reg.0 == 0x26 || reg.0 == 0x27,
        mode_of(reg) is ReadOnly <==> reg.0 == 0x02 || reg.0 == 0x06 || reg.0 == 0x08 || reg.0
            == 0x0a,
        mode_of(reg) is Internal <==> reg.0 == 0x07,
        mode_of(reg) is WriteOnly <==> reg.0 == 0x09,
        mode_of(reg) is Unverified <==> reg.0 == 0x00 || 0x0b <= reg.0 <= 0x11 || 0x13 <= reg.0
            <= 0x25 || reg.0 >= 0x28,
{
}

/// Which fields clients may not write.
pub proof fn law_read_only_fields(reg: RegId)
    ensures
        reg.0 == 0x03 ==> read_only_of(reg) == seq!["sensor_type"@, "measured_temp_c"@],
        reg.0 == 0x04 ==> read_only_of(reg) == seq!["motion_status"@, "zone_error"@, "rssi"@],
        reg.0 == 0x05 ==> read_only_of(reg) == seq!["rf_sys_id"@],
        reg.0 == 0x12 ==> read_only_of(reg) == seq!["pairing"@, "sensor_rev"@],
        reg.0 != 0x03 && reg.0 != 0x04 && reg.0 != 0x05 && reg.0 != 0x12 ==> read_only_of(reg).len()
            == 0,
        reg.0 == 0x03 ==> writable_of(reg) == seq!["open"@, "damper_pct"@, "target_temp_c"@],
        reg.0 == 0x04 ==> writable_of(reg) == seq!["min_damper"@, "max_damper"@, "motion_config"@],
        reg.0 == 0x12 ==> writable_of(reg) == seq!["sensor_uid"@, "zone"@],
{
}

/// No bound from `at` on is broken exactly when every value is at most its maximum.
proof fn lemma_bounds_kept(list: Seq<Bound>, data: [u8; 7], at: int)
    requires
        0 <= at <= list.len(),
    ensures
        broken_bound(list, data, at) is None <==> forall|i: int|
            at <= i < list.len() ==> data[(#[trigger] list[i]).0] & list[i].3 <= list[i].2,
    decreases list.len() - at,
{
    if at < list.len() {
        lemma_bounds_kept(list, data, at + 1);
        if data[list[at].0] & list[at].3 <= list[at].2 && broken_bound(list, data, at + 1) is None {
            assert forall|i: int| at <= i < list.len() implies data[(#[trigger] list[i]).0]
                & list[i].3 <= list[i].2 by {
                if i > at {
                    assert(at + 1 <= i);
                }
            }
        }
    }
}

/// Which bytes are within bounds, for every register: zones and constants of `01`, damper,
/// temperature and tenths of `03`, motion of `04`, and mode, temperature, zone, fresh air
/// and radio id of `05`. All other registers take every byte.
pub proof fn law_bounds(reg: u8, data: [u8; 7])
    ensures
        broken_bound(bounds(reg), data, 0) is None <==> {
            &&& reg == 0x01 ==> data[1] <= 10 && data[2] <= 3
            &&& reg == 0x03 ==> data[1] & 0x7f <= 100 && data[3] <= 80 && data[5] <= 9
            &&& reg == 0x04 ==> data[3] <= 22 && data[4] <= 2
            &&& reg == 0x05 ==> data[1] <= 6 && data[3] <= 80 && data[4] <= 10 && data[5] <= 2
                && data[6] <= 16
        },
        broken_bound(bounds(reg), data, 0) matches Some(e) ==> (e matches WriteFault::OutOfRange {
            value,
            max,
            ..
        } && value > max),
{
    let list = bounds(reg);
    lemma_bounds_kept(list, data, 0);
    lemma_broken(list, data, 0);
    assert forall|b: u8| b & 0xff == b by {
        assert(b & 0xff == b) by (bit_vector);
    }
    if reg == 0x01 {
        assert(list[0] == (1int, "numZones"@, 10u8, 0xffu8));
        assert(list[1] == (2int, "numConstants"@, 3u8, 0xffu8));
    } else if reg == 0x03 {
        assert(list[0].0 == 1 && list[0].2 == 100 && list[0].3 == 0x7f);
        assert(list[1].0 == 3 && list[1].2 == 80 && list[1].3 == 0xff);
        assert(list[2].0 == 5 && list[2].2 == 9 && list[2].3 == 0xff);
    } else if reg == 0x04 {
        assert(list[0].0 == 3 && list[0].2 == 22 && list[0].3 == 0xff);
        assert(list[1].0 == 4 && list[1].2 == 2 && list[1].3 == 0xff);
    } else if reg == 0x05 {
        assert(list[0].0 == 1 && list[0].2 == 6 && list[0].3 == 0xff);
        assert(list[1].0 == 3 && list[1].2 == 80 && list[1].3 == 0xff);
        assert(list[2].0 == 5 && list[2].2 == 2 && list[2].3 == 0xff);
        assert(list[3].0 == 6 && list[3].2 == 16 && list[3].3 == 0xff);
        assert(list[4].0 == 4 && list[4].2 == 10 && list[4].3 == 0xff);
    }
}

proof fn lemma_broken(list: Seq<Bound>, data: [u8; 7], at: int)
    requires
        0 <= at <= list.len(),
    ensures
        broken_bound(list, data, at) matches Some(e) ==> (e matches WriteFault::OutOfRange {
            value,
            max,
            ..
        } && value > max),
    decreases list.len() - at,
{
    if at < list.len() {
        lemma_broken(list, data, at + 1);
    }
}

/// Whether one of the first `n` fields is (or is not) in a list of names.
proof fn lemma_named(fields: Fields, list: Seq<Seq<char>>, listed: bool, n: int)
    requires
        0 <= n <= fields.len(),
    ensures
        first_named(fields, list, listed, n) is None <==> forall|i: int|
            0 <= i < n ==> list.contains((#[trigger] fields[i]).0) != listed,
        first_named(fields, list, listed, n) matches Some(name) ==> list.contains(name) == listed
            && exists|i: int| 0 <= i < n && (#[trigger] fields[i]).0 == name,
    decreases n,
{
    if n > 0 {
        lemma_named(fields, list, listed, n - 1);
        assert(fields[n - 1].0 == fields[n - 1].0);
    }
}

/// Which writes are permitted: those to a register that may be written, whose client
/// sent no read-only field and, where `strict`, none that the register does not have,
/// and whose bytes, where there are any, are within the bounds. A raw text is held to
/// the first alone.
pub proof fn law_which_writes_are_permitted(
    reg: RegId,
    client: PayloadModel,
    written: PayloadModel,
    strict: bool,
)
    ensures
        write_fault(reg, client, written, strict) is None <==> {
            &&& mode_of(reg) is ReadWrite || mode_of(reg) is WriteOnly
            &&& client is Text || {
                &&& client matches PayloadModel::Object(fields) ==> {
                    &&& forall|i: int|
                        0 <= i < fields.len() ==> !read_only_of(reg).contains(
                            (#[trigger] fields[i]).0,
                        )
                    &&& strict ==> forall|i: int|
                        0 <= i < fields.len() ==> field_names(reg).contains(
                            (#[trigger] fields[i]).0,
                        )
                }
                &&& encoded(reg, written) matches Ok(data) ==> broken_bound(
                    bounds(reg.0),
                    data,
                    0,
                ) is None
            }
        },
        mode_of(reg) is ReadOnly ==> write_fault(reg, client, written, strict) == Some(
            WriteFault::ReadOnlyRegister { reg: reg.0 },
        ),
        mode_of(reg) is Internal ==> write_fault(reg, client, written, strict) == Some(
            WriteFault::InternalRegister { reg: reg.0 },
        ),
        mode_of(reg) is Unverified ==> write_fault(reg, client, written, strict) == Some(
            WriteFault::UnverifiedRegister { reg: reg.0 },
        ),
{
    if let PayloadModel::Object(fields) = client {
        lemma_named(fields, read_only_of(reg), true, fields.len() as int);
        lemma_named(fields, field_names(reg), false, fields.len() as int);
    }
}

/// A value is found under a name where the first field of that name stands.
pub proof fn law_fields_are_found(fields: Fields, name: Seq<char>, at: int)
    requires
        0 <= at < fields.len(),
        fields[at].0 == name,
        forall|j: int| 0 <= j < at ==> (#[trigger] fields[j]).0 != name,
    ensures
        field(fields, name) == Some(fields[at].1),
{
    lemma_position_is(fields, name, at);
}

/// No value is found under a name that no field has.
pub proof fn law_missing_fields(fields: Fields, name: Seq<char>)
    requires
        forall|j: int| 0 <= j < fields.len() ==> (#[trigger] fields[j]).0 != name,
    ensures
        field(fields, name) is None,
{
    lemma_position(fields, name);
}

/// An object is a payload exactly when each field of the payload is there and holds
/// what it may hold; it then stands for itself.
pub proof fn law_objects_that_are_payloads(shape: Shape, fields: Fields)
    ensures
        ({
            let r = typed(shape, PayloadModel::Object(fields));
            let fine = forall|i: int|
                0 <= i < shape.schema().len() ==> (field(fields, (#[trigger] shape.schema()[i]).0)
                    matches Some(value) && shape.schema()[i].1.accepts(value));
            &&& fine ==> r == Ok::<Fields, EncodeFault>(fields)
            &&& !fine ==> r is Err
        }),
{
    lemma_fault(shape.schema(), fields);
    if fits(shape.schema(), fields) {
        assert forall|i: int| 0 <= i < shape.schema().len() implies (field(
            fields,
            (#[trigger] shape.schema()[i]).0,
        ) matches Some(value) && shape.schema()[i].1.accepts(value)) by {}
    }
}

/// Nothing is said, from `at` on, of a list of values that their fields may hold.
proof fn lemma_list_of_values(shape: Shape, values: Seq<FieldModel>, at: nat)
    requires
        at <= shape.schema().len(),
        values.len() == shape.schema().len(),
        forall|i: int|
            0 <= i < values.len() ==> (#[trigger] shape.schema()[i]).1.accepts(values[i]),
    ensures
        list_fault(shape, values, at) is None,
    decreases shape.schema().len() - at,
{
    if at < shape.schema().len() {
        lemma_list_of_values(shape, values, at + 1);
        assert(shape.schema()[at as int].1.accepts(values[at as int]));
    }
}

/// A list is a payload exactly when it has a value for each field, in order, that the
/// field may hold; it then stands for those fields.
pub proof fn law_lists_that_are_payloads(shape: Shape, values: Seq<FieldModel>)
    ensures
        typed(shape, PayloadModel::List(values)) matches Ok(f) ==> {
            &&& values.len() == shape.schema().len()
            &&& f.len() == values.len()
            &&& forall|i: int|
                0 <= i < values.len() ==> (#[trigger] f[i]) == (shape.schema()[i].0, values[i])
        },
        values.len() == shape.schema().len() && (forall|i: int|
            0 <= i < values.len() ==> (#[trigger] shape.schema()[i]).1.accepts(values[i]))
            ==> typed(shape, PayloadModel::List(values)) is Ok,
        values.len() != shape.schema().len() ==> typed(shape, PayloadModel::List(values)) is Err,
{
    if values.len() == shape.schema().len() && (forall|i: int|
        0 <= i < values.len() ==> (#[trigger] shape.schema()[i]).1.accepts(values[i])) {
        lemma_list_of_values(shape, values, 0);
    }
    if list_fault(shape, values, 0) is None {
        law_list_stands_for_object(shape, values);
    }
}

/// Nothing but an object or a list is a payload with fields.
pub proof fn law_no_other_payloads(shape: Shape, payload: PayloadModel)
    requires
        !(payload is Object || payload is List),
    ensures
        typed(shape, payload) is Err,
{
}

/// Where only one of two payloads has fields, merging takes the mailbox's, or else what
/// the client sent.
pub proof fn law_merging_without_fields(held: PayloadModel, sent: PayloadModel)
    ensures
        held is Object && !(sent is Object) ==> merged(held, sent) == held,
        !(held is Object) ==> merged(held, sent) == sent,
{
}

/// A payload that does not have the fields of its register is refused with what keeps it
/// from having them.
pub proof fn law_payloads_without_their_fields(payload: PayloadModel, e: EncodeFault)
    requires
        !(payload is Text),
    ensures
        typed(Shape::ZoneConfig, payload) == Err::<Fields, EncodeFault>(e) ==> encoded(
            RegId(0x01),
            payload,
        ) == Err::<[u8; 7], EncodeFault>(e),
        typed(Shape::UnitActivation, payload) == Err::<Fields, EncodeFault>(e) ==> encoded(
            RegId(0x02),
            payload,
        ) == Err::<[u8; 7], EncodeFault>(e),
        typed(Shape::ZoneState, payload) == Err::<Fields, EncodeFault>(e) ==> encoded(
            RegId(0x03),
            payload,
        ) == Err::<[u8; 7], EncodeFault>(e),
        typed(Shape::ZoneLimits, payload) == Err::<Fields, EncodeFault>(e) ==> encoded(
            RegId(0x04),
            payload,
        ) == Err::<[u8; 7], EncodeFault>(e),
        typed(Shape::SystemStatus, payload) == Err::<Fields, EncodeFault>(e) ==> encoded(
            RegId(0x05),
            payload,
        ) == Err::<[u8; 7], EncodeFault>(e),
        typed(Shape::Firmware, payload) == Err::<Fields, EncodeFault>(e) ==> encoded(
            RegId(0x06),
            payload,
        ) == Err::<[u8; 7], EncodeFault>(e),
        typed(Shape::SystemError, payload) == Err::<Fields, EncodeFault>(e) ==> encoded(
            RegId(0x08),
            payload,
        ) == Err::<[u8; 7], EncodeFault>(e),
        typed(Shape::ActivationCode, payload) == Err::<Fields, EncodeFault>(e) ==> encoded(
            RegId(0x09),
            payload,
        ) == Err::<[u8; 7], EncodeFault>(e),
        typed(Shape::UnitAnnouncement, payload) == Err::<Fields, EncodeFault>(e) ==> encoded(
            RegId(0x0a),
            payload,
        ) == Err::<[u8; 7], EncodeFault>(e),
        typed(Shape::InfoByte, payload) == Err::<Fields, EncodeFault>(e) ==> encoded(
            RegId(0x13),
            payload,
        ) == Err::<[u8; 7], EncodeFault>(e),
        typed(Shape::RfDevicePairing, payload) == Err::<Fields, EncodeFault>(e) ==> encoded(
            RegId(0x26),
            payload,
        ) == Err::<[u8; 7], EncodeFault>(e),
        typed(Shape::RfDeviceCalibration, payload) == Err::<Fields, EncodeFault>(e) ==> encoded(
            RegId(0x27),
            payload,
        ) == Err::<[u8; 7], EncodeFault>(e),
{
}

/// The fields of each payload, in order, and what each may hold.
pub proof fn law_schemas()
    ensures
        Shape::ZoneConfig.schema() == seq![
            ("header"@, Kind::Byte),
            ("total_zones"@, Kind::Byte),
            ("constant_zones"@, Kind::Byte),
            ("constant_zone_ids"@, Kind::Triple),
            ("filter_clean_required"@, Kind::Flag),
        ],
        Shape::UnitActivation.schema() == seq![
            ("unit_type"@, Kind::UnitType),
            ("activation_status"@, Kind::Activation),
            ("dict_fw_major"@, Kind::Byte),
            ("dict_fw_minor"@, Kind::Byte),
        ],
        Shape::ZoneState.schema() == seq![
            ("open"@, Kind::Flag),
            ("damper_pct"@, Kind::Byte),
            ("sensor_type"@, Kind::Sensor),
            ("target_temp_c"@, Kind::Temperature),
            ("measured_temp_c"@, Kind::Temperature),
        ],
        Shape::ZoneLimits.schema() == seq![
            ("min_damper"@, Kind::Byte),
            ("max_damper"@, Kind::Byte),
            ("motion_status"@, Kind::Byte),
            ("motion_config"@, Kind::Byte),
            ("zone_error"@, Kind::Byte),
            ("rssi"@, Kind::Byte),
        ],
        Shape::SystemStatus.schema() == seq![
            ("power"@, Kind::Power),
            ("mode"@, Kind::Mode),
            ("fan"@, Kind::Fan),
            ("target_temp_c"@, Kind::Temperature),
            ("myzone_id"@, Kind::Byte),
            ("fresh_air"@, Kind::FreshAir),
            ("rf_sys_id"@, Kind::Byte),
        ],
        Shape::Firmware.schema() == seq![
            ("fw_major"@, Kind::Byte),
            ("fw_minor"@, Kind::Byte),
            ("cb_type"@, Kind::Byte),
            ("rf_fw_major"@, Kind::Byte),
        ],
        Shape::SystemError.schema() == seq![("error_code"@, Kind::Text)],
        Shape::ActivationCode.schema() == seq![
            ("action"@, Kind::Action),
            ("unlock_code"@, Kind::Text),
            ("activation_days"@, Kind::Byte),
        ],
        Shape::UnitAnnouncement.schema().len() == 0,
        Shape::SensorPairing.schema() == seq![
            ("sensor_uid"@, Kind::Text),
            ("pairing"@, Kind::Flag),
            ("sensor_rev"@, Kind::Byte),
        ],
        Shape::SensorPairingWrite.schema() == seq![
            ("sensor_uid"@, Kind::Text),
            ("zone"@, Kind::Byte),
        ],
        Shape::InfoByte.schema() == seq![("info_byte"@, Kind::Byte)],
        Shape::RfDevicePairing.schema() == seq![
            ("pairing_control"@, Kind::Byte),
            ("rf_device_type"@, Kind::Byte),
            ("zone_channel"@, Kind::Byte),
        ],
        Shape::RfDeviceCalibration.schema() == seq![
            ("calibration_control"@, Kind::Byte),
            ("channel"@, Kind::Byte),
            ("up_down_position"@, Kind::Byte),
        ],
{
}

/// The names that a register is written with.
pub proof fn law_field_names(reg: RegId)
    ensures
        reg.0 == 0x01 ==> field_names(reg) == seq![
            "header"@,
            "total_zones"@,
            "constant_zones"@,
            "constant_zone_ids"@,
            "filter_clean_required"@,
        ],
        reg.0 == 0x03 ==> field_names(reg) == seq![
            "open"@,
            "damper_pct"@,
            "sensor_type"@,
            "target_temp_c"@,
            "measured_temp_c"@,
        ],
        reg.0 == 0x04 ==> field_names(reg) == seq![
            "min_damper"@,
            "max_damper"@,
            "motion_status"@,
            "motion_config"@,
            "zone_error"@,
            "rssi"@,
        ],
        reg.0 == 0x05 ==> field_names(reg) == seq![
            "power"@,
            "mode"@,
            "fan"@,
            "target_temp_c"@,
            "myzone_id"@,
            "fresh_air"@,
            "rf_sys_id"@,
        ],
        reg.0 == 0x09 ==> field_names(reg) == seq!["action"@, "unlock_code"@, "activation_days"@],
        reg.0 == 0x12 ==> field_names(reg) == seq!["sensor_uid"@, "zone"@],
        reg.0 == 0x26 ==> field_names(reg) == seq![
            "pairing_control"@,
            "rf_device_type"@,
            "zone_channel"@,
        ],
        reg.0 == 0x27 ==> field_names(reg) == seq![
            "calibration_control"@,
            "channel"@,
            "up_down_position"@,
        ],
        reg.0 != 0x01 && reg.0 != 0x03 && reg.0 != 0x04 && reg.0 != 0x05 && reg.0 != 0x09
            && reg.0 != 0x12 && reg.0 != 0x26 && reg.0 != 0x27 ==> field_names(
            reg,
        ).len() == 0,
{
}

} // verus!
