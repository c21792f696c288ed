//! What a client writes, it reads back.
use crate::mailbox::codec::{
    activation_code_bytes, code_chars, error_bytes, firmware_in, info_byte_in, pairing_read_bytes,
    rf_device_calibration_in, rf_device_pairing_in, system_status_in, trim_code, typed, uid_bytes,
    unit_activation_in, unlock_bytes, zone_config_in, zone_limits_in, zone_state_in,
};
use crate::mailbox::convert::{decoded, encoded};
use crate::mailbox::convert_laws::{law_decoded_is_encoded, lemma_typed, settled};
use crate::mailbox::error::EncodeFault;
use crate::mailbox::schema::Shape;
use crate::mailbox::value::{byte_in, flag_in, text_in, Fields, PayloadModel};
use crate::mailbox::words::{
    law_words_of_action_enum, law_words_of_activation_status, law_words_of_fan_enum,
    law_words_of_fresh_air_enum, law_words_of_mode_enum, law_words_of_power_enum,
    law_words_of_sensor_type_enum, law_words_of_unit_type_enum, ActionEnum, ActivationStatus,
    FanEnum, FreshAirEnum, ModeEnum, PowerEnum, SensorTypeEnum, UnitTypeEnum,
};
use crate::registers::ids::RegId;
use crate::registers::payloads::{
    law_activation_code_kept, law_firmware_status_kept, law_info_byte_kept,
    law_rf_device_calibration_kept, law_rf_device_pairing_kept, law_sensor_pairing_read_kept,
    law_system_error_kept, law_system_status_kept, law_unit_activation_kept, law_zone_config_kept,
    law_zone_limits_kept, law_zone_state_kept, ActivationCode, SensorPairingRead, SystemError,
    SystemStatus, UnitActivation, ZoneState,
};
use vstd::prelude::*;

verus! {

/// Whether two lists of fields hold the same value of a register. Of an error code
/// the padding at its end does not count.
pub open spec fn same_value(reg: RegId, written: Fields, read: Fields) -> bool {
    match reg.0 {
        0x01 => zone_config_in(read) == zone_config_in(written),
        0x02 => unit_activation_in(read) == unit_activation_in(written),
        0x03 => zone_state_in(read) == zone_state_in(written),
        0x04 => zone_limits_in(read) == zone_limits_in(written),
        0x05 => system_status_in(read) == system_status_in(written),
        0x06 => firmware_in(read) == firmware_in(written),
        0x08 => text_in(read, "error_code"@) == trim_code(text_in(written, "error_code"@)),
        0x09 => activation_code_bytes(read) == activation_code_bytes(written),
        0x12 => pairing_read_bytes(read) == pairing_read_bytes(written),
        0x13 => info_byte_in(read) == info_byte_in(written),
        0x26 => rf_device_pairing_in(read) == rf_device_pairing_in(written),
        0x27 => rf_device_calibration_in(read) == rf_device_calibration_in(written),
        _ => true,
    }
}

proof fn lemma_unit_activation_kept(f: Fields)
    ensures
        UnitActivation::of(unit_activation_in(f).bytes()) == unit_activation_in(f),
        UnitTypeEnum::of_wire(unit_activation_in(f).unit_type) is Some,
        ActivationStatus::of_wire(unit_activation_in(f).activation_status) is Some,
{
    law_words_of_unit_type_enum(UnitTypeEnum::value_in(f, "unit_type"@));
    law_words_of_activation_status(ActivationStatus::value_in(f, "activation_status"@));
    law_unit_activation_kept(unit_activation_in(f));
}

proof fn lemma_zone_state_kept(f: Fields)
    requires
        zone_state_in(f).percent < 0x80,
    ensures
        ZoneState::of(zone_state_in(f).bytes()) == zone_state_in(f),
        SensorTypeEnum::of_wire(zone_state_in(f).sensor) is Some,
{
    law_words_of_sensor_type_enum(SensorTypeEnum::value_in(f, "sensor_type"@));
    law_zone_state_kept(zone_state_in(f));
}

/// The damper percentage of a value that was read has seven bits.
proof fn lemma_percent_read(data: [u8; 7], read: Fields)
    requires
        decoded(RegId(0x03), data) == PayloadModel::Object(read),
    ensures
        zone_state_in(read).percent < 0x80,
{
    lemma_typed(Shape::ZoneState, read);
    assert(Shape::ZoneState.schema()[1].0 == "damper_pct"@);
}

proof fn lemma_system_status_kept(f: Fields)
    ensures
        SystemStatus::of(system_status_in(f).bytes()) == system_status_in(f),
        PowerEnum::of_wire(system_status_in(f).power) is Some,
        ModeEnum::of_wire(system_status_in(f).mode) is Some,
        FanEnum::of_wire(system_status_in(f).fan) is Some,
        FreshAirEnum::of_wire(system_status_in(f).fresh_air) is Some,
{
    law_words_of_power_enum(PowerEnum::value_in(f, "power"@));
    law_words_of_mode_enum(ModeEnum::value_in(f, "mode"@));
    law_words_of_fan_enum(FanEnum::value_in(f, "fan"@));
    law_words_of_fresh_air_enum(FreshAirEnum::value_in(f, "fresh_air"@));
    law_system_status_kept(system_status_in(f));
}

proof fn lemma_activation_kept(f: Fields)
    requires
        activation_code_bytes(f) is Ok,
    ensures
        ActionEnum::of_wire(ActivationCode::of(activation_code_bytes(f)->Ok_0).action) is Some,
        ActivationCode::of(activation_code_bytes(f)->Ok_0).bytes() == activation_code_bytes(
            f,
        )->Ok_0,
{
    let action = ActionEnum::value_in(f, "action"@);
    law_words_of_action_enum(action);
    match unlock_bytes(text_in(f, "unlock_code"@)) {
        Ok(unlock_code) => {
            let v = ActivationCode {
                action: action.wire(),
                unlock_code,
                activation_days: byte_in(f, "activation_days"@),
            };
            law_activation_code_kept(v);
        },
        Err(_) => {},
    }
}

proof fn lemma_ascii_kept(c: char)
    requires
        c <= '\u{7f}',
    ensures
        (c as u8) as char == c,
{
}

/// The characters of an error code are those that were written.
proof fn lemma_error_code_kept(code: Seq<char>)
    requires
        error_bytes(code) is Ok,
    ensures
        code_chars(SystemError::of(error_bytes(code)->Ok_0).error_code) == code,
{
    let v = SystemError {
        error_code: [
            code[0] as u8,
            code[1] as u8,
            code[2] as u8,
            code[3] as u8,
            code[4] as u8,
        ],
    };
    law_system_error_kept(v);
    lemma_ascii_kept(code[0]);
    lemma_ascii_kept(code[1]);
    lemma_ascii_kept(code[2]);
    lemma_ascii_kept(code[3]);
    lemma_ascii_kept(code[4]);
    assert(code_chars(v.error_code) =~= code);
}

/// The pairing fields of register `12` come back as they were.
proof fn lemma_pairing_settles(f: Fields)
    requires
        pairing_read_bytes(f) is Ok,
    ensures
        settled(RegId(0x12), pairing_read_bytes(f)->Ok_0) == pairing_read_bytes(f)->Ok_0,
{
    match uid_bytes(text_in(f, "sensor_uid"@)) {
        Ok(sensor_uid) => {
            let v = SensorPairingRead {
                sensor_uid,
                info_byte: if flag_in(f, "pairing"@) {
                    0x40
                } else {
                    0x00
                },
                sensor_rev: byte_in(f, "sensor_rev"@),
            };
            law_sensor_pairing_read_kept(v);
            assert(0x40u8 & 0x40u8 == 0x40u8) by (bit_vector);
            assert(0u8 & 0x40u8 == 0u8) by (bit_vector);
        },
        Err(_) => {},
    }
}

/// Whether the fields that were written come back as fields with the same value.
pub open spec fn reads_back(reg: RegId, written: Fields) -> bool {
    encoded(reg, PayloadModel::Object(written)) matches Ok(data) && decoded(
        reg,
        data,
    ) matches PayloadModel::Object(read) && same_value(reg, written, read)
}

proof fn lemma_zone_config_reads_back(written: Fields)
    requires
        encoded(RegId(0x01), PayloadModel::Object(written)) is Ok,
    ensures
        reads_back(RegId(0x01), written),
{
    let reg = RegId(0x01);
    let data = encoded(reg, PayloadModel::Object(written))->Ok_0;
    law_decoded_is_encoded(reg, data);
    law_zone_config_kept(zone_config_in(written));
    if let PayloadModel::Object(read) = decoded(reg, data) {
        law_zone_config_kept(zone_config_in(read));
    }
}

proof fn lemma_unit_activation_reads_back(written: Fields)
    requires
        encoded(RegId(0x02), PayloadModel::Object(written)) is Ok,
    ensures
        reads_back(RegId(0x02), written),
{
    let reg = RegId(0x02);
    let data = encoded(reg, PayloadModel::Object(written))->Ok_0;
    law_decoded_is_encoded(reg, data);
    lemma_unit_activation_kept(written);
    if let PayloadModel::Object(read) = decoded(reg, data) {
        lemma_unit_activation_kept(read);
    }
}

proof fn lemma_zone_state_reads_back(written: Fields)
    requires
        encoded(RegId(0x03), PayloadModel::Object(written)) is Ok,
        byte_in(written, "damper_pct"@) < 0x80,
        zone_state_in(written).meas_dec <= 9,
    ensures
        reads_back(RegId(0x03), written),
{
    let reg = RegId(0x03);
    let data = encoded(reg, PayloadModel::Object(written))->Ok_0;
    law_decoded_is_encoded(reg, data);
    lemma_zone_state_kept(written);
    if let PayloadModel::Object(read) = decoded(reg, data) {
        lemma_percent_read(data, read);
        lemma_zone_state_kept(read);
    }
}

proof fn lemma_zone_limits_reads_back(written: Fields)
    requires
        encoded(RegId(0x04), PayloadModel::Object(written)) is Ok,
    ensures
        reads_back(RegId(0x04), written),
{
    let reg = RegId(0x04);
    let data = encoded(reg, PayloadModel::Object(written))->Ok_0;
    law_decoded_is_encoded(reg, data);
    law_zone_limits_kept(zone_limits_in(written));
    if let PayloadModel::Object(read) = decoded(reg, data) {
        law_zone_limits_kept(zone_limits_in(read));
    }
}

proof fn lemma_system_status_reads_back(written: Fields)
    requires
        encoded(RegId(0x05), PayloadModel::Object(written)) is Ok,
    ensures
        reads_back(RegId(0x05), written),
{
    let reg = RegId(0x05);
    let data = encoded(reg, PayloadModel::Object(written))->Ok_0;
    law_decoded_is_encoded(reg, data);
    lemma_system_status_kept(written);
    if let PayloadModel::Object(read) = decoded(reg, data) {
        lemma_system_status_kept(read);
    }
}

proof fn lemma_firmware_reads_back(written: Fields)
    requires
        encoded(RegId(0x06), PayloadModel::Object(written)) is Ok,
    ensures
        reads_back(RegId(0x06), written),
{
    let reg = RegId(0x06);
    let data = encoded(reg, PayloadModel::Object(written))->Ok_0;
    law_decoded_is_encoded(reg, data);
    law_firmware_status_kept(firmware_in(written));
    if let PayloadModel::Object(read) = decoded(reg, data) {
        law_firmware_status_kept(firmware_in(read));
    }
}

proof fn lemma_system_error_reads_back(written: Fields)
    requires
        encoded(RegId(0x08), PayloadModel::Object(written)) is Ok,
    ensures
        reads_back(RegId(0x08), written),
{
    let reg = RegId(0x08);
    let data = encoded(reg, PayloadModel::Object(written))->Ok_0;
    let code = text_in(written, "error_code"@);
    lemma_error_code_kept(code);
    match decoded(reg, data) {
        PayloadModel::Object(read) => {
            assert(read[0].0 == "error_code"@);
            assert(text_in(read, "error_code"@) == trim_code(code));
        },
        _ => {},
    }
}

proof fn lemma_activation_code_reads_back(written: Fields)
    requires
        encoded(RegId(0x09), PayloadModel::Object(written)) is Ok,
    ensures
        reads_back(RegId(0x09), written),
{
    let reg = RegId(0x09);
    let data = encoded(reg, PayloadModel::Object(written))->Ok_0;
    law_decoded_is_encoded(reg, data);
    lemma_activation_kept(written);
}

/// What is read of register `12` has the shape that is read.
proof fn lemma_pairing_shape(data: [u8; 7], read: Fields)
    requires
        decoded(RegId(0x12), data) == PayloadModel::Object(read),
    ensures
        typed(Shape::SensorPairing, PayloadModel::Object(read)) == Ok::<Fields, EncodeFault>(read),
{
    lemma_typed(Shape::SensorPairing, read);
}

proof fn lemma_sensor_pairing_reads_back(written: Fields)
    requires
        encoded(RegId(0x12), PayloadModel::Object(written)) is Ok,
        typed(Shape::SensorPairing, PayloadModel::Object(written)) is Ok,
    ensures
        reads_back(RegId(0x12), written),
{
    let reg = RegId(0x12);
    let data = encoded(reg, PayloadModel::Object(written))->Ok_0;
    assert(pairing_read_bytes(written) == Ok::<[u8; 7], EncodeFault>(data));
    lemma_pairing_settles(written);
    law_decoded_is_encoded(reg, data);
    match decoded(reg, data) {
        PayloadModel::Object(read) => {
            lemma_pairing_shape(data, read);
            assert(pairing_read_bytes(read) == Ok::<[u8; 7], EncodeFault>(data));
        },
        _ => {},
    }
}

proof fn lemma_info_byte_reads_back(written: Fields)
    requires
        encoded(RegId(0x13), PayloadModel::Object(written)) is Ok,
    ensures
        reads_back(RegId(0x13), written),
{
    let reg = RegId(0x13);
    let data = encoded(reg, PayloadModel::Object(written))->Ok_0;
    law_decoded_is_encoded(reg, data);
    law_info_byte_kept(info_byte_in(written));
    if let PayloadModel::Object(read) = decoded(reg, data) {
        law_info_byte_kept(info_byte_in(read));
    }
}

proof fn lemma_rf_device_pairing_reads_back(written: Fields)
    requires
        encoded(RegId(0x26), PayloadModel::Object(written)) is Ok,
    ensures
        reads_back(RegId(0x26), written),
{
    let reg = RegId(0x26);
    let data = encoded(reg, PayloadModel::Object(written))->Ok_0;
    law_decoded_is_encoded(reg, data);
    law_rf_device_pairing_kept(rf_device_pairing_in(written));
    if let PayloadModel::Object(read) = decoded(reg, data) {
        law_rf_device_pairing_kept(rf_device_pairing_in(read));
    }
}

proof fn lemma_rf_device_calibration_reads_back(written: Fields)
    requires
        encoded(RegId(0x27), PayloadModel::Object(written)) is Ok,
    ensures
        reads_back(RegId(0x27), written),
{
    let reg = RegId(0x27);
    let data = encoded(reg, PayloadModel::Object(written))->Ok_0;
    law_decoded_is_encoded(reg, data);
    law_rf_device_calibration_kept(rf_device_calibration_in(written));
    if let PayloadModel::Object(read) = decoded(reg, data) {
        law_rf_device_calibration_kept(rf_device_calibration_in(read));
    }
}

/// What is written reads back: of every register, fields that could be encoded come
/// back as typed fields that hold the same value. A damper percentage has seven
/// bits and a measured temperature at most nine tenths; register `12` must be
/// given the fields that it is read with, because the zone of a pairing cannot be
/// told from its bytes.
pub proof fn law_written_reads_back(reg: RegId, written: Fields)
    requires
        encoded(reg, PayloadModel::Object(written)) is Ok,
        reg.0 == 0x03 ==> byte_in(written, "damper_pct"@) < 0x80 && zone_state_in(written).meas_dec
            <= 9,
        reg.0 == 0x12 ==> typed(Shape::SensorPairing, PayloadModel::Object(written)) is Ok,
    ensures
        reads_back(reg, written),
{
    match reg.0 {
        0x01 => lemma_zone_config_reads_back(written),
        0x02 => lemma_unit_activation_reads_back(written),
        0x03 => lemma_zone_state_reads_back(written),
        0x04 => lemma_zone_limits_reads_back(written),
        0x05 => lemma_system_status_reads_back(written),
        0x06 => lemma_firmware_reads_back(written),
        0x08 => lemma_system_error_reads_back(written),
        0x09 => lemma_activation_code_reads_back(written),
        0x12 => lemma_sensor_pairing_reads_back(written),
        0x13 => lemma_info_byte_reads_back(written),
        0x26 => lemma_rf_device_pairing_reads_back(written),
        0x27 => lemma_rf_device_calibration_reads_back(written),
        _ => {},
    }
}

} // verus!
