//! What the typed payloads of registers hold, field by field.
use crate::mailbox::dto::{
    ZoneConfigDto, UnitActivationDto, ZoneStateDto, ZoneLimitsDto, SystemStatusDto,
    FirmwareDto, SystemErrorDto, ActivationCodeDto, UnitAnnouncementDto, SensorPairingDto,
    SensorPairingWriteDto, InfoByteDto, RfDevicePairingDto, RfDeviceCalibrationDto,
};
use crate::mailbox::value::{
    byte_in, flag_in, number_in, text_in, triple_in, FieldModel, Fields, NestedModel, Number,
};
use crate::mailbox::words::{
    ActionEnum, ActivationStatus, FanEnum, FreshAirEnum, ModeEnum, PowerEnum, SensorTypeEnum,
    UnitTypeEnum,
};
use vstd::prelude::*;

verus! {

/// The fields of [`ZoneConfigDto`], and the value of fields.
pub proof fn law_fields_of_zone_config(dto: ZoneConfigDto, f: Fields)
    ensures
        dto.fields().len() == 5,
        dto.fields()[0].0 == "header"@,
        dto.fields()[0].1 == FieldModel::Number(Number::Integer(dto.header as u64)),
        dto.fields()[1].0 == "total_zones"@,
        dto.fields()[1].1 == FieldModel::Number(Number::Integer(dto.total_zones as u64)),
        dto.fields()[2].0 == "constant_zones"@,
        dto.fields()[2].1 == FieldModel::Number(Number::Integer(dto.constant_zones as u64)),
        dto.fields()[3].0 == "constant_zone_ids"@,
        dto.fields()[3].1 == FieldModel::List(
            seq![
                NestedModel::Number(Number::Integer(dto.constant_zone_ids[0] as u64)),
                NestedModel::Number(Number::Integer(dto.constant_zone_ids[1] as u64)),
                NestedModel::Number(Number::Integer(dto.constant_zone_ids[2] as u64)),
            ],
        ),
        dto.fields()[4].0 == "filter_clean_required"@,
        dto.fields()[4].1 == FieldModel::Bool(dto.filter_clean_required),
        dto.is_in(f) ==> dto.header == byte_in(f, "header"@),
        dto.is_in(f) ==> dto.total_zones == byte_in(f, "total_zones"@),
        dto.is_in(f) ==> dto.constant_zones == byte_in(f, "constant_zones"@),
        dto.is_in(f) ==> dto.constant_zone_ids == triple_in(f, "constant_zone_ids"@),
        dto.is_in(f) ==> dto.filter_clean_required == flag_in(f, "filter_clean_required"@),
{
}

/// The fields of [`UnitActivationDto`], and the value of fields.
pub proof fn law_fields_of_unit_activation(dto: UnitActivationDto, f: Fields)
    ensures
        dto.fields().len() == 4,
        dto.fields()[0].0 == "unit_type"@,
        dto.fields()[0].1 == FieldModel::Text(dto.unit_type.word()),
        dto.fields()[1].0 == "activation_status"@,
        dto.fields()[1].1 == FieldModel::Text(dto.activation_status.word()),
        dto.fields()[2].0 == "dict_fw_major"@,
        dto.fields()[2].1 == FieldModel::Number(Number::Integer(dto.dict_fw_major as u64)),
        dto.fields()[3].0 == "dict_fw_minor"@,
        dto.fields()[3].1 == FieldModel::Number(Number::Integer(dto.dict_fw_minor as u64)),
        dto.is_in(f) ==> dto.unit_type == UnitTypeEnum::value_in(f, "unit_type"@),
        dto.is_in(f) ==> dto.activation_status == ActivationStatus::value_in(
            f,
            "activation_status"@,
        ),
        dto.is_in(f) ==> dto.dict_fw_major == byte_in(f, "dict_fw_major"@),
        dto.is_in(f) ==> dto.dict_fw_minor == byte_in(f, "dict_fw_minor"@),
{
}

/// The fields of [`ZoneStateDto`], and the value of fields.
pub proof fn law_fields_of_zone_state(dto: ZoneStateDto, f: Fields)
    ensures
        dto.fields().len() == 5,
        dto.fields()[0].0 == "open"@,
        dto.fields()[0].1 == FieldModel::Bool(dto.open),
        dto.fields()[1].0 == "damper_pct"@,
        dto.fields()[1].1 == FieldModel::Number(Number::Integer(dto.damper_pct as u64)),
        dto.fields()[2].0 == "sensor_type"@,
        dto.fields()[2].1 == FieldModel::Text(dto.sensor_type.word()),
        dto.fields()[3].0 == "target_temp_c"@,
        dto.fields()[3].1 == FieldModel::Number(dto.target_temp_c),
        dto.fields()[4].0 == "measured_temp_c"@,
        dto.fields()[4].1 == FieldModel::Number(dto.measured_temp_c),
        dto.is_in(f) ==> dto.open == flag_in(f, "open"@),
        dto.is_in(f) ==> dto.damper_pct == byte_in(f, "damper_pct"@),
        dto.is_in(f) ==> dto.sensor_type == SensorTypeEnum::value_in(f, "sensor_type"@),
        dto.is_in(f) ==> dto.target_temp_c == number_in(f, "target_temp_c"@),
        dto.is_in(f) ==> dto.measured_temp_c == number_in(f, "measured_temp_c"@),
{
}

/// The fields of [`ZoneLimitsDto`], and the value of fields.
pub proof fn law_fields_of_zone_limits(dto: ZoneLimitsDto, f: Fields)
    ensures
        dto.fields().len() == 6,
        dto.fields()[0].0 == "min_damper"@,
        dto.fields()[0].1 == FieldModel::Number(Number::Integer(dto.min_damper as u64)),
        dto.fields()[1].0 == "max_damper"@,
        dto.fields()[1].1 == FieldModel::Number(Number::Integer(dto.max_damper as u64)),
        dto.fields()[2].0 == "motion_status"@,
        dto.fields()[2].1 == FieldModel::Number(Number::Integer(dto.motion_status as u64)),
        dto.fields()[3].0 == "motion_config"@,
        dto.fields()[3].1 == FieldModel::Number(Number::Integer(dto.motion_config as u64)),
        dto.fields()[4].0 == "zone_error"@,
        dto.fields()[4].1 == FieldModel::Number(Number::Integer(dto.zone_error as u64)),
        dto.fields()[5].0 == "rssi"@,
        dto.fields()[5].1 == FieldModel::Number(Number::Integer(dto.rssi as u64)),
        dto.is_in(f) ==> dto.min_damper == byte_in(f, "min_damper"@),
        dto.is_in(f) ==> dto.max_damper == byte_in(f, "max_damper"@),
        dto.is_in(f) ==> dto.motion_status == byte_in(f, "motion_status"@),
        dto.is_in(f) ==> dto.motion_config == byte_in(f, "motion_config"@),
        dto.is_in(f) ==> dto.zone_error == byte_in(f, "zone_error"@),
        dto.is_in(f) ==> dto.rssi == byte_in(f, "rssi"@),
{
}

/// The fields of [`SystemStatusDto`], and the value of fields.
pub proof fn law_fields_of_system_status(dto: SystemStatusDto, f: Fields)
    ensures
        dto.fields().len() == 7,
        dto.fields()[0].0 == "power"@,
        dto.fields()[0].1 == FieldModel::Text(dto.power.word()),
        dto.fields()[1].0 == "mode"@,
        dto.fields()[1].1 == FieldModel::Text(dto.mode.word()),
        dto.fields()[2].0 == "fan"@,
        dto.fields()[2].1 == FieldModel::Text(dto.fan.word()),
        dto.fields()[3].0 == "target_temp_c"@,
        dto.fields()[3].1 == FieldModel::Number(dto.target_temp_c),
        dto.fields()[4].0 == "myzone_id"@,
        dto.fields()[4].1 == FieldModel::Number(Number::Integer(dto.myzone_id as u64)),
        dto.fields()[5].0 == "fresh_air"@,
        dto.fields()[5].1 == FieldModel::Text(dto.fresh_air.word()),
        dto.fields()[6].0 == "rf_sys_id"@,
        dto.fields()[6].1 == FieldModel::Number(Number::Integer(dto.rf_sys_id as u64)),
        dto.is_in(f) ==> dto.power == PowerEnum::value_in(f, "power"@),
        dto.is_in(f) ==> dto.mode == ModeEnum::value_in(f, "mode"@),
        dto.is_in(f) ==> dto.fan == FanEnum::value_in(f, "fan"@),
        dto.is_in(f) ==> dto.target_temp_c == number_in(f, "target_temp_c"@),
        dto.is_in(f) ==> dto.myzone_id == byte_in(f, "myzone_id"@),
        dto.is_in(f) ==> dto.fresh_air == FreshAirEnum::value_in(f, "fresh_air"@),
        dto.is_in(f) ==> dto.rf_sys_id == byte_in(f, "rf_sys_id"@),
{
}

/// The fields of [`FirmwareDto`], and the value of fields.
pub proof fn law_fields_of_firmware(dto: FirmwareDto, f: Fields)
    ensures
        dto.fields().len() == 4,
        dto.fields()[0].0 == "fw_major"@,
        dto.fields()[0].1 == FieldModel::Number(Number::Integer(dto.fw_major as u64)),
        dto.fields()[1].0 == "fw_minor"@,
        dto.fields()[1].1 == FieldModel::Number(Number::Integer(dto.fw_minor as u64)),
        dto.fields()[2].0 == "cb_type"@,
        dto.fields()[2].1 == FieldModel::Number(Number::Integer(dto.cb_type as u64)),
        dto.fields()[3].0 == "rf_fw_major"@,
        dto.fields()[3].1 == FieldModel::Number(Number::Integer(dto.rf_fw_major as u64)),
        dto.is_in(f) ==> dto.fw_major == byte_in(f, "fw_major"@),
        dto.is_in(f) ==> dto.fw_minor == byte_in(f, "fw_minor"@),
        dto.is_in(f) ==> dto.cb_type == byte_in(f, "cb_type"@),
        dto.is_in(f) ==> dto.rf_fw_major == byte_in(f, "rf_fw_major"@),
{
}

/// The fields of [`SystemErrorDto`], and the value of fields.
pub proof fn law_fields_of_system_error(dto: SystemErrorDto, f: Fields)
    ensures
        dto.fields().len() == 1,
        dto.fields()[0].0 == "error_code"@,
        dto.fields()[0].1 == FieldModel::Text(dto.error_code@),
        dto.is_in(f) ==> dto.error_code@ == text_in(f, "error_code"@),
{
}

/// The fields of [`ActivationCodeDto`], and the value of fields.
pub proof fn law_fields_of_activation_code(dto: ActivationCodeDto, f: Fields)
    ensures
        dto.fields().len() == 3,
        dto.fields()[0].0 == "action"@,
        dto.fields()[0].1 == FieldModel::Text(dto.action.word()),
        dto.fields()[1].0 == "unlock_code"@,
        dto.fields()[1].1 == FieldModel::Text(dto.unlock_code@),
        dto.fields()[2].0 == "activation_days"@,
        dto.fields()[2].1 == FieldModel::Number(Number::Integer(dto.activation_days as u64)),
        dto.is_in(f) ==> dto.action == ActionEnum::value_in(f, "action"@),
        dto.is_in(f) ==> dto.unlock_code@ == text_in(f, "unlock_code"@),
        dto.is_in(f) ==> dto.activation_days == byte_in(f, "activation_days"@),
{
}

/// The fields of [`UnitAnnouncementDto`], and the value of fields.
pub proof fn law_fields_of_unit_announcement(dto: UnitAnnouncementDto, f: Fields)
    ensures
        dto.fields().len() == 0,
{
}

/// The fields of [`SensorPairingDto`], and the value of fields.
pub proof fn law_fields_of_sensor_pairing(dto: SensorPairingDto, f: Fields)
    ensures
        dto.fields().len() == 3,
        dto.fields()[0].0 == "sensor_uid"@,
        dto.fields()[0].1 == FieldModel::Text(dto.sensor_uid@),
        dto.fields()[1].0 == "pairing"@,
        dto.fields()[1].1 == FieldModel::Bool(dto.pairing),
        dto.fields()[2].0 == "sensor_rev"@,
        dto.fields()[2].1 == FieldModel::Number(Number::Integer(dto.sensor_rev as u64)),
        dto.is_in(f) ==> dto.sensor_uid@ == text_in(f, "sensor_uid"@),
        dto.is_in(f) ==> dto.pairing == flag_in(f, "pairing"@),
        dto.is_in(f) ==> dto.sensor_rev == byte_in(f, "sensor_rev"@),
{
}

/// The fields of [`SensorPairingWriteDto`], and the value of fields.
pub proof fn law_fields_of_sensor_pairing_write(dto: SensorPairingWriteDto, f: Fields)
    ensures
        dto.fields().len() == 2,
        dto.fields()[0].0 == "sensor_uid"@,
        dto.fields()[0].1 == FieldModel::Text(dto.sensor_uid@),
        dto.fields()[1].0 == "zone"@,
        dto.fields()[1].1 == FieldModel::Number(Number::Integer(dto.zone as u64)),
        dto.is_in(f) ==> dto.sensor_uid@ == text_in(f, "sensor_uid"@),
        dto.is_in(f) ==> dto.zone == byte_in(f, "zone"@),
{
}

/// The fields of [`InfoByteDto`], and the value of fields.
pub proof fn law_fields_of_info_byte(dto: InfoByteDto, f: Fields)
    ensures
        dto.fields().len() == 1,
        dto.fields()[0].0 == "info_byte"@,
        dto.fields()[0].1 == FieldModel::Number(Number::Integer(dto.info_byte as u64)),
        dto.is_in(f) ==> dto.info_byte == byte_in(f, "info_byte"@),
{
}

/// The fields of [`RfDevicePairingDto`], and the value of fields.
pub proof fn law_fields_of_rf_device_pairing(dto: RfDevicePairingDto, f: Fields)
    ensures
        dto.fields().len() == 3,
        dto.fields()[0].0 == "pairing_control"@,
        dto.fields()[0].1 == FieldModel::Number(Number::Integer(dto.pairing_control as u64)),
        dto.fields()[1].0 == "rf_device_type"@,
        dto.fields()[1].1 == FieldModel::Number(Number::Integer(dto.rf_device_type as u64)),
        dto.fields()[2].0 == "zone_channel"@,
        dto.fields()[2].1 == FieldModel::Number(Number::Integer(dto.zone_channel as u64)),
        dto.is_in(f) ==> dto.pairing_control == byte_in(f, "pairing_control"@),
        dto.is_in(f) ==> dto.rf_device_type == byte_in(f, "rf_device_type"@),
        dto.is_in(f) ==> dto.zone_channel == byte_in(f, "zone_channel"@),
{
}

/// The fields of [`RfDeviceCalibrationDto`], and the value of fields.
pub proof fn law_fields_of_rf_device_calibration(dto: RfDeviceCalibrationDto, f: Fields)
    ensures
        dto.fields().len() == 3,
        dto.fields()[0].0 == "calibration_control"@,
        dto.fields()[0].1 == FieldModel::Number(Number::Integer(dto.calibration_control as u64)),
        dto.fields()[1].0 == "channel"@,
        dto.fields()[1].1 == FieldModel::Number(Number::Integer(dto.channel as u64)),
        dto.fields()[2].0 == "up_down_position"@,
        dto.fields()[2].1 == FieldModel::Number(Number::Integer(dto.up_down_position as u64)),
        dto.is_in(f) ==> dto.calibration_control == byte_in(f, "calibration_control"@),
        dto.is_in(f) ==> dto.channel == byte_in(f, "channel"@),
        dto.is_in(f) ==> dto.up_down_position == byte_in(f, "up_down_position"@),
{
}

} // verus!
