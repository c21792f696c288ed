//! Where each value of a register stands on the wire, byte by byte.
use crate::registers::bank::{zone_bearing, BankKey};
use crate::registers::decoded::{zero_data, DecodedRegister};
use crate::registers::enums::{
    Action, ActivationStatus, Fan, FreshAir, Mode, Power, SensorType, UnitBrand,
};
use crate::registers::ids::{byte_from_hex, id_from_hex, RegId, UnitId};
use crate::registers::payloads::{
    ActivationCode, FirmwareStatus, InfoByte, RfDeviceCalibration, RfDevicePairing,
    SensorPairingRead, SensorPairingWrite, SystemError, SystemStatus, UnitActivation,
    UnitAnnouncement, ZoneConfig, ZoneLimits, ZoneState,
};
use crate::registers::wire::{CanRecord, Dest};
use crate::text::hex_value;
use crate::text_laws::law_hex_number_goes_on;
use vstd::prelude::*;

verus! {

/// The byte of every value of [`Power`], and the value of every byte.
pub proof fn law_bytes_of_power(value: u8, v: Power)
    ensures
        Power::of(value) is Off <==> value == 0x00,
        v is Off ==> v.byte() == 0x00,
        Power::of(value) is On <==> value == 0x01,
        v is On ==> v.byte() == 0x01,
        Power::of(value) is Unknown ==> Power::of(value) == Power::Unknown(value),
        v matches Power::Unknown(b) ==> v.byte() == b,
{
}

/// The byte of every value of [`Mode`], and the value of every byte.
pub proof fn law_bytes_of_mode(value: u8, v: Mode)
    ensures
        Mode::of(value) is Cool <==> value == 0x01,
        v is Cool ==> v.byte() == 0x01,
        Mode::of(value) is Heat <==> value == 0x02,
        v is Heat ==> v.byte() == 0x02,
        Mode::of(value) is Vent <==> value == 0x03,
        v is Vent ==> v.byte() == 0x03,
        Mode::of(value) is Auto <==> value == 0x04,
        v is Auto ==> v.byte() == 0x04,
        Mode::of(value) is Dry <==> value == 0x05,
        v is Dry ==> v.byte() == 0x05,
        Mode::of(value) is MyAuto <==> value == 0x06,
        v is MyAuto ==> v.byte() == 0x06,
        Mode::of(value) is Unknown ==> Mode::of(value) == Mode::Unknown(value),
        v matches Mode::Unknown(b) ==> v.byte() == b,
{
}

/// The byte of every value of [`Fan`], and the value of every byte.
pub proof fn law_bytes_of_fan(value: u8, v: Fan)
    ensures
        Fan::of(value) is Off <==> value == 0x00,
        v is Off ==> v.byte() == 0x00,
        Fan::of(value) is Low <==> value == 0x01,
        v is Low ==> v.byte() == 0x01,
        Fan::of(value) is Medium <==> value == 0x02,
        v is Medium ==> v.byte() == 0x02,
        Fan::of(value) is High <==> value == 0x03,
        v is High ==> v.byte() == 0x03,
        Fan::of(value) is Auto <==> value == 0x04,
        v is Auto ==> v.byte() == 0x04,
        Fan::of(value) is AutoAa <==> value == 0x05,
        v is AutoAa ==> v.byte() == 0x05,
        Fan::of(value) is Unknown ==> Fan::of(value) == Fan::Unknown(value),
        v matches Fan::Unknown(b) ==> v.byte() == b,
{
}

/// The byte of every value of [`FreshAir`], and the value of every byte.
pub proof fn law_bytes_of_fresh_air(value: u8, v: FreshAir)
    ensures
        FreshAir::of(value) is Absent <==> value == 0x00,
        v is Absent ==> v.byte() == 0x00,
        FreshAir::of(value) is Off <==> value == 0x01,
        v is Off ==> v.byte() == 0x01,
        FreshAir::of(value) is On <==> value == 0x02,
        v is On ==> v.byte() == 0x02,
        FreshAir::of(value) is Unknown ==> FreshAir::of(value) == FreshAir::Unknown(value),
        v matches FreshAir::Unknown(b) ==> v.byte() == b,
{
}

/// The byte of every value of [`SensorType`], and the value of every byte.
pub proof fn law_bytes_of_sensor_type(value: u8, v: SensorType)
    ensures
        SensorType::of(value) is NoSensor <==> value == 0x00,
        v is NoSensor ==> v.byte() == 0x00,
        SensorType::of(value) is Rf <==> value == 0x01,
        v is Rf ==> v.byte() == 0x01,
        SensorType::of(value) is Wired <==> value == 0x02,
        v is Wired ==> v.byte() == 0x02,
        SensorType::of(value) is Rf2CanBooster <==> value == 0x03,
        v is Rf2CanBooster ==> v.byte() == 0x03,
        SensorType::of(value) is RfX <==> value == 0x04,
        v is RfX ==> v.byte() == 0x04,
        SensorType::of(value) is Unknown ==> SensorType::of(value) == SensorType::Unknown(value),
        v matches SensorType::Unknown(b) ==> v.byte() == b,
{
}

/// The byte of every value of [`UnitBrand`], and the value of every byte.
pub proof fn law_bytes_of_unit_brand(value: u8, v: UnitBrand)
    ensures
        UnitBrand::of(value) is Daikin <==> value == 0x11,
        v is Daikin ==> v.byte() == 0x11,
        UnitBrand::of(value) is Panasonic <==> value == 0x12,
        v is Panasonic ==> v.byte() == 0x12,
        UnitBrand::of(value) is Fujitsu <==> value == 0x13,
        v is Fujitsu ==> v.byte() == 0x13,
        UnitBrand::of(value) is SamsungDvm <==> value == 0x19,
        v is SamsungDvm ==> v.byte() == 0x19,
        UnitBrand::of(value) is Unknown ==> UnitBrand::of(value) == UnitBrand::Unknown(value),
        v matches UnitBrand::Unknown(b) ==> v.byte() == b,
{
}

/// The byte of every value of [`ActivationStatus`], and the value of every byte.
pub proof fn law_bytes_of_activation_status(value: u8, v: ActivationStatus)
    ensures
        ActivationStatus::of(value) is NoCode <==> value == 0x00,
        v is NoCode ==> v.byte() == 0x00,
        ActivationStatus::of(value) is CodeEnabled <==> value == 0x01,
        v is CodeEnabled ==> v.byte() == 0x01,
        ActivationStatus::of(value) is Expired <==> value == 0x02,
        v is Expired ==> v.byte() == 0x02,
        ActivationStatus::of(value) is Unknown
            ==> ActivationStatus::of(value) == ActivationStatus::Unknown(value),
        v matches ActivationStatus::Unknown(b) ==> v.byte() == b,
{
}

/// The byte of every value of [`Action`], and the value of every byte.
pub proof fn law_bytes_of_action(value: u8, v: Action)
    ensures
        Action::of(value) is SetCode <==> value == 0x01,
        v is SetCode ==> v.byte() == 0x01,
        Action::of(value) is Unlock <==> value == 0x02,
        v is Unlock ==> v.byte() == 0x02,
        Action::of(value) is Unknown ==> Action::of(value) == Action::Unknown(value),
        v matches Action::Unknown(b) ==> v.byte() == b,
{
}

/// The byte of every value of [`Dest`], and the value of every byte.
pub proof fn law_bytes_of_dest(value: u8, v: Dest)
    ensures
        Dest::of(value) is ControlBox <==> value == 0x01,
        v is ControlBox ==> v.byte() == 0x01,
        Dest::of(value) is Tablet <==> value == 0x03,
        v is Tablet ==> v.byte() == 0x03,
        Dest::of(value) is Unknown ==> Dest::of(value) == Dest::Unknown(value),
        v matches Dest::Unknown(b) ==> v.byte() == b,
{
}

/// Which byte holds which value of [`ZoneConfig`]; bytes without a value are zero.
pub proof fn law_layout_of_zone_config(data: [u8; 7], v: ZoneConfig)
    ensures
        ZoneConfig::of(data).header == data[0],
        v.bytes()[0] == v.header,
        ZoneConfig::of(data).num_zones == data[1],
        v.bytes()[1] == v.num_zones,
        ZoneConfig::of(data).num_constant == data[2],
        v.bytes()[2] == v.num_constant,
        ZoneConfig::of(data).constant[0] == data[3],
        v.bytes()[3] == v.constant[0],
        ZoneConfig::of(data).constant[1] == data[4],
        v.bytes()[4] == v.constant[1],
        ZoneConfig::of(data).constant[2] == data[5],
        v.bytes()[5] == v.constant[2],
        ZoneConfig::of(data).filter_clean == (data[6] != 0),
        v.bytes()[6] == if v.filter_clean {
            1u8
        } else {
            0u8
        },
{
}

/// Which byte holds which value of [`UnitActivation`]; bytes without a value are zero.
pub proof fn law_layout_of_unit_activation(data: [u8; 7], v: UnitActivation)
    ensures
        UnitActivation::of(data).unit_type == UnitBrand::of(data[0]),
        v.bytes()[0] == v.unit_type.byte(),
        UnitActivation::of(data).activation_status == ActivationStatus::of(data[1]),
        v.bytes()[1] == v.activation_status.byte(),
        UnitActivation::of(data).dict_fw_major == data[2],
        v.bytes()[2] == v.dict_fw_major,
        UnitActivation::of(data).dict_fw_minor == data[3],
        v.bytes()[3] == v.dict_fw_minor,
        v.bytes()[4] == 0,
        v.bytes()[5] == 0,
        v.bytes()[6] == 0,
{
}

/// Which byte holds which value of [`ZoneLimits`]; bytes without a value are zero.
pub proof fn law_layout_of_zone_limits(data: [u8; 7], v: ZoneLimits)
    ensures
        ZoneLimits::of(data).zone == data[0],
        v.bytes()[0] == v.zone,
        ZoneLimits::of(data).min_damper == data[1],
        v.bytes()[1] == v.min_damper,
        ZoneLimits::of(data).max_damper == data[2],
        v.bytes()[2] == v.max_damper,
        ZoneLimits::of(data).motion_status == data[3],
        v.bytes()[3] == v.motion_status,
        ZoneLimits::of(data).motion_config == data[4],
        v.bytes()[4] == v.motion_config,
        ZoneLimits::of(data).zone_error == data[5],
        v.bytes()[5] == v.zone_error,
        ZoneLimits::of(data).rssi == data[6],
        v.bytes()[6] == v.rssi,
{
}

/// Which byte holds which value of [`SystemStatus`]; bytes without a value are zero.
pub proof fn law_layout_of_system_status(data: [u8; 7], v: SystemStatus)
    ensures
        SystemStatus::of(data).power == Power::of(data[0]),
        v.bytes()[0] == v.power.byte(),
        SystemStatus::of(data).mode == Mode::of(data[1]),
        v.bytes()[1] == v.mode.byte(),
        SystemStatus::of(data).fan == Fan::of(data[2]),
        v.bytes()[2] == v.fan.byte(),
        SystemStatus::of(data).set_temp_x2 == data[3],
        v.bytes()[3] == v.set_temp_x2,
        SystemStatus::of(data).myzone_id == data[4],
        v.bytes()[4] == v.myzone_id,
        SystemStatus::of(data).fresh_air == FreshAir::of(data[5]),
        v.bytes()[5] == v.fresh_air.byte(),
        SystemStatus::of(data).rf_sys_id == data[6],
        v.bytes()[6] == v.rf_sys_id,
{
}

/// Which byte holds which value of [`FirmwareStatus`]; bytes without a value are zero.
pub proof fn law_layout_of_firmware_status(data: [u8; 7], v: FirmwareStatus)
    ensures
        FirmwareStatus::of(data).fw_major == data[0],
        v.bytes()[0] == v.fw_major,
        FirmwareStatus::of(data).fw_minor == data[1],
        v.bytes()[1] == v.fw_minor,
        FirmwareStatus::of(data).cb_type == data[2],
        v.bytes()[2] == v.cb_type,
        FirmwareStatus::of(data).rf_fw_major == data[3],
        v.bytes()[3] == v.rf_fw_major,
        v.bytes()[4] == 0,
        v.bytes()[5] == 0,
        v.bytes()[6] == 0,
{
}

/// Which byte holds which value of [`SystemError`]; bytes without a value are zero.
pub proof fn law_layout_of_system_error(data: [u8; 7], v: SystemError)
    ensures
        SystemError::of(data).error_code[0] == data[0],
        v.bytes()[0] == v.error_code[0],
        SystemError::of(data).error_code[1] == data[1],
        v.bytes()[1] == v.error_code[1],
        SystemError::of(data).error_code[2] == data[2],
        v.bytes()[2] == v.error_code[2],
        SystemError::of(data).error_code[3] == data[3],
        v.bytes()[3] == v.error_code[3],
        SystemError::of(data).error_code[4] == data[4],
        v.bytes()[4] == v.error_code[4],
        v.bytes()[5] == 0,
        v.bytes()[6] == 0,
{
}

/// Which byte holds which value of [`ActivationCode`]; bytes without a value are zero.
pub proof fn law_layout_of_activation_code(data: [u8; 7], v: ActivationCode)
    ensures
        ActivationCode::of(data).action == Action::of(data[0]),
        v.bytes()[0] == v.action.byte(),
        ActivationCode::of(data).unlock_code[0] == data[1],
        v.bytes()[1] == v.unlock_code[0],
        ActivationCode::of(data).unlock_code[1] == data[2],
        v.bytes()[2] == v.unlock_code[1],
        ActivationCode::of(data).activation_days == data[3],
        v.bytes()[3] == v.activation_days,
        v.bytes()[4] == 0,
        v.bytes()[5] == 0,
        v.bytes()[6] == 0,
{
}

/// Which byte holds which value of [`SensorPairingRead`]; bytes without a value are zero.
pub proof fn law_layout_of_sensor_pairing_read(data: [u8; 7], v: SensorPairingRead)
    ensures
        SensorPairingRead::of(data).sensor_uid[0] == data[0],
        v.bytes()[0] == v.sensor_uid[0],
        SensorPairingRead::of(data).sensor_uid[1] == data[1],
        v.bytes()[1] == v.sensor_uid[1],
        SensorPairingRead::of(data).sensor_uid[2] == data[2],
        v.bytes()[2] == v.sensor_uid[2],
        SensorPairingRead::of(data).info_byte == data[3],
        v.bytes()[3] == v.info_byte,
        SensorPairingRead::of(data).sensor_rev == data[4],
        v.bytes()[4] == v.sensor_rev,
        v.bytes()[5] == 0,
        v.bytes()[6] == 0,
{
}

/// Which byte holds which value of [`SensorPairingWrite`]; bytes without a value are zero.
pub proof fn law_layout_of_sensor_pairing_write(data: [u8; 7], v: SensorPairingWrite)
    ensures
        SensorPairingWrite::of(data).sensor_uid[0] == data[0],
        v.bytes()[0] == v.sensor_uid[0],
        SensorPairingWrite::of(data).sensor_uid[1] == data[1],
        v.bytes()[1] == v.sensor_uid[1],
        SensorPairingWrite::of(data).sensor_uid[2] == data[2],
        v.bytes()[2] == v.sensor_uid[2],
        SensorPairingWrite::of(data).zone == data[3],
        v.bytes()[3] == v.zone,
        v.bytes()[4] == 0,
        v.bytes()[5] == 0,
        v.bytes()[6] == 0,
{
}

/// Which byte holds which value of [`InfoByte`]; bytes without a value are zero.
pub proof fn law_layout_of_info_byte(data: [u8; 7], v: InfoByte)
    ensures
        InfoByte::of(data).info_byte == data[0],
        v.bytes()[0] == v.info_byte,
        InfoByte::of(data).rest[0] == data[1],
        v.bytes()[1] == v.rest[0],
        InfoByte::of(data).rest[1] == data[2],
        v.bytes()[2] == v.rest[1],
        InfoByte::of(data).rest[2] == data[3],
        v.bytes()[3] == v.rest[2],
        InfoByte::of(data).rest[3] == data[4],
        v.bytes()[4] == v.rest[3],
        InfoByte::of(data).rest[4] == data[5],
        v.bytes()[5] == v.rest[4],
        InfoByte::of(data).rest[5] == data[6],
        v.bytes()[6] == v.rest[5],
{
}

/// Which byte holds which value of [`RfDevicePairing`]; bytes without a value are zero.
pub proof fn law_layout_of_rf_device_pairing(data: [u8; 7], v: RfDevicePairing)
    ensures
        RfDevicePairing::of(data).pairing_control == data[0],
        v.bytes()[0] == v.pairing_control,
        RfDevicePairing::of(data).rf_device_type == data[1],
        v.bytes()[1] == v.rf_device_type,
        RfDevicePairing::of(data).zone_channel == data[2],
        v.bytes()[2] == v.zone_channel,
        v.bytes()[3] == 0,
        v.bytes()[4] == 0,
        v.bytes()[5] == 0,
        v.bytes()[6] == 0,
{
}

/// Which byte holds which value of [`RfDeviceCalibration`]; bytes without a value are zero.
pub proof fn law_layout_of_rf_device_calibration(data: [u8; 7], v: RfDeviceCalibration)
    ensures
        RfDeviceCalibration::of(data).calibration_control == data[0],
        v.bytes()[0] == v.calibration_control,
        RfDeviceCalibration::of(data).channel == data[1],
        v.bytes()[1] == v.channel,
        RfDeviceCalibration::of(data).up_down_position == data[2],
        v.bytes()[2] == v.up_down_position,
        v.bytes()[3] == 0,
        v.bytes()[4] == 0,
        v.bytes()[5] == 0,
        v.bytes()[6] == 0,
{
}

/// Which byte holds which value of [`ZoneState`]: the top bit of the second byte is
/// whether the zone is open, its other bits are the percentage.
pub proof fn law_layout_of_zone_state(data: [u8; 7], v: ZoneState)
    ensures
        ZoneState::of(data).zone == data[0],
        ZoneState::of(data).open == (data[1] & 0x80 != 0),
        ZoneState::of(data).percent == data[1] & 0x7f,
        ZoneState::of(data).sensor == SensorType::of(data[2]),
        ZoneState::of(data).set_temp_x2 == data[3],
        ZoneState::of(data).meas_int == data[4],
        ZoneState::of(data).meas_dec == data[5],
        v.bytes()[0] == v.zone,
        v.bytes()[1] & 0x7f == v.percent & 0x7f,
        v.bytes()[1] & 0x80 == if v.open {
            0x80u8
        } else {
            0u8
        },
        v.bytes()[2] == v.sensor.byte(),
        v.bytes()[3] == v.set_temp_x2,
        v.bytes()[4] == v.meas_int,
        v.bytes()[5] == v.meas_dec,
        v.bytes()[6] == 0,
{
    let d = data[1];
    assert((d >= 0x80) == (d & 0x80 != 0)) by (bit_vector);
    assert(d % 0x80 == d & 0x7f) by (bit_vector);
    let p = v.percent;
    let low = p % 0x80;
    let high = (0x80 + p % 0x80) as u8;
    assert(low & 0x7f == p & 0x7f && low & 0x80 == 0) by (bit_vector)
        requires
            low == p % 0x80,
    ;
    assert(high & 0x7f == p & 0x7f && high & 0x80 == 0x80) by (bit_vector)
        requires
            high == 0x80 + p % 0x80,
    ;
}

/// An announcement is seven zero bytes, whatever was announced.
pub proof fn law_layout_of_unit_announcement(v: UnitAnnouncement)
    ensures
        forall|i: int| 0 <= i < 7 ==> #[trigger] v.bytes()[i] == 0,
        forall|i: int| 0 <= i < 7 ==> #[trigger] zero_data()[i] == 0,
{
}

/// Which registers have which values, and that their bytes are those of the values.
pub proof fn law_registers_have_their_values(reg: RegId, data: [u8; 7])
    ensures
        ({
            let d = DecodedRegister::of(reg, data);
            &&& reg.0 == 0x01 <==> d is ZoneConfig
            &&& reg.0 == 0x01 ==> d == DecodedRegister::ZoneConfig(ZoneConfig::of(data))
            &&& reg.0 == 0x02 ==> d == DecodedRegister::UnitActivation(UnitActivation::of(data))
            &&& reg.0 == 0x03 ==> d == DecodedRegister::ZoneState(ZoneState::of(data))
            &&& reg.0 == 0x04 ==> d == DecodedRegister::ZoneLimits(ZoneLimits::of(data))
            &&& reg.0 == 0x05 ==> d == DecodedRegister::SystemStatus(SystemStatus::of(data))
            &&& reg.0 == 0x06 ==> d == DecodedRegister::FirmwareStatus(FirmwareStatus::of(data))
            &&& reg.0 == 0x08 ==> d == DecodedRegister::SystemError(SystemError::of(data))
            &&& reg.0 == 0x09 ==> d == DecodedRegister::ActivationCode(ActivationCode::of(data))
            &&& reg.0 == 0x0a ==> d is UnitAnnouncement
            &&& reg.0 == 0x12 ==> d == DecodedRegister::SensorPairingRead(
                SensorPairingRead::of(data),
            )
            &&& reg.0 == 0x13 ==> d == DecodedRegister::InfoByte(InfoByte::of(data))
            &&& reg.0 == 0x26 ==> d == DecodedRegister::RfDevicePairing(RfDevicePairing::of(data))
            &&& reg.0 == 0x27 ==> d == DecodedRegister::RfDeviceCalibration(
                RfDeviceCalibration::of(data),
            )
            &&& reg.0 == 0x07 || reg.0 == 0x0b || 0x0d <= reg.0 < 0x12 || 0x13 < reg.0 < 0x26
                || reg.0 > 0x27 || reg.0 == 0x0c || reg.0 == 0x00 ==> d
                == (DecodedRegister::Unknown { reg, data })
            &&& d is Unknown || d is SystemStatus || d is ZoneLimits || d is InfoByte
                ==> d.payload() == data
            &&& d.register() == reg
        }),
{
    let d = DecodedRegister::of(reg, data);
    crate::registers::payloads::law_payload_bytes_kept(data);
}

/// The slot of a record: its unit and register, and its first byte as the zone for
/// registers `03` and `04` alone.
pub proof fn law_slot_of_a_record(record: CanRecord)
    ensures
        BankKey::of(record).unit_type == record.unit_type,
        BankKey::of(record).unit_id == record.unit_id,
        BankKey::of(record).reg == record.reg,
        record.reg.0 == 0x03 || record.reg.0 == 0x04 ==> BankKey::of(record).zone == Some(
            record.data[0],
        ),
        record.reg.0 != 0x03 && record.reg.0 != 0x04 ==> BankKey::of(record).zone is None,
        zone_bearing(record.reg) <==> record.reg.0 == 0x03 || record.reg.0 == 0x04,
{
}

/// A byte is two hexadecimal digits, the high one first, and nothing else is one.
pub proof fn law_digits_of_a_byte(s: Seq<char>)
    ensures
        s.len() == 2 && hex_value(s[0]) is Some && hex_value(s[1]) is Some ==> (byte_from_hex(s)
            matches Some(b) && b == 16 * hex_value(s[0])->0 + hex_value(s[1])->0),
        s.len() != 2 || hex_value(s[0]) is None || hex_value(s[1]) is None ==> byte_from_hex(s)
            is None,
{
    if s.len() == 2 {
        let d = Seq::<char>::empty();
        law_hex_number_goes_on(d, s[0]);
        law_hex_number_goes_on(d.push(s[0]), s[1]);
        assert(d.push(s[0]).push(s[1]) =~= s);
    }
}

/// A unit id is five hexadecimal digits, the highest one first, and nothing else is
/// one.
pub proof fn law_digits_of_a_unit_id(s: Seq<char>)
    ensures
        s.len() == 5 && (forall|i: int| 0 <= i < 5 ==> hex_value(#[trigger] s[i]) is Some) ==> (
        id_from_hex(s) matches Some(id) && id == UnitId::of(
            (65536 * hex_value(s[0])->0 + 4096 * hex_value(s[1])->0 + 256 * hex_value(s[2])->0 + 16
                * hex_value(s[3])->0 + hex_value(s[4])->0) as u32,
        )),
        s.len() != 5 || (exists|i: int| 0 <= i < 5 && hex_value(#[trigger] s[i]) is None)
            ==> id_from_hex(s) is None,
{
    if s.len() == 5 {
        let d = Seq::<char>::empty();
        law_hex_number_goes_on(d, s[0]);
        law_hex_number_goes_on(d.push(s[0]), s[1]);
        law_hex_number_goes_on(d.push(s[0]).push(s[1]), s[2]);
        law_hex_number_goes_on(d.push(s[0]).push(s[1]).push(s[2]), s[3]);
        law_hex_number_goes_on(d.push(s[0]).push(s[1]).push(s[2]).push(s[3]), s[4]);
        assert(d.push(s[0]).push(s[1]).push(s[2]).push(s[3]).push(s[4]) =~= s);
        if exists|i: int| 0 <= i < 5 && hex_value(#[trigger] s[i]) is None {
            let i = choose|i: int| 0 <= i < 5 && hex_value(#[trigger] s[i]) is None;
            assert(i == 0 || i == 1 || i == 2 || i == 3 || i == 4);
        } else {
            assert(hex_value(s[0]) is Some && hex_value(s[1]) is Some && hex_value(s[2]) is Some
                && hex_value(s[3]) is Some && hex_value(s[4]) is Some);
        }
    }
}

} // verus!
