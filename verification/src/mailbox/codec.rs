//! Conversion between typed payloads and the seven bytes of each register.
use crate::mailbox::dto::{
    ActivationCodeDto, FirmwareDto, InfoByteDto, RfDeviceCalibrationDto, RfDevicePairingDto,
    SensorPairingDto, SensorPairingWriteDto, SystemErrorDto, SystemStatusDto, UnitActivationDto,
    UnitAnnouncementDto, ZoneConfigDto, ZoneLimitsDto, ZoneStateDto,
};
use crate::mailbox::error::{EncodeError, EncodeFault};
use crate::mailbox::kind::{invalid_type, invalid_type_text};
use crate::mailbox::schema::{
    fault, find_fault, find_list_fault, law_list_stands_for_object, list_fault, name_values, named,
    Shape,
};
use crate::mailbox::value::{
    byte_in, copy_members, flag_in, members_model, number_in, text_in, triple_in, values_model,
    FieldModel, Fields, Member, Number, Payload, PayloadModel,
};
use crate::mailbox::words::{
    ActionEnum, ActivationStatus, FanEnum, FreshAirEnum, ModeEnum, PowerEnum, SensorTypeEnum,
    UnitTypeEnum,
};
use crate::registers::payloads::{
    ActivationCode, FirmwareStatus, InfoByte, RfDeviceCalibration, RfDevicePairing,
    SensorPairingRead, SensorPairingWrite, SystemError, SystemStatus, UnitActivation,
    UnitAnnouncement, ZoneConfig, ZoneLimits, ZoneState,
};
use crate::text::{
    chars_of, hex_digit, hex_text, hex_value, push_hex_byte, quoted, quoted_text, text_of,
};
use vstd::prelude::*;
use vstd::string::*;

verus! {

/// Outcome of encoding a payload.
pub type Encoding = Result<[u8; 7], EncodeFault>;

/// What the outcome of an operation that may fail to encode says.
pub open spec fn outcome<T>(r: Result<T, EncodeError>) -> Result<T, EncodeFault> {
    match r {
        Ok(v) => Ok(v),
        Err(e) => Err(e@),
    }
}

/// The byte that two hexadecimal digits stand for.
pub open spec fn pair(digits: Seq<char>, at: int) -> u8 {
    match (hex_value(digits[at]), hex_value(digits[at + 1])) {
        (Some(high), Some(low)) => (16 * high + low) as u8,
        _ => 0,
    }
}

/// All characters are hexadecimal digits.
pub open spec fn all_hex(s: Seq<char>) -> bool {
    forall|i: int| 0 <= i < s.len() ==> hex_value(#[trigger] s[i]) is Some
}

/// All characters are ASCII.
pub open spec fn all_ascii(s: Seq<char>) -> bool {
    forall|i: int| 0 <= i < s.len() ==> #[trigger] s[i] <= '\u{7f}'
}

/// Seven bytes from fourteen hexadecimal digits.
pub open spec fn hex_payload(hex: Seq<char>) -> Encoding {
    if hex.len() == 14 && all_hex(hex) {
        Ok(
            [
                pair(hex, 0),
                pair(hex, 2),
                pair(hex, 4),
                pair(hex, 6),
                pair(hex, 8),
                pair(hex, 10),
                pair(hex, 12),
            ],
        )
    } else {
        Err(EncodeFault::BadHex(hex))
    }
}

/// The byte of two digits.
fn pair_at(digits: &Vec<char>, at: usize) -> (r: u8)
    requires
        at < 16,
        at + 1 < digits@.len(),
    ensures
        r == pair(digits@, at as int),
{
    match (hex_digit(digits[at]), hex_digit(digits[at + 1])) {
        (Some(high), Some(low)) => 16 * high + low,
        _ => 0,
    }
}

/// Whether all characters are hexadecimal digits.
fn is_all_hex(chars: &Vec<char>) -> (r: bool)
    ensures
        r == all_hex(chars@),
{
    let mut i: usize = 0;
    while i < chars.len()
        invariant
            i <= chars@.len(),
            forall|j: int| 0 <= j < i ==> hex_value(#[trigger] chars@[j]) is Some,
        decreases chars@.len() - i,
    {
        if hex_digit(chars[i]).is_none() {
            assert(hex_value(chars@[i as int]) is None);
            return false;
        }
        i = i + 1;
    }
    true
}

/// Whether all characters are ASCII.
fn is_all_ascii(chars: &Vec<char>) -> (r: bool)
    ensures
        r == all_ascii(chars@),
{
    let mut i: usize = 0;
    while i < chars.len()
        invariant
            i <= chars@.len(),
            forall|j: int| 0 <= j < i ==> #[trigger] chars@[j] <= '\u{7f}',
        decreases chars@.len() - i,
    {
        if chars[i] > '\u{7f}' {
            assert(chars@[i as int] > '\u{7f}');
            return false;
        }
        i = i + 1;
    }
    true
}

/// Seven bytes from fourteen hexadecimal digits.
pub fn hex_to_bytes(hex: &str) -> (r: Result<[u8; 7], EncodeError>)
    ensures
        outcome(r) == hex_payload(hex@),
{
    let chars = chars_of(hex);
    if chars.len() == 14 && is_all_hex(&chars) {
        let data: [u8; 7] = [
            pair_at(&chars, 0),
            pair_at(&chars, 2),
            pair_at(&chars, 4),
            pair_at(&chars, 6),
            pair_at(&chars, 8),
            pair_at(&chars, 10),
            pair_at(&chars, 12),
        ];
        proof {
            assert(Ok::<[u8; 7], EncodeFault>(data) == hex_payload(hex@)) by {
                match hex_payload(hex@) {
                    Ok(d) => {
                        assert(data =~= d);
                    },
                    Err(_) => {},
                }
            }
        }
        Ok(data)
    } else {
        Err(EncodeError::BadHex(hex.to_owned()))
    }
}

/// Bytes as lower-case hexadecimal text.
pub fn slice_to_hex(bytes: &[u8]) -> (out: String)
    ensures
        out@ == hex_text(bytes@),
{
    let mut out = String::new();
    let mut i: usize = 0;
    while i < bytes.len()
        invariant
            i <= bytes@.len(),
            out@ == hex_text(bytes@.take(i as int)),
        decreases bytes@.len() - i,
    {
        push_hex_byte(&mut out, bytes[i]);
        proof {
            let next = bytes@.take(i + 1);
            assert(next.drop_last() =~= bytes@.take(i as int));
        }
        i = i + 1;
    }
    proof {
        assert(bytes@.take(i as int) =~= bytes@);
    }
    out
}

/// The raw payload of seven bytes.
pub open spec fn raw(data: [u8; 7]) -> PayloadModel {
    PayloadModel::Text(hex_text(data@))
}

/// The raw payload of seven bytes.
fn raw_payload(data: [u8; 7]) -> (r: Payload)
    ensures
        r@ == raw(data),
{
    Payload::Text(slice_to_hex(&data))
}

/// The fields of a payload of a shape, or what keeps it from being one: an object
/// has them under their names, a list in their order.
pub open spec fn typed(shape: Shape, payload: PayloadModel) -> Result<Fields, EncodeFault> {
    match payload {
        PayloadModel::Object(fields) => match fault(shape.schema(), fields) {
            Some(e) => Err(e),
            None => Ok(fields),
        },
        PayloadModel::List(values) => match list_fault(shape, values, 0) {
            Some(text) => Err(EncodeFault::BadPayload(text)),
            None => Ok(named(shape.schema(), values)),
        },
        _ => Err(EncodeFault::BadPayload(invalid_type(payload.outer(), shape.title()))),
    }
}

/// The members of a payload of a shape.
fn typed_members(shape: Shape, payload: &Payload) -> (r: Result<Vec<Member>, EncodeError>)
    ensures
        match r {
            Ok(members) => typed(shape, payload@) == Ok::<Fields, EncodeFault>(
                members_model(members@),
            ),
            Err(e) => typed(shape, payload@) == Err::<Fields, EncodeFault>(e@),
        },
{
    match payload {
        Payload::Object(members) => match find_fault(shape, members) {
            Some(e) => Err(e),
            None => Ok(copy_members(members)),
        },
        Payload::List(values) => match find_list_fault(shape, values) {
            Some(text) => Err(EncodeError::BadPayload(text)),
            None => {
                proof {
                    law_list_stands_for_object(shape, values_model(values@));
                }
                Ok(name_values(shape, values))
            },
        },
        _ => Err(
            EncodeError::BadPayload(invalid_type_text(&payload.to_outer(), shape.title_text())),
        ),
    }
}

/// The register value that the fields of register `01` hold.
pub open spec fn zone_config_in(f: Fields) -> ZoneConfig {
    ZoneConfig {
        header: byte_in(f, "header"@),
        num_zones: byte_in(f, "total_zones"@),
        num_constant: byte_in(f, "constant_zones"@),
        constant: triple_in(f, "constant_zone_ids"@),
        filter_clean: flag_in(f, "filter_clean_required"@),
    }
}

/// The payload of a value of register `01`.
pub open spec fn zone_config_payload(data: [u8; 7]) -> PayloadModel {
    let v = ZoneConfig::of(data);
    PayloadModel::Object(
        (ZoneConfigDto {
            header: v.header,
            total_zones: v.num_zones,
            constant_zones: v.num_constant,
            constant_zone_ids: v.constant,
            filter_clean_required: v.filter_clean,
        }).fields(),
    )
}

/// Encodes a payload of register `01`.
pub fn encode_zone_config(payload: &Payload) -> (r: Result<[u8; 7], EncodeError>)
    ensures
        outcome(r) == (match typed(Shape::ZoneConfig, payload@) {
            Ok(f) => Ok(zone_config_in(f).bytes()),
            Err(e) => Err(e),
        }),
{
    match typed_members(Shape::ZoneConfig, payload) {
        Ok(members) => {
            let dto = ZoneConfigDto::from_members(&members);
            let v = ZoneConfig {
                header: dto.header,
                num_zones: dto.total_zones,
                num_constant: dto.constant_zones,
                constant: dto.constant_zone_ids,
                filter_clean: dto.filter_clean_required,
            };
            Ok(v.into())
        },
        Err(e) => Err(e),
    }
}

/// Decodes a value of register `01`.
pub fn decode_zone_config(data: [u8; 7]) -> (r: Payload)
    ensures
        r@ == zone_config_payload(data),
{
    let v = ZoneConfig::from(data);
    let dto = ZoneConfigDto {
        header: v.header,
        total_zones: v.num_zones,
        constant_zones: v.num_constant,
        constant_zone_ids: v.constant,
        filter_clean_required: v.filter_clean,
    };
    dto.to_payload()
}

/// The register value that the fields of register `02` hold.
pub open spec fn unit_activation_in(f: Fields) -> UnitActivation {
    UnitActivation {
        unit_type: UnitTypeEnum::value_in(f, "unit_type"@).wire(),
        activation_status: ActivationStatus::value_in(f, "activation_status"@).wire(),
        dict_fw_major: byte_in(f, "dict_fw_major"@),
        dict_fw_minor: byte_in(f, "dict_fw_minor"@),
    }
}

/// The payload of a value of register `02`.
pub open spec fn unit_activation_payload(data: [u8; 7]) -> PayloadModel {
    let v = UnitActivation::of(data);
    match (UnitTypeEnum::of_wire(v.unit_type), ActivationStatus::of_wire(v.activation_status)) {
        (Some(unit_type), Some(activation_status)) => PayloadModel::Object(
            (UnitActivationDto {
                unit_type,
                activation_status,
                dict_fw_major: v.dict_fw_major,
                dict_fw_minor: v.dict_fw_minor,
            }).fields(),
        ),
        _ => raw(data),
    }
}

/// Encodes a payload of register `02`.
pub fn encode_unit_activation(payload: &Payload) -> (r: Result<[u8; 7], EncodeError>)
    ensures
        outcome(r) == (match typed(Shape::UnitActivation, payload@) {
            Ok(f) => Ok(unit_activation_in(f).bytes()),
            Err(e) => Err(e),
        }),
{
    match typed_members(Shape::UnitActivation, payload) {
        Ok(members) => {
            let dto = UnitActivationDto::from_members(&members);
            let v = UnitActivation {
                unit_type: dto.unit_type.to_wire(),
                activation_status: dto.activation_status.to_wire(),
                dict_fw_major: dto.dict_fw_major,
                dict_fw_minor: dto.dict_fw_minor,
            };
            Ok(v.into())
        },
        Err(e) => Err(e),
    }
}

/// Decodes a value of register `02`.
pub fn decode_unit_activation(data: [u8; 7]) -> (r: Payload)
    ensures
        r@ == unit_activation_payload(data),
{
    let v = UnitActivation::from(data);
    match (UnitTypeEnum::from_wire(v.unit_type), ActivationStatus::from_wire(v.activation_status)) {
        (Some(unit_type), Some(activation_status)) => {
            let dto = UnitActivationDto {
                unit_type,
                activation_status,
                dict_fw_major: v.dict_fw_major,
                dict_fw_minor: v.dict_fw_minor,
            };
            dto.to_payload()
        },
        _ => raw_payload(data),
    }
}

/// The register value that the fields of register `03` hold.
pub open spec fn zone_state_in(f: Fields) -> ZoneState {
    ZoneState {
        zone: 0,
        open: flag_in(f, "open"@),
        percent: byte_in(f, "damper_pct"@),
        sensor: SensorTypeEnum::value_in(f, "sensor_type"@).wire(),
        set_temp_x2: number_in(f, "target_temp_c"@).half_degrees(),
        meas_int: number_in(f, "measured_temp_c"@).measured().0,
        meas_dec: number_in(f, "measured_temp_c"@).measured().1,
    }
}

/// The payload of a value of register `03`.
pub open spec fn zone_state_payload(data: [u8; 7]) -> PayloadModel {
    let v = ZoneState::of(data);
    match SensorTypeEnum::of_wire(v.sensor) {
        Some(sensor_type) => PayloadModel::Object(
            (ZoneStateDto {
                open: v.open,
                damper_pct: v.percent,
                sensor_type,
                target_temp_c: Number::Halves(v.set_temp_x2),
                measured_temp_c: (Number::Tenths { whole: v.meas_int, tenths: v.meas_dec }),
            }).fields(),
        ),
        None => raw(data),
    }
}

/// Encodes a payload of register `03`.
pub fn encode_zone_state(payload: &Payload) -> (r: Result<[u8; 7], EncodeError>)
    ensures
        outcome(r) == (match typed(Shape::ZoneState, payload@) {
            Ok(f) => Ok(zone_state_in(f).bytes()),
            Err(e) => Err(e),
        }),
{
    match typed_members(Shape::ZoneState, payload) {
        Ok(members) => {
            let dto = ZoneStateDto::from_members(&members);
            let measured = dto.measured_temp_c.as_measured();
            let v = ZoneState {
                zone: 0,
                open: dto.open,
                percent: dto.damper_pct,
                sensor: dto.sensor_type.to_wire(),
                set_temp_x2: dto.target_temp_c.as_half_degrees(),
                meas_int: measured.0,
                meas_dec: measured.1,
            };
            Ok(v.into())
        },
        Err(e) => Err(e),
    }
}

/// Decodes a value of register `03`.
pub fn decode_zone_state(data: [u8; 7]) -> (r: Payload)
    ensures
        r@ == zone_state_payload(data),
{
    let v = ZoneState::from(data);
    match SensorTypeEnum::from_wire(v.sensor) {
        Some(sensor_type) => {
            let dto = ZoneStateDto {
                open: v.open,
                damper_pct: v.percent,
                sensor_type,
                target_temp_c: Number::Halves(v.set_temp_x2),
                measured_temp_c: (Number::Tenths { whole: v.meas_int, tenths: v.meas_dec }),
            };
            dto.to_payload()
        },
        None => raw_payload(data),
    }
}

/// The register value that the fields of register `04` hold.
pub open spec fn zone_limits_in(f: Fields) -> ZoneLimits {
    ZoneLimits {
        zone: 0,
        min_damper: byte_in(f, "min_damper"@),
        max_damper: byte_in(f, "max_damper"@),
        motion_status: byte_in(f, "motion_status"@),
        motion_config: byte_in(f, "motion_config"@),
        zone_error: byte_in(f, "zone_error"@),
        rssi: byte_in(f, "rssi"@),
    }
}

/// The payload of a value of register `04`.
pub open spec fn zone_limits_payload(data: [u8; 7]) -> PayloadModel {
    let v = ZoneLimits::of(data);
    PayloadModel::Object(
        (ZoneLimitsDto {
            min_damper: v.min_damper,
            max_damper: v.max_damper,
            motion_status: v.motion_status,
            motion_config: v.motion_config,
            zone_error: v.zone_error,
            rssi: v.rssi,
        }).fields(),
    )
}

/// Encodes a payload of register `04`.
pub fn encode_zone_limits(payload: &Payload) -> (r: Result<[u8; 7], EncodeError>)
    ensures
        outcome(r) == (match typed(Shape::ZoneLimits, payload@) {
            Ok(f) => Ok(zone_limits_in(f).bytes()),
            Err(e) => Err(e),
        }),
{
    match typed_members(Shape::ZoneLimits, payload) {
        Ok(members) => {
            let dto = ZoneLimitsDto::from_members(&members);
            let v = ZoneLimits {
                zone: 0,
                min_damper: dto.min_damper,
                max_damper: dto.max_damper,
                motion_status: dto.motion_status,
                motion_config: dto.motion_config,
                zone_error: dto.zone_error,
                rssi: dto.rssi,
            };
            Ok(v.into())
        },
        Err(e) => Err(e),
    }
}

/// Decodes a value of register `04`.
pub fn decode_zone_limits(data: [u8; 7]) -> (r: Payload)
    ensures
        r@ == zone_limits_payload(data),
{
    let v = ZoneLimits::from(data);
    let dto = ZoneLimitsDto {
        min_damper: v.min_damper,
        max_damper: v.max_damper,
        motion_status: v.motion_status,
        motion_config: v.motion_config,
        zone_error: v.zone_error,
        rssi: v.rssi,
    };
    dto.to_payload()
}

/// The register value that the fields of register `05` hold.
pub open spec fn system_status_in(f: Fields) -> SystemStatus {
    SystemStatus {
        power: PowerEnum::value_in(f, "power"@).wire(),
        mode: ModeEnum::value_in(f, "mode"@).wire(),
        fan: FanEnum::value_in(f, "fan"@).wire(),
        set_temp_x2: number_in(f, "target_temp_c"@).half_degrees(),
        myzone_id: byte_in(f, "myzone_id"@),
        fresh_air: FreshAirEnum::value_in(f, "fresh_air"@).wire(),
        rf_sys_id: byte_in(f, "rf_sys_id"@),
    }
}

/// The payload of a value of register `05`.
pub open spec fn system_status_payload(data: [u8; 7]) -> PayloadModel {
    let v = SystemStatus::of(data);
    match (
        PowerEnum::of_wire(v.power),
        ModeEnum::of_wire(v.mode),
        FanEnum::of_wire(v.fan),
        FreshAirEnum::of_wire(v.fresh_air),
    ) {
        (Some(power), Some(mode), Some(fan), Some(fresh_air)) => PayloadModel::Object(
            (SystemStatusDto {
                power,
                mode,
                fan,
                target_temp_c: Number::Halves(v.set_temp_x2),
                myzone_id: v.myzone_id,
                fresh_air,
                rf_sys_id: v.rf_sys_id,
            }).fields(),
        ),
        _ => raw(data),
    }
}

/// Encodes a payload of register `05`.
pub fn encode_system_status(payload: &Payload) -> (r: Result<[u8; 7], EncodeError>)
    ensures
        outcome(r) == (match typed(Shape::SystemStatus, payload@) {
            Ok(f) => Ok(system_status_in(f).bytes()),
            Err(e) => Err(e),
        }),
{
    match typed_members(Shape::SystemStatus, payload) {
        Ok(members) => {
            let dto = SystemStatusDto::from_members(&members);
            let v = SystemStatus {
                power: dto.power.to_wire(),
                mode: dto.mode.to_wire(),
                fan: dto.fan.to_wire(),
                set_temp_x2: dto.target_temp_c.as_half_degrees(),
                myzone_id: dto.myzone_id,
                fresh_air: dto.fresh_air.to_wire(),
                rf_sys_id: dto.rf_sys_id,
            };
            Ok(v.into())
        },
        Err(e) => Err(e),
    }
}

/// Decodes a value of register `05`.
pub fn decode_system_status(data: [u8; 7]) -> (r: Payload)
    ensures
        r@ == system_status_payload(data),
{
    let v = SystemStatus::from(data);
    match (
        PowerEnum::from_wire(v.power),
        ModeEnum::from_wire(v.mode),
        FanEnum::from_wire(v.fan),
        FreshAirEnum::from_wire(v.fresh_air),
    ) {
        (Some(power), Some(mode), Some(fan), Some(fresh_air)) => {
            let dto = SystemStatusDto {
                power,
                mode,
                fan,
                target_temp_c: Number::Halves(v.set_temp_x2),
                myzone_id: v.myzone_id,
                fresh_air,
                rf_sys_id: v.rf_sys_id,
            };
            dto.to_payload()
        },
        _ => raw_payload(data),
    }
}

/// The register value that the fields of register `06` hold.
pub open spec fn firmware_in(f: Fields) -> FirmwareStatus {
    FirmwareStatus {
        fw_major: byte_in(f, "fw_major"@),
        fw_minor: byte_in(f, "fw_minor"@),
        cb_type: byte_in(f, "cb_type"@),
        rf_fw_major: byte_in(f, "rf_fw_major"@),
    }
}

/// The payload of a value of register `06`.
pub open spec fn firmware_payload(data: [u8; 7]) -> PayloadModel {
    let v = FirmwareStatus::of(data);
    PayloadModel::Object(
        (FirmwareDto {
            fw_major: v.fw_major,
            fw_minor: v.fw_minor,
            cb_type: v.cb_type,
            rf_fw_major: v.rf_fw_major,
        }).fields(),
    )
}

/// Encodes a payload of register `06`.
pub fn encode_firmware(payload: &Payload) -> (r: Result<[u8; 7], EncodeError>)
    ensures
        outcome(r) == (match typed(Shape::Firmware, payload@) {
            Ok(f) => Ok(firmware_in(f).bytes()),
            Err(e) => Err(e),
        }),
{
    match typed_members(Shape::Firmware, payload) {
        Ok(members) => {
            let dto = FirmwareDto::from_members(&members);
            let v = FirmwareStatus {
                fw_major: dto.fw_major,
                fw_minor: dto.fw_minor,
                cb_type: dto.cb_type,
                rf_fw_major: dto.rf_fw_major,
            };
            Ok(v.into())
        },
        Err(e) => Err(e),
    }
}

/// Decodes a value of register `06`.
pub fn decode_firmware(data: [u8; 7]) -> (r: Payload)
    ensures
        r@ == firmware_payload(data),
{
    let v = FirmwareStatus::from(data);
    let dto = FirmwareDto {
        fw_major: v.fw_major,
        fw_minor: v.fw_minor,
        cb_type: v.cb_type,
        rf_fw_major: v.rf_fw_major,
    };
    dto.to_payload()
}

/// The register value that the fields of register `13` hold.
pub open spec fn info_byte_in(f: Fields) -> InfoByte {
    InfoByte {
        info_byte: byte_in(f, "info_byte"@),
        rest: [0u8, 0u8, 0u8, 0u8, 0u8, 0u8],
    }
}

/// The payload of a value of register `13`.
pub open spec fn info_byte_payload(data: [u8; 7]) -> PayloadModel {
    let v = InfoByte::of(data);
    PayloadModel::Object((InfoByteDto { info_byte: v.info_byte }).fields())
}

/// Encodes a payload of register `13`.
pub fn encode_info_byte(payload: &Payload) -> (r: Result<[u8; 7], EncodeError>)
    ensures
        outcome(r) == (match typed(Shape::InfoByte, payload@) {
            Ok(f) => Ok(info_byte_in(f).bytes()),
            Err(e) => Err(e),
        }),
{
    match typed_members(Shape::InfoByte, payload) {
        Ok(members) => {
            let dto = InfoByteDto::from_members(&members);
            let v = InfoByte {
                info_byte: dto.info_byte,
                rest: [0u8, 0u8, 0u8, 0u8, 0u8, 0u8],
            };
            proof {
                assert(v.rest =~= info_byte_in(members_model(members@)).rest);
            }
            Ok(v.into())
        },
        Err(e) => Err(e),
    }
}

/// Decodes a value of register `13`.
pub fn decode_info_byte(data: [u8; 7]) -> (r: Payload)
    ensures
        r@ == info_byte_payload(data),
{
    let v = InfoByte::from(data);
    let dto = InfoByteDto { info_byte: v.info_byte };
    dto.to_payload()
}

/// The register value that the fields of register `26` hold.
pub open spec fn rf_device_pairing_in(f: Fields) -> RfDevicePairing {
    RfDevicePairing {
        pairing_control: byte_in(f, "pairing_control"@),
        rf_device_type: byte_in(f, "rf_device_type"@),
        zone_channel: byte_in(f, "zone_channel"@),
    }
}

/// The payload of a value of register `26`.
pub open spec fn rf_device_pairing_payload(data: [u8; 7]) -> PayloadModel {
    let v = RfDevicePairing::of(data);
    PayloadModel::Object(
        (RfDevicePairingDto {
            pairing_control: v.pairing_control,
            rf_device_type: v.rf_device_type,
            zone_channel: v.zone_channel,
        }).fields(),
    )
}

/// Encodes a payload of register `26`.
pub fn encode_rf_device_pairing(payload: &Payload) -> (r: Result<[u8; 7], EncodeError>)
    ensures
        outcome(r) == (match typed(Shape::RfDevicePairing, payload@) {
            Ok(f) => Ok(rf_device_pairing_in(f).bytes()),
            Err(e) => Err(e),
        }),
{
    match typed_members(Shape::RfDevicePairing, payload) {
        Ok(members) => {
            let dto = RfDevicePairingDto::from_members(&members);
            let v = RfDevicePairing {
                pairing_control: dto.pairing_control,
                rf_device_type: dto.rf_device_type,
                zone_channel: dto.zone_channel,
            };
            Ok(v.into())
        },
        Err(e) => Err(e),
    }
}

/// Decodes a value of register `26`.
pub fn decode_rf_device_pairing(data: [u8; 7]) -> (r: Payload)
    ensures
        r@ == rf_device_pairing_payload(data),
{
    let v = RfDevicePairing::from(data);
    let dto = RfDevicePairingDto {
        pairing_control: v.pairing_control,
        rf_device_type: v.rf_device_type,
        zone_channel: v.zone_channel,
    };
    dto.to_payload()
}

/// The register value that the fields of register `27` hold.
pub open spec fn rf_device_calibration_in(f: Fields) -> RfDeviceCalibration {
    RfDeviceCalibration {
        calibration_control: byte_in(f, "calibration_control"@),
        channel: byte_in(f, "channel"@),
        up_down_position: byte_in(f, "up_down_position"@),
    }
}

/// The payload of a value of register `27`.
pub open spec fn rf_device_calibration_payload(data: [u8; 7]) -> PayloadModel {
    let v = RfDeviceCalibration::of(data);
    PayloadModel::Object(
        (RfDeviceCalibrationDto {
            calibration_control: v.calibration_control,
            channel: v.channel,
            up_down_position: v.up_down_position,
        }).fields(),
    )
}

/// Encodes a payload of register `27`.
pub fn encode_rf_device_calibration(payload: &Payload) -> (r: Result<[u8; 7], EncodeError>)
    ensures
        outcome(r) == (match typed(Shape::RfDeviceCalibration, payload@) {
            Ok(f) => Ok(rf_device_calibration_in(f).bytes()),
            Err(e) => Err(e),
        }),
{
    match typed_members(Shape::RfDeviceCalibration, payload) {
        Ok(members) => {
            let dto = RfDeviceCalibrationDto::from_members(&members);
            let v = RfDeviceCalibration {
                calibration_control: dto.calibration_control,
                channel: dto.channel,
                up_down_position: dto.up_down_position,
            };
            Ok(v.into())
        },
        Err(e) => Err(e),
    }
}

/// Decodes a value of register `27`.
pub fn decode_rf_device_calibration(data: [u8; 7]) -> (r: Payload)
    ensures
        r@ == rf_device_calibration_payload(data),
{
    let v = RfDeviceCalibration::from(data);
    let dto = RfDeviceCalibrationDto {
        calibration_control: v.calibration_control,
        channel: v.channel,
        up_down_position: v.up_down_position,
    };
    dto.to_payload()
}

/// A text without its trailing NUL characters and spaces.
pub open spec fn trim_code(s: Seq<char>) -> Seq<char>
    decreases s.len(),
{
    if s.len() > 0 && (s.last() == '\0' || s.last() == ' ') {
        trim_code(s.drop_last())
    } else {
        s
    }
}

/// The characters with the numbers of five bytes.
pub open spec fn code_chars(code: [u8; 5]) -> Seq<char> {
    seq![code[0] as char, code[1] as char, code[2] as char, code[3] as char, code[4] as char]
}

/// The bytes of an error code of five ASCII characters.
pub open spec fn error_bytes(code: Seq<char>) -> Encoding {
    if code.len() == 5 && all_ascii(code) {
        Ok(
            (SystemError {
                error_code: [
                    code[0] as u8,
                    code[1] as u8,
                    code[2] as u8,
                    code[3] as u8,
                    code[4] as u8,
                ],
            }).bytes(),
        )
    } else {
        Err(
            EncodeFault::BadPayload(
                "error_code must be exactly 5 ASCII chars: "@ + quoted(code),
            ),
        )
    }
}

/// Encodes a payload of register `08`.
pub fn encode_system_error(payload: &Payload) -> (r: Result<[u8; 7], EncodeError>)
    ensures
        outcome(r) == (match typed(Shape::SystemError, payload@) {
            Ok(f) => error_bytes(text_in(f, "error_code"@)),
            Err(e) => Err(e),
        }),
{
    match typed_members(Shape::SystemError, payload) {
        Ok(members) => {
            let dto = SystemErrorDto::from_members(&members);
            let chars = chars_of(dto.error_code.as_str());
            if chars.len() == 5 && is_all_ascii(&chars) {
                let error_code: [u8; 5] = [
                    chars[0] as u8,
                    chars[1] as u8,
                    chars[2] as u8,
                    chars[3] as u8,
                    chars[4] as u8,
                ];
                let v = SystemError { error_code };
                let data: [u8; 7] = v.into();
                proof {
                    match error_bytes(dto.error_code@) {
                        Ok(d) => {
                            assert(data =~= d);
                        },
                        Err(_) => {},
                    }
                }
                Ok(data)
            } else {
                let mut text = "error_code must be exactly 5 ASCII chars: ".to_owned();
                let shown = quoted_text(dto.error_code.as_str());
                text.append(shown.as_str());
                Err(EncodeError::BadPayload(text))
            }
        },
        Err(e) => Err(e),
    }
}

/// The payload of a value of register `08`.
pub open spec fn system_error_payload(data: [u8; 7]) -> PayloadModel {
    PayloadModel::Object(
        seq![
            (
                "error_code"@,
                FieldModel::Text(trim_code(code_chars(SystemError::of(data).error_code))),
            ),
        ],
    )
}

/// Decodes a value of register `08`.
pub fn decode_system_error(data: [u8; 7]) -> (r: Payload)
    ensures
        r@ == system_error_payload(data),
{
    let v = SystemError::from(data);
    let code = v.error_code;
    let mut chars: Vec<char> = Vec::new();
    chars.push(code[0] as char);
    chars.push(code[1] as char);
    chars.push(code[2] as char);
    chars.push(code[3] as char);
    chars.push(code[4] as char);
    proof {
        assert(chars@ =~= code_chars(code));
    }
    let ghost whole = chars@;
    while chars.len() > 0 && (chars[chars.len() - 1] == '\0' || chars[chars.len() - 1] == ' ')
        invariant
            trim_code(chars@) == trim_code(whole),
        decreases chars@.len(),
    {
        let ghost before = chars@;
        let _ = chars.pop();
        proof {
            assert(chars@ =~= before.drop_last());
        }
    }
    let dto = SystemErrorDto { error_code: text_of(chars.as_slice()) };
    dto.to_payload()
}

/// The two bytes of an unlock code.
pub open spec fn unlock_bytes(code: Seq<char>) -> Result<[u8; 2], EncodeFault> {
    if code.len() != 4 || !all_ascii(code) {
        Err(EncodeFault::BadHex(code))
    } else if !all_hex(code.take(2)) {
        Err(EncodeFault::BadHex(code.take(2)))
    } else if !all_hex(code.skip(2)) {
        Err(EncodeFault::BadHex(code.skip(2)))
    } else {
        Ok([pair(code, 0), pair(code, 2)])
    }
}

/// The two bytes of an unlock code.
fn unlock_to_bytes(code: &str) -> (r: Result<[u8; 2], EncodeError>)
    ensures
        outcome(r) == unlock_bytes(code@),
{
    let chars = chars_of(code);
    if chars.len() != 4 || !is_all_ascii(&chars) {
        return Err(EncodeError::BadHex(code.to_owned()));
    }
    let mut first: Vec<char> = Vec::new();
    first.push(chars[0]);
    first.push(chars[1]);
    let mut second: Vec<char> = Vec::new();
    second.push(chars[2]);
    second.push(chars[3]);
    proof {
        assert(first@ =~= code@.take(2));
        assert(second@ =~= code@.skip(2));
    }
    if !is_all_hex(&first) {
        return Err(EncodeError::BadHex(text_of(first.as_slice())));
    }
    if !is_all_hex(&second) {
        return Err(EncodeError::BadHex(text_of(second.as_slice())));
    }
    let bytes: [u8; 2] = [pair_at(&chars, 0), pair_at(&chars, 2)];
    proof {
        match unlock_bytes(code@) {
            Ok(b) => {
                assert(bytes =~= b);
            },
            Err(_) => {},
        }
    }
    Ok(bytes)
}

/// The bytes that the fields of register `09` hold.
pub open spec fn activation_code_bytes(f: Fields) -> Encoding {
    match unlock_bytes(text_in(f, "unlock_code"@)) {
        Ok(unlock_code) => Ok(
            (ActivationCode {
                action: ActionEnum::value_in(f, "action"@).wire(),
                unlock_code,
                activation_days: byte_in(f, "activation_days"@),
            }).bytes(),
        ),
        Err(e) => Err(e),
    }
}

/// Encodes a payload of register `09`.
pub fn encode_activation_code(payload: &Payload) -> (r: Result<[u8; 7], EncodeError>)
    ensures
        outcome(r) == (match typed(Shape::ActivationCode, payload@) {
            Ok(f) => activation_code_bytes(f),
            Err(e) => Err(e),
        }),
{
    match typed_members(Shape::ActivationCode, payload) {
        Ok(members) => {
            let dto = ActivationCodeDto::from_members(&members);
            match unlock_to_bytes(dto.unlock_code.as_str()) {
                Ok(unlock_code) => {
                    let v = ActivationCode {
                        action: dto.action.to_wire(),
                        unlock_code,
                        activation_days: dto.activation_days,
                    };
                    Ok(v.into())
                },
                Err(e) => Err(e),
            }
        },
        Err(e) => Err(e),
    }
}

/// The payload of a value of register `09`.
pub open spec fn activation_code_payload(data: [u8; 7]) -> PayloadModel {
    let v = ActivationCode::of(data);
    match ActionEnum::of_wire(v.action) {
        Some(action) => PayloadModel::Object(
            seq![
                ("action"@, FieldModel::Text(action.word())),
                ("unlock_code"@, FieldModel::Text(hex_text(v.unlock_code@))),
                (
                    "activation_days"@,
                    FieldModel::Number(Number::Integer(v.activation_days as u64)),
                ),
            ],
        ),
        None => raw(data),
    }
}

/// Decodes a value of register `09`.
pub fn decode_activation_code(data: [u8; 7]) -> (r: Payload)
    ensures
        r@ == activation_code_payload(data),
{
    let v = ActivationCode::from(data);
    match ActionEnum::from_wire(v.action) {
        Some(action) => {
            let dto = ActivationCodeDto {
                action,
                unlock_code: slice_to_hex(&v.unlock_code),
                activation_days: v.activation_days,
            };
            dto.to_payload()
        },
        None => raw_payload(data),
    }
}

/// Encodes a payload of register `0a`.
pub fn encode_unit_announcement(payload: &Payload) -> (r: Result<[u8; 7], EncodeError>)
    ensures
        outcome(r) == (match typed(Shape::UnitAnnouncement, payload@) {
            Ok(_) => Ok((UnitAnnouncement {  }).bytes()),
            Err(e) => Err(e),
        }),
{
    match typed_members(Shape::UnitAnnouncement, payload) {
        Ok(_) => {
            let v = UnitAnnouncement {  };
            Ok(v.into())
        },
        Err(e) => Err(e),
    }
}

/// Decodes a value of register `0a`, which has no fields.
pub fn decode_unit_announcement(_data: [u8; 7]) -> (r: Payload)
    ensures
        r@ == PayloadModel::Object(seq![]),
{
    let dto = UnitAnnouncementDto {  };
    dto.to_payload()
}

/// The three bytes of a sensor uid of six hexadecimal digits.
pub open spec fn uid_bytes(uid: Seq<char>) -> Result<[u8; 3], EncodeFault> {
    if uid.len() == 6 && all_hex(uid) {
        Ok([pair(uid, 0), pair(uid, 2), pair(uid, 4)])
    } else {
        Err(EncodeFault::BadHex(uid))
    }
}

/// The three bytes of a sensor uid.
pub fn sensor_uid_to_bytes(uid: &str) -> (r: Result<[u8; 3], EncodeError>)
    ensures
        outcome(r) == uid_bytes(uid@),
{
    let chars = chars_of(uid);
    if chars.len() == 6 && is_all_hex(&chars) {
        let bytes: [u8; 3] = [pair_at(&chars, 0), pair_at(&chars, 2), pair_at(&chars, 4)];
        proof {
            match uid_bytes(uid@) {
                Ok(b) => {
                    assert(bytes =~= b);
                },
                Err(_) => {},
            }
        }
        Ok(bytes)
    } else {
        Err(EncodeError::BadHex(uid.to_owned()))
    }
}

/// The bytes that the fields of register `12` hold, as it is read.
pub open spec fn pairing_read_bytes(f: Fields) -> Encoding {
    match uid_bytes(text_in(f, "sensor_uid"@)) {
        Ok(sensor_uid) => Ok(
            (SensorPairingRead {
                sensor_uid,
                info_byte: if flag_in(f, "pairing"@) {
                    0x40
                } else {
                    0x00
                },
                sensor_rev: byte_in(f, "sensor_rev"@),
            }).bytes(),
        ),
        Err(e) => Err(e),
    }
}

/// The bytes that the fields of register `12` hold, as it is written.
pub open spec fn pairing_write_bytes(f: Fields) -> Encoding {
    match uid_bytes(text_in(f, "sensor_uid"@)) {
        Ok(sensor_uid) => Ok(
            (SensorPairingWrite { sensor_uid, zone: byte_in(f, "zone"@) }).bytes(),
        ),
        Err(e) => Err(e),
    }
}

/// The bytes of a payload of register `12`: of the shape that is read where the
/// payload has it, else of the shape that is written.
pub open spec fn sensor_pairing_bytes(payload: PayloadModel) -> Encoding {
    match typed(Shape::SensorPairing, payload) {
        Ok(f) => pairing_read_bytes(f),
        Err(_) => match typed(Shape::SensorPairingWrite, payload) {
            Ok(f) => pairing_write_bytes(f),
            Err(e) => Err(e),
        },
    }
}

/// Encodes the shape of register `12` that is read.
fn encode_sensor_pairing_read(members: &Vec<Member>) -> (r: Result<[u8; 7], EncodeError>)
    ensures
        outcome(r) == pairing_read_bytes(members_model(members@)),
{
    let dto = SensorPairingDto::from_members(members);
    match sensor_uid_to_bytes(dto.sensor_uid.as_str()) {
        Ok(sensor_uid) => {
            let v = SensorPairingRead {
                sensor_uid,
                info_byte: if dto.pairing {
                    0x40
                } else {
                    0x00
                },
                sensor_rev: dto.sensor_rev,
            };
            Ok(v.into())
        },
        Err(e) => Err(e),
    }
}

/// Encodes the shape of register `12` that is written.
fn encode_sensor_pairing_write(members: &Vec<Member>) -> (r: Result<[u8; 7], EncodeError>)
    ensures
        outcome(r) == pairing_write_bytes(members_model(members@)),
{
    let dto = SensorPairingWriteDto::from_members(members);
    match sensor_uid_to_bytes(dto.sensor_uid.as_str()) {
        Ok(sensor_uid) => {
            let v = SensorPairingWrite { sensor_uid, zone: dto.zone };
            Ok(v.into())
        },
        Err(e) => Err(e),
    }
}

/// Encodes a payload of register `12`.
pub fn encode_sensor_pairing(payload: &Payload) -> (r: Result<[u8; 7], EncodeError>)
    ensures
        outcome(r) == sensor_pairing_bytes(payload@),
{
    match typed_members(Shape::SensorPairing, payload) {
        Ok(members) => encode_sensor_pairing_read(&members),
        Err(_) => match typed_members(Shape::SensorPairingWrite, payload) {
            Ok(members) => encode_sensor_pairing_write(&members),
            Err(e) => Err(e),
        },
    }
}

/// The payload of a value of register `12`: pairing is bit 6 of the info byte.
pub open spec fn sensor_pairing_payload(data: [u8; 7]) -> PayloadModel {
    let v = SensorPairingRead::of(data);
    PayloadModel::Object(
        seq![
            ("sensor_uid"@, FieldModel::Text(hex_text(v.sensor_uid@))),
            ("pairing"@, FieldModel::Bool(v.info_byte & 0x40 != 0)),
            ("sensor_rev"@, FieldModel::Number(Number::Integer(v.sensor_rev as u64))),
        ],
    )
}

/// Decodes a value of register `12`.
pub fn decode_sensor_pairing(data: [u8; 7]) -> (r: Payload)
    ensures
        r@ == sensor_pairing_payload(data),
{
    let v = SensorPairingRead::from(data);
    let dto = SensorPairingDto {
        sensor_uid: slice_to_hex(&v.sensor_uid),
        pairing: v.info_byte & 0x40 != 0,
        sensor_rev: v.sensor_rev,
    };
    dto.to_payload()
}

} // verus!
