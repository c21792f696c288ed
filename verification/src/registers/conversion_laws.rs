//! What conversions between bytes and values give.
use crate::registers::enums::{
    Action, ActivationStatus, Fan, FreshAir, Mode, Power, SensorType, UnitBrand,
};
use crate::registers::ids::{IdError, RegId, UnitId, UnitType};
use crate::registers::payloads::{
    ActivationCode, FirmwareStatus, InfoByte, RfDeviceCalibration, RfDevicePairing,
    SensorPairingRead, SensorPairingWrite, SystemError, SystemStatus, UnitActivation,
    UnitAnnouncement, ZoneConfig, ZoneLimits, ZoneState,
};
use crate::registers::wire::{Dest, WireError};
use vstd::prelude::*;
use vstd::std_specs::convert::{FromSpec, TryFromSpec};

verus! {

/// A byte becomes the [`Power`] that it means, and back.
pub proof fn law_conversions_of_power(value: u8, v: Power)
    ensures
        <Power as FromSpec<u8>>::obeys_from_spec(),
        <Power as FromSpec<u8>>::from_spec(value) == Power::of(value),
        <u8 as FromSpec<Power>>::obeys_from_spec(),
        <u8 as FromSpec<Power>>::from_spec(v) == v.byte(),
{
}

/// A byte becomes the [`Mode`] that it means, and back.
pub proof fn law_conversions_of_mode(value: u8, v: Mode)
    ensures
        <Mode as FromSpec<u8>>::obeys_from_spec(),
        <Mode as FromSpec<u8>>::from_spec(value) == Mode::of(value),
        <u8 as FromSpec<Mode>>::obeys_from_spec(),
        <u8 as FromSpec<Mode>>::from_spec(v) == v.byte(),
{
}

/// A byte becomes the [`Fan`] that it means, and back.
pub proof fn law_conversions_of_fan(value: u8, v: Fan)
    ensures
        <Fan as FromSpec<u8>>::obeys_from_spec(),
        <Fan as FromSpec<u8>>::from_spec(value) == Fan::of(value),
        <u8 as FromSpec<Fan>>::obeys_from_spec(),
        <u8 as FromSpec<Fan>>::from_spec(v) == v.byte(),
{
}

/// A byte becomes the [`FreshAir`] that it means, and back.
pub proof fn law_conversions_of_fresh_air(value: u8, v: FreshAir)
    ensures
        <FreshAir as FromSpec<u8>>::obeys_from_spec(),
        <FreshAir as FromSpec<u8>>::from_spec(value) == FreshAir::of(value),
        <u8 as FromSpec<FreshAir>>::obeys_from_spec(),
        <u8 as FromSpec<FreshAir>>::from_spec(v) == v.byte(),
{
}

/// A byte becomes the [`SensorType`] that it means, and back.
pub proof fn law_conversions_of_sensor_type(value: u8, v: SensorType)
    ensures
        <SensorType as FromSpec<u8>>::obeys_from_spec(),
        <SensorType as FromSpec<u8>>::from_spec(value) == SensorType::of(value),
        <u8 as FromSpec<SensorType>>::obeys_from_spec(),
        <u8 as FromSpec<SensorType>>::from_spec(v) == v.byte(),
{
}

/// A byte becomes the [`UnitBrand`] that it means, and back.
pub proof fn law_conversions_of_unit_brand(value: u8, v: UnitBrand)
    ensures
        <UnitBrand as FromSpec<u8>>::obeys_from_spec(),
        <UnitBrand as FromSpec<u8>>::from_spec(value) == UnitBrand::of(value),
        <u8 as FromSpec<UnitBrand>>::obeys_from_spec(),
        <u8 as FromSpec<UnitBrand>>::from_spec(v) == v.byte(),
{
}

/// A byte becomes the [`ActivationStatus`] that it means, and back.
pub proof fn law_conversions_of_activation_status(value: u8, v: ActivationStatus)
    ensures
        <ActivationStatus as FromSpec<u8>>::obeys_from_spec(),
        <ActivationStatus as FromSpec<u8>>::from_spec(value) == ActivationStatus::of(value),
        <u8 as FromSpec<ActivationStatus>>::obeys_from_spec(),
        <u8 as FromSpec<ActivationStatus>>::from_spec(v) == v.byte(),
{
}

/// A byte becomes the [`Action`] that it means, and back.
pub proof fn law_conversions_of_action(value: u8, v: Action)
    ensures
        <Action as FromSpec<u8>>::obeys_from_spec(),
        <Action as FromSpec<u8>>::from_spec(value) == Action::of(value),
        <u8 as FromSpec<Action>>::obeys_from_spec(),
        <u8 as FromSpec<Action>>::from_spec(v) == v.byte(),
{
}

/// A byte becomes the [`Dest`] that it means, and back.
pub proof fn law_conversions_of_dest(value: u8, v: Dest)
    ensures
        <Dest as FromSpec<u8>>::obeys_from_spec(),
        <Dest as FromSpec<u8>>::from_spec(value) == Dest::of(value),
        <u8 as FromSpec<Dest>>::obeys_from_spec(),
        <u8 as FromSpec<Dest>>::from_spec(v) == v.byte(),
{
}

/// Seven bytes become the [`ZoneConfig`] that they hold, and back.
pub proof fn law_conversions_of_zone_config(data: [u8; 7], v: ZoneConfig)
    ensures
        <ZoneConfig as FromSpec<[u8; 7]>>::obeys_from_spec(),
        <ZoneConfig as FromSpec<[u8; 7]>>::from_spec(data) == ZoneConfig::of(data),
        <[u8; 7] as FromSpec<ZoneConfig>>::obeys_from_spec(),
        <[u8; 7] as FromSpec<ZoneConfig>>::from_spec(v) == v.bytes(),
{
}

/// Seven bytes become the [`ZoneState`] that they hold, and back.
pub proof fn law_conversions_of_zone_state(data: [u8; 7], v: ZoneState)
    ensures
        <ZoneState as FromSpec<[u8; 7]>>::obeys_from_spec(),
        <ZoneState as FromSpec<[u8; 7]>>::from_spec(data) == ZoneState::of(data),
        <[u8; 7] as FromSpec<ZoneState>>::obeys_from_spec(),
        <[u8; 7] as FromSpec<ZoneState>>::from_spec(v) == v.bytes(),
{
}

/// Seven bytes become the [`SystemStatus`] that they hold, and back.
pub proof fn law_conversions_of_system_status(data: [u8; 7], v: SystemStatus)
    ensures
        <SystemStatus as FromSpec<[u8; 7]>>::obeys_from_spec(),
        <SystemStatus as FromSpec<[u8; 7]>>::from_spec(data) == SystemStatus::of(data),
        <[u8; 7] as FromSpec<SystemStatus>>::obeys_from_spec(),
        <[u8; 7] as FromSpec<SystemStatus>>::from_spec(v) == v.bytes(),
{
}

/// Seven bytes become the [`FirmwareStatus`] that they hold, and back.
pub proof fn law_conversions_of_firmware_status(data: [u8; 7], v: FirmwareStatus)
    ensures
        <FirmwareStatus as FromSpec<[u8; 7]>>::obeys_from_spec(),
        <FirmwareStatus as FromSpec<[u8; 7]>>::from_spec(data) == FirmwareStatus::of(data),
        <[u8; 7] as FromSpec<FirmwareStatus>>::obeys_from_spec(),
        <[u8; 7] as FromSpec<FirmwareStatus>>::from_spec(v) == v.bytes(),
{
}

/// Seven bytes become the [`UnitActivation`] that they hold, and back.
pub proof fn law_conversions_of_unit_activation(data: [u8; 7], v: UnitActivation)
    ensures
        <UnitActivation as FromSpec<[u8; 7]>>::obeys_from_spec(),
        <UnitActivation as FromSpec<[u8; 7]>>::from_spec(data) == UnitActivation::of(data),
        <[u8; 7] as FromSpec<UnitActivation>>::obeys_from_spec(),
        <[u8; 7] as FromSpec<UnitActivation>>::from_spec(v) == v.bytes(),
{
}

/// Seven bytes become the [`ZoneLimits`] that they hold, and back.
pub proof fn law_conversions_of_zone_limits(data: [u8; 7], v: ZoneLimits)
    ensures
        <ZoneLimits as FromSpec<[u8; 7]>>::obeys_from_spec(),
        <ZoneLimits as FromSpec<[u8; 7]>>::from_spec(data) == ZoneLimits::of(data),
        <[u8; 7] as FromSpec<ZoneLimits>>::obeys_from_spec(),
        <[u8; 7] as FromSpec<ZoneLimits>>::from_spec(v) == v.bytes(),
{
}

/// Seven bytes become the [`SystemError`] that they hold, and back.
pub proof fn law_conversions_of_system_error(data: [u8; 7], v: SystemError)
    ensures
        <SystemError as FromSpec<[u8; 7]>>::obeys_from_spec(),
        <SystemError as FromSpec<[u8; 7]>>::from_spec(data) == SystemError::of(data),
        <[u8; 7] as FromSpec<SystemError>>::obeys_from_spec(),
        <[u8; 7] as FromSpec<SystemError>>::from_spec(v) == v.bytes(),
{
}

/// Seven bytes become the [`ActivationCode`] that they hold, and back.
pub proof fn law_conversions_of_activation_code(data: [u8; 7], v: ActivationCode)
    ensures
        <ActivationCode as FromSpec<[u8; 7]>>::obeys_from_spec(),
        <ActivationCode as FromSpec<[u8; 7]>>::from_spec(data) == ActivationCode::of(data),
        <[u8; 7] as FromSpec<ActivationCode>>::obeys_from_spec(),
        <[u8; 7] as FromSpec<ActivationCode>>::from_spec(v) == v.bytes(),
{
}

/// Seven bytes become the [`UnitAnnouncement`] that they hold, and back.
pub proof fn law_conversions_of_unit_announcement(data: [u8; 7], v: UnitAnnouncement)
    ensures
        <UnitAnnouncement as FromSpec<[u8; 7]>>::obeys_from_spec(),
        <UnitAnnouncement as FromSpec<[u8; 7]>>::from_spec(data) == UnitAnnouncement::of(data),
        <[u8; 7] as FromSpec<UnitAnnouncement>>::obeys_from_spec(),
        <[u8; 7] as FromSpec<UnitAnnouncement>>::from_spec(v) == v.bytes(),
{
}

/// Seven bytes become the [`SensorPairingRead`] that they hold, and back.
pub proof fn law_conversions_of_sensor_pairing_read(data: [u8; 7], v: SensorPairingRead)
    ensures
        <SensorPairingRead as FromSpec<[u8; 7]>>::obeys_from_spec(),
        <SensorPairingRead as FromSpec<[u8; 7]>>::from_spec(data) == SensorPairingRead::of(data),
        <[u8; 7] as FromSpec<SensorPairingRead>>::obeys_from_spec(),
        <[u8; 7] as FromSpec<SensorPairingRead>>::from_spec(v) == v.bytes(),
{
}

/// Seven bytes become the [`SensorPairingWrite`] that they hold, and back.
pub proof fn law_conversions_of_sensor_pairing_write(data: [u8; 7], v: SensorPairingWrite)
    ensures
        <SensorPairingWrite as FromSpec<[u8; 7]>>::obeys_from_spec(),
        <SensorPairingWrite as FromSpec<[u8; 7]>>::from_spec(data) == SensorPairingWrite::of(data),
        <[u8; 7] as FromSpec<SensorPairingWrite>>::obeys_from_spec(),
        <[u8; 7] as FromSpec<SensorPairingWrite>>::from_spec(v) == v.bytes(),
{
}

/// Seven bytes become the [`InfoByte`] that they hold, and back.
pub proof fn law_conversions_of_info_byte(data: [u8; 7], v: InfoByte)
    ensures
        <InfoByte as FromSpec<[u8; 7]>>::obeys_from_spec(),
        <InfoByte as FromSpec<[u8; 7]>>::from_spec(data) == InfoByte::of(data),
        <[u8; 7] as FromSpec<InfoByte>>::obeys_from_spec(),
        <[u8; 7] as FromSpec<InfoByte>>::from_spec(v) == v.bytes(),
{
}

/// Seven bytes become the [`RfDevicePairing`] that they hold, and back.
pub proof fn law_conversions_of_rf_device_pairing(data: [u8; 7], v: RfDevicePairing)
    ensures
        <RfDevicePairing as FromSpec<[u8; 7]>>::obeys_from_spec(),
        <RfDevicePairing as FromSpec<[u8; 7]>>::from_spec(data) == RfDevicePairing::of(data),
        <[u8; 7] as FromSpec<RfDevicePairing>>::obeys_from_spec(),
        <[u8; 7] as FromSpec<RfDevicePairing>>::from_spec(v) == v.bytes(),
{
}

/// Seven bytes become the [`RfDeviceCalibration`] that they hold, and back.
pub proof fn law_conversions_of_rf_device_calibration(data: [u8; 7], v: RfDeviceCalibration)
    ensures
        <RfDeviceCalibration as FromSpec<[u8; 7]>>::obeys_from_spec(),
        <RfDeviceCalibration as FromSpec<[u8; 7]>>::from_spec(data)
            == RfDeviceCalibration::of(data),
        <[u8; 7] as FromSpec<RfDeviceCalibration>>::obeys_from_spec(),
        <[u8; 7] as FromSpec<RfDeviceCalibration>>::from_spec(v) == v.bytes(),
{
}

/// Identifiers are their numbers, and a unit id has at most twenty bits.
pub proof fn law_conversions_of_identifiers(b: u8, n: u32, t: UnitType, reg: RegId, id: UnitId)
    ensures
        <UnitType as FromSpec<u8>>::obeys_from_spec(),
        <u8 as FromSpec<UnitType>>::obeys_from_spec(),
        <RegId as FromSpec<u8>>::obeys_from_spec(),
        <u8 as FromSpec<RegId>>::obeys_from_spec(),
        <u32 as FromSpec<UnitId>>::obeys_from_spec(),
        <UnitId as TryFromSpec<u32>>::obeys_try_from_spec(),
        <UnitType as FromSpec<u8>>::from_spec(b).0 == b,
        <u8 as FromSpec<UnitType>>::from_spec(t) == t.0,
        <RegId as FromSpec<u8>>::from_spec(b).0 == b,
        <u8 as FromSpec<RegId>>::from_spec(reg) == reg.0,
        <u32 as FromSpec<UnitId>>::from_spec(id) == id@,
        n <= 0xf_ffff ==> <UnitId as TryFromSpec<u32>>::try_from_spec(n) == Ok::<UnitId, IdError>(
            UnitId::of(n),
        ),
        n > 0xf_ffff ==> <UnitId as TryFromSpec<u32>>::try_from_spec(n) == Err::<UnitId, IdError>(
            IdError::OutOfRange,
        ),
{
}

/// What a bad identifier means for a record.
pub proof fn law_conversions_of_errors(e: IdError)
    ensures
        <WireError as FromSpec<IdError>>::obeys_from_spec(),
        e is BadHex ==> <WireError as FromSpec<IdError>>::from_spec(e) is BadHex,
        e is OutOfRange ==> <WireError as FromSpec<IdError>>::from_spec(e) is InvalidId,
{
}

} // verus!
