//! Register payloads told apart by their register.
use crate::registers::ids::{RegId, UnitId, UnitType};
use crate::registers::payloads::{
    ActivationCode, FirmwareStatus, InfoByte, RfDeviceCalibration, RfDevicePairing,
    SensorPairingRead, SensorPairingWrite, SystemError, SystemStatus, UnitActivation,
    UnitAnnouncement, ZoneConfig, ZoneLimits, ZoneState,
};
use crate::registers::wire::{CanRecord, Dest};
use vstd::prelude::*;

verus! {

/// Typed view of a register payload.
#[derive(Debug, Clone, Copy, PartialEq, Eq, Hash)]
pub enum DecodedRegister {
    /// Register `01`.
    ZoneConfig(ZoneConfig),
    /// Register `02`.
    UnitActivation(UnitActivation),
    /// Register `03`.
    ZoneState(ZoneState),
    /// Register `04`.
    ZoneLimits(ZoneLimits),
    /// Register `05`.
    SystemStatus(SystemStatus),
    /// Register `06`.
    FirmwareStatus(FirmwareStatus),
    /// Register `08`.
    SystemError(SystemError),
    /// Register `09`.
    ActivationCode(ActivationCode),
    /// Register `0a`.
    UnitAnnouncement(UnitAnnouncement),
    /// Register `12`.
    SensorPairingRead(SensorPairingRead),
    /// Register `12`, write shape.
    SensorPairingWrite(SensorPairingWrite),
    /// Register `13`.
    InfoByte(InfoByte),
    /// Register `26`.
    RfDevicePairing(RfDevicePairing),
    /// Register `27`.
    RfDeviceCalibration(RfDeviceCalibration),
    /// Any other register.
    Unknown {
        /// Register identifier.
        reg: RegId,
        /// Opaque payload.
        data: [u8; 7],
    },
}

impl DecodedRegister {
    /// The typed value of a payload in a register. Register `12` tells no
    /// direction: its payload has the read shape.
    pub open spec fn of(reg: RegId, data: [u8; 7]) -> DecodedRegister {
        if reg.0 == 0x01 {
            DecodedRegister::ZoneConfig(ZoneConfig::of(data))
        } else if reg.0 == 0x02 {
            DecodedRegister::UnitActivation(UnitActivation::of(data))
        } else if reg.0 == 0x03 {
            DecodedRegister::ZoneState(ZoneState::of(data))
        } else if reg.0 == 0x04 {
            DecodedRegister::ZoneLimits(ZoneLimits::of(data))
        } else if reg.0 == 0x05 {
            DecodedRegister::SystemStatus(SystemStatus::of(data))
        } else if reg.0 == 0x06 {
            DecodedRegister::FirmwareStatus(FirmwareStatus::of(data))
        } else if reg.0 == 0x08 {
            DecodedRegister::SystemError(SystemError::of(data))
        } else if reg.0 == 0x09 {
            DecodedRegister::ActivationCode(ActivationCode::of(data))
        } else if reg.0 == 0x0a {
            DecodedRegister::UnitAnnouncement(UnitAnnouncement::of(data))
        } else if reg.0 == 0x12 {
            DecodedRegister::SensorPairingRead(SensorPairingRead::of(data))
        } else if reg.0 == 0x13 {
            DecodedRegister::InfoByte(InfoByte::of(data))
        } else if reg.0 == 0x26 {
            DecodedRegister::RfDevicePairing(RfDevicePairing::of(data))
        } else if reg.0 == 0x27 {
            DecodedRegister::RfDeviceCalibration(RfDeviceCalibration::of(data))
        } else {
            DecodedRegister::Unknown { reg, data }
        }
    }

    /// The register of a typed value.
    pub open spec fn register(self) -> RegId {
        match self {
            DecodedRegister::ZoneConfig(_) => RegId(0x01),
            DecodedRegister::UnitActivation(_) => RegId(0x02),
            DecodedRegister::ZoneState(_) => RegId(0x03),
            DecodedRegister::ZoneLimits(_) => RegId(0x04),
            DecodedRegister::SystemStatus(_) => RegId(0x05),
            DecodedRegister::FirmwareStatus(_) => RegId(0x06),
            DecodedRegister::SystemError(_) => RegId(0x08),
            DecodedRegister::ActivationCode(_) => RegId(0x09),
            DecodedRegister::UnitAnnouncement(_) => RegId(0x0a),
            DecodedRegister::SensorPairingRead(_) => RegId(0x12),
            DecodedRegister::SensorPairingWrite(_) => RegId(0x12),
            DecodedRegister::InfoByte(_) => RegId(0x13),
            DecodedRegister::RfDevicePairing(_) => RegId(0x26),
            DecodedRegister::RfDeviceCalibration(_) => RegId(0x27),
            DecodedRegister::Unknown { reg, .. } => reg,
        }
    }

    /// The payload of a typed value.
    pub open spec fn payload(self) -> [u8; 7] {
        match self {
            DecodedRegister::ZoneConfig(v) => v.bytes(),
            DecodedRegister::UnitActivation(v) => v.bytes(),
            DecodedRegister::ZoneState(v) => v.bytes(),
            DecodedRegister::ZoneLimits(v) => v.bytes(),
            DecodedRegister::SystemStatus(v) => v.bytes(),
            DecodedRegister::FirmwareStatus(v) => v.bytes(),
            DecodedRegister::SystemError(v) => v.bytes(),
            DecodedRegister::ActivationCode(v) => v.bytes(),
            DecodedRegister::UnitAnnouncement(v) => v.bytes(),
            DecodedRegister::SensorPairingRead(v) => v.bytes(),
            DecodedRegister::SensorPairingWrite(v) => v.bytes(),
            DecodedRegister::InfoByte(v) => v.bytes(),
            DecodedRegister::RfDevicePairing(v) => v.bytes(),
            DecodedRegister::RfDeviceCalibration(v) => v.bytes(),
            DecodedRegister::Unknown { data, .. } => data,
        }
    }

    /// Decodes a payload by its register.
    pub fn from_reg_data(reg: RegId, data: [u8; 7]) -> (r: DecodedRegister)
        ensures
            r == DecodedRegister::of(reg, data),
    {
        match reg.get() {
            0x01 => DecodedRegister::ZoneConfig(ZoneConfig::from(data)),
            0x02 => DecodedRegister::UnitActivation(UnitActivation::from(data)),
            0x03 => DecodedRegister::ZoneState(ZoneState::from(data)),
            0x04 => DecodedRegister::ZoneLimits(ZoneLimits::from(data)),
            0x05 => DecodedRegister::SystemStatus(SystemStatus::from(data)),
            0x06 => DecodedRegister::FirmwareStatus(FirmwareStatus::from(data)),
            0x08 => DecodedRegister::SystemError(SystemError::from(data)),
            0x09 => DecodedRegister::ActivationCode(ActivationCode::from(data)),
            0x0a => DecodedRegister::UnitAnnouncement(UnitAnnouncement::from(data)),
            0x12 => DecodedRegister::SensorPairingRead(SensorPairingRead::from(data)),
            0x13 => DecodedRegister::InfoByte(InfoByte::from(data)),
            0x26 => DecodedRegister::RfDevicePairing(RfDevicePairing::from(data)),
            0x27 => DecodedRegister::RfDeviceCalibration(RfDeviceCalibration::from(data)),
            _ => DecodedRegister::Unknown { reg, data },
        }
    }

    /// The register of this value.
    pub fn reg_id(self) -> (r: RegId)
        ensures
            r == self.register(),
    {
        match self {
            DecodedRegister::ZoneConfig(_) => RegId::new(0x01),
            DecodedRegister::UnitActivation(_) => RegId::new(0x02),
            DecodedRegister::ZoneState(_) => RegId::new(0x03),
            DecodedRegister::ZoneLimits(_) => RegId::new(0x04),
            DecodedRegister::SystemStatus(_) => RegId::new(0x05),
            DecodedRegister::FirmwareStatus(_) => RegId::new(0x06),
            DecodedRegister::SystemError(_) => RegId::new(0x08),
            DecodedRegister::ActivationCode(_) => RegId::new(0x09),
            DecodedRegister::UnitAnnouncement(_) => RegId::new(0x0a),
            DecodedRegister::SensorPairingRead(_) => RegId::new(0x12),
            DecodedRegister::SensorPairingWrite(_) => RegId::new(0x12),
            DecodedRegister::InfoByte(_) => RegId::new(0x13),
            DecodedRegister::RfDevicePairing(_) => RegId::new(0x26),
            DecodedRegister::RfDeviceCalibration(_) => RegId::new(0x27),
            DecodedRegister::Unknown { reg, .. } => reg,
        }
    }

    /// Encodes back to seven bytes.
    pub fn to_bytes(self) -> (r: [u8; 7])
        ensures
            r == self.payload(),
    {
        match self {
            DecodedRegister::ZoneConfig(v) => <[u8; 7]>::from(v),
            DecodedRegister::UnitActivation(v) => <[u8; 7]>::from(v),
            DecodedRegister::ZoneState(v) => <[u8; 7]>::from(v),
            DecodedRegister::ZoneLimits(v) => <[u8; 7]>::from(v),
            DecodedRegister::SystemStatus(v) => <[u8; 7]>::from(v),
            DecodedRegister::FirmwareStatus(v) => <[u8; 7]>::from(v),
            DecodedRegister::SystemError(v) => <[u8; 7]>::from(v),
            DecodedRegister::ActivationCode(v) => <[u8; 7]>::from(v),
            DecodedRegister::UnitAnnouncement(v) => <[u8; 7]>::from(v),
            DecodedRegister::SensorPairingRead(v) => <[u8; 7]>::from(v),
            DecodedRegister::SensorPairingWrite(v) => <[u8; 7]>::from(v),
            DecodedRegister::InfoByte(v) => <[u8; 7]>::from(v),
            DecodedRegister::RfDevicePairing(v) => <[u8; 7]>::from(v),
            DecodedRegister::RfDeviceCalibration(v) => <[u8; 7]>::from(v),
            DecodedRegister::Unknown { data, .. } => data,
        }
    }
}

/// Seven zero bytes.
pub open spec fn zero_data() -> [u8; 7] {
    [0, 0, 0, 0, 0, 0, 0]
}

/// Whether all seven bytes agree.
pub fn same_data(a: &[u8; 7], b: &[u8; 7]) -> (r: bool)
    ensures
        r == (*a == *b),
{
    let mut i: usize = 0;
    while i < 7
        invariant
            i <= 7,
            forall|j: int| 0 <= j < i ==> a[j] == b[j],
        decreases 7 - i,
    {
        if a[i] != b[i] {
            return false;
        }
        i = i + 1;
    }
    proof {
        assert(*a =~= *b);
    }
    true
}

impl CanRecord {
    /// Decodes the payload of this record.
    pub fn decode(&self) -> (r: DecodedRegister)
        ensures
            r == DecodedRegister::of(self.reg, self.data),
    {
        DecodedRegister::from_reg_data(self.reg, self.data)
    }

    /// The flush-all command: register `06` of the air conditioning unit zero,
    /// for the control box, without content.
    pub open spec fn flush_all_record() -> CanRecord {
        CanRecord {
            unit_type: UnitType(0x07),
            dest: Dest::ControlBox,
            unit_id: UnitId::of(0),
            reg: RegId(0x06),
            data: zero_data(),
        }
    }

    /// Builds the flush-all command.
    pub fn flush_all() -> (r: CanRecord)
        ensures
            r == CanRecord::flush_all_record(),
    {
        let data: [u8; 7] = [0, 0, 0, 0, 0, 0, 0];
        proof {
            assert(data =~= zero_data());
        }
        CanRecord {
            unit_type: UnitType::aircon(),
            dest: Dest::ControlBox,
            unit_id: UnitId::zero(),
            reg: RegId::new(0x06),
            data,
        }
    }

    /// Whether this record is the flush-all command.
    pub fn is_flush(&self) -> (r: bool)
        ensures
            r == (*self == CanRecord::flush_all_record()),
    {
        let flush = CanRecord::flush_all();
        self.unit_type == flush.unit_type && self.dest == flush.dest && self.unit_id
            == flush.unit_id && self.reg == flush.reg && same_data(&self.data, &flush.data)
    }
}

/// Decoding keeps the register.
pub proof fn law_decoded_register(reg: RegId, data: [u8; 7])
    ensures
        DecodedRegister::of(reg, data).register() == reg,
{
}

/// A flush of everything is an all-zero register `06` of air conditioning unit zero, for
/// the control box.
pub proof fn law_flush_of_everything()
    ensures
        ({
            let r = CanRecord::flush_all_record();
            &&& r.unit_type.0 == 0x07
            &&& r.dest == Dest::ControlBox
            &&& r.unit_id == UnitId::of(0)
            &&& r.reg.0 == 0x06
            &&& forall|i: int| 0 <= i < 7 ==> #[trigger] r.data@[i] == 0
        }),
{
}

} // verus!
