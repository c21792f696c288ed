//! Typed register payloads.
use crate::registers::enums::{
    Action, ActivationStatus, Fan, FreshAir, Mode, Power, SensorType, UnitBrand,
};
use vstd::prelude::*;
use vstd::std_specs::convert::FromSpecImpl;

verus! {

/// Register `01`: zone configuration.
#[derive(Debug, Clone, Copy, PartialEq, Eq, Hash)]
pub struct ZoneConfig {
    /// Opaque header byte.
    pub header: u8,
    /// Number of zones.
    pub num_zones: u8,
    /// Number of constant zones.
    pub num_constant: u8,
    /// Constant zone ids, `0` in unused places.
    pub constant: [u8; 3],
    /// Filter needs cleaning.
    pub filter_clean: bool,
}

impl ZoneConfig {
    /// The value of seven payload bytes.
    pub open spec fn of(data: [u8; 7]) -> ZoneConfig {
        ZoneConfig {
            header: data[0],
            num_zones: data[1],
            num_constant: data[2],
            constant: [data[3], data[4], data[5]],
            filter_clean: data[6] != 0,
        }
    }

    /// The seven payload bytes of a value.
    pub open spec fn bytes(self) -> [u8; 7] {
        let v = self;
        [
            v.header,
            v.num_zones,
            v.num_constant,
            v.constant[0],
            v.constant[1],
            v.constant[2],
            if v.filter_clean { 1 } else { 0 },
        ]
    }
}

impl FromSpecImpl<[u8; 7]> for ZoneConfig {
    open spec fn obeys_from_spec() -> bool {
        true
    }

    open spec fn from_spec(data: [u8; 7]) -> ZoneConfig {
        ZoneConfig::of(data)
    }
}

impl From<[u8; 7]> for ZoneConfig {
    fn from(data: [u8; 7]) -> (r: ZoneConfig) {
        let r = ZoneConfig {
            header: data[0],
            num_zones: data[1],
            num_constant: data[2],
            constant: [data[3], data[4], data[5]],
            filter_clean: data[6] != 0,
        };
        proof {
            assert(r.constant =~= ZoneConfig::of(data).constant);
        }
        r
    }
}

impl FromSpecImpl<ZoneConfig> for [u8; 7] {
    open spec fn obeys_from_spec() -> bool {
        true
    }

    open spec fn from_spec(v: ZoneConfig) -> [u8; 7] {
        v.bytes()
    }
}

impl From<ZoneConfig> for [u8; 7] {
    fn from(v: ZoneConfig) -> (r: [u8; 7]) {
        let r: [u8; 7] = [
            v.header,
            v.num_zones,
            v.num_constant,
            v.constant[0],
            v.constant[1],
            v.constant[2],
            if v.filter_clean { 1 } else { 0 },
        ];
        proof {
            assert(r =~= v.bytes());
        }
        r
    }
}

/// Register `03`: state of one zone.
#[derive(Debug, Clone, Copy, PartialEq, Eq, Hash)]
pub struct ZoneState {
    /// Zone number.
    pub zone: u8,
    /// Zone is open (top bit of byte 1).
    pub open: bool,
    /// Damper percentage (low seven bits of byte 1).
    pub percent: u8,
    /// Attached sensor.
    pub sensor: SensorType,
    /// Set temperature in half degrees.
    pub set_temp_x2: u8,
    /// Measured temperature, whole degrees.
    pub meas_int: u8,
    /// Measured temperature, tenths.
    pub meas_dec: u8,
}

impl ZoneState {
    /// The value of seven payload bytes.
    pub open spec fn of(data: [u8; 7]) -> ZoneState {
        ZoneState {
            zone: data[0],
            open: data[1] >= 0x80,
            percent: data[1] % 0x80,
            sensor: SensorType::of(data[2]),
            set_temp_x2: data[3],
            meas_int: data[4],
            meas_dec: data[5],
        }
    }

    /// The seven payload bytes of a value.
    pub open spec fn bytes(self) -> [u8; 7] {
        let v = self;
        [
            v.zone,
            if v.open { (0x80 + v.percent % 0x80) as u8 } else { v.percent % 0x80 },
            v.sensor.byte(),
            v.set_temp_x2,
            v.meas_int,
            v.meas_dec,
            0,
        ]
    }
}

impl FromSpecImpl<[u8; 7]> for ZoneState {
    open spec fn obeys_from_spec() -> bool {
        true
    }

    open spec fn from_spec(data: [u8; 7]) -> ZoneState {
        ZoneState::of(data)
    }
}

impl From<[u8; 7]> for ZoneState {
    fn from(data: [u8; 7]) -> (r: ZoneState) {
        let r = ZoneState {
            zone: data[0],
            open: data[1] >= 0x80,
            percent: data[1] % 0x80,
            sensor: SensorType::from_u8(data[2]),
            set_temp_x2: data[3],
            meas_int: data[4],
            meas_dec: data[5],
        };
        r
    }
}

impl FromSpecImpl<ZoneState> for [u8; 7] {
    open spec fn obeys_from_spec() -> bool {
        true
    }

    open spec fn from_spec(v: ZoneState) -> [u8; 7] {
        v.bytes()
    }
}

impl From<ZoneState> for [u8; 7] {
    fn from(v: ZoneState) -> (r: [u8; 7]) {
        let r: [u8; 7] = [
            v.zone,
            if v.open { 0x80 + v.percent % 0x80 } else { v.percent % 0x80 },
            v.sensor.to_u8(),
            v.set_temp_x2,
            v.meas_int,
            v.meas_dec,
            0,
        ];
        proof {
            assert(r =~= v.bytes());
        }
        r
    }
}

/// Register `05`: system status.
#[derive(Debug, Clone, Copy, PartialEq, Eq, Hash)]
pub struct SystemStatus {
    /// System power.
    pub power: Power,
    /// Operating mode.
    pub mode: Mode,
    /// Fan speed.
    pub fan: Fan,
    /// Set temperature in half degrees.
    pub set_temp_x2: u8,
    /// Controlling zone, `0` when there is none.
    pub myzone_id: u8,
    /// Fresh-air status.
    pub fresh_air: FreshAir,
    /// RF system id.
    pub rf_sys_id: u8,
}

impl SystemStatus {
    /// The value of seven payload bytes.
    pub open spec fn of(data: [u8; 7]) -> SystemStatus {
        SystemStatus {
            power: Power::of(data[0]),
            mode: Mode::of(data[1]),
            fan: Fan::of(data[2]),
            set_temp_x2: data[3],
            myzone_id: data[4],
            fresh_air: FreshAir::of(data[5]),
            rf_sys_id: data[6],
        }
    }

    /// The seven payload bytes of a value.
    pub open spec fn bytes(self) -> [u8; 7] {
        let v = self;
        [
            v.power.byte(),
            v.mode.byte(),
            v.fan.byte(),
            v.set_temp_x2,
            v.myzone_id,
            v.fresh_air.byte(),
            v.rf_sys_id,
        ]
    }
}

impl FromSpecImpl<[u8; 7]> for SystemStatus {
    open spec fn obeys_from_spec() -> bool {
        true
    }

    open spec fn from_spec(data: [u8; 7]) -> SystemStatus {
        SystemStatus::of(data)
    }
}

impl From<[u8; 7]> for SystemStatus {
    fn from(data: [u8; 7]) -> (r: SystemStatus) {
        let r = SystemStatus {
            power: Power::from_u8(data[0]),
            mode: Mode::from_u8(data[1]),
            fan: Fan::from_u8(data[2]),
            set_temp_x2: data[3],
            myzone_id: data[4],
            fresh_air: FreshAir::from_u8(data[5]),
            rf_sys_id: data[6],
        };
        r
    }
}

impl FromSpecImpl<SystemStatus> for [u8; 7] {
    open spec fn obeys_from_spec() -> bool {
        true
    }

    open spec fn from_spec(v: SystemStatus) -> [u8; 7] {
        v.bytes()
    }
}

impl From<SystemStatus> for [u8; 7] {
    fn from(v: SystemStatus) -> (r: [u8; 7]) {
        let r: [u8; 7] = [
            v.power.to_u8(),
            v.mode.to_u8(),
            v.fan.to_u8(),
            v.set_temp_x2,
            v.myzone_id,
            v.fresh_air.to_u8(),
            v.rf_sys_id,
        ];
        proof {
            assert(r =~= v.bytes());
        }
        r
    }
}

/// Register `06`: control-box firmware.
#[derive(Debug, Clone, Copy, PartialEq, Eq, Hash)]
pub struct FirmwareStatus {
    /// Firmware major.
    pub fw_major: u8,
    /// Firmware minor.
    pub fw_minor: u8,
    /// Control-box type.
    pub cb_type: u8,
    /// RF firmware major.
    pub rf_fw_major: u8,
}

impl FirmwareStatus {
    /// The value of seven payload bytes.
    pub open spec fn of(data: [u8; 7]) -> FirmwareStatus {
        FirmwareStatus {
            fw_major: data[0],
            fw_minor: data[1],
            cb_type: data[2],
            rf_fw_major: data[3],
        }
    }

    /// The seven payload bytes of a value.
    pub open spec fn bytes(self) -> [u8; 7] {
        let v = self;
        [
            v.fw_major,
            v.fw_minor,
            v.cb_type,
            v.rf_fw_major,
            0,
            0,
            0,
        ]
    }
}

impl FromSpecImpl<[u8; 7]> for FirmwareStatus {
    open spec fn obeys_from_spec() -> bool {
        true
    }

    open spec fn from_spec(data: [u8; 7]) -> FirmwareStatus {
        FirmwareStatus::of(data)
    }
}

impl From<[u8; 7]> for FirmwareStatus {
    fn from(data: [u8; 7]) -> (r: FirmwareStatus) {
        let r = FirmwareStatus {
            fw_major: data[0],
            fw_minor: data[1],
            cb_type: data[2],
            rf_fw_major: data[3],
        };
        r
    }
}

impl FromSpecImpl<FirmwareStatus> for [u8; 7] {
    open spec fn obeys_from_spec() -> bool {
        true
    }

    open spec fn from_spec(v: FirmwareStatus) -> [u8; 7] {
        v.bytes()
    }
}

impl From<FirmwareStatus> for [u8; 7] {
    fn from(v: FirmwareStatus) -> (r: [u8; 7]) {
        let r: [u8; 7] = [
            v.fw_major,
            v.fw_minor,
            v.cb_type,
            v.rf_fw_major,
            0,
            0,
            0,
        ];
        proof {
            assert(r =~= v.bytes());
        }
        r
    }
}

/// Register `02`: unit activation.
#[derive(Debug, Clone, Copy, PartialEq, Eq, Hash)]
pub struct UnitActivation {
    /// Brand of the unit.
    pub unit_type: UnitBrand,
    /// Activation-code status.
    pub activation_status: ActivationStatus,
    /// Dictionary firmware major.
    pub dict_fw_major: u8,
    /// Dictionary firmware minor.
    pub dict_fw_minor: u8,
}

impl UnitActivation {
    /// The value of seven payload bytes.
    pub open spec fn of(data: [u8; 7]) -> UnitActivation {
        UnitActivation {
            unit_type: UnitBrand::of(data[0]),
            activation_status: ActivationStatus::of(data[1]),
            dict_fw_major: data[2],
            dict_fw_minor: data[3],
        }
    }

    /// The seven payload bytes of a value.
    pub open spec fn bytes(self) -> [u8; 7] {
        let v = self;
        [
            v.unit_type.byte(),
            v.activation_status.byte(),
            v.dict_fw_major,
            v.dict_fw_minor,
            0,
            0,
            0,
        ]
    }
}

impl FromSpecImpl<[u8; 7]> for UnitActivation {
    open spec fn obeys_from_spec() -> bool {
        true
    }

    open spec fn from_spec(data: [u8; 7]) -> UnitActivation {
        UnitActivation::of(data)
    }
}

impl From<[u8; 7]> for UnitActivation {
    fn from(data: [u8; 7]) -> (r: UnitActivation) {
        let r = UnitActivation {
            unit_type: UnitBrand::from_u8(data[0]),
            activation_status: ActivationStatus::from_u8(data[1]),
            dict_fw_major: data[2],
            dict_fw_minor: data[3],
        };
        r
    }
}

impl FromSpecImpl<UnitActivation> for [u8; 7] {
    open spec fn obeys_from_spec() -> bool {
        true
    }

    open spec fn from_spec(v: UnitActivation) -> [u8; 7] {
        v.bytes()
    }
}

impl From<UnitActivation> for [u8; 7] {
    fn from(v: UnitActivation) -> (r: [u8; 7]) {
        let r: [u8; 7] = [
            v.unit_type.to_u8(),
            v.activation_status.to_u8(),
            v.dict_fw_major,
            v.dict_fw_minor,
            0,
            0,
            0,
        ];
        proof {
            assert(r =~= v.bytes());
        }
        r
    }
}

/// Register `04`: damper limits of one zone.
#[derive(Debug, Clone, Copy, PartialEq, Eq, Hash)]
pub struct ZoneLimits {
    /// Zone number.
    pub zone: u8,
    /// Least damper percentage.
    pub min_damper: u8,
    /// Greatest damper percentage.
    pub max_damper: u8,
    /// Motion state.
    pub motion_status: u8,
    /// Motion configuration.
    pub motion_config: u8,
    /// Zone error flags.
    pub zone_error: u8,
    /// RF signal strength.
    pub rssi: u8,
}

impl ZoneLimits {
    /// The value of seven payload bytes.
    pub open spec fn of(data: [u8; 7]) -> ZoneLimits {
        ZoneLimits {
            zone: data[0],
            min_damper: data[1],
            max_damper: data[2],
            motion_status: data[3],
            motion_config: data[4],
            zone_error: data[5],
            rssi: data[6],
        }
    }

    /// The seven payload bytes of a value.
    pub open spec fn bytes(self) -> [u8; 7] {
        let v = self;
        [
            v.zone,
            v.min_damper,
            v.max_damper,
            v.motion_status,
            v.motion_config,
            v.zone_error,
            v.rssi,
        ]
    }
}

impl FromSpecImpl<[u8; 7]> for ZoneLimits {
    open spec fn obeys_from_spec() -> bool {
        true
    }

    open spec fn from_spec(data: [u8; 7]) -> ZoneLimits {
        ZoneLimits::of(data)
    }
}

impl From<[u8; 7]> for ZoneLimits {
    fn from(data: [u8; 7]) -> (r: ZoneLimits) {
        let r = ZoneLimits {
            zone: data[0],
            min_damper: data[1],
            max_damper: data[2],
            motion_status: data[3],
            motion_config: data[4],
            zone_error: data[5],
            rssi: data[6],
        };
        r
    }
}

impl FromSpecImpl<ZoneLimits> for [u8; 7] {
    open spec fn obeys_from_spec() -> bool {
        true
    }

    open spec fn from_spec(v: ZoneLimits) -> [u8; 7] {
        v.bytes()
    }
}

impl From<ZoneLimits> for [u8; 7] {
    fn from(v: ZoneLimits) -> (r: [u8; 7]) {
        let r: [u8; 7] = [
            v.zone,
            v.min_damper,
            v.max_damper,
            v.motion_status,
            v.motion_config,
            v.zone_error,
            v.rssi,
        ];
        proof {
            assert(r =~= v.bytes());
        }
        r
    }
}

/// Register `08`: system error code.
#[derive(Debug, Clone, Copy, PartialEq, Eq, Hash)]
pub struct SystemError {
    /// Raw ASCII code, padded with zero bytes.
    pub error_code: [u8; 5],
}

impl SystemError {
    /// The value of seven payload bytes.
    pub open spec fn of(data: [u8; 7]) -> SystemError {
        SystemError {
            error_code: [data[0], data[1], data[2], data[3], data[4]],
        }
    }

    /// The seven payload bytes of a value.
    pub open spec fn bytes(self) -> [u8; 7] {
        let v = self;
        [
            v.error_code[0],
            v.error_code[1],
            v.error_code[2],
            v.error_code[3],
            v.error_code[4],
            0,
            0,
        ]
    }
}

impl FromSpecImpl<[u8; 7]> for SystemError {
    open spec fn obeys_from_spec() -> bool {
        true
    }

    open spec fn from_spec(data: [u8; 7]) -> SystemError {
        SystemError::of(data)
    }
}

impl From<[u8; 7]> for SystemError {
    fn from(data: [u8; 7]) -> (r: SystemError) {
        let r = SystemError {
            error_code: [data[0], data[1], data[2], data[3], data[4]],
        };
        proof {
            assert(r.error_code =~= SystemError::of(data).error_code);
        }
        r
    }
}

impl FromSpecImpl<SystemError> for [u8; 7] {
    open spec fn obeys_from_spec() -> bool {
        true
    }

    open spec fn from_spec(v: SystemError) -> [u8; 7] {
        v.bytes()
    }
}

impl From<SystemError> for [u8; 7] {
    fn from(v: SystemError) -> (r: [u8; 7]) {
        let r: [u8; 7] = [
            v.error_code[0],
            v.error_code[1],
            v.error_code[2],
            v.error_code[3],
            v.error_code[4],
            0,
            0,
        ];
        proof {
            assert(r =~= v.bytes());
        }
        r
    }
}

/// Register `09`: activation-code command.
#[derive(Debug, Clone, Copy, PartialEq, Eq, Hash)]
pub struct ActivationCode {
    /// Requested action.
    pub action: Action,
    /// Unlock code, high byte first.
    pub unlock_code: [u8; 2],
    /// Days of activation.
    pub activation_days: u8,
}

impl ActivationCode {
    /// The value of seven payload bytes.
    pub open spec fn of(data: [u8; 7]) -> ActivationCode {
        ActivationCode {
            action: Action::of(data[0]),
            unlock_code: [data[1], data[2]],
            activation_days: data[3],
        }
    }

    /// The seven payload bytes of a value.
    pub open spec fn bytes(self) -> [u8; 7] {
        let v = self;
        [
            v.action.byte(),
            v.unlock_code[0],
            v.unlock_code[1],
            v.activation_days,
            0,
            0,
            0,
        ]
    }
}

impl FromSpecImpl<[u8; 7]> for ActivationCode {
    open spec fn obeys_from_spec() -> bool {
        true
    }

    open spec fn from_spec(data: [u8; 7]) -> ActivationCode {
        ActivationCode::of(data)
    }
}

impl From<[u8; 7]> for ActivationCode {
    fn from(data: [u8; 7]) -> (r: ActivationCode) {
        let r = ActivationCode {
            action: Action::from_u8(data[0]),
            unlock_code: [data[1], data[2]],
            activation_days: data[3],
        };
        proof {
            assert(r.unlock_code =~= ActivationCode::of(data).unlock_code);
        }
        r
    }
}

impl FromSpecImpl<ActivationCode> for [u8; 7] {
    open spec fn obeys_from_spec() -> bool {
        true
    }

    open spec fn from_spec(v: ActivationCode) -> [u8; 7] {
        v.bytes()
    }
}

impl From<ActivationCode> for [u8; 7] {
    fn from(v: ActivationCode) -> (r: [u8; 7]) {
        let r: [u8; 7] = [
            v.action.to_u8(),
            v.unlock_code[0],
            v.unlock_code[1],
            v.activation_days,
            0,
            0,
            0,
        ];
        proof {
            assert(r =~= v.bytes());
        }
        r
    }
}

/// Register `0a`: unit announcement, without content.
#[derive(Debug, Clone, Copy, PartialEq, Eq, Hash)]
pub struct UnitAnnouncement {
}

impl UnitAnnouncement {
    /// The value of seven payload bytes.
    pub open spec fn of(data: [u8; 7]) -> UnitAnnouncement {
        UnitAnnouncement {}
    }

    /// The seven payload bytes of a value.
    pub open spec fn bytes(self) -> [u8; 7] {
        [
            0,
            0,
            0,
            0,
            0,
            0,
            0,
        ]
    }
}

impl FromSpecImpl<[u8; 7]> for UnitAnnouncement {
    open spec fn obeys_from_spec() -> bool {
        true
    }

    open spec fn from_spec(data: [u8; 7]) -> UnitAnnouncement {
        UnitAnnouncement::of(data)
    }
}

impl From<[u8; 7]> for UnitAnnouncement {
    fn from(data: [u8; 7]) -> (r: UnitAnnouncement) {
        let r = UnitAnnouncement {};
        r
    }
}

impl FromSpecImpl<UnitAnnouncement> for [u8; 7] {
    open spec fn obeys_from_spec() -> bool {
        true
    }

    open spec fn from_spec(v: UnitAnnouncement) -> [u8; 7] {
        v.bytes()
    }
}

impl From<UnitAnnouncement> for [u8; 7] {
    fn from(_v: UnitAnnouncement) -> (r: [u8; 7]) {
        let r: [u8; 7] = [
            0,
            0,
            0,
            0,
            0,
            0,
            0,
        ];
        proof {
            assert(r =~= _v.bytes());
        }
        r
    }
}

/// Register `12` as read: pairing status of an RF sensor.
#[derive(Debug, Clone, Copy, PartialEq, Eq, Hash)]
pub struct SensorPairingRead {
    /// Sensor id.
    pub sensor_uid: [u8; 3],
    /// Raw info byte (bit 6 is a pairing request).
    pub info_byte: u8,
    /// Sensor revision.
    pub sensor_rev: u8,
}

impl SensorPairingRead {
    /// The value of seven payload bytes.
    pub open spec fn of(data: [u8; 7]) -> SensorPairingRead {
        SensorPairingRead {
            sensor_uid: [data[0], data[1], data[2]],
            info_byte: data[3],
            sensor_rev: data[4],
        }
    }

    /// The seven payload bytes of a value.
    pub open spec fn bytes(self) -> [u8; 7] {
        let v = self;
        [
            v.sensor_uid[0],
            v.sensor_uid[1],
            v.sensor_uid[2],
            v.info_byte,
            v.sensor_rev,
            0,
            0,
        ]
    }
}

impl FromSpecImpl<[u8; 7]> for SensorPairingRead {
    open spec fn obeys_from_spec() -> bool {
        true
    }

    open spec fn from_spec(data: [u8; 7]) -> SensorPairingRead {
        SensorPairingRead::of(data)
    }
}

impl From<[u8; 7]> for SensorPairingRead {
    fn from(data: [u8; 7]) -> (r: SensorPairingRead) {
        let r = SensorPairingRead {
            sensor_uid: [data[0], data[1], data[2]],
            info_byte: data[3],
            sensor_rev: data[4],
        };
        proof {
            assert(r.sensor_uid =~= SensorPairingRead::of(data).sensor_uid);
        }
        r
    }
}

impl FromSpecImpl<SensorPairingRead> for [u8; 7] {
    open spec fn obeys_from_spec() -> bool {
        true
    }

    open spec fn from_spec(v: SensorPairingRead) -> [u8; 7] {
        v.bytes()
    }
}

impl From<SensorPairingRead> for [u8; 7] {
    fn from(v: SensorPairingRead) -> (r: [u8; 7]) {
        let r: [u8; 7] = [
            v.sensor_uid[0],
            v.sensor_uid[1],
            v.sensor_uid[2],
            v.info_byte,
            v.sensor_rev,
            0,
            0,
        ];
        proof {
            assert(r =~= v.bytes());
        }
        r
    }
}

/// Register `12` as written: pairing command for an RF sensor.
#[derive(Debug, Clone, Copy, PartialEq, Eq, Hash)]
pub struct SensorPairingWrite {
    /// Sensor id.
    pub sensor_uid: [u8; 3],
    /// Zone to assign.
    pub zone: u8,
}

impl SensorPairingWrite {
    /// The value of seven payload bytes.
    pub open spec fn of(data: [u8; 7]) -> SensorPairingWrite {
        SensorPairingWrite {
            sensor_uid: [data[0], data[1], data[2]],
            zone: data[3],
        }
    }

    /// The seven payload bytes of a value.
    pub open spec fn bytes(self) -> [u8; 7] {
        let v = self;
        [
            v.sensor_uid[0],
            v.sensor_uid[1],
            v.sensor_uid[2],
            v.zone,
            0,
            0,
            0,
        ]
    }
}

impl FromSpecImpl<[u8; 7]> for SensorPairingWrite {
    open spec fn obeys_from_spec() -> bool {
        true
    }

    open spec fn from_spec(data: [u8; 7]) -> SensorPairingWrite {
        SensorPairingWrite::of(data)
    }
}

impl From<[u8; 7]> for SensorPairingWrite {
    fn from(data: [u8; 7]) -> (r: SensorPairingWrite) {
        let r = SensorPairingWrite {
            sensor_uid: [data[0], data[1], data[2]],
            zone: data[3],
        };
        proof {
            assert(r.sensor_uid =~= SensorPairingWrite::of(data).sensor_uid);
        }
        r
    }
}

impl FromSpecImpl<SensorPairingWrite> for [u8; 7] {
    open spec fn obeys_from_spec() -> bool {
        true
    }

    open spec fn from_spec(v: SensorPairingWrite) -> [u8; 7] {
        v.bytes()
    }
}

impl From<SensorPairingWrite> for [u8; 7] {
    fn from(v: SensorPairingWrite) -> (r: [u8; 7]) {
        let r: [u8; 7] = [
            v.sensor_uid[0],
            v.sensor_uid[1],
            v.sensor_uid[2],
            v.zone,
            0,
            0,
            0,
        ];
        proof {
            assert(r =~= v.bytes());
        }
        r
    }
}

/// Register `13`: info byte.
#[derive(Debug, Clone, Copy, PartialEq, Eq, Hash)]
pub struct InfoByte {
    /// Raw info byte.
    pub info_byte: u8,
    /// The other bytes.
    pub rest: [u8; 6],
}

impl InfoByte {
    /// The value of seven payload bytes.
    pub open spec fn of(data: [u8; 7]) -> InfoByte {
        InfoByte {
            info_byte: data[0],
            rest: [data[1], data[2], data[3], data[4], data[5], data[6]],
        }
    }

    /// The seven payload bytes of a value.
    pub open spec fn bytes(self) -> [u8; 7] {
        let v = self;
        [
            v.info_byte,
            v.rest[0],
            v.rest[1],
            v.rest[2],
            v.rest[3],
            v.rest[4],
            v.rest[5],
        ]
    }
}

impl FromSpecImpl<[u8; 7]> for InfoByte {
    open spec fn obeys_from_spec() -> bool {
        true
    }

    open spec fn from_spec(data: [u8; 7]) -> InfoByte {
        InfoByte::of(data)
    }
}

impl From<[u8; 7]> for InfoByte {
    fn from(data: [u8; 7]) -> (r: InfoByte) {
        let r = InfoByte {
            info_byte: data[0],
            rest: [data[1], data[2], data[3], data[4], data[5], data[6]],
        };
        proof {
            assert(r.rest =~= InfoByte::of(data).rest);
        }
        r
    }
}

impl FromSpecImpl<InfoByte> for [u8; 7] {
    open spec fn obeys_from_spec() -> bool {
        true
    }

    open spec fn from_spec(v: InfoByte) -> [u8; 7] {
        v.bytes()
    }
}

impl From<InfoByte> for [u8; 7] {
    fn from(v: InfoByte) -> (r: [u8; 7]) {
        let r: [u8; 7] = [
            v.info_byte,
            v.rest[0],
            v.rest[1],
            v.rest[2],
            v.rest[3],
            v.rest[4],
            v.rest[5],
        ];
        proof {
            assert(r =~= v.bytes());
        }
        r
    }
}

/// Register `26`: RF device pairing command.
#[derive(Debug, Clone, Copy, PartialEq, Eq, Hash)]
pub struct RfDevicePairing {
    /// Pairing control byte.
    pub pairing_control: u8,
    /// RF device type.
    pub rf_device_type: u8,
    /// Zone channel.
    pub zone_channel: u8,
}

impl RfDevicePairing {
    /// The value of seven payload bytes.
    pub open spec fn of(data: [u8; 7]) -> RfDevicePairing {
        RfDevicePairing {
            pairing_control: data[0],
            rf_device_type: data[1],
            zone_channel: data[2],
        }
    }

    /// The seven payload bytes of a value.
    pub open spec fn bytes(self) -> [u8; 7] {
        let v = self;
        [
            v.pairing_control,
            v.rf_device_type,
            v.zone_channel,
            0,
            0,
            0,
            0,
        ]
    }
}

impl FromSpecImpl<[u8; 7]> for RfDevicePairing {
    open spec fn obeys_from_spec() -> bool {
        true
    }

    open spec fn from_spec(data: [u8; 7]) -> RfDevicePairing {
        RfDevicePairing::of(data)
    }
}

impl From<[u8; 7]> for RfDevicePairing {
    fn from(data: [u8; 7]) -> (r: RfDevicePairing) {
        let r = RfDevicePairing {
            pairing_control: data[0],
            rf_device_type: data[1],
            zone_channel: data[2],
        };
        r
    }
}

impl FromSpecImpl<RfDevicePairing> for [u8; 7] {
    open spec fn obeys_from_spec() -> bool {
        true
    }

    open spec fn from_spec(v: RfDevicePairing) -> [u8; 7] {
        v.bytes()
    }
}

impl From<RfDevicePairing> for [u8; 7] {
    fn from(v: RfDevicePairing) -> (r: [u8; 7]) {
        let r: [u8; 7] = [
            v.pairing_control,
            v.rf_device_type,
            v.zone_channel,
            0,
            0,
            0,
            0,
        ];
        proof {
            assert(r =~= v.bytes());
        }
        r
    }
}

/// Register `27`: RF device calibration command.
#[derive(Debug, Clone, Copy, PartialEq, Eq, Hash)]
pub struct RfDeviceCalibration {
    /// Calibration control byte.
    pub calibration_control: u8,
    /// Channel.
    pub channel: u8,
    /// Up or down position.
    pub up_down_position: u8,
}

impl RfDeviceCalibration {
    /// The value of seven payload bytes.
    pub open spec fn of(data: [u8; 7]) -> RfDeviceCalibration {
        RfDeviceCalibration {
            calibration_control: data[0],
            channel: data[1],
            up_down_position: data[2],
        }
    }

    /// The seven payload bytes of a value.
    pub open spec fn bytes(self) -> [u8; 7] {
        let v = self;
        [
            v.calibration_control,
            v.channel,
            v.up_down_position,
            0,
            0,
            0,
            0,
        ]
    }
}

impl FromSpecImpl<[u8; 7]> for RfDeviceCalibration {
    open spec fn obeys_from_spec() -> bool {
        true
    }

    open spec fn from_spec(data: [u8; 7]) -> RfDeviceCalibration {
        RfDeviceCalibration::of(data)
    }
}

impl From<[u8; 7]> for RfDeviceCalibration {
    fn from(data: [u8; 7]) -> (r: RfDeviceCalibration) {
        let r = RfDeviceCalibration {
            calibration_control: data[0],
            channel: data[1],
            up_down_position: data[2],
        };
        r
    }
}

impl FromSpecImpl<RfDeviceCalibration> for [u8; 7] {
    open spec fn obeys_from_spec() -> bool {
        true
    }

    open spec fn from_spec(v: RfDeviceCalibration) -> [u8; 7] {
        v.bytes()
    }
}

impl From<RfDeviceCalibration> for [u8; 7] {
    fn from(v: RfDeviceCalibration) -> (r: [u8; 7]) {
        let r: [u8; 7] = [
            v.calibration_control,
            v.channel,
            v.up_down_position,
            0,
            0,
            0,
            0,
        ];
        proof {
            assert(r =~= v.bytes());
        }
        r
    }
}

/// Every payload type gives its seven bytes back, as far as it holds them.
pub proof fn law_payload_bytes_kept(data: [u8; 7])
    ensures
        data[6] <= 1 ==> ZoneConfig::of(data).bytes() == data,
        data[6] == 0 ==> ZoneState::of(data).bytes() == data,
        SystemStatus::of(data).bytes() == data,
        data[4] == 0 && data[5] == 0 && data[6] == 0 ==> FirmwareStatus::of(data).bytes() == data,
        data[4] == 0 && data[5] == 0 && data[6] == 0 ==> UnitActivation::of(data).bytes() == data,
        ZoneLimits::of(data).bytes() == data,
        data[5] == 0 && data[6] == 0 ==> SystemError::of(data).bytes() == data,
        data[4] == 0 && data[5] == 0 && data[6] == 0 ==> ActivationCode::of(data).bytes() == data,
        data[0] == 0 && data[1] == 0 && data[2] == 0 && data[3] == 0 && data[4] == 0 && data[5] == 0
            && data[6] == 0 ==> UnitAnnouncement::of(data).bytes() == data,
        data[5] == 0 && data[6] == 0 ==> SensorPairingRead::of(data).bytes() == data,
        data[4] == 0 && data[5] == 0 && data[6] == 0 ==> SensorPairingWrite::of(data).bytes() == data,
        InfoByte::of(data).bytes() == data,
        data[3] == 0 && data[4] == 0 && data[5] == 0 && data[6] == 0 ==> RfDevicePairing::of(
            data,
        ).bytes() == data,
        data[3] == 0 && data[4] == 0 && data[5] == 0 && data[6] == 0 ==> RfDeviceCalibration::of(
            data,
        ).bytes() == data,
{
    if ZoneConfig::of(data).bytes() =~= data {
    }
    if ZoneState::of(data).bytes() =~= data {
    }
    if SystemStatus::of(data).bytes() =~= data {
    }
    if FirmwareStatus::of(data).bytes() =~= data {
    }
    if UnitActivation::of(data).bytes() =~= data {
    }
    if ZoneLimits::of(data).bytes() =~= data {
    }
    if SystemError::of(data).bytes() =~= data {
    }
    if ActivationCode::of(data).bytes() =~= data {
    }
    if UnitAnnouncement::of(data).bytes() =~= data {
    }
    if SensorPairingRead::of(data).bytes() =~= data {
    }
    if SensorPairingWrite::of(data).bytes() =~= data {
    }
    if InfoByte::of(data).bytes() =~= data {
    }
    if RfDevicePairing::of(data).bytes() =~= data {
    }
    if RfDeviceCalibration::of(data).bytes() =~= data {
    }
}

/// A zone configuration reads back from its bytes.
pub proof fn law_zone_config_kept(v: ZoneConfig)
    ensures
        ZoneConfig::of(v.bytes()) == v,
{
    assert(ZoneConfig::of(v.bytes()).constant =~= v.constant);
}

/// A zone state reads back from its bytes, where the damper percentage has seven
/// bits and the sensor is one that a byte means.
pub proof fn law_zone_state_kept(v: ZoneState)
    requires
        v.percent < 0x80,
        SensorType::of(v.sensor.byte()) == v.sensor,
    ensures
        ZoneState::of(v.bytes()) == v,
{
}

/// A system status reads back from its bytes, where its field values are those
/// that a byte means.
pub proof fn law_system_status_kept(v: SystemStatus)
    requires
        Power::of(v.power.byte()) == v.power,
        Mode::of(v.mode.byte()) == v.mode,
        Fan::of(v.fan.byte()) == v.fan,
        FreshAir::of(v.fresh_air.byte()) == v.fresh_air,
    ensures
        SystemStatus::of(v.bytes()) == v,
{
}

/// A firmware status reads back from its bytes.
pub proof fn law_firmware_status_kept(v: FirmwareStatus)
    ensures
        FirmwareStatus::of(v.bytes()) == v,
{
}

/// A unit activation reads back from its bytes, where its field values are those
/// that a byte means.
pub proof fn law_unit_activation_kept(v: UnitActivation)
    requires
        UnitBrand::of(v.unit_type.byte()) == v.unit_type,
        ActivationStatus::of(v.activation_status.byte()) == v.activation_status,
    ensures
        UnitActivation::of(v.bytes()) == v,
{
}

/// Zone limits read back from their bytes.
pub proof fn law_zone_limits_kept(v: ZoneLimits)
    ensures
        ZoneLimits::of(v.bytes()) == v,
{
}

/// A system error reads back from its bytes.
pub proof fn law_system_error_kept(v: SystemError)
    ensures
        SystemError::of(v.bytes()) == v,
{
    assert(SystemError::of(v.bytes()).error_code =~= v.error_code);
}

/// An activation code reads back from its bytes, where the action is one that a
/// byte means.
pub proof fn law_activation_code_kept(v: ActivationCode)
    requires
        Action::of(v.action.byte()) == v.action,
    ensures
        ActivationCode::of(v.bytes()) == v,
{
    assert(ActivationCode::of(v.bytes()).unlock_code =~= v.unlock_code);
}

/// A unit announcement, which holds nothing, reads back from its bytes.
pub proof fn law_unit_announcement_kept(v: UnitAnnouncement)
    ensures
        UnitAnnouncement::of(v.bytes()) == v,
{
}

/// The pairing of a sensor, as it is read, reads back from its bytes.
pub proof fn law_sensor_pairing_read_kept(v: SensorPairingRead)
    ensures
        SensorPairingRead::of(v.bytes()) == v,
{
    assert(SensorPairingRead::of(v.bytes()).sensor_uid =~= v.sensor_uid);
}

/// The pairing of a sensor, as it is written, reads back from its bytes.
pub proof fn law_sensor_pairing_write_kept(v: SensorPairingWrite)
    ensures
        SensorPairingWrite::of(v.bytes()) == v,
{
    assert(SensorPairingWrite::of(v.bytes()).sensor_uid =~= v.sensor_uid);
}

/// An info byte reads back from its bytes.
pub proof fn law_info_byte_kept(v: InfoByte)
    ensures
        InfoByte::of(v.bytes()) == v,
{
    assert(InfoByte::of(v.bytes()).rest =~= v.rest);
}

/// The pairing of a radio device reads back from its bytes.
pub proof fn law_rf_device_pairing_kept(v: RfDevicePairing)
    ensures
        RfDevicePairing::of(v.bytes()) == v,
{
}

/// The calibration of a radio device reads back from its bytes.
pub proof fn law_rf_device_calibration_kept(v: RfDeviceCalibration)
    ensures
        RfDeviceCalibration::of(v.bytes()) == v,
{
}

} // verus!
