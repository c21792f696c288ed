//! Field values of typed register payloads.
use vstd::prelude::*;
use vstd::std_specs::convert::FromSpecImpl;

verus! {

/// Power on or off (register `05` byte 0).
#[derive(Debug, Clone, Copy, PartialEq, Eq, Hash, Structural)]
pub enum Power {
    /// `0x00`.
    Off,
    /// `0x01`.
    On,
    /// Any other byte.
    Unknown(u8),
}

impl Power {
    /// The value that a byte means.
    pub open spec fn of(value: u8) -> Power {
        if value == 0x00 {
            Power::Off
        } else if value == 0x01 {
            Power::On
        } else {
            Power::Unknown(value)
        }
    }

    /// The byte of a value.
    pub open spec fn byte(self) -> u8 {
        match self {
            Power::Off => 0x00,
            Power::On => 0x01,
            Power::Unknown(v) => v,
        }
    }

    /// Maps a raw byte.
    pub fn from_u8(value: u8) -> (r: Power)
        ensures
            r == Power::of(value),
    {
        match value {
            0x00 => Power::Off,
            0x01 => Power::On,
            other => Power::Unknown(other),
        }
    }

    /// The raw byte.
    pub fn to_u8(self) -> (r: u8)
        ensures
            r == self.byte(),
    {
        match self {
            Power::Off => 0x00,
            Power::On => 0x01,
            Power::Unknown(v) => v,
        }
    }
}

impl FromSpecImpl<u8> for Power {
    open spec fn obeys_from_spec() -> bool {
        true
    }

    open spec fn from_spec(v: u8) -> Power {
        Power::of(v)
    }
}

impl From<u8> for Power {
    fn from(v: u8) -> (r: Power) {
        Power::from_u8(v)
    }
}

impl FromSpecImpl<Power> for u8 {
    open spec fn obeys_from_spec() -> bool {
        true
    }

    open spec fn from_spec(v: Power) -> u8 {
        v.byte()
    }
}

impl From<Power> for u8 {
    fn from(v: Power) -> (r: u8) {
        v.to_u8()
    }
}

/// Operating mode (register `05` byte 1).
#[derive(Debug, Clone, Copy, PartialEq, Eq, Hash, Structural)]
pub enum Mode {
    /// `0x01`.
    Cool,
    /// `0x02`.
    Heat,
    /// `0x03`.
    Vent,
    /// `0x04`.
    Auto,
    /// `0x05`.
    Dry,
    /// `0x06`.
    MyAuto,
    /// Any other byte.
    Unknown(u8),
}

impl Mode {
    /// The value that a byte means.
    pub open spec fn of(value: u8) -> Mode {
        if value == 0x01 {
            Mode::Cool
        } else if value == 0x02 {
            Mode::Heat
        } else if value == 0x03 {
            Mode::Vent
        } else if value == 0x04 {
            Mode::Auto
        } else if value == 0x05 {
            Mode::Dry
        } else if value == 0x06 {
            Mode::MyAuto
        } else {
            Mode::Unknown(value)
        }
    }

    /// The byte of a value.
    pub open spec fn byte(self) -> u8 {
        match self {
            Mode::Cool => 0x01,
            Mode::Heat => 0x02,
            Mode::Vent => 0x03,
            Mode::Auto => 0x04,
            Mode::Dry => 0x05,
            Mode::MyAuto => 0x06,
            Mode::Unknown(v) => v,
        }
    }

    /// Maps a raw byte.
    pub fn from_u8(value: u8) -> (r: Mode)
        ensures
            r == Mode::of(value),
    {
        match value {
            0x01 => Mode::Cool,
            0x02 => Mode::Heat,
            0x03 => Mode::Vent,
            0x04 => Mode::Auto,
            0x05 => Mode::Dry,
            0x06 => Mode::MyAuto,
            other => Mode::Unknown(other),
        }
    }

    /// The raw byte.
    pub fn to_u8(self) -> (r: u8)
        ensures
            r == self.byte(),
    {
        match self {
            Mode::Cool => 0x01,
            Mode::Heat => 0x02,
            Mode::Vent => 0x03,
            Mode::Auto => 0x04,
            Mode::Dry => 0x05,
            Mode::MyAuto => 0x06,
            Mode::Unknown(v) => v,
        }
    }
}

impl FromSpecImpl<u8> for Mode {
    open spec fn obeys_from_spec() -> bool {
        true
    }

    open spec fn from_spec(v: u8) -> Mode {
        Mode::of(v)
    }
}

impl From<u8> for Mode {
    fn from(v: u8) -> (r: Mode) {
        Mode::from_u8(v)
    }
}

impl FromSpecImpl<Mode> for u8 {
    open spec fn obeys_from_spec() -> bool {
        true
    }

    open spec fn from_spec(v: Mode) -> u8 {
        v.byte()
    }
}

impl From<Mode> for u8 {
    fn from(v: Mode) -> (r: u8) {
        v.to_u8()
    }
}

/// Fan speed (register `05` byte 2).
#[derive(Debug, Clone, Copy, PartialEq, Eq, Hash, Structural)]
pub enum Fan {
    /// `0x00`.
    Off,
    /// `0x01`.
    Low,
    /// `0x02`.
    Medium,
    /// `0x03`.
    High,
    /// `0x04`.
    Auto,
    /// `0x05`.
    AutoAa,
    /// Any other byte.
    Unknown(u8),
}

impl Fan {
    /// The value that a byte means.
    pub open spec fn of(value: u8) -> Fan {
        if value == 0x00 {
            Fan::Off
        } else if value == 0x01 {
            Fan::Low
        } else if value == 0x02 {
            Fan::Medium
        } else if value == 0x03 {
            Fan::High
        } else if value == 0x04 {
            Fan::Auto
        } else if value == 0x05 {
            Fan::AutoAa
        } else {
            Fan::Unknown(value)
        }
    }

    /// The byte of a value.
    pub open spec fn byte(self) -> u8 {
        match self {
            Fan::Off => 0x00,
            Fan::Low => 0x01,
            Fan::Medium => 0x02,
            Fan::High => 0x03,
            Fan::Auto => 0x04,
            Fan::AutoAa => 0x05,
            Fan::Unknown(v) => v,
        }
    }

    /// Maps a raw byte.
    pub fn from_u8(value: u8) -> (r: Fan)
        ensures
            r == Fan::of(value),
    {
        match value {
            0x00 => Fan::Off,
            0x01 => Fan::Low,
            0x02 => Fan::Medium,
            0x03 => Fan::High,
            0x04 => Fan::Auto,
            0x05 => Fan::AutoAa,
            other => Fan::Unknown(other),
        }
    }

    /// The raw byte.
    pub fn to_u8(self) -> (r: u8)
        ensures
            r == self.byte(),
    {
        match self {
            Fan::Off => 0x00,
            Fan::Low => 0x01,
            Fan::Medium => 0x02,
            Fan::High => 0x03,
            Fan::Auto => 0x04,
            Fan::AutoAa => 0x05,
            Fan::Unknown(v) => v,
        }
    }
}

impl FromSpecImpl<u8> for Fan {
    open spec fn obeys_from_spec() -> bool {
        true
    }

    open spec fn from_spec(v: u8) -> Fan {
        Fan::of(v)
    }
}

impl From<u8> for Fan {
    fn from(v: u8) -> (r: Fan) {
        Fan::from_u8(v)
    }
}

impl FromSpecImpl<Fan> for u8 {
    open spec fn obeys_from_spec() -> bool {
        true
    }

    open spec fn from_spec(v: Fan) -> u8 {
        v.byte()
    }
}

impl From<Fan> for u8 {
    fn from(v: Fan) -> (r: u8) {
        v.to_u8()
    }
}

/// Fresh-air damper status (register `05` byte 5).
#[derive(Debug, Clone, Copy, PartialEq, Eq, Hash, Structural)]
pub enum FreshAir {
    /// No fresh-air hardware (`0x00`).
    Absent,
    /// `0x01`.
    Off,
    /// `0x02`.
    On,
    /// Any other byte.
    Unknown(u8),
}

impl FreshAir {
    /// The value that a byte means.
    pub open spec fn of(value: u8) -> FreshAir {
        if value == 0x00 {
            FreshAir::Absent
        } else if value == 0x01 {
            FreshAir::Off
        } else if value == 0x02 {
            FreshAir::On
        } else {
            FreshAir::Unknown(value)
        }
    }

    /// The byte of a value.
    pub open spec fn byte(self) -> u8 {
        match self {
            FreshAir::Absent => 0x00,
            FreshAir::Off => 0x01,
            FreshAir::On => 0x02,
            FreshAir::Unknown(v) => v,
        }
    }

    /// Maps a raw byte.
    pub fn from_u8(value: u8) -> (r: FreshAir)
        ensures
            r == FreshAir::of(value),
    {
        match value {
            0x00 => FreshAir::Absent,
            0x01 => FreshAir::Off,
            0x02 => FreshAir::On,
            other => FreshAir::Unknown(other),
        }
    }

    /// The raw byte.
    pub fn to_u8(self) -> (r: u8)
        ensures
            r == self.byte(),
    {
        match self {
            FreshAir::Absent => 0x00,
            FreshAir::Off => 0x01,
            FreshAir::On => 0x02,
            FreshAir::Unknown(v) => v,
        }
    }
}

impl FromSpecImpl<u8> for FreshAir {
    open spec fn obeys_from_spec() -> bool {
        true
    }

    open spec fn from_spec(v: u8) -> FreshAir {
        FreshAir::of(v)
    }
}

impl From<u8> for FreshAir {
    fn from(v: u8) -> (r: FreshAir) {
        FreshAir::from_u8(v)
    }
}

impl FromSpecImpl<FreshAir> for u8 {
    open spec fn obeys_from_spec() -> bool {
        true
    }

    open spec fn from_spec(v: FreshAir) -> u8 {
        v.byte()
    }
}

impl From<FreshAir> for u8 {
    fn from(v: FreshAir) -> (r: u8) {
        v.to_u8()
    }
}

/// Zone temperature sensor type (register `03` byte 2).
#[derive(Debug, Clone, Copy, PartialEq, Eq, Hash, Structural)]
pub enum SensorType {
    /// `0x00`.
    NoSensor,
    /// `0x01`.
    Rf,
    /// `0x02`.
    Wired,
    /// `0x03`.
    Rf2CanBooster,
    /// `0x04`.
    RfX,
    /// Any other byte.
    Unknown(u8),
}

impl SensorType {
    /// The value that a byte means.
    pub open spec fn of(value: u8) -> SensorType {
        if value == 0x00 {
            SensorType::NoSensor
        } else if value == 0x01 {
            SensorType::Rf
        } else if value == 0x02 {
            SensorType::Wired
        } else if value == 0x03 {
            SensorType::Rf2CanBooster
        } else if value == 0x04 {
            SensorType::RfX
        } else {
            SensorType::Unknown(value)
        }
    }

    /// The byte of a value.
    pub open spec fn byte(self) -> u8 {
        match self {
            SensorType::NoSensor => 0x00,
            SensorType::Rf => 0x01,
            SensorType::Wired => 0x02,
            SensorType::Rf2CanBooster => 0x03,
            SensorType::RfX => 0x04,
            SensorType::Unknown(v) => v,
        }
    }

    /// Maps a raw byte.
    pub fn from_u8(value: u8) -> (r: SensorType)
        ensures
            r == SensorType::of(value),
    {
        match value {
            0x00 => SensorType::NoSensor,
            0x01 => SensorType::Rf,
            0x02 => SensorType::Wired,
            0x03 => SensorType::Rf2CanBooster,
            0x04 => SensorType::RfX,
            other => SensorType::Unknown(other),
        }
    }

    /// The raw byte.
    pub fn to_u8(self) -> (r: u8)
        ensures
            r == self.byte(),
    {
        match self {
            SensorType::NoSensor => 0x00,
            SensorType::Rf => 0x01,
            SensorType::Wired => 0x02,
            SensorType::Rf2CanBooster => 0x03,
            SensorType::RfX => 0x04,
            SensorType::Unknown(v) => v,
        }
    }
}

impl FromSpecImpl<u8> for SensorType {
    open spec fn obeys_from_spec() -> bool {
        true
    }

    open spec fn from_spec(v: u8) -> SensorType {
        SensorType::of(v)
    }
}

impl From<u8> for SensorType {
    fn from(v: u8) -> (r: SensorType) {
        SensorType::from_u8(v)
    }
}

impl FromSpecImpl<SensorType> for u8 {
    open spec fn obeys_from_spec() -> bool {
        true
    }

    open spec fn from_spec(v: SensorType) -> u8 {
        v.byte()
    }
}

impl From<SensorType> for u8 {
    fn from(v: SensorType) -> (r: u8) {
        v.to_u8()
    }
}

/// Brand of the air conditioning unit (register `02` byte 0).
#[derive(Debug, Clone, Copy, PartialEq, Eq, Hash, Structural)]
pub enum UnitBrand {
    /// `0x11`.
    Daikin,
    /// `0x12`.
    Panasonic,
    /// `0x13`.
    Fujitsu,
    /// `0x19`.
    SamsungDvm,
    /// Any other byte.
    Unknown(u8),
}

impl UnitBrand {
    /// The value that a byte means.
    pub open spec fn of(value: u8) -> UnitBrand {
        if value == 0x11 {
            UnitBrand::Daikin
        } else if value == 0x12 {
            UnitBrand::Panasonic
        } else if value == 0x13 {
            UnitBrand::Fujitsu
        } else if value == 0x19 {
            UnitBrand::SamsungDvm
        } else {
            UnitBrand::Unknown(value)
        }
    }

    /// The byte of a value.
    pub open spec fn byte(self) -> u8 {
        match self {
            UnitBrand::Daikin => 0x11,
            UnitBrand::Panasonic => 0x12,
            UnitBrand::Fujitsu => 0x13,
            UnitBrand::SamsungDvm => 0x19,
            UnitBrand::Unknown(v) => v,
        }
    }

    /// Maps a raw byte.
    pub fn from_u8(value: u8) -> (r: UnitBrand)
        ensures
            r == UnitBrand::of(value),
    {
        match value {
            0x11 => UnitBrand::Daikin,
            0x12 => UnitBrand::Panasonic,
            0x13 => UnitBrand::Fujitsu,
            0x19 => UnitBrand::SamsungDvm,
            other => UnitBrand::Unknown(other),
        }
    }

    /// The raw byte.
    pub fn to_u8(self) -> (r: u8)
        ensures
            r == self.byte(),
    {
        match self {
            UnitBrand::Daikin => 0x11,
            UnitBrand::Panasonic => 0x12,
            UnitBrand::Fujitsu => 0x13,
            UnitBrand::SamsungDvm => 0x19,
            UnitBrand::Unknown(v) => v,
        }
    }
}

impl FromSpecImpl<u8> for UnitBrand {
    open spec fn obeys_from_spec() -> bool {
        true
    }

    open spec fn from_spec(v: u8) -> UnitBrand {
        UnitBrand::of(v)
    }
}

impl From<u8> for UnitBrand {
    fn from(v: u8) -> (r: UnitBrand) {
        UnitBrand::from_u8(v)
    }
}

impl FromSpecImpl<UnitBrand> for u8 {
    open spec fn obeys_from_spec() -> bool {
        true
    }

    open spec fn from_spec(v: UnitBrand) -> u8 {
        v.byte()
    }
}

impl From<UnitBrand> for u8 {
    fn from(v: UnitBrand) -> (r: u8) {
        v.to_u8()
    }
}

/// Activation-code status (register `02` byte 1).
#[derive(Debug, Clone, Copy, PartialEq, Eq, Hash, Structural)]
pub enum ActivationStatus {
    /// `0x00`.
    NoCode,
    /// `0x01`.
    CodeEnabled,
    /// `0x02`.
    Expired,
    /// Any other byte.
    Unknown(u8),
}

impl ActivationStatus {
    /// The value that a byte means.
    pub open spec fn of(value: u8) -> ActivationStatus {
        if value == 0x00 {
            ActivationStatus::NoCode
        } else if value == 0x01 {
            ActivationStatus::CodeEnabled
        } else if value == 0x02 {
            ActivationStatus::Expired
        } else {
            ActivationStatus::Unknown(value)
        }
    }

    /// The byte of a value.
    pub open spec fn byte(self) -> u8 {
        match self {
            ActivationStatus::NoCode => 0x00,
            ActivationStatus::CodeEnabled => 0x01,
            ActivationStatus::Expired => 0x02,
            ActivationStatus::Unknown(v) => v,
        }
    }

    /// Maps a raw byte.
    pub fn from_u8(value: u8) -> (r: ActivationStatus)
        ensures
            r == ActivationStatus::of(value),
    {
        match value {
            0x00 => ActivationStatus::NoCode,
            0x01 => ActivationStatus::CodeEnabled,
            0x02 => ActivationStatus::Expired,
            other => ActivationStatus::Unknown(other),
        }
    }

    /// The raw byte.
    pub fn to_u8(self) -> (r: u8)
        ensures
            r == self.byte(),
    {
        match self {
            ActivationStatus::NoCode => 0x00,
            ActivationStatus::CodeEnabled => 0x01,
            ActivationStatus::Expired => 0x02,
            ActivationStatus::Unknown(v) => v,
        }
    }
}

impl FromSpecImpl<u8> for ActivationStatus {
    open spec fn obeys_from_spec() -> bool {
        true
    }

    open spec fn from_spec(v: u8) -> ActivationStatus {
        ActivationStatus::of(v)
    }
}

impl From<u8> for ActivationStatus {
    fn from(v: u8) -> (r: ActivationStatus) {
        ActivationStatus::from_u8(v)
    }
}

impl FromSpecImpl<ActivationStatus> for u8 {
    open spec fn obeys_from_spec() -> bool {
        true
    }

    open spec fn from_spec(v: ActivationStatus) -> u8 {
        v.byte()
    }
}

impl From<ActivationStatus> for u8 {
    fn from(v: ActivationStatus) -> (r: u8) {
        v.to_u8()
    }
}

/// Activation-code action (register `09` byte 0).
#[derive(Debug, Clone, Copy, PartialEq, Eq, Hash, Structural)]
pub enum Action {
    /// `0x01`.
    SetCode,
    /// `0x02`.
    Unlock,
    /// Any other byte.
    Unknown(u8),
}

impl Action {
    /// The value that a byte means.
    pub open spec fn of(value: u8) -> Action {
        if value == 0x01 {
            Action::SetCode
        } else if value == 0x02 {
            Action::Unlock
        } else {
            Action::Unknown(value)
        }
    }

    /// The byte of a value.
    pub open spec fn byte(self) -> u8 {
        match self {
            Action::SetCode => 0x01,
            Action::Unlock => 0x02,
            Action::Unknown(v) => v,
        }
    }

    /// Maps a raw byte.
    pub fn from_u8(value: u8) -> (r: Action)
        ensures
            r == Action::of(value),
    {
        match value {
            0x01 => Action::SetCode,
            0x02 => Action::Unlock,
            other => Action::Unknown(other),
        }
    }

    /// The raw byte.
    pub fn to_u8(self) -> (r: u8)
        ensures
            r == self.byte(),
    {
        match self {
            Action::SetCode => 0x01,
            Action::Unlock => 0x02,
            Action::Unknown(v) => v,
        }
    }
}

impl FromSpecImpl<u8> for Action {
    open spec fn obeys_from_spec() -> bool {
        true
    }

    open spec fn from_spec(v: u8) -> Action {
        Action::of(v)
    }
}

impl From<u8> for Action {
    fn from(v: u8) -> (r: Action) {
        Action::from_u8(v)
    }
}

impl FromSpecImpl<Action> for u8 {
    open spec fn obeys_from_spec() -> bool {
        true
    }

    open spec fn from_spec(v: Action) -> u8 {
        v.byte()
    }
}

impl From<Action> for u8 {
    fn from(v: Action) -> (r: u8) {
        v.to_u8()
    }
}

/// Every byte is kept by every field type: mapping a byte to its value and back
/// gives the byte.
pub proof fn law_bytes_kept(value: u8)
    ensures
        Power::of(value).byte() == value,
        Mode::of(value).byte() == value,
        Fan::of(value).byte() == value,
        FreshAir::of(value).byte() == value,
        SensorType::of(value).byte() == value,
        UnitBrand::of(value).byte() == value,
        ActivationStatus::of(value).byte() == value,
        Action::of(value).byte() == value,
{
}

/// Every value that a byte means reads back from its byte.
pub proof fn law_values_kept(
    power: Power,
    mode: Mode,
    fan: Fan,
    fresh_air: FreshAir,
    sensor_type: SensorType,
    unit_brand: UnitBrand,
    activation_status: ActivationStatus,
    action: Action,
)
    ensures
        !(power is Unknown) ==> Power::of(power.byte()) == power,
        !(mode is Unknown) ==> Mode::of(mode.byte()) == mode,
        !(fan is Unknown) ==> Fan::of(fan.byte()) == fan,
        !(fresh_air is Unknown) ==> FreshAir::of(fresh_air.byte()) == fresh_air,
        !(sensor_type is Unknown) ==> SensorType::of(sensor_type.byte()) == sensor_type,
        !(unit_brand is Unknown) ==> UnitBrand::of(unit_brand.byte()) == unit_brand,
        !(activation_status is Unknown) ==> ActivationStatus::of(activation_status.byte())
            == activation_status,
        !(action is Unknown) ==> Action::of(action.byte()) == action,
{
}

} // verus!
