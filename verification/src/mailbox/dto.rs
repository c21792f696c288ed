//! Typed payloads of the registers, as clients see them.
use crate::mailbox::value::{
    byte_in, flag_in, get_byte, get_flag, get_number, get_text, get_triple, items_model, member,
    members_model, number_in, text_in, triple_in, Field, FieldModel, Fields, Member, Nested,
    NestedModel, Number, Payload, PayloadModel,
};
use crate::mailbox::words::{
    ActionEnum, ActivationStatus, FanEnum, FreshAirEnum, ModeEnum, PowerEnum, SensorTypeEnum,
    UnitTypeEnum,
};
use vstd::prelude::*;

verus! {

/// Outcome of a request.
#[derive(Debug, Clone, Copy, PartialEq, Eq, Structural)]
pub enum AckStatus {
    /// Accepted.
    Success,
    /// Rejected.
    Error,
}

/// State of the link to the unit.
#[derive(Debug, Clone, Copy, PartialEq, Eq, Structural)]
pub enum StatusState {
    /// Negotiating with the unit.
    Negotiating,
    /// The mailbox is in sync.
    Synced,
    /// The mailbox is being read again.
    Resyncing,
    /// The link is down.
    LinkDown,
}

impl AckStatus {
    /// The word of an outcome.
    pub open spec fn word(self) -> Seq<char> {
        match self {
            AckStatus::Success => "success"@,
            AckStatus::Error => "error"@,
        }
    }

    /// The word of this outcome.
    pub fn as_word(self) -> (r: &'static str)
        ensures
            r@ == self.word(),
    {
        match self {
            AckStatus::Success => "success",
            AckStatus::Error => "error",
        }
    }
}

impl StatusState {
    /// The word of a state.
    pub open spec fn word(self) -> Seq<char> {
        match self {
            StatusState::Negotiating => "negotiating"@,
            StatusState::Synced => "synced"@,
            StatusState::Resyncing => "resyncing"@,
            StatusState::LinkDown => "link_down"@,
        }
    }

    /// The word of this state.
    pub fn as_word(self) -> (r: &'static str)
        ensures
            r@ == self.word(),
    {
        match self {
            StatusState::Negotiating => "negotiating",
            StatusState::Synced => "synced",
            StatusState::Resyncing => "resyncing",
            StatusState::LinkDown => "link_down",
        }
    }
}

/// Three bytes as numbers.
pub open spec fn triple_numbers(bytes: [u8; 3]) -> Seq<NestedModel> {
    seq![
        NestedModel::Number(Number::Integer(bytes[0] as u64)),
        NestedModel::Number(Number::Integer(bytes[1] as u64)),
        NestedModel::Number(Number::Integer(bytes[2] as u64)),
    ]
}

/// A field that holds a byte.
fn byte_field(b: u8) -> (r: Field)
    ensures
        r@ == FieldModel::Number(Number::Integer(b as u64)),
{
    Field::Number(Number::Integer(b as u64))
}

/// A field that holds a word.
fn word_field(word: &str) -> (r: Field)
    ensures
        r@ == FieldModel::Text(word@),
{
    Field::Text(word.to_owned())
}

/// A field that holds three bytes.
fn triple_field(bytes: [u8; 3]) -> (r: Field)
    ensures
        r@ == FieldModel::List(triple_numbers(bytes)),
{
    let mut list: Vec<Nested> = Vec::new();
    list.push(Nested::Number(Number::Integer(bytes[0] as u64)));
    list.push(Nested::Number(Number::Integer(bytes[1] as u64)));
    list.push(Nested::Number(Number::Integer(bytes[2] as u64)));
    proof {
        assert(items_model(list@) =~= triple_numbers(bytes));
    }
    Field::List(list)
}

/// Register `01`: zone configuration.
#[derive(Debug, Clone, Copy, PartialEq, Eq)]
pub struct ZoneConfigDto {
    /// Opaque header byte.
    pub header: u8,
    /// Number of zones.
    pub total_zones: u8,
    /// Number of constant zones.
    pub constant_zones: u8,
    /// Constant zone ids.
    pub constant_zone_ids: [u8; 3],
    /// Filter needs cleaning.
    pub filter_clean_required: bool,
}

impl ZoneConfigDto {
    /// The fields of a value.
    pub open spec fn fields(self) -> Fields {
        seq![
            ("header"@, FieldModel::Number(Number::Integer(self.header as u64))),
            ("total_zones"@, FieldModel::Number(Number::Integer(self.total_zones as u64))),
            ("constant_zones"@, FieldModel::Number(Number::Integer(self.constant_zones as u64))),
            ("constant_zone_ids"@, FieldModel::List(triple_numbers(self.constant_zone_ids))),
            ("filter_clean_required"@, FieldModel::Bool(self.filter_clean_required)),
        ]
    }

    /// This value is what the fields hold.
    pub open spec fn is_in(self, fields: Fields) -> bool {
        &&& self.header == byte_in(fields, "header"@)
        &&& self.total_zones == byte_in(fields, "total_zones"@)
        &&& self.constant_zones == byte_in(fields, "constant_zones"@)
        &&& self.constant_zone_ids == triple_in(fields, "constant_zone_ids"@)
        &&& self.filter_clean_required == flag_in(fields, "filter_clean_required"@)
    }

    /// The payload of this value.
    pub fn to_payload(&self) -> (r: Payload)
        ensures
            r@ == PayloadModel::Object(self.fields()),
    {
        let mut members: Vec<Member> = Vec::new();
        members.push(member("header", byte_field(self.header)));
        members.push(member("total_zones", byte_field(self.total_zones)));
        members.push(member("constant_zones", byte_field(self.constant_zones)));
        members.push(member("constant_zone_ids", triple_field(self.constant_zone_ids)));
        members.push(member("filter_clean_required", Field::Bool(self.filter_clean_required)));
        proof {
            assert(members_model(members@) =~= self.fields());
        }
        Payload::Object(members)
    }

    /// The value that the members hold.
    pub fn from_members(members: &Vec<Member>) -> (r: ZoneConfigDto)
        ensures
            r.is_in(members_model(members@)),
    {
        ZoneConfigDto {
            header: get_byte(members, "header"),
            total_zones: get_byte(members, "total_zones"),
            constant_zones: get_byte(members, "constant_zones"),
            constant_zone_ids: get_triple(members, "constant_zone_ids"),
            filter_clean_required: get_flag(members, "filter_clean_required"),
        }
    }
}

/// Register `02`: activation of the unit.
#[derive(Debug, Clone, Copy, PartialEq, Eq)]
pub struct UnitActivationDto {
    /// Brand of the unit.
    pub unit_type: UnitTypeEnum,
    /// Activation status.
    pub activation_status: ActivationStatus,
    /// Major version of the dictionary.
    pub dict_fw_major: u8,
    /// Minor version of the dictionary.
    pub dict_fw_minor: u8,
}

impl UnitActivationDto {
    /// The fields of a value.
    pub open spec fn fields(self) -> Fields {
        seq![
            ("unit_type"@, FieldModel::Text(self.unit_type.word())),
            ("activation_status"@, FieldModel::Text(self.activation_status.word())),
            ("dict_fw_major"@, FieldModel::Number(Number::Integer(self.dict_fw_major as u64))),
            ("dict_fw_minor"@, FieldModel::Number(Number::Integer(self.dict_fw_minor as u64))),
        ]
    }

    /// This value is what the fields hold.
    pub open spec fn is_in(self, fields: Fields) -> bool {
        &&& self.unit_type == UnitTypeEnum::value_in(fields, "unit_type"@)
        &&& self.activation_status == ActivationStatus::value_in(fields, "activation_status"@)
        &&& self.dict_fw_major == byte_in(fields, "dict_fw_major"@)
        &&& self.dict_fw_minor == byte_in(fields, "dict_fw_minor"@)
    }

    /// The payload of this value.
    pub fn to_payload(&self) -> (r: Payload)
        ensures
            r@ == PayloadModel::Object(self.fields()),
    {
        let mut members: Vec<Member> = Vec::new();
        members.push(member("unit_type", word_field(self.unit_type.as_word())));
        members.push(member("activation_status", word_field(self.activation_status.as_word())));
        members.push(member("dict_fw_major", byte_field(self.dict_fw_major)));
        members.push(member("dict_fw_minor", byte_field(self.dict_fw_minor)));
        proof {
            assert(members_model(members@) =~= self.fields());
        }
        Payload::Object(members)
    }

    /// The value that the members hold.
    pub fn from_members(members: &Vec<Member>) -> (r: UnitActivationDto)
        ensures
            r.is_in(members_model(members@)),
    {
        UnitActivationDto {
            unit_type: UnitTypeEnum::from_member(members, "unit_type"),
            activation_status: ActivationStatus::from_member(members, "activation_status"),
            dict_fw_major: get_byte(members, "dict_fw_major"),
            dict_fw_minor: get_byte(members, "dict_fw_minor"),
        }
    }
}

/// Register `03`: state of one zone.
#[derive(Debug, Clone, Copy, PartialEq, Eq)]
pub struct ZoneStateDto {
    /// Zone is open.
    pub open: bool,
    /// Damper percentage.
    pub damper_pct: u8,
    /// Attached sensor.
    pub sensor_type: SensorTypeEnum,
    /// Set temperature in degrees.
    pub target_temp_c: Number,
    /// Measured temperature in degrees.
    pub measured_temp_c: Number,
}

impl ZoneStateDto {
    /// The fields of a value.
    pub open spec fn fields(self) -> Fields {
        seq![
            ("open"@, FieldModel::Bool(self.open)),
            ("damper_pct"@, FieldModel::Number(Number::Integer(self.damper_pct as u64))),
            ("sensor_type"@, FieldModel::Text(self.sensor_type.word())),
            ("target_temp_c"@, FieldModel::Number(self.target_temp_c)),
            ("measured_temp_c"@, FieldModel::Number(self.measured_temp_c)),
        ]
    }

    /// This value is what the fields hold.
    pub open spec fn is_in(self, fields: Fields) -> bool {
        &&& self.open == flag_in(fields, "open"@)
        &&& self.damper_pct == byte_in(fields, "damper_pct"@)
        &&& self.sensor_type == SensorTypeEnum::value_in(fields, "sensor_type"@)
        &&& self.target_temp_c == number_in(fields, "target_temp_c"@)
        &&& self.measured_temp_c == number_in(fields, "measured_temp_c"@)
    }

    /// The payload of this value.
    pub fn to_payload(&self) -> (r: Payload)
        ensures
            r@ == PayloadModel::Object(self.fields()),
    {
        let mut members: Vec<Member> = Vec::new();
        members.push(member("open", Field::Bool(self.open)));
        members.push(member("damper_pct", byte_field(self.damper_pct)));
        members.push(member("sensor_type", word_field(self.sensor_type.as_word())));
        members.push(member("target_temp_c", Field::Number(self.target_temp_c)));
        members.push(member("measured_temp_c", Field::Number(self.measured_temp_c)));
        proof {
            assert(members_model(members@) =~= self.fields());
        }
        Payload::Object(members)
    }

    /// The value that the members hold.
    pub fn from_members(members: &Vec<Member>) -> (r: ZoneStateDto)
        ensures
            r.is_in(members_model(members@)),
    {
        ZoneStateDto {
            open: get_flag(members, "open"),
            damper_pct: get_byte(members, "damper_pct"),
            sensor_type: SensorTypeEnum::from_member(members, "sensor_type"),
            target_temp_c: get_number(members, "target_temp_c"),
            measured_temp_c: get_number(members, "measured_temp_c"),
        }
    }
}

/// Register `04`: limits and sensors of one zone.
#[derive(Debug, Clone, Copy, PartialEq, Eq)]
pub struct ZoneLimitsDto {
    /// Smallest damper percentage.
    pub min_damper: u8,
    /// Greatest damper percentage.
    pub max_damper: u8,
    /// Motion sensor status.
    pub motion_status: u8,
    /// Motion sensor configuration.
    pub motion_config: u8,
    /// Error of the zone.
    pub zone_error: u8,
    /// Signal strength.
    pub rssi: u8,
}

impl ZoneLimitsDto {
    /// The fields of a value.
    pub open spec fn fields(self) -> Fields {
        seq![
            ("min_damper"@, FieldModel::Number(Number::Integer(self.min_damper as u64))),
            ("max_damper"@, FieldModel::Number(Number::Integer(self.max_damper as u64))),
            ("motion_status"@, FieldModel::Number(Number::Integer(self.motion_status as u64))),
            ("motion_config"@, FieldModel::Number(Number::Integer(self.motion_config as u64))),
            ("zone_error"@, FieldModel::Number(Number::Integer(self.zone_error as u64))),
            ("rssi"@, FieldModel::Number(Number::Integer(self.rssi as u64))),
        ]
    }

    /// This value is what the fields hold.
    pub open spec fn is_in(self, fields: Fields) -> bool {
        &&& self.min_damper == byte_in(fields, "min_damper"@)
        &&& self.max_damper == byte_in(fields, "max_damper"@)
        &&& self.motion_status == byte_in(fields, "motion_status"@)
        &&& self.motion_config == byte_in(fields, "motion_config"@)
        &&& self.zone_error == byte_in(fields, "zone_error"@)
        &&& self.rssi == byte_in(fields, "rssi"@)
    }

    /// The payload of this value.
    pub fn to_payload(&self) -> (r: Payload)
        ensures
            r@ == PayloadModel::Object(self.fields()),
    {
        let mut members: Vec<Member> = Vec::new();
        members.push(member("min_damper", byte_field(self.min_damper)));
        members.push(member("max_damper", byte_field(self.max_damper)));
        members.push(member("motion_status", byte_field(self.motion_status)));
        members.push(member("motion_config", byte_field(self.motion_config)));
        members.push(member("zone_error", byte_field(self.zone_error)));
        members.push(member("rssi", byte_field(self.rssi)));
        proof {
            assert(members_model(members@) =~= self.fields());
        }
        Payload::Object(members)
    }

    /// The value that the members hold.
    pub fn from_members(members: &Vec<Member>) -> (r: ZoneLimitsDto)
        ensures
            r.is_in(members_model(members@)),
    {
        ZoneLimitsDto {
            min_damper: get_byte(members, "min_damper"),
            max_damper: get_byte(members, "max_damper"),
            motion_status: get_byte(members, "motion_status"),
            motion_config: get_byte(members, "motion_config"),
            zone_error: get_byte(members, "zone_error"),
            rssi: get_byte(members, "rssi"),
        }
    }
}

/// Register `05`: status of the system.
#[derive(Debug, Clone, Copy, PartialEq, Eq)]
pub struct SystemStatusDto {
    /// Power.
    pub power: PowerEnum,
    /// Operating mode.
    pub mode: ModeEnum,
    /// Fan speed.
    pub fan: FanEnum,
    /// Set temperature in degrees.
    pub target_temp_c: Number,
    /// Controlling zone.
    pub myzone_id: u8,
    /// Fresh-air status.
    pub fresh_air: FreshAirEnum,
    /// Radio system id.
    pub rf_sys_id: u8,
}

impl SystemStatusDto {
    /// The fields of a value.
    pub open spec fn fields(self) -> Fields {
        seq![
            ("power"@, FieldModel::Text(self.power.word())),
            ("mode"@, FieldModel::Text(self.mode.word())),
            ("fan"@, FieldModel::Text(self.fan.word())),
            ("target_temp_c"@, FieldModel::Number(self.target_temp_c)),
            ("myzone_id"@, FieldModel::Number(Number::Integer(self.myzone_id as u64))),
            ("fresh_air"@, FieldModel::Text(self.fresh_air.word())),
            ("rf_sys_id"@, FieldModel::Number(Number::Integer(self.rf_sys_id as u64))),
        ]
    }

    /// This value is what the fields hold.
    pub open spec fn is_in(self, fields: Fields) -> bool {
        &&& self.power == PowerEnum::value_in(fields, "power"@)
        &&& self.mode == ModeEnum::value_in(fields, "mode"@)
        &&& self.fan == FanEnum::value_in(fields, "fan"@)
        &&& self.target_temp_c == number_in(fields, "target_temp_c"@)
        &&& self.myzone_id == byte_in(fields, "myzone_id"@)
        &&& self.fresh_air == FreshAirEnum::value_in(fields, "fresh_air"@)
        &&& self.rf_sys_id == byte_in(fields, "rf_sys_id"@)
    }

    /// The payload of this value.
    pub fn to_payload(&self) -> (r: Payload)
        ensures
            r@ == PayloadModel::Object(self.fields()),
    {
        let mut members: Vec<Member> = Vec::new();
        members.push(member("power", word_field(self.power.as_word())));
        members.push(member("mode", word_field(self.mode.as_word())));
        members.push(member("fan", word_field(self.fan.as_word())));
        members.push(member("target_temp_c", Field::Number(self.target_temp_c)));
        members.push(member("myzone_id", byte_field(self.myzone_id)));
        members.push(member("fresh_air", word_field(self.fresh_air.as_word())));
        members.push(member("rf_sys_id", byte_field(self.rf_sys_id)));
        proof {
            assert(members_model(members@) =~= self.fields());
        }
        Payload::Object(members)
    }

    /// The value that the members hold.
    pub fn from_members(members: &Vec<Member>) -> (r: SystemStatusDto)
        ensures
            r.is_in(members_model(members@)),
    {
        SystemStatusDto {
            power: PowerEnum::from_member(members, "power"),
            mode: ModeEnum::from_member(members, "mode"),
            fan: FanEnum::from_member(members, "fan"),
            target_temp_c: get_number(members, "target_temp_c"),
            myzone_id: get_byte(members, "myzone_id"),
            fresh_air: FreshAirEnum::from_member(members, "fresh_air"),
            rf_sys_id: get_byte(members, "rf_sys_id"),
        }
    }
}

/// Register `06`: firmware.
#[derive(Debug, Clone, Copy, PartialEq, Eq)]
pub struct FirmwareDto {
    /// Major version.
    pub fw_major: u8,
    /// Minor version.
    pub fw_minor: u8,
    /// Type of the control box.
    pub cb_type: u8,
    /// Major version of the radio firmware.
    pub rf_fw_major: u8,
}

impl FirmwareDto {
    /// The fields of a value.
    pub open spec fn fields(self) -> Fields {
        seq![
            ("fw_major"@, FieldModel::Number(Number::Integer(self.fw_major as u64))),
            ("fw_minor"@, FieldModel::Number(Number::Integer(self.fw_minor as u64))),
            ("cb_type"@, FieldModel::Number(Number::Integer(self.cb_type as u64))),
            ("rf_fw_major"@, FieldModel::Number(Number::Integer(self.rf_fw_major as u64))),
        ]
    }

    /// This value is what the fields hold.
    pub open spec fn is_in(self, fields: Fields) -> bool {
        &&& self.fw_major == byte_in(fields, "fw_major"@)
        &&& self.fw_minor == byte_in(fields, "fw_minor"@)
        &&& self.cb_type == byte_in(fields, "cb_type"@)
        &&& self.rf_fw_major == byte_in(fields, "rf_fw_major"@)
    }

    /// The payload of this value.
    pub fn to_payload(&self) -> (r: Payload)
        ensures
            r@ == PayloadModel::Object(self.fields()),
    {
        let mut members: Vec<Member> = Vec::new();
        members.push(member("fw_major", byte_field(self.fw_major)));
        members.push(member("fw_minor", byte_field(self.fw_minor)));
        members.push(member("cb_type", byte_field(self.cb_type)));
        members.push(member("rf_fw_major", byte_field(self.rf_fw_major)));
        proof {
            assert(members_model(members@) =~= self.fields());
        }
        Payload::Object(members)
    }

    /// The value that the members hold.
    pub fn from_members(members: &Vec<Member>) -> (r: FirmwareDto)
        ensures
            r.is_in(members_model(members@)),
    {
        FirmwareDto {
            fw_major: get_byte(members, "fw_major"),
            fw_minor: get_byte(members, "fw_minor"),
            cb_type: get_byte(members, "cb_type"),
            rf_fw_major: get_byte(members, "rf_fw_major"),
        }
    }
}

/// Register `08`: error code.
#[derive(Debug, Clone, PartialEq, Eq)]
pub struct SystemErrorDto {
    /// Error code.
    pub error_code: String,
}

impl SystemErrorDto {
    /// The fields of a value.
    pub open spec fn fields(self) -> Fields {
        seq![
            ("error_code"@, FieldModel::Text(self.error_code@)),
        ]
    }

    /// This value is what the fields hold.
    pub open spec fn is_in(self, fields: Fields) -> bool {
        &&& self.error_code@ == text_in(fields, "error_code"@)
    }

    /// The payload of this value.
    pub fn to_payload(&self) -> (r: Payload)
        ensures
            r@ == PayloadModel::Object(self.fields()),
    {
        let mut members: Vec<Member> = Vec::new();
        members.push(member("error_code", Field::Text(self.error_code.clone())));
        proof {
            assert(members_model(members@) =~= self.fields());
        }
        Payload::Object(members)
    }

    /// The value that the members hold.
    pub fn from_members(members: &Vec<Member>) -> (r: SystemErrorDto)
        ensures
            r.is_in(members_model(members@)),
    {
        SystemErrorDto {
            error_code: get_text(members, "error_code"),
        }
    }
}

/// Register `09`: activation code.
#[derive(Debug, Clone, PartialEq, Eq)]
pub struct ActivationCodeDto {
    /// What to do.
    pub action: ActionEnum,
    /// Four hexadecimal digits.
    pub unlock_code: String,
    /// Days of activation.
    pub activation_days: u8,
}

impl ActivationCodeDto {
    /// The fields of a value.
    pub open spec fn fields(self) -> Fields {
        seq![
            ("action"@, FieldModel::Text(self.action.word())),
            ("unlock_code"@, FieldModel::Text(self.unlock_code@)),
            ("activation_days"@, FieldModel::Number(Number::Integer(self.activation_days as u64))),
        ]
    }

    /// This value is what the fields hold.
    pub open spec fn is_in(self, fields: Fields) -> bool {
        &&& self.action == ActionEnum::value_in(fields, "action"@)
        &&& self.unlock_code@ == text_in(fields, "unlock_code"@)
        &&& self.activation_days == byte_in(fields, "activation_days"@)
    }

    /// The payload of this value.
    pub fn to_payload(&self) -> (r: Payload)
        ensures
            r@ == PayloadModel::Object(self.fields()),
    {
        let mut members: Vec<Member> = Vec::new();
        members.push(member("action", word_field(self.action.as_word())));
        members.push(member("unlock_code", Field::Text(self.unlock_code.clone())));
        members.push(member("activation_days", byte_field(self.activation_days)));
        proof {
            assert(members_model(members@) =~= self.fields());
        }
        Payload::Object(members)
    }

    /// The value that the members hold.
    pub fn from_members(members: &Vec<Member>) -> (r: ActivationCodeDto)
        ensures
            r.is_in(members_model(members@)),
    {
        ActivationCodeDto {
            action: ActionEnum::from_member(members, "action"),
            unlock_code: get_text(members, "unlock_code"),
            activation_days: get_byte(members, "activation_days"),
        }
    }
}

/// Register `0a`: announcement of a unit, without fields.
#[derive(Debug, Clone, Copy, PartialEq, Eq)]
pub struct UnitAnnouncementDto {
}

impl UnitAnnouncementDto {
    /// The fields of a value.
    pub open spec fn fields(self) -> Fields {
        seq![
        ]
    }

    /// The payload of this value.
    pub fn to_payload(&self) -> (r: Payload)
        ensures
            r@ == PayloadModel::Object(self.fields()),
    {
        let members: Vec<Member> = Vec::new();
        proof {
            assert(members_model(members@) =~= self.fields());
        }
        Payload::Object(members)
    }
}

/// Register `12`, as it is read: pairing of a sensor.
#[derive(Debug, Clone, PartialEq, Eq)]
pub struct SensorPairingDto {
    /// Six hexadecimal digits.
    pub sensor_uid: String,
    /// Pairing is requested.
    pub pairing: bool,
    /// Revision of the sensor.
    pub sensor_rev: u8,
}

impl SensorPairingDto {
    /// The fields of a value.
    pub open spec fn fields(self) -> Fields {
        seq![
            ("sensor_uid"@, FieldModel::Text(self.sensor_uid@)),
            ("pairing"@, FieldModel::Bool(self.pairing)),
            ("sensor_rev"@, FieldModel::Number(Number::Integer(self.sensor_rev as u64))),
        ]
    }

    /// This value is what the fields hold.
    pub open spec fn is_in(self, fields: Fields) -> bool {
        &&& self.sensor_uid@ == text_in(fields, "sensor_uid"@)
        &&& self.pairing == flag_in(fields, "pairing"@)
        &&& self.sensor_rev == byte_in(fields, "sensor_rev"@)
    }

    /// The payload of this value.
    pub fn to_payload(&self) -> (r: Payload)
        ensures
            r@ == PayloadModel::Object(self.fields()),
    {
        let mut members: Vec<Member> = Vec::new();
        members.push(member("sensor_uid", Field::Text(self.sensor_uid.clone())));
        members.push(member("pairing", Field::Bool(self.pairing)));
        members.push(member("sensor_rev", byte_field(self.sensor_rev)));
        proof {
            assert(members_model(members@) =~= self.fields());
        }
        Payload::Object(members)
    }

    /// The value that the members hold.
    pub fn from_members(members: &Vec<Member>) -> (r: SensorPairingDto)
        ensures
            r.is_in(members_model(members@)),
    {
        SensorPairingDto {
            sensor_uid: get_text(members, "sensor_uid"),
            pairing: get_flag(members, "pairing"),
            sensor_rev: get_byte(members, "sensor_rev"),
        }
    }
}

/// Register `12`, as it is written: pairing of a sensor.
#[derive(Debug, Clone, PartialEq, Eq)]
pub struct SensorPairingWriteDto {
    /// Six hexadecimal digits.
    pub sensor_uid: String,
    /// Zone to pair with.
    pub zone: u8,
}

impl SensorPairingWriteDto {
    /// The fields of a value.
    pub open spec fn fields(self) -> Fields {
        seq![
            ("sensor_uid"@, FieldModel::Text(self.sensor_uid@)),
            ("zone"@, FieldModel::Number(Number::Integer(self.zone as u64))),
        ]
    }

    /// This value is what the fields hold.
    pub open spec fn is_in(self, fields: Fields) -> bool {
        &&& self.sensor_uid@ == text_in(fields, "sensor_uid"@)
        &&& self.zone == byte_in(fields, "zone"@)
    }

    /// The payload of this value.
    pub fn to_payload(&self) -> (r: Payload)
        ensures
            r@ == PayloadModel::Object(self.fields()),
    {
        let mut members: Vec<Member> = Vec::new();
        members.push(member("sensor_uid", Field::Text(self.sensor_uid.clone())));
        members.push(member("zone", byte_field(self.zone)));
        proof {
            assert(members_model(members@) =~= self.fields());
        }
        Payload::Object(members)
    }

    /// The value that the members hold.
    pub fn from_members(members: &Vec<Member>) -> (r: SensorPairingWriteDto)
        ensures
            r.is_in(members_model(members@)),
    {
        SensorPairingWriteDto {
            sensor_uid: get_text(members, "sensor_uid"),
            zone: get_byte(members, "zone"),
        }
    }
}

/// Register `13`: info byte.
#[derive(Debug, Clone, Copy, PartialEq, Eq)]
pub struct InfoByteDto {
    /// Info byte.
    pub info_byte: u8,
}

impl InfoByteDto {
    /// The fields of a value.
    pub open spec fn fields(self) -> Fields {
        seq![
            ("info_byte"@, FieldModel::Number(Number::Integer(self.info_byte as u64))),
        ]
    }

    /// This value is what the fields hold.
    pub open spec fn is_in(self, fields: Fields) -> bool {
        &&& self.info_byte == byte_in(fields, "info_byte"@)
    }

    /// The payload of this value.
    pub fn to_payload(&self) -> (r: Payload)
        ensures
            r@ == PayloadModel::Object(self.fields()),
    {
        let mut members: Vec<Member> = Vec::new();
        members.push(member("info_byte", byte_field(self.info_byte)));
        proof {
            assert(members_model(members@) =~= self.fields());
        }
        Payload::Object(members)
    }

    /// The value that the members hold.
    pub fn from_members(members: &Vec<Member>) -> (r: InfoByteDto)
        ensures
            r.is_in(members_model(members@)),
    {
        InfoByteDto {
            info_byte: get_byte(members, "info_byte"),
        }
    }
}

/// Register `26`: pairing of a radio device.
#[derive(Debug, Clone, Copy, PartialEq, Eq)]
pub struct RfDevicePairingDto {
    /// Pairing command.
    pub pairing_control: u8,
    /// Type of the device.
    pub rf_device_type: u8,
    /// Zone or channel.
    pub zone_channel: u8,
}

impl RfDevicePairingDto {
    /// The fields of a value.
    pub open spec fn fields(self) -> Fields {
        seq![
            ("pairing_control"@, FieldModel::Number(Number::Integer(self.pairing_control as u64))),
            ("rf_device_type"@, FieldModel::Number(Number::Integer(self.rf_device_type as u64))),
            ("zone_channel"@, FieldModel::Number(Number::Integer(self.zone_channel as u64))),
        ]
    }

    /// This value is what the fields hold.
    pub open spec fn is_in(self, fields: Fields) -> bool {
        &&& self.pairing_control == byte_in(fields, "pairing_control"@)
        &&& self.rf_device_type == byte_in(fields, "rf_device_type"@)
        &&& self.zone_channel == byte_in(fields, "zone_channel"@)
    }

    /// The payload of this value.
    pub fn to_payload(&self) -> (r: Payload)
        ensures
            r@ == PayloadModel::Object(self.fields()),
    {
        let mut members: Vec<Member> = Vec::new();
        members.push(member("pairing_control", byte_field(self.pairing_control)));
        members.push(member("rf_device_type", byte_field(self.rf_device_type)));
        members.push(member("zone_channel", byte_field(self.zone_channel)));
        proof {
            assert(members_model(members@) =~= self.fields());
        }
        Payload::Object(members)
    }

    /// The value that the members hold.
    pub fn from_members(members: &Vec<Member>) -> (r: RfDevicePairingDto)
        ensures
            r.is_in(members_model(members@)),
    {
        RfDevicePairingDto {
            pairing_control: get_byte(members, "pairing_control"),
            rf_device_type: get_byte(members, "rf_device_type"),
            zone_channel: get_byte(members, "zone_channel"),
        }
    }
}

/// Register `27`: calibration of a radio device.
#[derive(Debug, Clone, Copy, PartialEq, Eq)]
pub struct RfDeviceCalibrationDto {
    /// Calibration command.
    pub calibration_control: u8,
    /// Channel.
    pub channel: u8,
    /// Position.
    pub up_down_position: u8,
}

impl RfDeviceCalibrationDto {
    /// The fields of a value.
    pub open spec fn fields(self) -> Fields {
        seq![
            (
                "calibration_control"@,
                FieldModel::Number(Number::Integer(self.calibration_control as u64)),
            ),
            ("channel"@, FieldModel::Number(Number::Integer(self.channel as u64))),
            (
                "up_down_position"@,
                FieldModel::Number(Number::Integer(self.up_down_position as u64)),
            ),
        ]
    }

    /// This value is what the fields hold.
    pub open spec fn is_in(self, fields: Fields) -> bool {
        &&& self.calibration_control == byte_in(fields, "calibration_control"@)
        &&& self.channel == byte_in(fields, "channel"@)
        &&& self.up_down_position == byte_in(fields, "up_down_position"@)
    }

    /// The payload of this value.
    pub fn to_payload(&self) -> (r: Payload)
        ensures
            r@ == PayloadModel::Object(self.fields()),
    {
        let mut members: Vec<Member> = Vec::new();
        members.push(member("calibration_control", byte_field(self.calibration_control)));
        members.push(member("channel", byte_field(self.channel)));
        members.push(member("up_down_position", byte_field(self.up_down_position)));
        proof {
            assert(members_model(members@) =~= self.fields());
        }
        Payload::Object(members)
    }

    /// The value that the members hold.
    pub fn from_members(members: &Vec<Member>) -> (r: RfDeviceCalibrationDto)
        ensures
            r.is_in(members_model(members@)),
    {
        RfDeviceCalibrationDto {
            calibration_control: get_byte(members, "calibration_control"),
            channel: get_byte(members, "channel"),
            up_down_position: get_byte(members, "up_down_position"),
        }
    }
}

} // verus!
