//! Words for the values of register fields.
use crate::mailbox::value::{get_word, members_model, word_in, Fields, Member};
use crate::registers::enums::{Action, Fan, FreshAir, Mode, Power, SensorType, UnitBrand};
use crate::text::same_text;
use vstd::prelude::*;

verus! {

/// Operating mode (register `05`).
#[derive(Debug, Clone, Copy, PartialEq, Eq, Structural)]
pub enum ModeEnum {
    /// `cool`.
    Cool,
    /// `heat`.
    Heat,
    /// `vent`.
    Vent,
    /// `auto`.
    Auto,
    /// `dry`.
    Dry,
    /// `myauto`.
    MyAuto,
}

impl ModeEnum {
    /// The word of a value.
    pub open spec fn word(self) -> Seq<char> {
        match self {
            ModeEnum::Cool => "cool"@,
            ModeEnum::Heat => "heat"@,
            ModeEnum::Vent => "vent"@,
            ModeEnum::Auto => "auto"@,
            ModeEnum::Dry => "dry"@,
            ModeEnum::MyAuto => "myauto"@,
        }
    }

    /// The value of a word.
    pub open spec fn of_word(s: Seq<char>) -> Option<ModeEnum> {
        if s == "cool"@ {
            Some(ModeEnum::Cool)
        } else if s == "heat"@ {
            Some(ModeEnum::Heat)
        } else if s == "vent"@ {
            Some(ModeEnum::Vent)
        } else if s == "auto"@ {
            Some(ModeEnum::Auto)
        } else if s == "dry"@ {
            Some(ModeEnum::Dry)
        } else if s == "myauto"@ {
            Some(ModeEnum::MyAuto)
        } else {
            None
        }
    }

    /// The value in a field, `cool` where the field holds none.
    pub open spec fn value_in(fields: Fields, name: Seq<char>) -> ModeEnum {
        match ModeEnum::of_word(word_in(fields, name)) {
            Some(v) => v,
            None => ModeEnum::Cool,
        }
    }

    /// The register value of a value.
    pub open spec fn wire(self) -> Mode {
        match self {
            ModeEnum::Cool => Mode::Cool,
            ModeEnum::Heat => Mode::Heat,
            ModeEnum::Vent => Mode::Vent,
            ModeEnum::Auto => Mode::Auto,
            ModeEnum::Dry => Mode::Dry,
            ModeEnum::MyAuto => Mode::MyAuto,
        }
    }

    /// The value of a register value, if it has one.
    pub open spec fn of_wire(w: Mode) -> Option<ModeEnum> {
        match w {
            Mode::Cool => Some(ModeEnum::Cool),
            Mode::Heat => Some(ModeEnum::Heat),
            Mode::Vent => Some(ModeEnum::Vent),
            Mode::Auto => Some(ModeEnum::Auto),
            Mode::Dry => Some(ModeEnum::Dry),
            Mode::MyAuto => Some(ModeEnum::MyAuto),
            Mode::Unknown(_) => None,
        }
    }

    /// The word of this value.
    pub fn as_word(self) -> (r: &'static str)
        ensures
            r@ == self.word(),
    {
        match self {
            ModeEnum::Cool => "cool",
            ModeEnum::Heat => "heat",
            ModeEnum::Vent => "vent",
            ModeEnum::Auto => "auto",
            ModeEnum::Dry => "dry",
            ModeEnum::MyAuto => "myauto",
        }
    }

    /// The value of a word.
    pub fn from_word(s: &str) -> (r: Option<ModeEnum>)
        ensures
            r == ModeEnum::of_word(s@),
    {
        if same_text(s, "cool") {
            Some(ModeEnum::Cool)
        } else if same_text(s, "heat") {
            Some(ModeEnum::Heat)
        } else if same_text(s, "vent") {
            Some(ModeEnum::Vent)
        } else if same_text(s, "auto") {
            Some(ModeEnum::Auto)
        } else if same_text(s, "dry") {
            Some(ModeEnum::Dry)
        } else if same_text(s, "myauto") {
            Some(ModeEnum::MyAuto)
        } else {
            None
        }
    }

    /// The value in a field.
    pub fn from_member(members: &Vec<Member>, name: &str) -> (r: ModeEnum)
        ensures
            r == ModeEnum::value_in(members_model(members@), name@),
    {
        let text = get_word(members, name);
        match ModeEnum::from_word(text.as_str()) {
            Some(v) => v,
            None => ModeEnum::Cool,
        }
    }

    /// The register value of this value.
    pub fn to_wire(self) -> (r: Mode)
        ensures
            r == self.wire(),
    {
        match self {
            ModeEnum::Cool => Mode::Cool,
            ModeEnum::Heat => Mode::Heat,
            ModeEnum::Vent => Mode::Vent,
            ModeEnum::Auto => Mode::Auto,
            ModeEnum::Dry => Mode::Dry,
            ModeEnum::MyAuto => Mode::MyAuto,
        }
    }

    /// The value of a register value, if it has one.
    pub fn from_wire(w: Mode) -> (r: Option<ModeEnum>)
        ensures
            r == ModeEnum::of_wire(w),
    {
        match w {
            Mode::Cool => Some(ModeEnum::Cool),
            Mode::Heat => Some(ModeEnum::Heat),
            Mode::Vent => Some(ModeEnum::Vent),
            Mode::Auto => Some(ModeEnum::Auto),
            Mode::Dry => Some(ModeEnum::Dry),
            Mode::MyAuto => Some(ModeEnum::MyAuto),
            Mode::Unknown(_) => None,
        }
    }
}

/// Words and values of [`ModeEnum`] stand for each other, and so do its values and
/// the register values.
pub proof fn law_words_of_mode_enum(v: ModeEnum)
    ensures
        ModeEnum::of_word(v.word()) == Some(v),
        ModeEnum::of_wire(v.wire()) == Some(v),
{
    reveal_strlit("cool");
    reveal_strlit("heat");
    reveal_strlit("vent");
    reveal_strlit("auto");
    reveal_strlit("dry");
    reveal_strlit("myauto");
    assert("cool"@.len() == 4);
    assert("heat"@.len() == 4);
    assert("vent"@.len() == 4);
    assert("auto"@.len() == 4);
    assert("dry"@.len() == 3);
    assert("myauto"@.len() == 6);
    assert("cool"@[0] != "heat"@[0]);
    assert("cool"@[0] != "vent"@[0]);
    assert("cool"@[0] != "auto"@[0]);
    assert("heat"@[0] != "vent"@[0]);
    assert("heat"@[0] != "auto"@[0]);
    assert("vent"@[0] != "auto"@[0]);
}

/// Fan speed (register `05`).
#[derive(Debug, Clone, Copy, PartialEq, Eq, Structural)]
pub enum FanEnum {
    /// `off`.
    Off,
    /// `low`.
    Low,
    /// `medium`.
    Medium,
    /// `high`.
    High,
    /// `auto`.
    Auto,
    /// `auto_aa`.
    AutoAa,
}

impl FanEnum {
    /// The word of a value.
    pub open spec fn word(self) -> Seq<char> {
        match self {
            FanEnum::Off => "off"@,
            FanEnum::Low => "low"@,
            FanEnum::Medium => "medium"@,
            FanEnum::High => "high"@,
            FanEnum::Auto => "auto"@,
            FanEnum::AutoAa => "auto_aa"@,
        }
    }

    /// The value of a word.
    pub open spec fn of_word(s: Seq<char>) -> Option<FanEnum> {
        if s == "off"@ {
            Some(FanEnum::Off)
        } else if s == "low"@ {
            Some(FanEnum::Low)
        } else if s == "medium"@ {
            Some(FanEnum::Medium)
        } else if s == "high"@ {
            Some(FanEnum::High)
        } else if s == "auto"@ {
            Some(FanEnum::Auto)
        } else if s == "auto_aa"@ {
            Some(FanEnum::AutoAa)
        } else {
            None
        }
    }

    /// The value in a field, `off` where the field holds none.
    pub open spec fn value_in(fields: Fields, name: Seq<char>) -> FanEnum {
        match FanEnum::of_word(word_in(fields, name)) {
            Some(v) => v,
            None => FanEnum::Off,
        }
    }

    /// The register value of a value.
    pub open spec fn wire(self) -> Fan {
        match self {
            FanEnum::Off => Fan::Off,
            FanEnum::Low => Fan::Low,
            FanEnum::Medium => Fan::Medium,
            FanEnum::High => Fan::High,
            FanEnum::Auto => Fan::Auto,
            FanEnum::AutoAa => Fan::AutoAa,
        }
    }

    /// The value of a register value, if it has one.
    pub open spec fn of_wire(w: Fan) -> Option<FanEnum> {
        match w {
            Fan::Off => Some(FanEnum::Off),
            Fan::Low => Some(FanEnum::Low),
            Fan::Medium => Some(FanEnum::Medium),
            Fan::High => Some(FanEnum::High),
            Fan::Auto => Some(FanEnum::Auto),
            Fan::AutoAa => Some(FanEnum::AutoAa),
            Fan::Unknown(_) => None,
        }
    }

    /// The word of this value.
    pub fn as_word(self) -> (r: &'static str)
        ensures
            r@ == self.word(),
    {
        match self {
            FanEnum::Off => "off",
            FanEnum::Low => "low",
            FanEnum::Medium => "medium",
            FanEnum::High => "high",
            FanEnum::Auto => "auto",
            FanEnum::AutoAa => "auto_aa",
        }
    }

    /// The value of a word.
    pub fn from_word(s: &str) -> (r: Option<FanEnum>)
        ensures
            r == FanEnum::of_word(s@),
    {
        if same_text(s, "off") {
            Some(FanEnum::Off)
        } else if same_text(s, "low") {
            Some(FanEnum::Low)
        } else if same_text(s, "medium") {
            Some(FanEnum::Medium)
        } else if same_text(s, "high") {
            Some(FanEnum::High)
        } else if same_text(s, "auto") {
            Some(FanEnum::Auto)
        } else if same_text(s, "auto_aa") {
            Some(FanEnum::AutoAa)
        } else {
            None
        }
    }

    /// The value in a field.
    pub fn from_member(members: &Vec<Member>, name: &str) -> (r: FanEnum)
        ensures
            r == FanEnum::value_in(members_model(members@), name@),
    {
        let text = get_word(members, name);
        match FanEnum::from_word(text.as_str()) {
            Some(v) => v,
            None => FanEnum::Off,
        }
    }

    /// The register value of this value.
    pub fn to_wire(self) -> (r: Fan)
        ensures
            r == self.wire(),
    {
        match self {
            FanEnum::Off => Fan::Off,
            FanEnum::Low => Fan::Low,
            FanEnum::Medium => Fan::Medium,
            FanEnum::High => Fan::High,
            FanEnum::Auto => Fan::Auto,
            FanEnum::AutoAa => Fan::AutoAa,
        }
    }

    /// The value of a register value, if it has one.
    pub fn from_wire(w: Fan) -> (r: Option<FanEnum>)
        ensures
            r == FanEnum::of_wire(w),
    {
        match w {
            Fan::Off => Some(FanEnum::Off),
            Fan::Low => Some(FanEnum::Low),
            Fan::Medium => Some(FanEnum::Medium),
            Fan::High => Some(FanEnum::High),
            Fan::Auto => Some(FanEnum::Auto),
            Fan::AutoAa => Some(FanEnum::AutoAa),
            Fan::Unknown(_) => None,
        }
    }
}

/// Words and values of [`FanEnum`] stand for each other, and so do its values and
/// the register values.
pub proof fn law_words_of_fan_enum(v: FanEnum)
    ensures
        FanEnum::of_word(v.word()) == Some(v),
        FanEnum::of_wire(v.wire()) == Some(v),
{
    reveal_strlit("off");
    reveal_strlit("low");
    reveal_strlit("medium");
    reveal_strlit("high");
    reveal_strlit("auto");
    reveal_strlit("auto_aa");
    assert("off"@.len() == 3);
    assert("low"@.len() == 3);
    assert("medium"@.len() == 6);
    assert("high"@.len() == 4);
    assert("auto"@.len() == 4);
    assert("auto_aa"@.len() == 7);
    assert("off"@[0] != "low"@[0]);
    assert("high"@[0] != "auto"@[0]);
}

/// Power on or off (register `05`).
#[derive(Debug, Clone, Copy, PartialEq, Eq, Structural)]
pub enum PowerEnum {
    /// `on`.
    On,
    /// `off`.
    Off,
}

impl PowerEnum {
    /// The word of a value.
    pub open spec fn word(self) -> Seq<char> {
        match self {
            PowerEnum::On => "on"@,
            PowerEnum::Off => "off"@,
        }
    }

    /// The value of a word.
    pub open spec fn of_word(s: Seq<char>) -> Option<PowerEnum> {
        if s == "on"@ {
            Some(PowerEnum::On)
        } else if s == "off"@ {
            Some(PowerEnum::Off)
        } else {
            None
        }
    }

    /// The value in a field, `on` where the field holds none.
    pub open spec fn value_in(fields: Fields, name: Seq<char>) -> PowerEnum {
        match PowerEnum::of_word(word_in(fields, name)) {
            Some(v) => v,
            None => PowerEnum::On,
        }
    }

    /// The register value of a value.
    pub open spec fn wire(self) -> Power {
        match self {
            PowerEnum::On => Power::On,
            PowerEnum::Off => Power::Off,
        }
    }

    /// The value of a register value, if it has one.
    pub open spec fn of_wire(w: Power) -> Option<PowerEnum> {
        match w {
            Power::On => Some(PowerEnum::On),
            Power::Off => Some(PowerEnum::Off),
            Power::Unknown(_) => None,
        }
    }

    /// The word of this value.
    pub fn as_word(self) -> (r: &'static str)
        ensures
            r@ == self.word(),
    {
        match self {
            PowerEnum::On => "on",
            PowerEnum::Off => "off",
        }
    }

    /// The value of a word.
    pub fn from_word(s: &str) -> (r: Option<PowerEnum>)
        ensures
            r == PowerEnum::of_word(s@),
    {
        if same_text(s, "on") {
            Some(PowerEnum::On)
        } else if same_text(s, "off") {
            Some(PowerEnum::Off)
        } else {
            None
        }
    }

    /// The value in a field.
    pub fn from_member(members: &Vec<Member>, name: &str) -> (r: PowerEnum)
        ensures
            r == PowerEnum::value_in(members_model(members@), name@),
    {
        let text = get_word(members, name);
        match PowerEnum::from_word(text.as_str()) {
            Some(v) => v,
            None => PowerEnum::On,
        }
    }

    /// The register value of this value.
    pub fn to_wire(self) -> (r: Power)
        ensures
            r == self.wire(),
    {
        match self {
            PowerEnum::On => Power::On,
            PowerEnum::Off => Power::Off,
        }
    }

    /// The value of a register value, if it has one.
    pub fn from_wire(w: Power) -> (r: Option<PowerEnum>)
        ensures
            r == PowerEnum::of_wire(w),
    {
        match w {
            Power::On => Some(PowerEnum::On),
            Power::Off => Some(PowerEnum::Off),
            Power::Unknown(_) => None,
        }
    }
}

/// Words and values of [`PowerEnum`] stand for each other, and so do its values and
/// the register values.
pub proof fn law_words_of_power_enum(v: PowerEnum)
    ensures
        PowerEnum::of_word(v.word()) == Some(v),
        PowerEnum::of_wire(v.wire()) == Some(v),
{
    reveal_strlit("on");
    reveal_strlit("off");
    assert("on"@.len() == 2);
    assert("off"@.len() == 3);
}

/// Fresh-air status (register `05`).
#[derive(Debug, Clone, Copy, PartialEq, Eq, Structural)]
pub enum FreshAirEnum {
    /// `none`.
    Absent,
    /// `off`.
    Off,
    /// `on`.
    On,
}

impl FreshAirEnum {
    /// The word of a value.
    pub open spec fn word(self) -> Seq<char> {
        match self {
            FreshAirEnum::Absent => "none"@,
            FreshAirEnum::Off => "off"@,
            FreshAirEnum::On => "on"@,
        }
    }

    /// The value of a word.
    pub open spec fn of_word(s: Seq<char>) -> Option<FreshAirEnum> {
        if s == "none"@ {
            Some(FreshAirEnum::Absent)
        } else if s == "off"@ {
            Some(FreshAirEnum::Off)
        } else if s == "on"@ {
            Some(FreshAirEnum::On)
        } else {
            None
        }
    }

    /// The value in a field, `none` where the field holds none.
    pub open spec fn value_in(fields: Fields, name: Seq<char>) -> FreshAirEnum {
        match FreshAirEnum::of_word(word_in(fields, name)) {
            Some(v) => v,
            None => FreshAirEnum::Absent,
        }
    }

    /// The register value of a value.
    pub open spec fn wire(self) -> FreshAir {
        match self {
            FreshAirEnum::Absent => FreshAir::Absent,
            FreshAirEnum::Off => FreshAir::Off,
            FreshAirEnum::On => FreshAir::On,
        }
    }

    /// The value of a register value, if it has one.
    pub open spec fn of_wire(w: FreshAir) -> Option<FreshAirEnum> {
        match w {
            FreshAir::Absent => Some(FreshAirEnum::Absent),
            FreshAir::Off => Some(FreshAirEnum::Off),
            FreshAir::On => Some(FreshAirEnum::On),
            FreshAir::Unknown(_) => None,
        }
    }

    /// The word of this value.
    pub fn as_word(self) -> (r: &'static str)
        ensures
            r@ == self.word(),
    {
        match self {
            FreshAirEnum::Absent => "none",
            FreshAirEnum::Off => "off",
            FreshAirEnum::On => "on",
        }
    }

    /// The value of a word.
    pub fn from_word(s: &str) -> (r: Option<FreshAirEnum>)
        ensures
            r == FreshAirEnum::of_word(s@),
    {
        if same_text(s, "none") {
            Some(FreshAirEnum::Absent)
        } else if same_text(s, "off") {
            Some(FreshAirEnum::Off)
        } else if same_text(s, "on") {
            Some(FreshAirEnum::On)
        } else {
            None
        }
    }

    /// The value in a field.
    pub fn from_member(members: &Vec<Member>, name: &str) -> (r: FreshAirEnum)
        ensures
            r == FreshAirEnum::value_in(members_model(members@), name@),
    {
        let text = get_word(members, name);
        match FreshAirEnum::from_word(text.as_str()) {
            Some(v) => v,
            None => FreshAirEnum::Absent,
        }
    }

    /// The register value of this value.
    pub fn to_wire(self) -> (r: FreshAir)
        ensures
            r == self.wire(),
    {
        match self {
            FreshAirEnum::Absent => FreshAir::Absent,
            FreshAirEnum::Off => FreshAir::Off,
            FreshAirEnum::On => FreshAir::On,
        }
    }

    /// The value of a register value, if it has one.
    pub fn from_wire(w: FreshAir) -> (r: Option<FreshAirEnum>)
        ensures
            r == FreshAirEnum::of_wire(w),
    {
        match w {
            FreshAir::Absent => Some(FreshAirEnum::Absent),
            FreshAir::Off => Some(FreshAirEnum::Off),
            FreshAir::On => Some(FreshAirEnum::On),
            FreshAir::Unknown(_) => None,
        }
    }
}

/// Words and values of [`FreshAirEnum`] stand for each other, and so do its values and
/// the register values.
pub proof fn law_words_of_fresh_air_enum(v: FreshAirEnum)
    ensures
        FreshAirEnum::of_word(v.word()) == Some(v),
        FreshAirEnum::of_wire(v.wire()) == Some(v),
{
    reveal_strlit("none");
    reveal_strlit("off");
    reveal_strlit("on");
    assert("none"@.len() == 4);
    assert("off"@.len() == 3);
    assert("on"@.len() == 2);
}

/// Zone temperature sensor (register `03`).
#[derive(Debug, Clone, Copy, PartialEq, Eq, Structural)]
pub enum SensorTypeEnum {
    /// `no_sensor`.
    NoSensor,
    /// `rf`.
    Rf,
    /// `wired`.
    Wired,
    /// `rf2can_booster`.
    Rf2CanBooster,
    /// `rf_x`.
    RfX,
}

impl SensorTypeEnum {
    /// The word of a value.
    pub open spec fn word(self) -> Seq<char> {
        match self {
            SensorTypeEnum::NoSensor => "no_sensor"@,
            SensorTypeEnum::Rf => "rf"@,
            SensorTypeEnum::Wired => "wired"@,
            SensorTypeEnum::Rf2CanBooster => "rf2can_booster"@,
            SensorTypeEnum::RfX => "rf_x"@,
        }
    }

    /// The value of a word.
    pub open spec fn of_word(s: Seq<char>) -> Option<SensorTypeEnum> {
        if s == "no_sensor"@ {
            Some(SensorTypeEnum::NoSensor)
        } else if s == "rf"@ {
            Some(SensorTypeEnum::Rf)
        } else if s == "wired"@ {
            Some(SensorTypeEnum::Wired)
        } else if s == "rf2can_booster"@ {
            Some(SensorTypeEnum::Rf2CanBooster)
        } else if s == "rf_x"@ {
            Some(SensorTypeEnum::RfX)
        } else {
            None
        }
    }

    /// The value in a field, `no_sensor` where the field holds none.
    pub open spec fn value_in(fields: Fields, name: Seq<char>) -> SensorTypeEnum {
        match SensorTypeEnum::of_word(word_in(fields, name)) {
            Some(v) => v,
            None => SensorTypeEnum::NoSensor,
        }
    }

    /// The register value of a value.
    pub open spec fn wire(self) -> SensorType {
        match self {
            SensorTypeEnum::NoSensor => SensorType::NoSensor,
            SensorTypeEnum::Rf => SensorType::Rf,
            SensorTypeEnum::Wired => SensorType::Wired,
            SensorTypeEnum::Rf2CanBooster => SensorType::Rf2CanBooster,
            SensorTypeEnum::RfX => SensorType::RfX,
        }
    }

    /// The value of a register value, if it has one.
    pub open spec fn of_wire(w: SensorType) -> Option<SensorTypeEnum> {
        match w {
            SensorType::NoSensor => Some(SensorTypeEnum::NoSensor),
            SensorType::Rf => Some(SensorTypeEnum::Rf),
            SensorType::Wired => Some(SensorTypeEnum::Wired),
            SensorType::Rf2CanBooster => Some(SensorTypeEnum::Rf2CanBooster),
            SensorType::RfX => Some(SensorTypeEnum::RfX),
            SensorType::Unknown(_) => None,
        }
    }

    /// The word of this value.
    pub fn as_word(self) -> (r: &'static str)
        ensures
            r@ == self.word(),
    {
        match self {
            SensorTypeEnum::NoSensor => "no_sensor",
            SensorTypeEnum::Rf => "rf",
            SensorTypeEnum::Wired => "wired",
            SensorTypeEnum::Rf2CanBooster => "rf2can_booster",
            SensorTypeEnum::RfX => "rf_x",
        }
    }

    /// The value of a word.
    pub fn from_word(s: &str) -> (r: Option<SensorTypeEnum>)
        ensures
            r == SensorTypeEnum::of_word(s@),
    {
        if same_text(s, "no_sensor") {
            Some(SensorTypeEnum::NoSensor)
        } else if same_text(s, "rf") {
            Some(SensorTypeEnum::Rf)
        } else if same_text(s, "wired") {
            Some(SensorTypeEnum::Wired)
        } else if same_text(s, "rf2can_booster") {
            Some(SensorTypeEnum::Rf2CanBooster)
        } else if same_text(s, "rf_x") {
            Some(SensorTypeEnum::RfX)
        } else {
            None
        }
    }

    /// The value in a field.
    pub fn from_member(members: &Vec<Member>, name: &str) -> (r: SensorTypeEnum)
        ensures
            r == SensorTypeEnum::value_in(members_model(members@), name@),
    {
        let text = get_word(members, name);
        match SensorTypeEnum::from_word(text.as_str()) {
            Some(v) => v,
            None => SensorTypeEnum::NoSensor,
        }
    }

    /// The register value of this value.
    pub fn to_wire(self) -> (r: SensorType)
        ensures
            r == self.wire(),
    {
        match self {
            SensorTypeEnum::NoSensor => SensorType::NoSensor,
            SensorTypeEnum::Rf => SensorType::Rf,
            SensorTypeEnum::Wired => SensorType::Wired,
            SensorTypeEnum::Rf2CanBooster => SensorType::Rf2CanBooster,
            SensorTypeEnum::RfX => SensorType::RfX,
        }
    }

    /// The value of a register value, if it has one.
    pub fn from_wire(w: SensorType) -> (r: Option<SensorTypeEnum>)
        ensures
            r == SensorTypeEnum::of_wire(w),
    {
        match w {
            SensorType::NoSensor => Some(SensorTypeEnum::NoSensor),
            SensorType::Rf => Some(SensorTypeEnum::Rf),
            SensorType::Wired => Some(SensorTypeEnum::Wired),
            SensorType::Rf2CanBooster => Some(SensorTypeEnum::Rf2CanBooster),
            SensorType::RfX => Some(SensorTypeEnum::RfX),
            SensorType::Unknown(_) => None,
        }
    }
}

/// Words and values of [`SensorTypeEnum`] stand for each other, and so do its values and
/// the register values.
pub proof fn law_words_of_sensor_type_enum(v: SensorTypeEnum)
    ensures
        SensorTypeEnum::of_word(v.word()) == Some(v),
        SensorTypeEnum::of_wire(v.wire()) == Some(v),
{
    reveal_strlit("no_sensor");
    reveal_strlit("rf");
    reveal_strlit("wired");
    reveal_strlit("rf2can_booster");
    reveal_strlit("rf_x");
    assert("no_sensor"@.len() == 9);
    assert("rf"@.len() == 2);
    assert("wired"@.len() == 5);
    assert("rf2can_booster"@.len() == 14);
    assert("rf_x"@.len() == 4);
}

/// Activation status (register `02`).
#[derive(Debug, Clone, Copy, PartialEq, Eq, Structural)]
pub enum ActivationStatus {
    /// `no_code`.
    NoCode,
    /// `code_enabled`.
    CodeEnabled,
    /// `expired`.
    Expired,
}

impl ActivationStatus {
    /// The word of a value.
    pub open spec fn word(self) -> Seq<char> {
        match self {
            ActivationStatus::NoCode => "no_code"@,
            ActivationStatus::CodeEnabled => "code_enabled"@,
            ActivationStatus::Expired => "expired"@,
        }
    }

    /// The value of a word.
    pub open spec fn of_word(s: Seq<char>) -> Option<ActivationStatus> {
        if s == "no_code"@ {
            Some(ActivationStatus::NoCode)
        } else if s == "code_enabled"@ {
            Some(ActivationStatus::CodeEnabled)
        } else if s == "expired"@ {
            Some(ActivationStatus::Expired)
        } else {
            None
        }
    }

    /// The value in a field, `no_code` where the field holds none.
    pub open spec fn value_in(fields: Fields, name: Seq<char>) -> ActivationStatus {
        match ActivationStatus::of_word(word_in(fields, name)) {
            Some(v) => v,
            None => ActivationStatus::NoCode,
        }
    }

    /// The register value of a value.
    pub open spec fn wire(self) -> crate::registers::enums::ActivationStatus {
        match self {
            ActivationStatus::NoCode => crate::registers::enums::ActivationStatus::NoCode,
            ActivationStatus::CodeEnabled => crate::registers::enums::ActivationStatus::CodeEnabled,
            ActivationStatus::Expired => crate::registers::enums::ActivationStatus::Expired,
        }
    }

    /// The value of a register value, if it has one.
    pub open spec fn of_wire(w: crate::registers::enums::ActivationStatus) -> Option<ActivationStatus> {
        match w {
            crate::registers::enums::ActivationStatus::NoCode => Some(ActivationStatus::NoCode),
            crate::registers::enums::ActivationStatus::CodeEnabled => Some(ActivationStatus::CodeEnabled),
            crate::registers::enums::ActivationStatus::Expired => Some(ActivationStatus::Expired),
            crate::registers::enums::ActivationStatus::Unknown(_) => None,
        }
    }

    /// The word of this value.
    pub fn as_word(self) -> (r: &'static str)
        ensures
            r@ == self.word(),
    {
        match self {
            ActivationStatus::NoCode => "no_code",
            ActivationStatus::CodeEnabled => "code_enabled",
            ActivationStatus::Expired => "expired",
        }
    }

    /// The value of a word.
    pub fn from_word(s: &str) -> (r: Option<ActivationStatus>)
        ensures
            r == ActivationStatus::of_word(s@),
    {
        if same_text(s, "no_code") {
            Some(ActivationStatus::NoCode)
        } else if same_text(s, "code_enabled") {
            Some(ActivationStatus::CodeEnabled)
        } else if same_text(s, "expired") {
            Some(ActivationStatus::Expired)
        } else {
            None
        }
    }

    /// The value in a field.
    pub fn from_member(members: &Vec<Member>, name: &str) -> (r: ActivationStatus)
        ensures
            r == ActivationStatus::value_in(members_model(members@), name@),
    {
        let text = get_word(members, name);
        match ActivationStatus::from_word(text.as_str()) {
            Some(v) => v,
            None => ActivationStatus::NoCode,
        }
    }

    /// The register value of this value.
    pub fn to_wire(self) -> (r: crate::registers::enums::ActivationStatus)
        ensures
            r == self.wire(),
    {
        match self {
            ActivationStatus::NoCode => crate::registers::enums::ActivationStatus::NoCode,
            ActivationStatus::CodeEnabled => crate::registers::enums::ActivationStatus::CodeEnabled,
            ActivationStatus::Expired => crate::registers::enums::ActivationStatus::Expired,
        }
    }

    /// The value of a register value, if it has one.
    pub fn from_wire(w: crate::registers::enums::ActivationStatus) -> (r: Option<ActivationStatus>)
        ensures
            r == ActivationStatus::of_wire(w),
    {
        match w {
            crate::registers::enums::ActivationStatus::NoCode => Some(ActivationStatus::NoCode),
            crate::registers::enums::ActivationStatus::CodeEnabled => Some(ActivationStatus::CodeEnabled),
            crate::registers::enums::ActivationStatus::Expired => Some(ActivationStatus::Expired),
            crate::registers::enums::ActivationStatus::Unknown(_) => None,
        }
    }
}

/// Words and values of [`ActivationStatus`] stand for each other, and so do its values and
/// the register values.
pub proof fn law_words_of_activation_status(v: ActivationStatus)
    ensures
        ActivationStatus::of_word(v.word()) == Some(v),
        ActivationStatus::of_wire(v.wire()) == Some(v),
{
    reveal_strlit("no_code");
    reveal_strlit("code_enabled");
    reveal_strlit("expired");
    assert("no_code"@.len() == 7);
    assert("code_enabled"@.len() == 12);
    assert("expired"@.len() == 7);
    assert("no_code"@[0] != "expired"@[0]);
}

/// Brand of the unit (register `02`).
#[derive(Debug, Clone, Copy, PartialEq, Eq, Structural)]
pub enum UnitTypeEnum {
    /// `daikin`.
    Daikin,
    /// `panasonic`.
    Panasonic,
    /// `fujitsu`.
    Fujitsu,
    /// `samsung_dvm`.
    SamsungDvm,
}

impl UnitTypeEnum {
    /// The word of a value.
    pub open spec fn word(self) -> Seq<char> {
        match self {
            UnitTypeEnum::Daikin => "daikin"@,
            UnitTypeEnum::Panasonic => "panasonic"@,
            UnitTypeEnum::Fujitsu => "fujitsu"@,
            UnitTypeEnum::SamsungDvm => "samsung_dvm"@,
        }
    }

    /// The value of a word.
    pub open spec fn of_word(s: Seq<char>) -> Option<UnitTypeEnum> {
        if s == "daikin"@ {
            Some(UnitTypeEnum::Daikin)
        } else if s == "panasonic"@ {
            Some(UnitTypeEnum::Panasonic)
        } else if s == "fujitsu"@ {
            Some(UnitTypeEnum::Fujitsu)
        } else if s == "samsung_dvm"@ {
            Some(UnitTypeEnum::SamsungDvm)
        } else {
            None
        }
    }

    /// The value in a field, `daikin` where the field holds none.
    pub open spec fn value_in(fields: Fields, name: Seq<char>) -> UnitTypeEnum {
        match UnitTypeEnum::of_word(word_in(fields, name)) {
            Some(v) => v,
            None => UnitTypeEnum::Daikin,
        }
    }

    /// The register value of a value.
    pub open spec fn wire(self) -> UnitBrand {
        match self {
            UnitTypeEnum::Daikin => UnitBrand::Daikin,
            UnitTypeEnum::Panasonic => UnitBrand::Panasonic,
            UnitTypeEnum::Fujitsu => UnitBrand::Fujitsu,
            UnitTypeEnum::SamsungDvm => UnitBrand::SamsungDvm,
        }
    }

    /// The value of a register value, if it has one.
    pub open spec fn of_wire(w: UnitBrand) -> Option<UnitTypeEnum> {
        match w {
            UnitBrand::Daikin => Some(UnitTypeEnum::Daikin),
            UnitBrand::Panasonic => Some(UnitTypeEnum::Panasonic),
            UnitBrand::Fujitsu => Some(UnitTypeEnum::Fujitsu),
            UnitBrand::SamsungDvm => Some(UnitTypeEnum::SamsungDvm),
            UnitBrand::Unknown(_) => None,
        }
    }

    /// The word of this value.
    pub fn as_word(self) -> (r: &'static str)
        ensures
            r@ == self.word(),
    {
        match self {
            UnitTypeEnum::Daikin => "daikin",
            UnitTypeEnum::Panasonic => "panasonic",
            UnitTypeEnum::Fujitsu => "fujitsu",
            UnitTypeEnum::SamsungDvm => "samsung_dvm",
        }
    }

    /// The value of a word.
    pub fn from_word(s: &str) -> (r: Option<UnitTypeEnum>)
        ensures
            r == UnitTypeEnum::of_word(s@),
    {
        if same_text(s, "daikin") {
            Some(UnitTypeEnum::Daikin)
        } else if same_text(s, "panasonic") {
            Some(UnitTypeEnum::Panasonic)
        } else if same_text(s, "fujitsu") {
            Some(UnitTypeEnum::Fujitsu)
        } else if same_text(s, "samsung_dvm") {
            Some(UnitTypeEnum::SamsungDvm)
        } else {
            None
        }
    }

    /// The value in a field.
    pub fn from_member(members: &Vec<Member>, name: &str) -> (r: UnitTypeEnum)
        ensures
            r == UnitTypeEnum::value_in(members_model(members@), name@),
    {
        let text = get_word(members, name);
        match UnitTypeEnum::from_word(text.as_str()) {
            Some(v) => v,
            None => UnitTypeEnum::Daikin,
        }
    }

    /// The register value of this value.
    pub fn to_wire(self) -> (r: UnitBrand)
        ensures
            r == self.wire(),
    {
        match self {
            UnitTypeEnum::Daikin => UnitBrand::Daikin,
            UnitTypeEnum::Panasonic => UnitBrand::Panasonic,
            UnitTypeEnum::Fujitsu => UnitBrand::Fujitsu,
            UnitTypeEnum::SamsungDvm => UnitBrand::SamsungDvm,
        }
    }

    /// The value of a register value, if it has one.
    pub fn from_wire(w: UnitBrand) -> (r: Option<UnitTypeEnum>)
        ensures
            r == UnitTypeEnum::of_wire(w),
    {
        match w {
            UnitBrand::Daikin => Some(UnitTypeEnum::Daikin),
            UnitBrand::Panasonic => Some(UnitTypeEnum::Panasonic),
            UnitBrand::Fujitsu => Some(UnitTypeEnum::Fujitsu),
            UnitBrand::SamsungDvm => Some(UnitTypeEnum::SamsungDvm),
            UnitBrand::Unknown(_) => None,
        }
    }
}

/// Words and values of [`UnitTypeEnum`] stand for each other, and so do its values and
/// the register values.
pub proof fn law_words_of_unit_type_enum(v: UnitTypeEnum)
    ensures
        UnitTypeEnum::of_word(v.word()) == Some(v),
        UnitTypeEnum::of_wire(v.wire()) == Some(v),
{
    reveal_strlit("daikin");
    reveal_strlit("panasonic");
    reveal_strlit("fujitsu");
    reveal_strlit("samsung_dvm");
    assert("daikin"@.len() == 6);
    assert("panasonic"@.len() == 9);
    assert("fujitsu"@.len() == 7);
    assert("samsung_dvm"@.len() == 11);
}

/// Activation-code action (register `09`).
#[derive(Debug, Clone, Copy, PartialEq, Eq, Structural)]
pub enum ActionEnum {
    /// `set_code`.
    SetCode,
    /// `unlock`.
    Unlock,
}

impl ActionEnum {
    /// The word of a value.
    pub open spec fn word(self) -> Seq<char> {
        match self {
            ActionEnum::SetCode => "set_code"@,
            ActionEnum::Unlock => "unlock"@,
        }
    }

    /// The value of a word.
    pub open spec fn of_word(s: Seq<char>) -> Option<ActionEnum> {
        if s == "set_code"@ {
            Some(ActionEnum::SetCode)
        } else if s == "unlock"@ {
            Some(ActionEnum::Unlock)
        } else {
            None
        }
    }

    /// The value in a field, `set_code` where the field holds none.
    pub open spec fn value_in(fields: Fields, name: Seq<char>) -> ActionEnum {
        match ActionEnum::of_word(word_in(fields, name)) {
            Some(v) => v,
            None => ActionEnum::SetCode,
        }
    }

    /// The register value of a value.
    pub open spec fn wire(self) -> Action {
        match self {
            ActionEnum::SetCode => Action::SetCode,
            ActionEnum::Unlock => Action::Unlock,
        }
    }

    /// The value of a register value, if it has one.
    pub open spec fn of_wire(w: Action) -> Option<ActionEnum> {
        match w {
            Action::SetCode => Some(ActionEnum::SetCode),
            Action::Unlock => Some(ActionEnum::Unlock),
            Action::Unknown(_) => None,
        }
    }

    /// The word of this value.
    pub fn as_word(self) -> (r: &'static str)
        ensures
            r@ == self.word(),
    {
        match self {
            ActionEnum::SetCode => "set_code",
            ActionEnum::Unlock => "unlock",
        }
    }

    /// The value of a word.
    pub fn from_word(s: &str) -> (r: Option<ActionEnum>)
        ensures
            r == ActionEnum::of_word(s@),
    {
        if same_text(s, "set_code") {
            Some(ActionEnum::SetCode)
        } else if same_text(s, "unlock") {
            Some(ActionEnum::Unlock)
        } else {
            None
        }
    }

    /// The value in a field.
    pub fn from_member(members: &Vec<Member>, name: &str) -> (r: ActionEnum)
        ensures
            r == ActionEnum::value_in(members_model(members@), name@),
    {
        let text = get_word(members, name);
        match ActionEnum::from_word(text.as_str()) {
            Some(v) => v,
            None => ActionEnum::SetCode,
        }
    }

    /// The register value of this value.
    pub fn to_wire(self) -> (r: Action)
        ensures
            r == self.wire(),
    {
        match self {
            ActionEnum::SetCode => Action::SetCode,
            ActionEnum::Unlock => Action::Unlock,
        }
    }

    /// The value of a register value, if it has one.
    pub fn from_wire(w: Action) -> (r: Option<ActionEnum>)
        ensures
            r == ActionEnum::of_wire(w),
    {
        match w {
            Action::SetCode => Some(ActionEnum::SetCode),
            Action::Unlock => Some(ActionEnum::Unlock),
            Action::Unknown(_) => None,
        }
    }
}

/// Words and values of [`ActionEnum`] stand for each other, and so do its values and
/// the register values.
pub proof fn law_words_of_action_enum(v: ActionEnum)
    ensures
        ActionEnum::of_word(v.word()) == Some(v),
        ActionEnum::of_wire(v.wire()) == Some(v),
{
    reveal_strlit("set_code");
    reveal_strlit("unlock");
    assert("set_code"@.len() == 8);
    assert("unlock"@.len() == 6);
}

} // verus!
