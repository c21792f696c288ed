//! The words of register values, one by one.
use crate::mailbox::value::{word_in, Fields};
use crate::mailbox::words::{
    law_words_of_action_enum, law_words_of_activation_status, law_words_of_fan_enum,
    law_words_of_fresh_air_enum, law_words_of_mode_enum, law_words_of_power_enum,
    law_words_of_sensor_type_enum, law_words_of_unit_type_enum, ActionEnum, ActivationStatus,
    FanEnum, FreshAirEnum, ModeEnum, PowerEnum, SensorTypeEnum, UnitTypeEnum,
};
use crate::registers::enums::{Action, Fan, FreshAir, Mode, Power, SensorType, UnitBrand};
use vstd::prelude::*;

verus! {

/// The words of [`ModeEnum`], its register values, and the value where a field holds no
/// word.
pub proof fn law_table_of_mode_enum(
    v: ModeEnum,
    s: Seq<char>,
    w: Mode,
    f: Fields,
    name: Seq<char>,
)
    ensures
        v is Cool ==> v.word() == "cool"@ && v.wire() is Cool,
        ModeEnum::of_word(s) == Some(ModeEnum::Cool) <==> s == "cool"@,
        ModeEnum::of_wire(w) == Some(ModeEnum::Cool) <==> w is Cool,
        v is Heat ==> v.word() == "heat"@ && v.wire() is Heat,
        ModeEnum::of_word(s) == Some(ModeEnum::Heat) <==> s == "heat"@,
        ModeEnum::of_wire(w) == Some(ModeEnum::Heat) <==> w is Heat,
        v is Vent ==> v.word() == "vent"@ && v.wire() is Vent,
        ModeEnum::of_word(s) == Some(ModeEnum::Vent) <==> s == "vent"@,
        ModeEnum::of_wire(w) == Some(ModeEnum::Vent) <==> w is Vent,
        v is Auto ==> v.word() == "auto"@ && v.wire() is Auto,
        ModeEnum::of_word(s) == Some(ModeEnum::Auto) <==> s == "auto"@,
        ModeEnum::of_wire(w) == Some(ModeEnum::Auto) <==> w is Auto,
        v is Dry ==> v.word() == "dry"@ && v.wire() is Dry,
        ModeEnum::of_word(s) == Some(ModeEnum::Dry) <==> s == "dry"@,
        ModeEnum::of_wire(w) == Some(ModeEnum::Dry) <==> w is Dry,
        v is MyAuto ==> v.word() == "myauto"@ && v.wire() is MyAuto,
        ModeEnum::of_word(s) == Some(ModeEnum::MyAuto) <==> s == "myauto"@,
        ModeEnum::of_wire(w) == Some(ModeEnum::MyAuto) <==> w is MyAuto,
        ModeEnum::of_word(word_in(f, name)) matches Some(x) ==> ModeEnum::value_in(f, name) == x,
        ModeEnum::of_word(word_in(f, name)) is None ==> ModeEnum::value_in(f, name) is Cool,
{
    law_words_of_mode_enum(ModeEnum::Cool);
    law_words_of_mode_enum(ModeEnum::Heat);
    law_words_of_mode_enum(ModeEnum::Vent);
    law_words_of_mode_enum(ModeEnum::Auto);
    law_words_of_mode_enum(ModeEnum::Dry);
    law_words_of_mode_enum(ModeEnum::MyAuto);
}

/// The words of [`FanEnum`], its register values, and the value where a field holds no
/// word.
pub proof fn law_table_of_fan_enum(
    v: FanEnum,
    s: Seq<char>,
    w: Fan,
    f: Fields,
    name: Seq<char>,
)
    ensures
        v is Off ==> v.word() == "off"@ && v.wire() is Off,
        FanEnum::of_word(s) == Some(FanEnum::Off) <==> s == "off"@,
        FanEnum::of_wire(w) == Some(FanEnum::Off) <==> w is Off,
        v is Low ==> v.word() == "low"@ && v.wire() is Low,
        FanEnum::of_word(s) == Some(FanEnum::Low) <==> s == "low"@,
        FanEnum::of_wire(w) == Some(FanEnum::Low) <==> w is Low,
        v is Medium ==> v.word() == "medium"@ && v.wire() is Medium,
        FanEnum::of_word(s) == Some(FanEnum::Medium) <==> s == "medium"@,
        FanEnum::of_wire(w) == Some(FanEnum::Medium) <==> w is Medium,
        v is High ==> v.word() == "high"@ && v.wire() is High,
        FanEnum::of_word(s) == Some(FanEnum::High) <==> s == "high"@,
        FanEnum::of_wire(w) == Some(FanEnum::High) <==> w is High,
        v is Auto ==> v.word() == "auto"@ && v.wire() is Auto,
        FanEnum::of_word(s) == Some(FanEnum::Auto) <==> s == "auto"@,
        FanEnum::of_wire(w) == Some(FanEnum::Auto) <==> w is Auto,
        v is AutoAa ==> v.word() == "auto_aa"@ && v.wire() is AutoAa,
        FanEnum::of_word(s) == Some(FanEnum::AutoAa) <==> s == "auto_aa"@,
        FanEnum::of_wire(w) == Some(FanEnum::AutoAa) <==> w is AutoAa,
        FanEnum::of_word(word_in(f, name)) matches Some(x) ==> FanEnum::value_in(f, name) == x,
        FanEnum::of_word(word_in(f, name)) is None ==> FanEnum::value_in(f, name) is Off,
{
    law_words_of_fan_enum(FanEnum::Off);
    law_words_of_fan_enum(FanEnum::Low);
    law_words_of_fan_enum(FanEnum::Medium);
    law_words_of_fan_enum(FanEnum::High);
    law_words_of_fan_enum(FanEnum::Auto);
    law_words_of_fan_enum(FanEnum::AutoAa);
}

/// The words of [`PowerEnum`], its register values, and the value where a field holds
/// no word.
pub proof fn law_table_of_power_enum(
    v: PowerEnum,
    s: Seq<char>,
    w: Power,
    f: Fields,
    name: Seq<char>,
)
    ensures
        v is On ==> v.word() == "on"@ && v.wire() is On,
        PowerEnum::of_word(s) == Some(PowerEnum::On) <==> s == "on"@,
        PowerEnum::of_wire(w) == Some(PowerEnum::On) <==> w is On,
        v is Off ==> v.word() == "off"@ && v.wire() is Off,
        PowerEnum::of_word(s) == Some(PowerEnum::Off) <==> s == "off"@,
        PowerEnum::of_wire(w) == Some(PowerEnum::Off) <==> w is Off,
        PowerEnum::of_word(word_in(f, name)) matches Some(x) ==> PowerEnum::value_in(f, name) == x,
        PowerEnum::of_word(word_in(f, name)) is None ==> PowerEnum::value_in(f, name) is On,
{
    law_words_of_power_enum(PowerEnum::On);
    law_words_of_power_enum(PowerEnum::Off);
}

/// The words of [`FreshAirEnum`], its register values, and the value where a field
/// holds no word.
pub proof fn law_table_of_fresh_air_enum(
    v: FreshAirEnum,
    s: Seq<char>,
    w: FreshAir,
    f: Fields,
    name: Seq<char>,
)
    ensures
        v is Absent ==> v.word() == "none"@ && v.wire() is Absent,
        FreshAirEnum::of_word(s) == Some(FreshAirEnum::Absent) <==> s == "none"@,
        FreshAirEnum::of_wire(w) == Some(FreshAirEnum::Absent) <==> w is Absent,
        v is Off ==> v.word() == "off"@ && v.wire() is Off,
        FreshAirEnum::of_word(s) == Some(FreshAirEnum::Off) <==> s == "off"@,
        FreshAirEnum::of_wire(w) == Some(FreshAirEnum::Off) <==> w is Off,
        v is On ==> v.word() == "on"@ && v.wire() is On,
        FreshAirEnum::of_word(s) == Some(FreshAirEnum::On) <==> s == "on"@,
        FreshAirEnum::of_wire(w) == Some(FreshAirEnum::On) <==> w is On,
        FreshAirEnum::of_word(
            word_in(f, name),
        ) matches Some(x) ==> FreshAirEnum::value_in(f, name) == x,
        FreshAirEnum::of_word(
            word_in(f, name),
        ) is None ==> FreshAirEnum::value_in(f, name) is Absent,
{
    law_words_of_fresh_air_enum(FreshAirEnum::Absent);
    law_words_of_fresh_air_enum(FreshAirEnum::Off);
    law_words_of_fresh_air_enum(FreshAirEnum::On);
}

/// The words of [`SensorTypeEnum`], its register values, and the value where a field
/// holds no word.
pub proof fn law_table_of_sensor_type_enum(
    v: SensorTypeEnum,
    s: Seq<char>,
    w: SensorType,
    f: Fields,
    name: Seq<char>,
)
    ensures
        v is NoSensor ==> v.word() == "no_sensor"@ && v.wire() is NoSensor,
        SensorTypeEnum::of_word(s) == Some(SensorTypeEnum::NoSensor) <==> s == "no_sensor"@,
        SensorTypeEnum::of_wire(w) == Some(SensorTypeEnum::NoSensor) <==> w is NoSensor,
        v is Rf ==> v.word() == "rf"@ && v.wire() is Rf,
        SensorTypeEnum::of_word(s) == Some(SensorTypeEnum::Rf) <==> s == "rf"@,
        SensorTypeEnum::of_wire(w) == Some(SensorTypeEnum::Rf) <==> w is Rf,
        v is Wired ==> v.word() == "wired"@ && v.wire() is Wired,
        SensorTypeEnum::of_word(s) == Some(SensorTypeEnum::Wired) <==> s == "wired"@,
        SensorTypeEnum::of_wire(w) == Some(SensorTypeEnum::Wired) <==> w is Wired,
        v is Rf2CanBooster ==> v.word() == "rf2can_booster"@ && v.wire() is Rf2CanBooster,
        SensorTypeEnum::of_word(s) == Some(
            SensorTypeEnum::Rf2CanBooster,
        ) <==> s == "rf2can_booster"@,
        SensorTypeEnum::of_wire(w) == Some(SensorTypeEnum::Rf2CanBooster) <==> w is Rf2CanBooster,
        v is RfX ==> v.word() == "rf_x"@ && v.wire() is RfX,
        SensorTypeEnum::of_word(s) == Some(SensorTypeEnum::RfX) <==> s == "rf_x"@,
        SensorTypeEnum::of_wire(w) == Some(SensorTypeEnum::RfX) <==> w is RfX,
        SensorTypeEnum::of_word(
            word_in(f, name),
        ) matches Some(x) ==> SensorTypeEnum::value_in(f, name) == x,
        SensorTypeEnum::of_word(
            word_in(f, name),
        ) is None ==> SensorTypeEnum::value_in(f, name) is NoSensor,
{
    law_words_of_sensor_type_enum(SensorTypeEnum::NoSensor);
    law_words_of_sensor_type_enum(SensorTypeEnum::Rf);
    law_words_of_sensor_type_enum(SensorTypeEnum::Wired);
    law_words_of_sensor_type_enum(SensorTypeEnum::Rf2CanBooster);
    law_words_of_sensor_type_enum(SensorTypeEnum::RfX);
}

/// The words of [`ActivationStatus`], its register values, and the value where a field
/// holds no word.
pub proof fn law_table_of_activation_status(
    v: ActivationStatus,
    s: Seq<char>,
    w: crate::registers::enums::ActivationStatus,
    f: Fields,
    name: Seq<char>,
)
    ensures
        v is NoCode ==> v.word() == "no_code"@ && v.wire() is NoCode,
        ActivationStatus::of_word(s) == Some(ActivationStatus::NoCode) <==> s == "no_code"@,
        ActivationStatus::of_wire(w) == Some(ActivationStatus::NoCode) <==> w is NoCode,
        v is CodeEnabled ==> v.word() == "code_enabled"@ && v.wire() is CodeEnabled,
        ActivationStatus::of_word(s) == Some(
            ActivationStatus::CodeEnabled,
        ) <==> s == "code_enabled"@,
        ActivationStatus::of_wire(w) == Some(ActivationStatus::CodeEnabled) <==> w is CodeEnabled,
        v is Expired ==> v.word() == "expired"@ && v.wire() is Expired,
        ActivationStatus::of_word(s) == Some(ActivationStatus::Expired) <==> s == "expired"@,
        ActivationStatus::of_wire(w) == Some(ActivationStatus::Expired) <==> w is Expired,
        ActivationStatus::of_word(
            word_in(f, name),
        ) matches Some(x) ==> ActivationStatus::value_in(f, name) == x,
        ActivationStatus::of_word(
            word_in(f, name),
        ) is None ==> ActivationStatus::value_in(f, name) is NoCode,
{
    law_words_of_activation_status(ActivationStatus::NoCode);
    law_words_of_activation_status(ActivationStatus::CodeEnabled);
    law_words_of_activation_status(ActivationStatus::Expired);
}

/// The words of [`UnitTypeEnum`], its register values, and the value where a field
/// holds no word.
pub proof fn law_table_of_unit_type_enum(
    v: UnitTypeEnum,
    s: Seq<char>,
    w: UnitBrand,
    f: Fields,
    name: Seq<char>,
)
    ensures
        v is Daikin ==> v.word() == "daikin"@ && v.wire() is Daikin,
        UnitTypeEnum::of_word(s) == Some(UnitTypeEnum::Daikin) <==> s == "daikin"@,
        UnitTypeEnum::of_wire(w) == Some(UnitTypeEnum::Daikin) <==> w is Daikin,
        v is Panasonic ==> v.word() == "panasonic"@ && v.wire() is Panasonic,
        UnitTypeEnum::of_word(s) == Some(UnitTypeEnum::Panasonic) <==> s == "panasonic"@,
        UnitTypeEnum::of_wire(w) == Some(UnitTypeEnum::Panasonic) <==> w is Panasonic,
        v is Fujitsu ==> v.word() == "fujitsu"@ && v.wire() is Fujitsu,
        UnitTypeEnum::of_word(s) == Some(UnitTypeEnum::Fujitsu) <==> s == "fujitsu"@,
        UnitTypeEnum::of_wire(w) == Some(UnitTypeEnum::Fujitsu) <==> w is Fujitsu,
        v is SamsungDvm ==> v.word() == "samsung_dvm"@ && v.wire() is SamsungDvm,
        UnitTypeEnum::of_word(s) == Some(UnitTypeEnum::SamsungDvm) <==> s == "samsung_dvm"@,
        UnitTypeEnum::of_wire(w) == Some(UnitTypeEnum::SamsungDvm) <==> w is SamsungDvm,
        UnitTypeEnum::of_word(
            word_in(f, name),
        ) matches Some(x) ==> UnitTypeEnum::value_in(f, name) == x,
        UnitTypeEnum::of_word(
            word_in(f, name),
        ) is None ==> UnitTypeEnum::value_in(f, name) is Daikin,
{
    law_words_of_unit_type_enum(UnitTypeEnum::Daikin);
    law_words_of_unit_type_enum(UnitTypeEnum::Panasonic);
    law_words_of_unit_type_enum(UnitTypeEnum::Fujitsu);
    law_words_of_unit_type_enum(UnitTypeEnum::SamsungDvm);
}

/// The words of [`ActionEnum`], its register values, and the value where a field holds
/// no word.
pub proof fn law_table_of_action_enum(
    v: ActionEnum,
    s: Seq<char>,
    w: Action,
    f: Fields,
    name: Seq<char>,
)
    ensures
        v is SetCode ==> v.word() == "set_code"@ && v.wire() is SetCode,
        ActionEnum::of_word(s) == Some(ActionEnum::SetCode) <==> s == "set_code"@,
        ActionEnum::of_wire(w) == Some(ActionEnum::SetCode) <==> w is SetCode,
        v is Unlock ==> v.word() == "unlock"@ && v.wire() is Unlock,
        ActionEnum::of_word(s) == Some(ActionEnum::Unlock) <==> s == "unlock"@,
        ActionEnum::of_wire(w) == Some(ActionEnum::Unlock) <==> w is Unlock,
        ActionEnum::of_word(
            word_in(f, name),
        ) matches Some(x) ==> ActionEnum::value_in(f, name) == x,
        ActionEnum::of_word(word_in(f, name)) is None ==> ActionEnum::value_in(f, name) is SetCode,
{
    law_words_of_action_enum(ActionEnum::SetCode);
    law_words_of_action_enum(ActionEnum::Unlock);
}

} // verus!
