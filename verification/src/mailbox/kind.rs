//! What a field may hold, and what is said of a value that it may not hold.
use crate::mailbox::value::{items_model, Field, FieldModel, Nested, NestedModel, Number};
use crate::mailbox::words::{
    ActionEnum, ActivationStatus, FanEnum, FreshAirEnum, ModeEnum, PowerEnum, SensorTypeEnum,
    UnitTypeEnum,
};
use crate::text::{decimal, push_decimal, text_option};
use vstd::prelude::*;
use vstd::string::*;

verus! {

/// What is said of a value of the wrong type.
pub open spec fn invalid_type(value: NestedModel, expected: Seq<char>) -> Seq<char> {
    "invalid type: "@ + value.shown() + ", expected "@ + expected
}

/// What is said of a value of the right type that is not permitted.
pub open spec fn invalid_value(value: NestedModel, expected: Seq<char>) -> Seq<char> {
    "invalid value: "@ + value.shown() + ", expected "@ + expected
}

/// What is said of a list of the wrong length.
pub open spec fn invalid_length(len: nat, expected: Seq<char>) -> Seq<char> {
    "invalid length "@ + decimal(len) + ", expected "@ + expected
}

/// What is said of a value that is no byte.
pub open spec fn byte_complaint(value: NestedModel) -> Option<Seq<char>> {
    match value {
        NestedModel::Number(n) => if n.byte() is Some {
            None
        } else if n.is_whole() {
            Some(invalid_value(value, "u8"@))
        } else {
            Some(invalid_type(value, "u8"@))
        },
        _ => Some(invalid_type(value, "u8"@)),
    }
}

/// What is said of a list, from `at` on, that is not three bytes.
pub open spec fn triple_complaint(items: Seq<NestedModel>, at: nat) -> Option<Seq<char>>
    decreases 3 - at,
{
    if at >= 3 {
        if items.len() > 3 {
            Some(invalid_length(items.len(), "fewer elements in array"@))
        } else {
            None
        }
    } else if at >= items.len() {
        Some(invalid_length(at, "an array of length 3"@))
    } else {
        match byte_complaint(items[at as int]) {
            Some(c) => Some(c),
            None => triple_complaint(items, at + 1),
        }
    }
}

/// Nothing is said of a list exactly when it is three bytes.
pub proof fn lemma_triple_complaint(items: Seq<NestedModel>)
    ensures
        triple_complaint(items, 0) is None <==> (items.len() == 3 && byte_complaint(items[0])
            is None && byte_complaint(items[1]) is None && byte_complaint(items[2]) is None),
{
    reveal_with_fuel(triple_complaint, 4);
}

/// What a field may hold.
#[derive(Debug, Clone, Copy, PartialEq, Eq, Structural)]
pub enum Kind {
    /// A number from 0 to 255.
    Byte,
    /// A truth value.
    Flag,
    /// A text.
    Text,
    /// A list of three bytes.
    Triple,
    /// A number.
    Temperature,
    /// A word of [`UnitTypeEnum`].
    UnitType,
    /// A word of [`ActivationStatus`].
    Activation,
    /// A word of [`SensorTypeEnum`].
    Sensor,
    /// A word of [`PowerEnum`].
    Power,
    /// A word of [`ModeEnum`].
    Mode,
    /// A word of [`FanEnum`].
    Fan,
    /// A word of [`FreshAirEnum`].
    FreshAir,
    /// A word of [`ActionEnum`].
    Action,
}

impl Kind {
    /// Whether fields of this kind hold one of a set of words.
    pub open spec fn is_word(self) -> bool {
        !(self is Byte || self is Flag || self is Text || self is Triple || self is Temperature)
    }

    /// Whether a text is one of the words of this kind.
    pub open spec fn knows(self, word: Seq<char>) -> bool {
        match self {
            Kind::UnitType => UnitTypeEnum::of_word(word) is Some,
            Kind::Activation => ActivationStatus::of_word(word) is Some,
            Kind::Sensor => SensorTypeEnum::of_word(word) is Some,
            Kind::Power => PowerEnum::of_word(word) is Some,
            Kind::Mode => ModeEnum::of_word(word) is Some,
            Kind::Fan => FanEnum::of_word(word) is Some,
            Kind::FreshAir => FreshAirEnum::of_word(word) is Some,
            Kind::Action => ActionEnum::of_word(word) is Some,
            _ => false,
        }
    }

    /// The words of this kind, as an error message lists them.
    pub open spec fn choices(self) -> Seq<char> {
        match self {
            Kind::UnitType => "one of `daikin`, `panasonic`, `fujitsu`, `samsung_dvm`"@,
            Kind::Activation => "one of `no_code`, `code_enabled`, `expired`"@,
            Kind::Sensor => "one of `no_sensor`, `rf`, `wired`, `rf2can_booster`, `rf_x`"@,
            Kind::Power => "`on` or `off`"@,
            Kind::Mode => "one of `cool`, `heat`, `vent`, `auto`, `dry`, `myauto`"@,
            Kind::Fan => "one of `off`, `low`, `medium`, `high`, `auto`, `auto_aa`"@,
            Kind::FreshAir => "one of `none`, `off`, `on`"@,
            Kind::Action => "`set_code` or `unlock`"@,
            _ => Seq::empty(),
        }
    }

    /// What is said of a word that is none of this kind.
    pub open spec fn unknown_word(self, word: Seq<char>) -> Seq<char> {
        "unknown variant `"@ + word + "`, expected "@ + self.choices()
    }

    /// What is said of a value that is no word of this kind. A word is a text, or
    /// an object with the word as its one key and no value.
    pub open spec fn word_complaint(self, value: FieldModel) -> Option<Seq<char>> {
        match value {
            FieldModel::Text(word) => if self.knows(word) {
                None
            } else {
                Some(self.unknown_word(word))
            },
            FieldModel::Single { key, value } => if !self.knows(key) {
                Some(self.unknown_word(key))
            } else if value is Null {
                None
            } else {
                Some(invalid_type(value, "unit"@))
            },
            FieldModel::Object => Some(invalid_value(value.outer(), "map with a single key"@)),
            _ => Some(invalid_type(value.outer(), "string or map"@)),
        }
    }

    /// What is said of a value that a field of this kind may not hold.
    pub open spec fn complaint(self, value: FieldModel) -> Option<Seq<char>> {
        match self {
            Kind::Byte => byte_complaint(value.outer()),
            Kind::Flag => if value is Bool {
                None
            } else {
                Some(invalid_type(value.outer(), "a boolean"@))
            },
            Kind::Text => if value is Text {
                None
            } else {
                Some(invalid_type(value.outer(), "a string"@))
            },
            Kind::Triple => match value {
                FieldModel::List(items) => triple_complaint(items, 0),
                _ => Some(invalid_type(value.outer(), "an array of length 3"@)),
            },
            Kind::Temperature => if value is Number || value is Decimal {
                None
            } else {
                Some(invalid_type(value.outer(), "f64"@))
            },
            _ => self.word_complaint(value),
        }
    }

    /// Whether a field of this kind may hold a value.
    pub open spec fn accepts(self, value: FieldModel) -> bool {
        self.complaint(value) is None
    }

    /// Whether fields of this kind hold one of a set of words.
    pub fn holds_word(self) -> (r: bool)
        ensures
            r == self.is_word(),
    {
        !matches!(
            self,
            Kind::Byte | Kind::Flag | Kind::Text | Kind::Triple | Kind::Temperature
        )
    }

    /// Whether a text is one of the words of this kind.
    pub fn knows_word(self, word: &str) -> (r: bool)
        ensures
            r == self.knows(word@),
    {
        match self {
            Kind::UnitType => UnitTypeEnum::from_word(word).is_some(),
            Kind::Activation => ActivationStatus::from_word(word).is_some(),
            Kind::Sensor => SensorTypeEnum::from_word(word).is_some(),
            Kind::Power => PowerEnum::from_word(word).is_some(),
            Kind::Mode => ModeEnum::from_word(word).is_some(),
            Kind::Fan => FanEnum::from_word(word).is_some(),
            Kind::FreshAir => FreshAirEnum::from_word(word).is_some(),
            Kind::Action => ActionEnum::from_word(word).is_some(),
            _ => false,
        }
    }

    /// The words of this kind, as an error message lists them.
    fn choices_text(self) -> (r: &'static str)
        requires
            self.is_word(),
        ensures
            r@ == self.choices(),
    {
        match self {
            Kind::UnitType => "one of `daikin`, `panasonic`, `fujitsu`, `samsung_dvm`",
            Kind::Activation => "one of `no_code`, `code_enabled`, `expired`",
            Kind::Sensor => "one of `no_sensor`, `rf`, `wired`, `rf2can_booster`, `rf_x`",
            Kind::Power => "`on` or `off`",
            Kind::Mode => "one of `cool`, `heat`, `vent`, `auto`, `dry`, `myauto`",
            Kind::Fan => "one of `off`, `low`, `medium`, `high`, `auto`, `auto_aa`",
            Kind::FreshAir => "one of `none`, `off`, `on`",
            _ => "`set_code` or `unlock`",
        }
    }

    /// What is said of a word that is none of this kind.
    fn unknown_word_text(self, word: &str) -> (out: String)
        requires
            self.is_word(),
        ensures
            out@ == self.unknown_word(word@),
    {
        let mut out = "unknown variant `".to_owned();
        out.append(word);
        out.append("`, expected ");
        out.append(self.choices_text());
        out
    }

    /// What is said of a value that is no word of this kind.
    fn complain_of_word(self, value: &Field) -> (r: Option<String>)
        requires
            self.is_word(),
        ensures
            text_option(r) == self.word_complaint(value@),
    {
        match value {
            Field::Text(word) => if self.knows_word(word.as_str()) {
                None
            } else {
                Some(self.unknown_word_text(word.as_str()))
            },
            Field::Single { key, value } => if !self.knows_word(key.as_str()) {
                Some(self.unknown_word_text(key.as_str()))
            } else {
                match value {
                    Nested::Null => None,
                    _ => Some(invalid_type_text(value, "unit")),
                }
            },
            Field::Object => Some(
                invalid_value_text(&value.to_outer(), "map with a single key"),
            ),
            _ => Some(invalid_type_text(&value.to_outer(), "string or map")),
        }
    }

    /// What is said of a value that a field of this kind may not hold.
    pub fn complain(self, value: &Field) -> (r: Option<String>)
        ensures
            text_option(r) == self.complaint(value@),
    {
        match self {
            Kind::Byte => complain_of_byte(&value.to_outer()),
            Kind::Flag => match value {
                Field::Bool(_) => None,
                _ => Some(invalid_type_text(&value.to_outer(), "a boolean")),
            },
            Kind::Text => match value {
                Field::Text(_) => None,
                _ => Some(invalid_type_text(&value.to_outer(), "a string")),
            },
            Kind::Triple => match value {
                Field::List(items) => complain_of_triple(items),
                _ => Some(invalid_type_text(&value.to_outer(), "an array of length 3")),
            },
            Kind::Temperature => match value {
                Field::Number(_) => None,
                Field::Decimal { .. } => None,
                _ => Some(invalid_type_text(&value.to_outer(), "f64")),
            },
            _ => self.complain_of_word(value),
        }
    }
}

/// `head`, a text, what was expected.
fn expected_text(head: &str, text: &str, expected: &str) -> (out: String)
    ensures
        out@ == head@ + text@ + ", expected "@ + expected@,
{
    let mut out = head.to_owned();
    out.append(text);
    out.append(", expected ");
    out.append(expected);
    out
}

/// What is said of a value of the wrong type.
pub fn invalid_type_text(value: &Nested, expected: &str) -> (out: String)
    ensures
        out@ == invalid_type(value@, expected@),
{
    let shown = value.to_shown();
    expected_text("invalid type: ", shown.as_str(), expected)
}

/// What is said of a value that is not permitted.
fn invalid_value_text(value: &Nested, expected: &str) -> (out: String)
    ensures
        out@ == invalid_value(value@, expected@),
{
    let shown = value.to_shown();
    expected_text("invalid value: ", shown.as_str(), expected)
}

/// What is said of a list of the wrong length.
pub fn invalid_length_text(len: usize, expected: &str) -> (out: String)
    ensures
        out@ == invalid_length(len as nat, expected@),
{
    let mut digits = String::new();
    push_decimal(&mut digits, len as u64);
    proof {
        assert(digits@ =~= decimal(len as nat));
    }
    expected_text("invalid length ", digits.as_str(), expected)
}

/// What is said of a value that is no byte.
fn complain_of_byte(value: &Nested) -> (r: Option<String>)
    ensures
        text_option(r) == byte_complaint(value@),
{
    match value {
        Nested::Number(n) => if n.as_byte().is_some() {
            None
        } else {
            match n {
                Number::Integer(_) | Number::Negative(_) => Some(invalid_value_text(value, "u8")),
                _ => Some(invalid_type_text(value, "u8")),
            }
        },
        _ => Some(invalid_type_text(value, "u8")),
    }
}

/// What is said of a list that is not three bytes.
fn complain_of_triple(items: &Vec<Nested>) -> (r: Option<String>)
    ensures
        text_option(r) == triple_complaint(items_model(items@), 0),
{
    let mut at: usize = 0;
    while at < 3
        invariant
            at <= 3,
            triple_complaint(items_model(items@), 0) == triple_complaint(
                items_model(items@),
                at as nat,
            ),
        decreases 3 - at,
    {
        if at >= items.len() {
            return Some(invalid_length_text(at, "an array of length 3"));
        }
        match complain_of_byte(&items[at]) {
            Some(c) => {
                return Some(c);
            },
            None => {},
        }
        at = at + 1;
    }
    if items.len() > 3 {
        Some(invalid_length_text(items.len(), "fewer elements in array"))
    } else {
        None
    }
}

/// An object with a word as its one key, and no value, stands for the word.
pub proof fn law_key_stands_for_word(kind: Kind, word: Seq<char>)
    requires
        kind.is_word(),
    ensures
        kind.accepts(FieldModel::Single { key: word, value: NestedModel::Null }) <==> kind.accepts(
            FieldModel::Text(word),
        ),
{
}

} // verus!
