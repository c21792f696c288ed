//! Payloads of the mailbox protocol: a raw text, an object of named fields, or a
//! list of their values.
use crate::text::{decimal, push_decimal, quoted, quoted_text, same_text};
use vstd::prelude::*;
use vstd::string::*;

verus! {

/// A number of a payload.
///
/// Temperatures are exact in half degrees or tenths. A number that is neither a
/// natural number nor such a temperature is known by how it rounds to both.
#[derive(Debug, Clone, Copy, PartialEq, Eq, Structural)]
pub enum Number {
    /// A natural number.
    Integer(u64),
    /// A whole number below zero: minus this many.
    Negative(u64),
    /// Half degrees.
    Halves(u8),
    /// Whole degrees and tenths.
    Tenths {
        /// Whole degrees.
        whole: u8,
        /// Tenths of a degree, any number of them.
        tenths: u8,
    },
    /// Any other number.
    Other {
        /// Nearest number of half degrees within a byte.
        half_degrees: u8,
        /// Whole part within a byte.
        whole: u8,
        /// Nearest number of tenths of the fraction, at most nine.
        tenths: u8,
    },
}

/// The smaller of `n` and 255.
pub open spec fn byte_capped(n: int) -> u8 {
    if n >= 255 {
        255u8
    } else {
        n as u8
    }
}

impl Number {
    /// The byte that this number is.
    pub open spec fn byte(self) -> Option<u8> {
        match self {
            Number::Integer(n) => if n <= 255 {
                Some(n as u8)
            } else {
                None
            },
            _ => None,
        }
    }

    /// This temperature in half degrees, rounded, within a byte.
    pub open spec fn half_degrees(self) -> u8 {
        match self {
            Number::Integer(n) => byte_capped(2 * n),
            Number::Negative(_) => 0,
            Number::Halves(n) => n,
            Number::Tenths { whole, tenths } => byte_capped((20 * whole + 2 * tenths + 5) / 10),
            Number::Other { half_degrees, .. } => half_degrees,
        }
    }

    /// This temperature in whole degrees, within a byte, and tenths.
    pub open spec fn measured(self) -> (u8, u8) {
        match self {
            Number::Integer(n) => (byte_capped(n as int), 0),
            Number::Negative(_) => (0, 0),
            Number::Halves(n) => (n / 2, if n % 2 == 1 {
                5
            } else {
                0
            }),
            Number::Tenths { whole, tenths } => (
                byte_capped(whole + tenths as int / 10),
                tenths % 10,
            ),
            Number::Other { whole, tenths, .. } => (whole, tenths),
        }
    }

    /// Whether this is a whole number.
    pub open spec fn is_whole(self) -> bool {
        self is Integer || self is Negative
    }

    /// The decimal text of this number. A number that is only known by how it
    /// rounds is written in whole degrees and tenths.
    pub open spec fn text(self) -> Seq<char> {
        match self {
            Number::Integer(n) => decimal(n as nat),
            Number::Negative(n) => "-"@ + decimal(n as nat),
            _ => decimal(self.measured().0 as nat) + "."@ + decimal(self.measured().1 as nat),
        }
    }

    /// The decimal text of this number.
    pub fn to_text(self) -> (out: String)
        ensures
            out@ == self.text(),
    {
        let mut out = String::new();
        match self {
            Number::Integer(n) => {
                push_decimal(&mut out, n);
                proof {
                    assert(out@ =~= self.text());
                }
            },
            Number::Negative(n) => {
                out.append("-");
                push_decimal(&mut out, n);
                proof {
                    assert(out@ =~= self.text());
                }
            },
            _ => {
                let (whole, tenths) = self.as_measured();
                push_decimal(&mut out, whole as u64);
                out.append(".");
                push_decimal(&mut out, tenths as u64);
                proof {
                    assert(out@ =~= self.text());
                }
            },
        }
        out
    }

    /// The byte that this number is.
    pub fn as_byte(self) -> (r: Option<u8>)
        ensures
            r == self.byte(),
    {
        match self {
            Number::Integer(n) => if n <= 255 {
                Some(n as u8)
            } else {
                None
            },
            _ => None,
        }
    }

    /// This temperature in half degrees.
    pub fn as_half_degrees(self) -> (r: u8)
        ensures
            r == self.half_degrees(),
    {
        match self {
            Number::Integer(n) => if n >= 128 {
                255
            } else {
                2 * n as u8
            },
            Number::Negative(_) => 0,
            Number::Halves(n) => n,
            Number::Tenths { whole, tenths } => {
                let n: u16 = (20 * whole as u16 + 2 * tenths as u16 + 5) / 10;
                if n >= 255 {
                    255
                } else {
                    n as u8
                }
            },
            Number::Other { half_degrees, .. } => half_degrees,
        }
    }

    /// This temperature in whole degrees and tenths.
    pub fn as_measured(self) -> (r: (u8, u8))
        ensures
            r == self.measured(),
    {
        match self {
            Number::Integer(n) => if n >= 255 {
                (255, 0)
            } else {
                (n as u8, 0)
            },
            Number::Negative(_) => (0, 0),
            Number::Halves(n) => if n % 2 == 1 {
                (n / 2, 5)
            } else {
                (n / 2, 0)
            },
            Number::Tenths { whole, tenths } => {
                let n: u16 = whole as u16 + (tenths / 10) as u16;
                if n >= 255 {
                    (255, tenths % 10)
                } else {
                    (n as u8, tenths % 10)
                }
            },
            Number::Other { whole, tenths, .. } => (whole, tenths),
        }
    }
}

/// Temperatures that came from the bus go back unchanged: half degrees keep
/// their byte, and whole degrees with at most nine tenths keep both bytes.
pub proof fn law_temperatures_kept(halves: u8, whole: u8, tenths: u8)
    requires
        tenths <= 9,
    ensures
        Number::Halves(halves).half_degrees() == halves,
        (Number::Tenths { whole, tenths }).measured() == (whole, tenths),
{
}

/// A value inside a list or an object. What is inside a list or an object in
/// turn is not looked at.
#[derive(Debug, Clone, PartialEq, Eq)]
pub enum Nested {
    /// No value.
    Null,
    /// A truth value.
    Bool(bool),
    /// A number.
    Number(Number),
    /// A number that is not whole, by its decimal text.
    Decimal(String),
    /// A text.
    Text(String),
    /// A list.
    List,
    /// An object.
    Object,
}

/// A whole number of degrees and the same temperature in halves or in tenths are
/// encoded alike.
pub proof fn law_degrees_agree(n: u64, whole: u8)
    ensures
        n <= 127 ==> Number::Integer(n).half_degrees() == 2 * n && Number::Halves(
            (2 * n) as u8,
        ).half_degrees() == 2 * n,
        n <= 127 ==> Number::Integer(n).half_degrees() == (Number::Tenths {
            whole: n as u8,
            tenths: 0,
        }).half_degrees(),
        n > 127 ==> Number::Integer(n).half_degrees() == 255,
        n <= 255 ==> Number::Integer(n).measured() == (n as u8, 0u8),
        n > 255 ==> Number::Integer(n).measured() == (255u8, 0u8),
        Number::Negative(n).half_degrees() == 0,
        Number::Negative(n).measured() == (0u8, 0u8),
        whole <= 127 ==> Number::Halves((2 * whole) as u8).measured() == (whole, 0u8)
            && Number::Halves((2 * whole + 1) as u8).measured() == (whole, 5u8),
        whole <= 126 ==> (Number::Tenths { whole, tenths: 5 }).half_degrees() == 2 * whole + 1,
{
}

/// Half degrees are the nearest to the temperature, and more than a byte holds are the
/// most that it holds: `t` is the temperature in tenths.
pub proof fn law_half_degrees_are_nearest(whole: u8, tenths: u8)
    ensures
        ({
            let t = 10 * whole + tenths;
            let h = (Number::Tenths { whole, tenths }).half_degrees();
            if t < 1273 {
                5 * h - 2 <= t <= 5 * h + 2
            } else {
                h == 255
            }
        }),
{
}

/// What is measured keeps its value: in tenths, whole degrees and tenths together are
/// the temperature, and there are at most nine tenths.
pub proof fn law_measured_keeps_the_value(whole: u8, tenths: u8, halves: u8)
    ensures
        ({
            let m = (Number::Tenths { whole, tenths }).measured();
            &&& m.1 <= 9
            &&& 10 * whole + tenths < 2560 ==> 10 * m.0 + m.1 == 10 * whole + tenths
            &&& 10 * whole + tenths >= 2560 ==> m.0 == 255 && m.1 == tenths % 10
        }),
        10 * Number::Halves(halves).measured().0 + Number::Halves(halves).measured().1 == 5 * halves,
        Number::Halves(halves).half_degrees() == halves,
{
}

/// Only a number that is whole, not below zero and at most 255 is a byte, and then it
/// is that byte.
pub proof fn law_bytes_are_numbers(n: Number, b: u8)
    ensures
        n.byte() == Some(b) <==> n == Number::Integer(b as u64),
{
}

/// A number that is known by how it rounds is taken as it was rounded.
pub proof fn law_rounded_numbers_stay(half_degrees: u8, whole: u8, tenths: u8)
    ensures
        (Number::Other { half_degrees, whole, tenths }).half_degrees() == half_degrees,
        (Number::Other { half_degrees, whole, tenths }).measured() == (whole, tenths),
{
}

/// The value of a field.
#[derive(Debug, Clone, PartialEq, Eq)]
pub enum Field {
    /// No value.
    Null,
    /// A truth value.
    Bool(bool),
    /// A number.
    Number(Number),
    /// A number that is not whole, with its decimal text.
    Decimal {
        /// The number.
        number: Number,
        /// Its text.
        text: String,
    },
    /// A text.
    Text(String),
    /// A list.
    List(Vec<Nested>),
    /// An object with one key.
    Single {
        /// The key.
        key: String,
        /// Its value.
        value: Nested,
    },
    /// An object with no key or with several.
    Object,
}

/// A named field.
#[derive(Debug, Clone, PartialEq, Eq)]
pub struct Member {
    /// Name.
    pub name: String,
    /// Value.
    pub value: Field,
}

/// The payload of a register.
#[derive(Debug, Clone, PartialEq, Eq)]
pub enum Payload {
    /// Raw hexadecimal text.
    Text(String),
    /// Named fields. Of several fields with one name the first counts.
    Object(Vec<Member>),
    /// The values of fields in their order, without names.
    List(Vec<Field>),
    /// No value.
    Null,
    /// A truth value.
    Bool(bool),
    /// A number.
    Number(Number),
    /// A number that is not whole, by its decimal text.
    Decimal(String),
}

/// What a value inside a list or an object says.
#[verifier::ext_equal]
pub ghost enum NestedModel {
    Null,
    Bool(bool),
    Number(Number),
    Decimal(Seq<char>),
    Text(Seq<char>),
    List,
    Object,
}

/// What a field says.
#[verifier::ext_equal]
pub ghost enum FieldModel {
    Null,
    Bool(bool),
    Number(Number),
    Decimal { number: Number, text: Seq<char> },
    Text(Seq<char>),
    List(Seq<NestedModel>),
    Single { key: Seq<char>, value: NestedModel },
    Object,
}

/// Fields with their names.
pub type Fields = Seq<(Seq<char>, FieldModel)>;

/// What a payload says.
#[verifier::ext_equal]
pub ghost enum PayloadModel {
    Text(Seq<char>),
    Object(Fields),
    List(Seq<FieldModel>),
    Null,
    Bool(bool),
    Number(Number),
    Decimal(Seq<char>),
}

impl View for Nested {
    type V = NestedModel;

    open spec fn view(&self) -> NestedModel {
        match *self {
            Nested::Null => NestedModel::Null,
            Nested::Bool(b) => NestedModel::Bool(b),
            Nested::Number(n) => NestedModel::Number(n),
            Nested::Decimal(s) => NestedModel::Decimal(s@),
            Nested::Text(s) => NestedModel::Text(s@),
            Nested::List => NestedModel::List,
            Nested::Object => NestedModel::Object,
        }
    }
}

/// What a list of nested values says.
pub open spec fn items_model(items: Seq<Nested>) -> Seq<NestedModel> {
    items.map_values(|n: Nested| n@)
}

impl View for Field {
    type V = FieldModel;

    open spec fn view(&self) -> FieldModel {
        match *self {
            Field::Null => FieldModel::Null,
            Field::Bool(b) => FieldModel::Bool(b),
            Field::Number(n) => FieldModel::Number(n),
            Field::Decimal { number, text } => FieldModel::Decimal { number, text: text@ },
            Field::Text(s) => FieldModel::Text(s@),
            Field::List(items) => FieldModel::List(items_model(items@)),
            Field::Single { key, value } => FieldModel::Single { key: key@, value: value@ },
            Field::Object => FieldModel::Object,
        }
    }
}

/// What a list of members says.
pub open spec fn members_model(members: Seq<Member>) -> Fields {
    members.map_values(|m: Member| (m.name@, m.value@))
}

/// What a list of values says.
pub open spec fn values_model(values: Seq<Field>) -> Seq<FieldModel> {
    values.map_values(|f: Field| f@)
}

impl View for Payload {
    type V = PayloadModel;

    open spec fn view(&self) -> PayloadModel {
        match *self {
            Payload::Text(s) => PayloadModel::Text(s@),
            Payload::Object(members) => PayloadModel::Object(members_model(members@)),
            Payload::List(values) => PayloadModel::List(values_model(values@)),
            Payload::Null => PayloadModel::Null,
            Payload::Bool(b) => PayloadModel::Bool(b),
            Payload::Number(n) => PayloadModel::Number(n),
            Payload::Decimal(s) => PayloadModel::Decimal(s@),
        }
    }
}

impl NestedModel {
    /// How an error message names this value.
    pub open spec fn shown(self) -> Seq<char> {
        match self {
            NestedModel::Null => "null"@,
            NestedModel::Bool(b) => if b {
                "boolean `true`"@
            } else {
                "boolean `false`"@
            },
            NestedModel::Number(n) => if n.is_whole() {
                "integer `"@ + n.text() + "`"@
            } else {
                "floating point `"@ + n.text() + "`"@
            },
            NestedModel::Decimal(text) => "floating point `"@ + text + "`"@,
            NestedModel::Text(s) => "string "@ + quoted(s),
            NestedModel::List => "sequence"@,
            NestedModel::Object => "map"@,
        }
    }
}

impl FieldModel {
    /// This value without what is inside it.
    pub open spec fn outer(self) -> NestedModel {
        match self {
            FieldModel::Null => NestedModel::Null,
            FieldModel::Bool(b) => NestedModel::Bool(b),
            FieldModel::Number(n) => NestedModel::Number(n),
            FieldModel::Decimal { text, .. } => NestedModel::Decimal(text),
            FieldModel::Text(s) => NestedModel::Text(s),
            FieldModel::List(_) => NestedModel::List,
            FieldModel::Single { .. } => NestedModel::Object,
            FieldModel::Object => NestedModel::Object,
        }
    }
}

impl PayloadModel {
    /// This payload without what is inside it.
    pub open spec fn outer(self) -> NestedModel {
        match self {
            PayloadModel::Text(s) => NestedModel::Text(s),
            PayloadModel::Object(_) => NestedModel::Object,
            PayloadModel::List(_) => NestedModel::List,
            PayloadModel::Null => NestedModel::Null,
            PayloadModel::Bool(b) => NestedModel::Bool(b),
            PayloadModel::Number(n) => NestedModel::Number(n),
            PayloadModel::Decimal(text) => NestedModel::Decimal(text),
        }
    }
}

/// `head`, a text and a closing mark.
pub fn marked(head: &str, text: &str) -> (out: String)
    ensures
        out@ == head@ + text@ + "`"@,
{
    let mut out = head.to_owned();
    out.append(text);
    out.append("`");
    out
}

impl Nested {
    /// How an error message names this value.
    pub fn to_shown(&self) -> (out: String)
        ensures
            out@ == self@.shown(),
    {
        match self {
            Nested::Null => "null".to_owned(),
            Nested::Bool(b) => if *b {
                "boolean `true`".to_owned()
            } else {
                "boolean `false`".to_owned()
            },
            Nested::Number(n) => {
                let text = n.to_text();
                match n {
                    Number::Integer(_) | Number::Negative(_) => marked("integer `", text.as_str()),
                    _ => marked("floating point `", text.as_str()),
                }
            },
            Nested::Decimal(text) => marked("floating point `", text.as_str()),
            Nested::Text(s) => {
                let mut out = "string ".to_owned();
                let shown = quoted_text(s.as_str());
                out.append(shown.as_str());
                out
            },
            Nested::List => "sequence".to_owned(),
            Nested::Object => "map".to_owned(),
        }
    }
}

impl Field {
    /// This value without what is inside it.
    pub fn to_outer(&self) -> (r: Nested)
        ensures
            r@ == self@.outer(),
    {
        match self {
            Field::Null => Nested::Null,
            Field::Bool(b) => Nested::Bool(*b),
            Field::Number(n) => Nested::Number(*n),
            Field::Decimal { text, .. } => Nested::Decimal(text.clone()),
            Field::Text(s) => Nested::Text(s.clone()),
            Field::List(_) => Nested::List,
            Field::Single { .. } => Nested::Object,
            Field::Object => Nested::Object,
        }
    }
}

impl Payload {
    /// This payload without what is inside it.
    pub fn to_outer(&self) -> (r: Nested)
        ensures
            r@ == self@.outer(),
    {
        match self {
            Payload::Text(s) => Nested::Text(s.clone()),
            Payload::Object(_) => Nested::Object,
            Payload::List(_) => Nested::List,
            Payload::Null => Nested::Null,
            Payload::Bool(b) => Nested::Bool(*b),
            Payload::Number(n) => Nested::Number(*n),
            Payload::Decimal(text) => Nested::Decimal(text.clone()),
        }
    }
}

/// Position of the first field with a name.
pub open spec fn position(fields: Fields, name: Seq<char>) -> Option<int>
    decreases fields.len(),
{
    if fields.len() == 0 {
        None
    } else if fields[0].0 == name {
        Some(0)
    } else {
        match position(fields.drop_first(), name) {
            Some(i) => Some(i + 1),
            None => None,
        }
    }
}

/// The field with a name.
pub open spec fn field(fields: Fields, name: Seq<char>) -> Option<FieldModel> {
    match position(fields, name) {
        Some(i) => Some(fields[i].1),
        None => None,
    }
}

/// The first field with a name is where `position` says.
pub proof fn lemma_position(fields: Fields, name: Seq<char>)
    ensures
        match position(fields, name) {
            Some(i) => 0 <= i < fields.len() && fields[i].0 == name && forall|j: int|
                0 <= j < i ==> (#[trigger] fields[j]).0 != name,
            None => forall|j: int| 0 <= j < fields.len() ==> (#[trigger] fields[j]).0 != name,
        },
    decreases fields.len(),
{
    if fields.len() > 0 && fields[0].0 != name {
        let rest = fields.drop_first();
        lemma_position(rest, name);
        match position(rest, name) {
            Some(i) => {
                assert(fields[i + 1] == rest[i]);
                assert forall|j: int| 0 <= j < i + 1 implies (#[trigger] fields[j]).0 != name by {
                    if j > 0 {
                        assert(rest[j - 1] == fields[j]);
                    }
                }
            },
            None => {
                assert forall|j: int| 0 <= j < fields.len() implies (#[trigger] fields[j]).0
                    != name by {
                    if j > 0 {
                        assert(rest[j - 1] == fields[j]);
                    }
                }
            },
        }
    }
}

/// A field that stands first under its name is where `position` says.
pub proof fn lemma_position_is(fields: Fields, name: Seq<char>, at: int)
    requires
        0 <= at < fields.len(),
        fields[at].0 == name,
        forall|j: int| 0 <= j < at ==> (#[trigger] fields[j]).0 != name,
    ensures
        position(fields, name) == Some(at),
{
    lemma_position(fields, name);
    match position(fields, name) {
        Some(i) => {
            if i < at {
                assert(fields[i].0 != name);
            }
            if at < i {
                assert(fields[at].0 != name);
            }
        },
        None => {
            assert(fields[at].0 != name);
        },
    }
}

/// Position of the first member with a name.
pub fn find_member(members: &Vec<Member>, name: &str) -> (r: Option<usize>)
    ensures
        match r {
            Some(i) => position(members_model(members@), name@) == Some(i as int) && i
                < members@.len(),
            None => position(members_model(members@), name@) is None,
        },
{
    let ghost fields = members_model(members@);
    let mut i: usize = 0;
    while i < members.len()
        invariant
            i <= members@.len(),
            fields == members_model(members@),
            forall|j: int| 0 <= j < i ==> (#[trigger] fields[j]).0 != name@,
        decreases members@.len() - i,
    {
        if same_text(members[i].name.as_str(), name) {
            proof {
                lemma_position_is(fields, name@, i as int);
            }
            return Some(i);
        }
        i = i + 1;
    }
    proof {
        lemma_position(fields, name@);
    }
    None
}

/// A copy of a value inside a list or an object.
fn copy_nested(value: &Nested) -> (r: Nested)
    ensures
        r@ == value@,
{
    match value {
        Nested::Null => Nested::Null,
        Nested::Bool(b) => Nested::Bool(*b),
        Nested::Number(n) => Nested::Number(*n),
        Nested::Decimal(s) => Nested::Decimal(s.clone()),
        Nested::Text(s) => Nested::Text(s.clone()),
        Nested::List => Nested::List,
        Nested::Object => Nested::Object,
    }
}

/// A copy of the values of a list.
fn copy_items(items: &Vec<Nested>) -> (out: Vec<Nested>)
    ensures
        items_model(out@) == items_model(items@),
{
    let mut out: Vec<Nested> = Vec::new();
    let mut i: usize = 0;
    while i < items.len()
        invariant
            i <= items@.len(),
            items_model(out@) == items_model(items@.take(i as int)),
        decreases items@.len() - i,
    {
        let ghost before = out@;
        out.push(copy_nested(&items[i]));
        proof {
            let m = items@[i as int]@;
            assert(items_model(out@) =~= items_model(before).push(m));
            assert(items_model(items@.take(i + 1)) =~= items_model(items@.take(i as int)).push(m));
        }
        i = i + 1;
    }
    proof {
        assert(items@.take(i as int) =~= items@);
    }
    out
}

/// A copy of a field.
pub fn copy_field(value: &Field) -> (r: Field)
    ensures
        r@ == value@,
{
    match value {
        Field::Null => Field::Null,
        Field::Bool(b) => Field::Bool(*b),
        Field::Number(n) => Field::Number(*n),
        Field::Decimal { number, text } => Field::Decimal { number: *number, text: text.clone() },
        Field::Text(s) => Field::Text(s.clone()),
        Field::List(items) => Field::List(copy_items(items)),
        Field::Single { key, value } => Field::Single {
            key: key.clone(),
            value: copy_nested(value),
        },
        Field::Object => Field::Object,
    }
}

/// A copy of a list of values.
fn copy_values(values: &Vec<Field>) -> (out: Vec<Field>)
    ensures
        values_model(out@) == values_model(values@),
{
    let mut out: Vec<Field> = Vec::new();
    let mut i: usize = 0;
    while i < values.len()
        invariant
            i <= values@.len(),
            values_model(out@) == values_model(values@.take(i as int)),
        decreases values@.len() - i,
    {
        let ghost before = out@;
        out.push(copy_field(&values[i]));
        proof {
            let m = values@[i as int]@;
            assert(values_model(out@) =~= values_model(before).push(m));
            assert(values_model(values@.take(i + 1)) =~= values_model(
                values@.take(i as int),
            ).push(m));
        }
        i = i + 1;
    }
    proof {
        assert(values@.take(i as int) =~= values@);
    }
    out
}

/// A copy of a list of members.
pub fn copy_members(members: &Vec<Member>) -> (out: Vec<Member>)
    ensures
        members_model(out@) == members_model(members@),
{
    let mut out: Vec<Member> = Vec::new();
    let mut i: usize = 0;
    while i < members.len()
        invariant
            i <= members@.len(),
            members_model(out@) == members_model(members@.take(i as int)),
        decreases members@.len() - i,
    {
        let ghost before = out@;
        let copy = Member {
            name: members[i].name.clone(),
            value: copy_field(&members[i].value),
        };
        out.push(copy);
        proof {
            let m = (members@[i as int].name@, members@[i as int].value@);
            assert(members_model(out@) =~= members_model(before).push(m));
            assert(members_model(members@.take(i + 1)) =~= members_model(
                members@.take(i as int),
            ).push(m));
        }
        i = i + 1;
    }
    proof {
        assert(members@.take(i as int) =~= members@);
    }
    out
}

/// A copy of a payload.
pub fn copy_payload(payload: &Payload) -> (r: Payload)
    ensures
        r@ == payload@,
{
    match payload {
        Payload::Text(s) => Payload::Text(s.clone()),
        Payload::Object(members) => Payload::Object(copy_members(members)),
        Payload::List(values) => Payload::List(copy_values(values)),
        Payload::Null => Payload::Null,
        Payload::Bool(b) => Payload::Bool(*b),
        Payload::Number(n) => Payload::Number(*n),
        Payload::Decimal(s) => Payload::Decimal(s.clone()),
    }
}

/// A member.
pub fn member(name: &str, value: Field) -> (m: Member)
    ensures
        m.name@ == name@,
        m.value == value,
{
    Member { name: name.to_owned(), value }
}

/// `fields` with the field `name` set: in place, or at the end.
pub open spec fn with_field(fields: Fields, name: Seq<char>, value: FieldModel) -> Fields {
    match position(fields, name) {
        Some(i) => fields.update(i, (name, value)),
        None => fields.push((name, value)),
    }
}

/// `fields` with each of `over` set, in order.
pub open spec fn overlaid(fields: Fields, over: Fields) -> Fields
    decreases over.len(),
{
    if over.len() == 0 {
        fields
    } else {
        with_field(overlaid(fields, over.drop_last()), over.last().0, over.last().1)
    }
}

/// Setting a field sets that field and no other.
pub proof fn lemma_with_field(fields: Fields, name: Seq<char>, value: FieldModel, other: Seq<char>)
    ensures
        field(with_field(fields, name, value), name) == Some(value),
        other != name ==> field(with_field(fields, name, value), other) == field(fields, other),
{
    let after = with_field(fields, name, value);
    lemma_position(fields, name);
    lemma_position(fields, other);
    match position(fields, name) {
        Some(i) => {
            assert forall|j: int| 0 <= j < i implies (#[trigger] after[j]).0 != name by {
                assert(after[j] == fields[j]);
            }
            lemma_position_is(after, name, i);
            if other != name {
                match position(fields, other) {
                    Some(k) => {
                        assert(after[k] == fields[k]);
                        assert forall|j: int| 0 <= j < k implies (#[trigger] after[j]).0
                            != other by {
                            if j != i {
                                assert(after[j] == fields[j]);
                            }
                        }
                        lemma_position_is(after, other, k);
                    },
                    None => {
                        lemma_position(after, other);
                        match position(after, other) {
                            Some(k) => {
                                if k != i {
                                    assert(after[k] == fields[k]);
                                }
                            },
                            None => {},
                        }
                    },
                }
            }
        },
        None => {
            let n = fields.len() as int;
            assert forall|j: int| 0 <= j < n implies (#[trigger] after[j]).0 != name by {
                assert(after[j] == fields[j]);
            }
            lemma_position_is(after, name, n);
            if other != name {
                match position(fields, other) {
                    Some(k) => {
                        assert forall|j: int| 0 <= j < k implies (#[trigger] after[j]).0
                            != other by {
                            assert(after[j] == fields[j]);
                        }
                        assert(after[k] == fields[k]);
                        lemma_position_is(after, other, k);
                    },
                    None => {
                        lemma_position(after, other);
                        match position(after, other) {
                            Some(k) => {
                                if k < n {
                                    assert(after[k] == fields[k]);
                                }
                            },
                            None => {},
                        }
                    },
                }
            }
        },
    }
}

/// Sets a field.
pub fn set_field(members: &mut Vec<Member>, name: &str, value: Field)
    ensures
        members_model(final(members)@) == with_field(
            members_model(old(members)@),
            name@,
            value@,
        ),
{
    let ghost before = members_model(members@);
    let m = member(name, value);
    match find_member(members, name) {
        Some(i) => {
            members[i] = m;
            proof {
                assert(members_model(members@) =~= before.update(i as int, (name@, value@)));
            }
        },
        None => {
            members.push(m);
            proof {
                assert(members_model(members@) =~= before.push((name@, value@)));
            }
        },
    }
}

/// `fields` without the field `name`.
pub open spec fn without_field(fields: Fields, name: Seq<char>) -> Fields {
    match position(fields, name) {
        Some(i) => fields.remove(i),
        None => fields,
    }
}

/// Removes a field.
pub fn remove_field(members: &mut Vec<Member>, name: &str)
    ensures
        members_model(final(members)@) == without_field(members_model(old(members)@), name@),
{
    let ghost before = members_model(members@);
    match find_member(members, name) {
        Some(i) => {
            members.remove(i);
            proof {
                assert(members_model(members@) =~= before.remove(i as int));
            }
        },
        None => {},
    }
}

/// The byte in a field, `0` where the field holds none.
pub open spec fn byte_in(fields: Fields, name: Seq<char>) -> u8 {
    match field(fields, name) {
        Some(FieldModel::Number(n)) => match n.byte() {
            Some(b) => b,
            None => 0,
        },
        _ => 0,
    }
}

/// The truth value in a field, `false` where the field holds none.
pub open spec fn flag_in(fields: Fields, name: Seq<char>) -> bool {
    match field(fields, name) {
        Some(FieldModel::Bool(b)) => b,
        _ => false,
    }
}

/// The text in a field, empty where the field holds none.
pub open spec fn text_in(fields: Fields, name: Seq<char>) -> Seq<char> {
    match field(fields, name) {
        Some(FieldModel::Text(s)) => s,
        _ => Seq::empty(),
    }
}

/// The word in a field: its text, or the key of its object with one key; empty
/// where the field holds neither.
pub open spec fn word_in(fields: Fields, name: Seq<char>) -> Seq<char> {
    match field(fields, name) {
        Some(FieldModel::Text(s)) => s,
        Some(FieldModel::Single { key, .. }) => key,
        _ => Seq::empty(),
    }
}

/// The number in a field, `0` where the field holds none.
pub open spec fn number_in(fields: Fields, name: Seq<char>) -> Number {
    match field(fields, name) {
        Some(FieldModel::Number(n)) => n,
        Some(FieldModel::Decimal { number, .. }) => number,
        _ => Number::Integer(0),
    }
}

/// A number as a byte, `0` where it is none.
pub open spec fn byte_of(n: Number) -> u8 {
    match n.byte() {
        Some(b) => b,
        None => 0,
    }
}

/// A nested value as a byte, `0` where it is none.
pub open spec fn nested_byte(value: NestedModel) -> u8 {
    match value {
        NestedModel::Number(n) => byte_of(n),
        _ => 0,
    }
}

/// The three bytes in a field, zeros where the field holds none.
pub open spec fn triple_in(fields: Fields, name: Seq<char>) -> [u8; 3] {
    match field(fields, name) {
        Some(FieldModel::List(v)) => if v.len() == 3 {
            [nested_byte(v[0]), nested_byte(v[1]), nested_byte(v[2])]
        } else {
            [0u8, 0u8, 0u8]
        },
        _ => [0u8, 0u8, 0u8],
    }
}

/// The byte in a field.
pub fn get_byte(members: &Vec<Member>, name: &str) -> (r: u8)
    ensures
        r == byte_in(members_model(members@), name@),
{
    match find_member(members, name) {
        Some(i) => match &members[i].value {
            Field::Number(n) => match n.as_byte() {
                Some(b) => b,
                None => 0,
            },
            _ => 0,
        },
        None => 0,
    }
}

/// The truth value in a field.
pub fn get_flag(members: &Vec<Member>, name: &str) -> (r: bool)
    ensures
        r == flag_in(members_model(members@), name@),
{
    match find_member(members, name) {
        Some(i) => match &members[i].value {
            Field::Bool(b) => *b,
            _ => false,
        },
        None => false,
    }
}

/// The text in a field.
pub fn get_text(members: &Vec<Member>, name: &str) -> (r: String)
    ensures
        r@ == text_in(members_model(members@), name@),
{
    proof {
        reveal_strlit("");
        assert(""@ =~= Seq::empty());
    }
    match find_member(members, name) {
        Some(i) => match &members[i].value {
            Field::Text(s) => s.clone(),
            _ => "".to_owned(),
        },
        None => "".to_owned(),
    }
}

/// The word in a field.
pub fn get_word(members: &Vec<Member>, name: &str) -> (r: String)
    ensures
        r@ == word_in(members_model(members@), name@),
{
    proof {
        reveal_strlit("");
        assert(""@ =~= Seq::empty());
    }
    match find_member(members, name) {
        Some(i) => match &members[i].value {
            Field::Text(s) => s.clone(),
            Field::Single { key, .. } => key.clone(),
            _ => "".to_owned(),
        },
        None => "".to_owned(),
    }
}

/// The number in a field.
pub fn get_number(members: &Vec<Member>, name: &str) -> (r: Number)
    ensures
        r == number_in(members_model(members@), name@),
{
    match find_member(members, name) {
        Some(i) => match &members[i].value {
            Field::Number(n) => *n,
            Field::Decimal { number, .. } => *number,
            _ => Number::Integer(0),
        },
        None => Number::Integer(0),
    }
}

/// A nested value as a byte.
fn to_byte(value: &Nested) -> (r: u8)
    ensures
        r == nested_byte(value@),
{
    match value {
        Nested::Number(n) => match n.as_byte() {
            Some(b) => b,
            None => 0,
        },
        _ => 0,
    }
}

/// The three bytes in a field.
pub fn get_triple(members: &Vec<Member>, name: &str) -> (r: [u8; 3])
    ensures
        r == triple_in(members_model(members@), name@),
{
    let r: [u8; 3] = match find_member(members, name) {
        Some(i) => match &members[i].value {
            Field::List(v) => if v.len() == 3 {
                [to_byte(&v[0]), to_byte(&v[1]), to_byte(&v[2])]
            } else {
                [0u8, 0u8, 0u8]
            },
            _ => [0u8, 0u8, 0u8],
        },
        None => [0u8, 0u8, 0u8],
    };
    proof {
        assert(r =~= triple_in(members_model(members@), name@));
    }
    r
}

} // verus!
