//! What clients are told of payloads and writes that are refused.
use crate::mailbox::codec::typed;
use crate::mailbox::convert::{
    bounds, broken_bound, field_names, first_named, full_payload, write_fault, Bound,
};
use crate::mailbox::dto::{AckStatus, StatusState};
use crate::mailbox::error::{EncodeFault, WriteFault};
use crate::mailbox::kind::{byte_complaint, triple_complaint, Kind};
use crate::mailbox::policy::{mode_of, read_only_of};
use crate::mailbox::schema::{
    absent, complaint_at, fault, is_full, list_fault, misfit, parse_fault, strange_word, Schema,
    Shape,
};
use crate::mailbox::value::{field, FieldModel, Fields, NestedModel, Number, PayloadModel};
use crate::registers::ids::RegId;
use crate::text::{
    decimal, has_text, hex_byte, lemma_text_order, lemma_text_order_goes_on, quoted,
    text_before,
};
use vstd::prelude::*;

verus! {

/// The texts of what keeps a payload from being encoded.
pub proof fn law_texts_of_encoding(text: Seq<char>, name: Seq<char>)
    ensures
        EncodeFault::UnknownRegister(text).text() == "unknown register in catalog: "@ + text,
        EncodeFault::BadHex(text).text() == "malformed raw-hex payload: "@ + text,
        EncodeFault::BadPayload(text).text() == "bad register payload: "@ + text,
        (EncodeFault::BadEnum { field: name, value: text }).text() == "unsupported "@ + name
            + " value: "@ + text,
{
}

/// The texts of what keeps a write from being made.
pub proof fn law_texts_of_writing(reg: u8, name: Seq<char>, value: u8, max: u8)
    ensures
        (WriteFault::ReadOnlyRegister { reg }).text() == "register "@ + hex_byte(reg)
            + " is read-only"@,
        (WriteFault::ReadOnlyField { reg, field: name }).text() == "field '"@ + name
            + "' is read-only on register "@ + hex_byte(reg),
        (WriteFault::UnknownField { reg, field: name }).text() == "unknown field '"@ + name
            + "' for register "@ + hex_byte(reg),
        (WriteFault::WriteOnlyRegister { reg }).text() == "register "@ + hex_byte(reg)
            + " is write-only"@,
        (WriteFault::InternalRegister { reg }).text() == "register "@ + hex_byte(reg)
            + " is handled internally"@,
        (WriteFault::UnverifiedRegister { reg }).text() == "register "@ + hex_byte(reg)
            + " is unverified; writes not permitted"@,
        (WriteFault::OutOfRange { field: name, value, max }).text() == "field '"@ + name + "' "@
            + decimal(value as nat) + " out of range (max "@ + decimal(max as nat) + ")"@,
{
}

/// The words of acknowledgements and of states of the link.
pub proof fn law_words_of_states(a: AckStatus, s: StatusState)
    ensures
        a is Success ==> a.word() == "success"@,
        a is Error ==> a.word() == "error"@,
        s is Negotiating ==> s.word() == "negotiating"@,
        s is Synced ==> s.word() == "synced"@,
        s is Resyncing ==> s.word() == "resyncing"@,
        s is LinkDown ==> s.word() == "link_down"@,
{
}

/// Numbers are written in decimal digits; temperatures with the tenths behind a point.
pub proof fn law_texts_of_numbers(n: u64, halves: u8, whole: u8, tenths: u8)
    ensures
        Number::Integer(n).text() == decimal(n as nat),
        Number::Negative(n).text() == "-"@ + decimal(n as nat),
        halves % 2 == 0 ==> Number::Halves(halves).text() == decimal((halves / 2) as nat) + "."@
            + decimal(0),
        halves % 2 == 1 ==> Number::Halves(halves).text() == decimal((halves / 2) as nat) + "."@
            + decimal(5),
        tenths < 10 ==> (Number::Tenths { whole, tenths }).text() == decimal(whole as nat) + "."@
            + decimal(tenths as nat),
{
}

/// How values are named in what is told of them.
pub proof fn law_names_of_values(n: Number, b: bool, text: Seq<char>)
    ensures
        NestedModel::Null.shown() == "null"@,
        b ==> NestedModel::Bool(b).shown() == "boolean `true`"@,
        !b ==> NestedModel::Bool(b).shown() == "boolean `false`"@,
        n is Integer || n is Negative ==> NestedModel::Number(n).shown() == "integer `"@ + n.text()
            + "`"@,
        !(n is Integer || n is Negative) ==> NestedModel::Number(n).shown() == "floating point `"@
            + n.text() + "`"@,
        NestedModel::Decimal(text).shown() == "floating point `"@ + text + "`"@,
        NestedModel::Text(text).shown() == "string "@ + quoted(text),
        NestedModel::List.shown() == "sequence"@,
        NestedModel::Object.shown() == "map"@,
{
}

/// What is told of a value that is no byte: a whole number is one of the wrong size,
/// everything else is of the wrong type.
pub proof fn law_complaints_of_bytes(value: NestedModel)
    ensures
        value matches NestedModel::Number(Number::Integer(n)) && n <= 255 ==> byte_complaint(value)
            is None,
        value matches NestedModel::Number(Number::Integer(n)) && n > 255 ==> byte_complaint(value)
            == Some("invalid value: "@ + value.shown() + ", expected "@ + "u8"@),
        value matches NestedModel::Number(Number::Negative(_)) ==> byte_complaint(value) == Some(
            "invalid value: "@ + value.shown() + ", expected "@ + "u8"@,
        ),
        !(value matches NestedModel::Number(n) && (n is Integer || n is Negative))
            ==> byte_complaint(value) == Some(
            "invalid type: "@ + value.shown() + ", expected "@ + "u8"@,
        ),
{
}

/// What is told of a value that is no truth value, no text, no list of three bytes or no
/// number.
pub proof fn law_complaints_of_kinds(value: FieldModel)
    ensures
        !(value is Bool) ==> Kind::Flag.complaint(value) == Some(
            "invalid type: "@ + value.outer().shown() + ", expected "@ + "a boolean"@,
        ),
        !(value is Text) ==> Kind::Text.complaint(value) == Some(
            "invalid type: "@ + value.outer().shown() + ", expected "@ + "a string"@,
        ),
        !(value is List) ==> Kind::Triple.complaint(value) == Some(
            "invalid type: "@ + value.outer().shown() + ", expected "@ + "an array of length 3"@,
        ),
        !(value is Number || value is Decimal) ==> Kind::Temperature.complaint(value) == Some(
            "invalid type: "@ + value.outer().shown() + ", expected "@ + "f64"@,
        ),
        Kind::Byte.complaint(value) == byte_complaint(value.outer()),
{
}

/// What is told of a list that is not three bytes: of the first that is no byte, or else
/// of its length.
pub proof fn law_complaints_of_triples(items: Seq<NestedModel>)
    ensures
        items.len() > 0 && byte_complaint(items[0]) is Some ==> triple_complaint(items, 0)
            == byte_complaint(items[0]),
        items.len() > 1 && byte_complaint(items[0]) is None && byte_complaint(items[1]) is Some
            ==> triple_complaint(items, 0) == byte_complaint(items[1]),
        items.len() > 2 && byte_complaint(items[0]) is None && byte_complaint(items[1]) is None
            && byte_complaint(items[2]) is Some ==> triple_complaint(items, 0) == byte_complaint(
            items[2],
        ),
        items.len() == 0 ==> triple_complaint(items, 0) == Some(
            "invalid length "@ + decimal(0) + ", expected "@ + "an array of length 3"@,
        ),
        items.len() > 3 && byte_complaint(items[0]) is None && byte_complaint(items[1]) is None
            && byte_complaint(items[2]) is None ==> triple_complaint(items, 0) == Some(
            "invalid length "@ + decimal(items.len()) + ", expected "@
                + "fewer elements in array"@,
        ),
{
    reveal_with_fuel(triple_complaint, 4);
}

/// What is told of an unknown word, and of what is no word.
pub proof fn law_complaints_of_words(kind: Kind, word: Seq<char>, value: NestedModel)
    requires
        kind.is_word(),
    ensures
        !kind.knows(word) ==> kind.complaint(FieldModel::Text(word)) == Some(
            "unknown variant `"@ + word + "`, expected "@ + kind.choices(),
        ),
        !kind.knows(word) ==> kind.complaint(FieldModel::Single { key: word, value }) == Some(
            "unknown variant `"@ + word + "`, expected "@ + kind.choices(),
        ),
        kind.knows(word) && !(value is Null) ==> kind.complaint(
            FieldModel::Single { key: word, value },
        ) == Some("invalid type: "@ + value.shown() + ", expected "@ + "unit"@),
        kind.complaint(FieldModel::Object) == Some(
            "invalid value: "@ + "map"@ + ", expected "@ + "map with a single key"@,
        ),
        kind is Power ==> kind.choices() == "`on` or `off`"@,
        kind is Mode
            ==> kind.choices() == "one of `cool`, `heat`, `vent`, `auto`, `dry`, `myauto`"@,
        kind is Fan ==> kind.choices()
            == "one of `off`, `low`, `medium`, `high`, `auto`, `auto_aa`"@,
        kind is FreshAir ==> kind.choices() == "one of `none`, `off`, `on`"@,
        kind is Sensor ==> kind.choices()
            == "one of `no_sensor`, `rf`, `wired`, `rf2can_booster`, `rf_x`"@,
        kind is Activation ==> kind.choices() == "one of `no_code`, `code_enabled`, `expired`"@,
        kind is UnitType ==> kind.choices()
            == "one of `daikin`, `panasonic`, `fujitsu`, `samsung_dvm`"@,
        kind is Action ==> kind.choices() == "`set_code` or `unlock`"@,
{
}

/// The first field from `at` on with an unknown word.
proof fn lemma_strange_word_is(schema: Schema, fields: Fields, at: int, i: int)
    requires
        0 <= at <= i < schema.len(),
        schema[i].1.is_word(),
        field(fields, schema[i].0) matches Some(FieldModel::Text(s)) && !schema[i].1.knows(s),
        forall|j: int|
            at <= j < i ==> !((#[trigger] schema[j]).1.is_word() && (field(fields, schema[j].0)
                matches Some(FieldModel::Text(s)) && !schema[j].1.knows(s))),
    ensures
        strange_word(schema, fields, at) == Some(
            (schema[i].0, field(fields, schema[i].0)->0->Text_0),
        ),
    decreases i - at,
{
    if at < i {
        lemma_strange_word_is(schema, fields, at + 1, i);
    }
}

/// An unknown word is told before all else, and of several that of the first field.
pub proof fn law_unknown_words_are_told_first(shape: Shape, fields: Fields, i: int)
    requires
        0 <= i < shape.schema().len(),
        shape.schema()[i].1.is_word(),
        field(fields, shape.schema()[i].0) matches Some(FieldModel::Text(s))
            && !shape.schema()[i].1.knows(s),
        forall|j: int|
            0 <= j < i ==> !((#[trigger] shape.schema()[j]).1.is_word() && (field(
                fields,
                shape.schema()[j].0,
            ) matches Some(FieldModel::Text(s)) && !shape.schema()[j].1.knows(s))),
    ensures
        typed(shape, PayloadModel::Object(fields)) == Err::<Fields, EncodeFault>(
            EncodeFault::BadEnum {
                field: shape.schema()[i].0,
                value: field(fields, shape.schema()[i].0)->0->Text_0,
            },
        ),
{
    reveal(fault);
    lemma_strange_word_is(shape.schema(), fields, 0, i);
}

/// The first field from `at` on that is missing.
proof fn lemma_absent_is(schema: Schema, fields: Fields, at: int, i: int)
    requires
        0 <= at <= i < schema.len(),
        field(fields, schema[i].0) is None,
        forall|j: int| at <= j < i ==> field(fields, (#[trigger] schema[j]).0) is Some,
    ensures
        absent(schema, fields, at) == Some(schema[i].0),
    decreases i - at,
{
    if at < i {
        lemma_absent_is(schema, fields, at + 1, i);
    }
}

/// There is no misfit where nothing is said of any field.
proof fn lemma_no_misfit(schema: Schema, fields: Fields, n: int)
    requires
        0 <= n <= schema.len(),
        forall|i: int| 0 <= i < n ==> #[trigger] complaint_at(schema, fields, i) is None,
    ensures
        misfit(schema, fields, n) is None,
    decreases n,
{
    if n > 0 {
        assert(complaint_at(schema, fields, n - 1) is None);
        lemma_no_misfit(schema, fields, n - 1);
    }
}

/// Where every field that is there holds what it may hold, the first missing field is
/// told.
pub proof fn law_missing_fields_are_told(schema: Schema, fields: Fields, i: int)
    requires
        0 <= i < schema.len(),
        field(fields, schema[i].0) is None,
        forall|j: int| 0 <= j < i ==> field(fields, (#[trigger] schema[j]).0) is Some,
        forall|j: int|
            0 <= j < schema.len() ==> (field(fields, (#[trigger] schema[j]).0) matches Some(value)
                ==> schema[j].1.complaint(value) is None),
    ensures
        parse_fault(schema, fields) == Some("missing field `"@ + schema[i].0 + "`"@),
{
    assert forall|j: int| 0 <= j < schema.len() implies #[trigger] complaint_at(schema, fields, j)
        is None by {
        assert(schema[j] == schema[j]);
    }
    lemma_no_misfit(schema, fields, schema.len() as int);
    lemma_absent_is(schema, fields, 0, i);
}

/// A payload is completed from the mailbox exactly where what is told of it is that a
/// field is missing.
pub proof fn law_what_is_completed(schema: Schema, fields: Fields)
    ensures
        parse_fault(schema, fields) is None ==> is_full(schema, fields),
        parse_fault(schema, fields) matches Some(text) ==> (is_full(schema, fields) <==> !has_text(
            text,
            "missing field"@,
        )),
{
}

/// Of the names that are told the one that comes first is told, and it is one that a
/// field has.
proof fn lemma_first_named(fields: Fields, list: Seq<Seq<char>>, listed: bool, n: int)
    requires
        0 <= n <= fields.len(),
    ensures
        match first_named(fields, list, listed, n) {
            None => forall|i: int|
                0 <= i < n ==> list.contains((#[trigger] fields[i]).0) != listed,
            Some(name) => list.contains(name) == listed && (exists|i: int|
                0 <= i < n && (#[trigger] fields[i]).0 == name) && forall|i: int|
                0 <= i < n && list.contains((#[trigger] fields[i]).0) == listed ==> !text_before(
                    fields[i].0,
                    name,
                ),
        },
    decreases n,
{
    if n > 0 {
        lemma_first_named(fields, list, listed, n - 1);
        let own = fields[n - 1].0;
        let before = first_named(fields, list, listed, n - 1);
        lemma_text_order(own, own);
        if list.contains(own) == listed {
            if let Some(other) = before {
                lemma_text_order(own, other);
                let name = first_named(fields, list, listed, n)->0;
                assert forall|i: int|
                    0 <= i < n && list.contains((#[trigger] fields[i]).0)
                        == listed implies !text_before(fields[i].0, name) by {
                    if i < n - 1 && text_before(own, other) && text_before(fields[i].0, own) {
                        lemma_text_order_goes_on(fields[i].0, own, other);
                    }
                }
                if name == other {
                    let i = choose|i: int| 0 <= i < n - 1 && (#[trigger] fields[i]).0 == other;
                    assert(fields[i].0 == name);
                } else {
                    assert(fields[n - 1].0 == name);
                }
            } else {
                assert(fields[n - 1].0 == own);
            }
        } else if let Some(other) = before {
            let i = choose|i: int| 0 <= i < n - 1 && (#[trigger] fields[i]).0 == other;
            assert(fields[i].0 == other);
        }
    }
}

/// A read-only field is told before an unknown one, and an unknown one only where every
/// field has to be known. Of several the one whose name comes first is told.
pub proof fn law_which_field_is_told(
    reg: RegId,
    fields: Fields,
    written: PayloadModel,
    strict: bool,
    i: int,
)
    requires
        mode_of(reg) is ReadWrite || mode_of(reg) is WriteOnly,
        0 <= i < fields.len(),
    ensures
        ({
            let told = write_fault(reg, PayloadModel::Object(fields), written, strict);
            &&& read_only_of(reg).contains(fields[i].0) ==> (told
                matches Some(WriteFault::ReadOnlyField { reg: r, field: name }) && r == reg.0
                && read_only_of(reg).contains(name) && !text_before(fields[i].0, name))
            &&& strict && !field_names(reg).contains(fields[i].0) && (forall|j: int|
                0 <= j < fields.len() ==> !read_only_of(reg).contains((#[trigger] fields[j]).0))
                ==> (told matches Some(WriteFault::UnknownField { reg: r, field: name }) && r
                == reg.0 && !field_names(reg).contains(name) && !text_before(fields[i].0, name))
        }),
{
    lemma_first_named(fields, read_only_of(reg), true, fields.len() as int);
    lemma_first_named(fields, field_names(reg), false, fields.len() as int);
    if let Some(name) = first_named(fields, read_only_of(reg), true, fields.len() as int) {
        let k = choose|k: int| 0 <= k < fields.len() && (#[trigger] fields[k]).0 == name;
        assert(read_only_of(reg).contains(fields[k].0));
    }
}

/// The first bound from `at` on that is broken.
proof fn lemma_broken_bound_is(list: Seq<Bound>, data: [u8; 7], at: int, i: int)
    requires
        0 <= at <= i < list.len(),
        data[list[i].0] & list[i].3 > list[i].2,
        forall|j: int|
            at <= j < i ==> data[(#[trigger] list[j]).0] & list[j].3 <= list[j].2,
    ensures
        broken_bound(list, data, at) == Some(
            WriteFault::OutOfRange {
                field: list[i].1,
                value: data[list[i].0] & list[i].3,
                max: list[i].2,
            },
        ),
    decreases i - at,
{
    if at < i {
        lemma_broken_bound_is(list, data, at + 1, i);
    }
}

/// A value beyond its bound is told with its name, the value and the bound, of several
/// the first that is checked.
pub proof fn law_which_bound_is_told(reg: u8, data: [u8; 7], i: int)
    requires
        0 <= i < bounds(reg).len(),
        data[bounds(reg)[i].0] & bounds(reg)[i].3 > bounds(reg)[i].2,
        forall|j: int|
            0 <= j < i ==> data[(#[trigger] bounds(reg)[j]).0] & bounds(reg)[j].3
                <= bounds(reg)[j].2,
    ensures
        broken_bound(bounds(reg), data, 0) == Some(
            WriteFault::OutOfRange {
                field: bounds(reg)[i].1,
                value: data[bounds(reg)[i].0] & bounds(reg)[i].3,
                max: bounds(reg)[i].2,
            },
        ),
{
    lemma_broken_bound_is(bounds(reg), data, 0, i);
}

/// What the bounds of registers are named.
pub proof fn law_names_of_bounds()
    ensures
        bounds(0x01)[0].1 == "numZones"@,
        bounds(0x01)[1].1 == "numConstants"@,
        bounds(0x03)[0].1 == "damper"@,
        bounds(0x03)[1].1 == "setTemp×2"@,
        bounds(0x03)[2].1 == "measDec"@,
        bounds(0x04)[0].1 == "motion"@,
        bounds(0x04)[1].1 == "motionConfig"@,
        bounds(0x05)[0].1 == "mode"@,
        bounds(0x05)[1].1 == "setTemp×2"@,
        bounds(0x05)[2].1 == "freshAir"@,
        bounds(0x05)[3].1 == "rfSysId"@,
        bounds(0x05)[4].1 == "myzone"@,
{
}

/// A payload of a register that is written with fields needs nothing more exactly when
/// its fields need nothing more; all other payloads do.
pub proof fn law_full_payloads(reg: RegId, fields: Fields, payload: PayloadModel)
    ensures
        reg.0 == 0x01 ==> full_payload(reg, PayloadModel::Object(fields)) == is_full(
            Shape::ZoneConfig.schema(),
            fields,
        ),
        reg.0 == 0x03 ==> full_payload(reg, PayloadModel::Object(fields)) == is_full(
            Shape::ZoneState.schema(),
            fields,
        ),
        reg.0 == 0x04 ==> full_payload(reg, PayloadModel::Object(fields)) == is_full(
            Shape::ZoneLimits.schema(),
            fields,
        ),
        reg.0 == 0x05 ==> full_payload(reg, PayloadModel::Object(fields)) == is_full(
            Shape::SystemStatus.schema(),
            fields,
        ),
        reg.0 == 0x09 ==> full_payload(reg, PayloadModel::Object(fields)) == is_full(
            Shape::ActivationCode.schema(),
            fields,
        ),
        reg.0 == 0x12 ==> full_payload(reg, PayloadModel::Object(fields)) == is_full(
            Shape::SensorPairingWrite.schema(),
            fields,
        ),
        reg.0 == 0x26 ==> full_payload(reg, PayloadModel::Object(fields)) == is_full(
            Shape::RfDevicePairing.schema(),
            fields,
        ),
        reg.0 == 0x27 ==> full_payload(reg, PayloadModel::Object(fields)) == is_full(
            Shape::RfDeviceCalibration.schema(),
            fields,
        ),
        reg.0 != 0x01 && reg.0 != 0x03 && reg.0 != 0x04 && reg.0 != 0x05 && reg.0 != 0x09 && reg.0
            != 0x12 && reg.0 != 0x26 && reg.0 != 0x27 ==> !full_payload(
            reg,
            PayloadModel::Object(fields),
        ),
        !(payload is Object) ==> !full_payload(reg, payload),
{
}

/// What is told of a payload that is neither an object nor a list: its type, and what
/// was expected.
pub proof fn law_other_payloads_are_told(shape: Shape, payload: PayloadModel)
    requires
        !(payload is Object || payload is List),
    ensures
        typed(shape, payload) == Err::<Fields, EncodeFault>(
            EncodeFault::BadPayload(
                "invalid type: "@ + payload.outer().shown() + ", expected "@ + shape.title(),
            ),
        ),
        shape is ZoneConfig ==> shape.title() == "struct ZoneConfigDto"@,
        shape is UnitActivation ==> shape.title() == "struct UnitActivationDto"@,
        shape is ZoneState ==> shape.title() == "struct ZoneStateDto"@,
        shape is ZoneLimits ==> shape.title() == "struct ZoneLimitsDto"@,
        shape is SystemStatus ==> shape.title() == "struct SystemStatusDto"@,
        shape is Firmware ==> shape.title() == "struct FirmwareDto"@,
        shape is SystemError ==> shape.title() == "struct SystemErrorDto"@,
        shape is ActivationCode ==> shape.title() == "struct ActivationCodeDto"@,
        shape is UnitAnnouncement ==> shape.title() == "struct UnitAnnouncementDto"@,
        shape is SensorPairing ==> shape.title() == "struct SensorPairingDto"@,
        shape is SensorPairingWrite ==> shape.title() == "struct SensorPairingWriteDto"@,
        shape is InfoByte ==> shape.title() == "struct InfoByteDto"@,
        shape is RfDevicePairing ==> shape.title() == "struct RfDevicePairingDto"@,
        shape is RfDeviceCalibration ==> shape.title() == "struct RfDeviceCalibrationDto"@,
{
}

/// Of a list, the first value is told that its field may not hold, and a list that ends
/// too early is told with its length.
pub proof fn law_lists_that_are_refused(shape: Shape, values: Seq<FieldModel>, n: nat)
    requires
        n <= shape.schema().len(),
        n <= values.len(),
        forall|i: int| 0 <= i < n ==> (#[trigger] shape.schema()[i]).1.accepts(values[i]),
    ensures
        n < shape.schema().len() && n < values.len() ==> (shape.schema()[n as int].1.complaint(
            values[n as int],
        ) matches Some(text) ==> list_fault(shape, values, 0) == Some(text)),
        n < shape.schema().len() && n == values.len() ==> list_fault(shape, values, 0) == Some(
            "invalid length "@ + decimal(n) + ", expected "@ + shape.title() + " with "@ + decimal(
                shape.schema().len(),
            ) + if shape.schema().len() == 1 {
                " element"@
            } else {
                " elements"@
            },
        ),
        n == shape.schema().len() && values.len() > n ==> list_fault(shape, values, 0) == Some(
            "invalid length "@ + decimal(values.len()) + ", expected "@
                + "fewer elements in array"@,
        ),
{
    lemma_list_so_far(shape, values, 0, n);
    let expected = shape.sized_title();
    assert("invalid length "@ + decimal(n) + ", expected "@ + expected =~= "invalid length "@
        + decimal(n) + ", expected "@ + shape.title() + " with "@ + decimal(
        shape.schema().len(),
    ) + if shape.schema().len() == 1 {
        " element"@
    } else {
        " elements"@
    });
}

/// What is said of a list does not lie in the values that their fields may hold.
proof fn lemma_list_so_far(shape: Shape, values: Seq<FieldModel>, at: nat, n: nat)
    requires
        at <= n <= shape.schema().len(),
        n <= values.len(),
        forall|i: int| 0 <= i < n ==> (#[trigger] shape.schema()[i]).1.accepts(values[i]),
    ensures
        list_fault(shape, values, at) == list_fault(shape, values, n),
    decreases n - at,
{
    if at < n {
        assert(shape.schema()[at as int].1.accepts(values[at as int]));
        lemma_list_so_far(shape, values, at + 1, n);
    }
}

} // verus!
