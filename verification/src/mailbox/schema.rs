//! Which fields the payload of a register has.
use crate::mailbox::error::{EncodeError, EncodeFault};
use crate::mailbox::kind::{invalid_length, invalid_length_text, Kind};
use crate::mailbox::value::{
    copy_field, field, find_member, lemma_position_is, marked, member, members_model, values_model,
    Field, FieldModel, Fields, Member,
};
use crate::text::{
    chars_of, comes_before, contains_text, decimal, has_text, lemma_text_order,
    lemma_text_order_goes_on, push_decimal, text_before, text_option,
};
use vstd::prelude::*;
use vstd::string::*;

verus! {

/// A field of a payload.
#[derive(Debug, Clone, Copy, PartialEq, Eq)]
pub struct Entry {
    /// Name.
    pub name: &'static str,
    /// What the field may hold.
    pub kind: Kind,
}

/// Names and kinds of fields.
pub type Schema = Seq<(Seq<char>, Kind)>;

/// What a list of entries says.
pub open spec fn entries_model(entries: Seq<Entry>) -> Schema {
    entries.map_values(|e: Entry| (e.name@, e.kind))
}

/// The payloads that registers have.
#[derive(Debug, Clone, Copy, PartialEq, Eq, Structural)]
pub enum Shape {
    /// Register `01`: zone configuration.
    ZoneConfig,
    /// Register `02`: activation of the unit.
    UnitActivation,
    /// Register `03`: state of one zone.
    ZoneState,
    /// Register `04`: limits and sensors of one zone.
    ZoneLimits,
    /// Register `05`: status of the system.
    SystemStatus,
    /// Register `06`: firmware.
    Firmware,
    /// Register `08`: error code.
    SystemError,
    /// Register `09`: activation code.
    ActivationCode,
    /// Register `0a`: announcement of a unit, without fields.
    UnitAnnouncement,
    /// Register `12`, as it is read: pairing of a sensor.
    SensorPairing,
    /// Register `12`, as it is written: pairing of a sensor.
    SensorPairingWrite,
    /// Register `13`: info byte.
    InfoByte,
    /// Register `26`: pairing of a radio device.
    RfDevicePairing,
    /// Register `27`: calibration of a radio device.
    RfDeviceCalibration,
}

impl Shape {
    /// What an error message says was expected in place of a payload.
    pub open spec fn title(self) -> Seq<char> {
        match self {
            Shape::ZoneConfig => "struct ZoneConfigDto"@,
            Shape::UnitActivation => "struct UnitActivationDto"@,
            Shape::ZoneState => "struct ZoneStateDto"@,
            Shape::ZoneLimits => "struct ZoneLimitsDto"@,
            Shape::SystemStatus => "struct SystemStatusDto"@,
            Shape::Firmware => "struct FirmwareDto"@,
            Shape::SystemError => "struct SystemErrorDto"@,
            Shape::ActivationCode => "struct ActivationCodeDto"@,
            Shape::UnitAnnouncement => "struct UnitAnnouncementDto"@,
            Shape::SensorPairing => "struct SensorPairingDto"@,
            Shape::SensorPairingWrite => "struct SensorPairingWriteDto"@,
            Shape::InfoByte => "struct InfoByteDto"@,
            Shape::RfDevicePairing => "struct RfDevicePairingDto"@,
            Shape::RfDeviceCalibration => "struct RfDeviceCalibrationDto"@,
        }
    }

    /// What an error message says was expected in place of a list.
    pub open spec fn sized_title(self) -> Seq<char> {
        self.title() + " with "@ + decimal(self.schema().len()) + if self.schema().len() == 1 {
            " element"@
        } else {
            " elements"@
        }
    }

    /// What an error message says was expected in place of a payload.
    pub fn title_text(self) -> (r: &'static str)
        ensures
            r@ == self.title(),
    {
        match self {
            Shape::ZoneConfig => "struct ZoneConfigDto",
            Shape::UnitActivation => "struct UnitActivationDto",
            Shape::ZoneState => "struct ZoneStateDto",
            Shape::ZoneLimits => "struct ZoneLimitsDto",
            Shape::SystemStatus => "struct SystemStatusDto",
            Shape::Firmware => "struct FirmwareDto",
            Shape::SystemError => "struct SystemErrorDto",
            Shape::ActivationCode => "struct ActivationCodeDto",
            Shape::UnitAnnouncement => "struct UnitAnnouncementDto",
            Shape::SensorPairing => "struct SensorPairingDto",
            Shape::SensorPairingWrite => "struct SensorPairingWriteDto",
            Shape::InfoByte => "struct InfoByteDto",
            Shape::RfDevicePairing => "struct RfDevicePairingDto",
            Shape::RfDeviceCalibration => "struct RfDeviceCalibrationDto",
        }
    }

    /// What an error message says was expected in place of a list.
    fn sized_title_text(self) -> (out: String)
        ensures
            out@ == self.sized_title(),
    {
        let entries = self.entries();
        assert(entries_model(entries@).len() == entries@.len());
        let mut out = self.title_text().to_owned();
        out.append(" with ");
        push_decimal(&mut out, entries.len() as u64);
        if entries.len() == 1 {
            out.append(" element");
        } else {
            out.append(" elements");
        }
        out
    }

    /// The fields of a payload.
    pub open spec fn schema(self) -> Schema {
        match self {
            Shape::ZoneConfig => seq![
                ("header"@, Kind::Byte),
                ("total_zones"@, Kind::Byte),
                ("constant_zones"@, Kind::Byte),
                ("constant_zone_ids"@, Kind::Triple),
                ("filter_clean_required"@, Kind::Flag),
            ],
            Shape::UnitActivation => seq![
                ("unit_type"@, Kind::UnitType),
                ("activation_status"@, Kind::Activation),
                ("dict_fw_major"@, Kind::Byte),
                ("dict_fw_minor"@, Kind::Byte),
            ],
            Shape::ZoneState => seq![
                ("open"@, Kind::Flag),
                ("damper_pct"@, Kind::Byte),
                ("sensor_type"@, Kind::Sensor),
                ("target_temp_c"@, Kind::Temperature),
                ("measured_temp_c"@, Kind::Temperature),
            ],
            Shape::ZoneLimits => seq![
                ("min_damper"@, Kind::Byte),
                ("max_damper"@, Kind::Byte),
                ("motion_status"@, Kind::Byte),
                ("motion_config"@, Kind::Byte),
                ("zone_error"@, Kind::Byte),
                ("rssi"@, Kind::Byte),
            ],
            Shape::SystemStatus => seq![
                ("power"@, Kind::Power),
                ("mode"@, Kind::Mode),
                ("fan"@, Kind::Fan),
                ("target_temp_c"@, Kind::Temperature),
                ("myzone_id"@, Kind::Byte),
                ("fresh_air"@, Kind::FreshAir),
                ("rf_sys_id"@, Kind::Byte),
            ],
            Shape::Firmware => seq![
                ("fw_major"@, Kind::Byte),
                ("fw_minor"@, Kind::Byte),
                ("cb_type"@, Kind::Byte),
                ("rf_fw_major"@, Kind::Byte),
            ],
            Shape::SystemError => seq![
                ("error_code"@, Kind::Text),
            ],
            Shape::ActivationCode => seq![
                ("action"@, Kind::Action),
                ("unlock_code"@, Kind::Text),
                ("activation_days"@, Kind::Byte),
            ],
            Shape::UnitAnnouncement => seq![],
            Shape::SensorPairing => seq![
                ("sensor_uid"@, Kind::Text),
                ("pairing"@, Kind::Flag),
                ("sensor_rev"@, Kind::Byte),
            ],
            Shape::SensorPairingWrite => seq![
                ("sensor_uid"@, Kind::Text),
                ("zone"@, Kind::Byte),
            ],
            Shape::InfoByte => seq![
                ("info_byte"@, Kind::Byte),
            ],
            Shape::RfDevicePairing => seq![
                ("pairing_control"@, Kind::Byte),
                ("rf_device_type"@, Kind::Byte),
                ("zone_channel"@, Kind::Byte),
            ],
            Shape::RfDeviceCalibration => seq![
                ("calibration_control"@, Kind::Byte),
                ("channel"@, Kind::Byte),
                ("up_down_position"@, Kind::Byte),
            ],
        }
    }

    /// The fields of a payload.
    pub fn entries(self) -> (r: Vec<Entry>)
        ensures
            entries_model(r@) == self.schema(),
    {
        let mut r: Vec<Entry> = Vec::new();
        match self {
            Shape::ZoneConfig => {
                r.push(Entry { name: "header", kind: Kind::Byte });
                r.push(Entry { name: "total_zones", kind: Kind::Byte });
                r.push(Entry { name: "constant_zones", kind: Kind::Byte });
                r.push(Entry { name: "constant_zone_ids", kind: Kind::Triple });
                r.push(Entry { name: "filter_clean_required", kind: Kind::Flag });
            },
            Shape::UnitActivation => {
                r.push(Entry { name: "unit_type", kind: Kind::UnitType });
                r.push(Entry { name: "activation_status", kind: Kind::Activation });
                r.push(Entry { name: "dict_fw_major", kind: Kind::Byte });
                r.push(Entry { name: "dict_fw_minor", kind: Kind::Byte });
            },
            Shape::ZoneState => {
                r.push(Entry { name: "open", kind: Kind::Flag });
                r.push(Entry { name: "damper_pct", kind: Kind::Byte });
                r.push(Entry { name: "sensor_type", kind: Kind::Sensor });
                r.push(Entry { name: "target_temp_c", kind: Kind::Temperature });
                r.push(Entry { name: "measured_temp_c", kind: Kind::Temperature });
            },
            Shape::ZoneLimits => {
                r.push(Entry { name: "min_damper", kind: Kind::Byte });
                r.push(Entry { name: "max_damper", kind: Kind::Byte });
                r.push(Entry { name: "motion_status", kind: Kind::Byte });
                r.push(Entry { name: "motion_config", kind: Kind::Byte });
                r.push(Entry { name: "zone_error", kind: Kind::Byte });
                r.push(Entry { name: "rssi", kind: Kind::Byte });
            },
            Shape::SystemStatus => {
                r.push(Entry { name: "power", kind: Kind::Power });
                r.push(Entry { name: "mode", kind: Kind::Mode });
                r.push(Entry { name: "fan", kind: Kind::Fan });
                r.push(Entry { name: "target_temp_c", kind: Kind::Temperature });
                r.push(Entry { name: "myzone_id", kind: Kind::Byte });
                r.push(Entry { name: "fresh_air", kind: Kind::FreshAir });
                r.push(Entry { name: "rf_sys_id", kind: Kind::Byte });
            },
            Shape::Firmware => {
                r.push(Entry { name: "fw_major", kind: Kind::Byte });
                r.push(Entry { name: "fw_minor", kind: Kind::Byte });
                r.push(Entry { name: "cb_type", kind: Kind::Byte });
                r.push(Entry { name: "rf_fw_major", kind: Kind::Byte });
            },
            Shape::SystemError => {
                r.push(Entry { name: "error_code", kind: Kind::Text });
            },
            Shape::ActivationCode => {
                r.push(Entry { name: "action", kind: Kind::Action });
                r.push(Entry { name: "unlock_code", kind: Kind::Text });
                r.push(Entry { name: "activation_days", kind: Kind::Byte });
            },
            Shape::UnitAnnouncement => {},
            Shape::SensorPairing => {
                r.push(Entry { name: "sensor_uid", kind: Kind::Text });
                r.push(Entry { name: "pairing", kind: Kind::Flag });
                r.push(Entry { name: "sensor_rev", kind: Kind::Byte });
            },
            Shape::SensorPairingWrite => {
                r.push(Entry { name: "sensor_uid", kind: Kind::Text });
                r.push(Entry { name: "zone", kind: Kind::Byte });
            },
            Shape::InfoByte => {
                r.push(Entry { name: "info_byte", kind: Kind::Byte });
            },
            Shape::RfDevicePairing => {
                r.push(Entry { name: "pairing_control", kind: Kind::Byte });
                r.push(Entry { name: "rf_device_type", kind: Kind::Byte });
                r.push(Entry { name: "zone_channel", kind: Kind::Byte });
            },
            Shape::RfDeviceCalibration => {
                r.push(Entry { name: "calibration_control", kind: Kind::Byte });
                r.push(Entry { name: "channel", kind: Kind::Byte });
                r.push(Entry { name: "up_down_position", kind: Kind::Byte });
            },
        }
        proof {
            assert(entries_model(r@) =~= self.schema());
        }
        r
    }
}

/// The names of a payload are distinct.
pub proof fn lemma_names_distinct(shape: Shape, i: int, j: int)
    requires
        0 <= i < j < shape.schema().len(),
    ensures
        shape.schema()[i].0 != shape.schema()[j].0,
{
    match shape {
        Shape::ZoneConfig => {
            reveal_strlit("header");
            reveal_strlit("total_zones");
            reveal_strlit("constant_zones");
            reveal_strlit("constant_zone_ids");
            reveal_strlit("filter_clean_required");
            assert("header"@.len() == 6);
            assert("total_zones"@.len() == 11);
            assert("constant_zones"@.len() == 14);
            assert("constant_zone_ids"@.len() == 17);
            assert("filter_clean_required"@.len() == 21);
        },
        Shape::UnitActivation => {
            reveal_strlit("unit_type");
            reveal_strlit("activation_status");
            reveal_strlit("dict_fw_major");
            reveal_strlit("dict_fw_minor");
            assert("unit_type"@.len() == 9);
            assert("activation_status"@.len() == 17);
            assert("dict_fw_major"@.len() == 13);
            assert("dict_fw_minor"@.len() == 13);
            assert("dict_fw_major"@[9] != "dict_fw_minor"@[9]);
        },
        Shape::ZoneState => {
            reveal_strlit("open");
            reveal_strlit("damper_pct");
            reveal_strlit("sensor_type");
            reveal_strlit("target_temp_c");
            reveal_strlit("measured_temp_c");
            assert("open"@.len() == 4);
            assert("damper_pct"@.len() == 10);
            assert("sensor_type"@.len() == 11);
            assert("target_temp_c"@.len() == 13);
            assert("measured_temp_c"@.len() == 15);
        },
        Shape::ZoneLimits => {
            reveal_strlit("min_damper");
            reveal_strlit("max_damper");
            reveal_strlit("motion_status");
            reveal_strlit("motion_config");
            reveal_strlit("zone_error");
            reveal_strlit("rssi");
            assert("min_damper"@.len() == 10);
            assert("max_damper"@.len() == 10);
            assert("motion_status"@.len() == 13);
            assert("motion_config"@.len() == 13);
            assert("zone_error"@.len() == 10);
            assert("rssi"@.len() == 4);
            assert("min_damper"@[1] != "max_damper"@[1]);
            assert("min_damper"@[0] != "zone_error"@[0]);
            assert("max_damper"@[0] != "zone_error"@[0]);
            assert("motion_status"@[7] != "motion_config"@[7]);
        },
        Shape::SystemStatus => {
            reveal_strlit("power");
            reveal_strlit("mode");
            reveal_strlit("fan");
            reveal_strlit("target_temp_c");
            reveal_strlit("myzone_id");
            reveal_strlit("fresh_air");
            reveal_strlit("rf_sys_id");
            assert("power"@.len() == 5);
            assert("mode"@.len() == 4);
            assert("fan"@.len() == 3);
            assert("target_temp_c"@.len() == 13);
            assert("myzone_id"@.len() == 9);
            assert("fresh_air"@.len() == 9);
            assert("rf_sys_id"@.len() == 9);
            assert("myzone_id"@[0] != "fresh_air"@[0]);
            assert("myzone_id"@[0] != "rf_sys_id"@[0]);
            assert("fresh_air"@[0] != "rf_sys_id"@[0]);
        },
        Shape::Firmware => {
            reveal_strlit("fw_major");
            reveal_strlit("fw_minor");
            reveal_strlit("cb_type");
            reveal_strlit("rf_fw_major");
            assert("fw_major"@.len() == 8);
            assert("fw_minor"@.len() == 8);
            assert("cb_type"@.len() == 7);
            assert("rf_fw_major"@.len() == 11);
            assert("fw_major"@[4] != "fw_minor"@[4]);
        },
        Shape::SystemError => {},
        Shape::ActivationCode => {
            reveal_strlit("action");
            reveal_strlit("unlock_code");
            reveal_strlit("activation_days");
            assert("action"@.len() == 6);
            assert("unlock_code"@.len() == 11);
            assert("activation_days"@.len() == 15);
        },
        Shape::UnitAnnouncement => {},
        Shape::SensorPairing => {
            reveal_strlit("sensor_uid");
            reveal_strlit("pairing");
            reveal_strlit("sensor_rev");
            assert("sensor_uid"@.len() == 10);
            assert("pairing"@.len() == 7);
            assert("sensor_rev"@.len() == 10);
            assert("sensor_uid"@[7] != "sensor_rev"@[7]);
        },
        Shape::SensorPairingWrite => {
            reveal_strlit("sensor_uid");
            reveal_strlit("zone");
            assert("sensor_uid"@.len() == 10);
            assert("zone"@.len() == 4);
        },
        Shape::InfoByte => {},
        Shape::RfDevicePairing => {
            reveal_strlit("pairing_control");
            reveal_strlit("rf_device_type");
            reveal_strlit("zone_channel");
            assert("pairing_control"@.len() == 15);
            assert("rf_device_type"@.len() == 14);
            assert("zone_channel"@.len() == 12);
        },
        Shape::RfDeviceCalibration => {
            reveal_strlit("calibration_control");
            reveal_strlit("channel");
            reveal_strlit("up_down_position");
            assert("calibration_control"@.len() == 19);
            assert("channel"@.len() == 7);
            assert("up_down_position"@.len() == 16);
        },
    }
}

/// The first field from `at` on that holds an unknown word.
pub open spec fn strange_word(schema: Schema, fields: Fields, at: int) -> Option<(
    Seq<char>,
    Seq<char>,
)>
    decreases schema.len() - at,
{
    if at < 0 || at >= schema.len() {
        None
    } else {
        match (schema[at].1.is_word(), field(fields, schema[at].0)) {
            (true, Some(FieldModel::Text(s))) => if schema[at].1.knows(s) {
                strange_word(schema, fields, at + 1)
            } else {
                Some((schema[at].0, s))
            },
            _ => strange_word(schema, fields, at + 1),
        }
    }
}

/// What is said of the field `i`, where it is there and holds a value which it may
/// not hold.
pub open spec fn complaint_at(schema: Schema, fields: Fields, i: int) -> Option<Seq<char>> {
    match field(fields, schema[i].0) {
        Some(value) => schema[i].1.complaint(value),
        None => None,
    }
}

/// Among the first `n` fields that hold a value which they may not hold, the one
/// whose name comes first.
pub open spec fn misfit(schema: Schema, fields: Fields, n: int) -> Option<int>
    decreases n,
{
    if n <= 0 {
        None
    } else if complaint_at(schema, fields, n - 1) is None {
        misfit(schema, fields, n - 1)
    } else {
        match misfit(schema, fields, n - 1) {
            Some(i) => if text_before(schema[n - 1].0, schema[i].0) {
                Some(n - 1)
            } else {
                Some(i)
            },
            None => Some(n - 1),
        }
    }
}

/// The first field from `at` on that is missing.
pub open spec fn absent(schema: Schema, fields: Fields, at: int) -> Option<Seq<char>>
    decreases schema.len() - at,
{
    if at < 0 || at >= schema.len() {
        None
    } else if field(fields, schema[at].0) is None {
        Some(schema[at].0)
    } else {
        absent(schema, fields, at + 1)
    }
}

/// What is said of fields that are no payload: of a value that its field may not
/// hold, or else of a missing field.
pub open spec fn parse_fault(schema: Schema, fields: Fields) -> Option<Seq<char>> {
    match misfit(schema, fields, schema.len() as int) {
        Some(i) => complaint_at(schema, fields, i),
        None => match absent(schema, fields, 0) {
            Some(name) => Some("missing field `"@ + name + "`"@),
            None => None,
        },
    }
}

/// What keeps fields from being a payload: a text that is an unknown word, a value
/// that its field may not hold, or a missing field, in this order.
#[verifier::opaque]
pub open spec fn fault(schema: Schema, fields: Fields) -> Option<EncodeFault> {
    match strange_word(schema, fields, 0) {
        Some((field, value)) => Some(EncodeFault::BadEnum { field, value }),
        None => match parse_fault(schema, fields) {
            Some(text) => Some(EncodeFault::BadPayload(text)),
            None => None,
        },
    }
}

/// What is said of a list, from `at` on, that does not hold the values of the
/// fields in their order.
pub open spec fn list_fault(shape: Shape, values: Seq<FieldModel>, at: nat) -> Option<Seq<char>>
    decreases shape.schema().len() - at,
{
    if at >= shape.schema().len() {
        if values.len() > shape.schema().len() {
            Some(invalid_length(values.len(), "fewer elements in array"@))
        } else {
            None
        }
    } else if at >= values.len() {
        Some(invalid_length(at, shape.sized_title()))
    } else {
        match shape.schema()[at as int].1.complaint(values[at as int]) {
            Some(text) => Some(text),
            None => list_fault(shape, values, at + 1),
        }
    }
}

/// Values under the names of the fields, in order.
pub open spec fn named(schema: Schema, values: Seq<FieldModel>) -> Fields {
    Seq::new(schema.len(), |i: int| (schema[i].0, values[i]))
}

/// Fields are a payload when each one is there and holds what it may hold.
pub open spec fn fits(schema: Schema, fields: Fields) -> bool {
    forall|i: int|
        0 <= i < schema.len() ==> (field(fields, (#[trigger] schema[i]).0) matches Some(value)
            && schema[i].1.accepts(value))
}

/// Nothing keeps fields from being a payload exactly when they are one.
pub proof fn lemma_fault(schema: Schema, fields: Fields)
    ensures
        fault(schema, fields) is None <==> fits(schema, fields),
{
    reveal(fault);
    lemma_strange_word(schema, fields, 0);
    lemma_misfit(schema, fields, schema.len() as int);
    lemma_absent(schema, fields, 0);
    if fits(schema, fields) {
        assert forall|i: int| 0 <= i < schema.len() implies #[trigger] complaint_at(
            schema,
            fields,
            i,
        ) is None by {
            assert(field(fields, schema[i].0) is Some);
        }
    }
    if fault(schema, fields) is None {
        assert forall|i: int|
            #![trigger schema[i]]
            0 <= i < schema.len() implies (field(fields, schema[i].0) matches Some(value)
            && schema[i].1.accepts(value)) by {
            assert(complaint_at(schema, fields, i) is None);
        }
    }
}

/// Fields that are a payload hold no unknown word.
proof fn lemma_strange_word(schema: Schema, fields: Fields, at: int)
    requires
        0 <= at <= schema.len(),
    ensures
        fits(schema, fields) ==> strange_word(schema, fields, at) is None,
    decreases schema.len() - at,
{
    if at < schema.len() {
        lemma_strange_word(schema, fields, at + 1);
        if fits(schema, fields) {
            assert(field(fields, schema[at].0) is Some);
        }
    }
}

/// A misfit is a field of which something is said, and there is one where
/// something is said of a field.
proof fn lemma_misfit(schema: Schema, fields: Fields, n: int)
    requires
        0 <= n <= schema.len(),
    ensures
        match misfit(schema, fields, n) {
            Some(i) => 0 <= i < n && complaint_at(schema, fields, i) is Some,
            None => forall|i: int|
                0 <= i < n ==> #[trigger] complaint_at(schema, fields, i) is None,
        },
    decreases n,
{
    if n > 0 {
        lemma_misfit(schema, fields, n - 1);
    }
}

/// No field is missing exactly when all are there.
proof fn lemma_absent(schema: Schema, fields: Fields, at: int)
    requires
        0 <= at <= schema.len(),
    ensures
        absent(schema, fields, at) is None <==> (forall|i: int|
            at <= i < schema.len() ==> field(fields, (#[trigger] schema[i]).0) is Some),
    decreases schema.len() - at,
{
    if at < schema.len() {
        lemma_absent(schema, fields, at + 1);
        if field(fields, schema[at].0) is Some && absent(schema, fields, at + 1) is None {
            assert forall|i: int| at <= i < schema.len() implies field(
                fields,
                (#[trigger] schema[i]).0,
            ) is Some by {
                if i > at {
                    assert(at + 1 <= i);
                }
            }
        }
    }
}

/// The reported misfit is the one whose name comes first: no field of which
/// something is said has a name that comes before its name.
pub proof fn law_first_misfit_by_name(schema: Schema, fields: Fields, n: int)
    requires
        0 <= n <= schema.len(),
    ensures
        misfit(schema, fields, n) matches Some(i) ==> forall|j: int|
            0 <= j < n && #[trigger] complaint_at(schema, fields, j) is Some ==> !text_before(
                schema[j].0,
                schema[i].0,
            ),
    decreases n,
{
    if n > 0 {
        law_first_misfit_by_name(schema, fields, n - 1);
        lemma_misfit(schema, fields, n - 1);
        match misfit(schema, fields, n) {
            Some(i) => {
                assert forall|j: int|
                    0 <= j < n && #[trigger] complaint_at(schema, fields, j)
                        is Some implies !text_before(schema[j].0, schema[i].0) by {
                    lemma_text_order(schema[i].0, schema[j].0);
                    match misfit(schema, fields, n - 1) {
                        Some(k) => {
                            if i == n - 1 && j < n - 1 && text_before(schema[j].0, schema[i].0) {
                                lemma_text_order_goes_on(
                                    schema[j].0,
                                    schema[i].0,
                                    schema[k].0,
                                );
                            }
                        },
                        None => {},
                    }
                }
            },
            None => {},
        }
    }
}

/// A list of which nothing is said holds, from `at` on, a value for each field that
/// the field may hold, and no more values.
proof fn lemma_list(shape: Shape, values: Seq<FieldModel>, at: nat)
    requires
        at <= shape.schema().len(),
    ensures
        list_fault(shape, values, at) is None ==> values.len() <= shape.schema().len()
            && forall|i: int|
            at <= i < shape.schema().len() ==> i < values.len()
                && (#[trigger] shape.schema()[i]).1.accepts(values[i]),
    decreases shape.schema().len() - at,
{
    if at < shape.schema().len() {
        lemma_list(shape, values, at + 1);
        if list_fault(shape, values, at) is None {
            assert forall|i: int| at <= i < shape.schema().len() implies i < values.len()
                && (#[trigger] shape.schema()[i]).1.accepts(values[i]) by {
                if i > at {
                    assert(at + 1 <= i);
                }
            }
        }
    }
}

/// A list of the values of the fields, in order, stands for the object that has
/// them under their names.
pub proof fn law_list_stands_for_object(shape: Shape, values: Seq<FieldModel>)
    requires
        list_fault(shape, values, 0) is None,
    ensures
        values.len() == shape.schema().len(),
        fault(shape.schema(), named(shape.schema(), values)) is None,
        forall|i: int|
            0 <= i < values.len() ==> field(
                named(shape.schema(), values),
                (#[trigger] shape.schema()[i]).0,
            ) == Some(values[i]),
{
    let schema = shape.schema();
    let fields = named(schema, values);
    lemma_list(shape, values, 0);
    if schema.len() > 0 {
        assert(schema[schema.len() - 1].1.accepts(values[schema.len() - 1]));
    }
    lemma_own_fields(shape, fields);
    assert forall|i: int| 0 <= i < schema.len() implies (field(fields, (#[trigger] schema[i]).0)
        matches Some(value) && schema[i].1.accepts(value)) by {
        assert(fields[i].1 == values[i]);
    }
    lemma_fault(schema, fields);
}

/// The fields of a payload, in order, are found under their names.
pub proof fn lemma_own_fields(shape: Shape, fields: Fields)
    requires
        fields.len() == shape.schema().len(),
        forall|i: int| 0 <= i < fields.len() ==> (#[trigger] fields[i]).0 == shape.schema()[i].0,
    ensures
        forall|i: int|
            0 <= i < fields.len() ==> field(fields, (#[trigger] shape.schema()[i]).0) == Some(
                fields[i].1,
            ),
{
    let schema = shape.schema();
    assert forall|i: int| 0 <= i < fields.len() implies field(fields, (#[trigger] schema[i]).0)
        == Some(fields[i].1) by {
        assert(fields[i].0 == schema[i].0);
        assert forall|j: int| 0 <= j < i implies (#[trigger] fields[j]).0 != schema[i].0 by {
            lemma_names_distinct(shape, j, i);
        }
        lemma_position_is(fields, schema[i].0, i);
    }
}

/// The first field that holds an unknown word.
fn find_strange_word(entries: &Vec<Entry>, members: &Vec<Member>) -> (r: Option<(
    &'static str,
    String,
)>)
    ensures
        match r {
            Some((name, word)) => strange_word(
                entries_model(entries@),
                members_model(members@),
                0,
            ) == Some((name@, word@)),
            None => strange_word(entries_model(entries@), members_model(members@), 0) is None,
        },
{
    let ghost schema = entries_model(entries@);
    let ghost fields = members_model(members@);
    let mut at: usize = 0;
    while at < entries.len()
        invariant
            at <= entries@.len(),
            schema == entries_model(entries@),
            fields == members_model(members@),
            strange_word(schema, fields, 0) == strange_word(schema, fields, at as int),
        decreases entries@.len() - at,
    {
        let entry = entries[at];
        assert(schema[at as int] == (entry.name@, entry.kind));
        if entry.kind.holds_word() {
            match find_member(members, entry.name) {
                Some(i) => match &members[i].value {
                    Field::Text(s) => {
                        if !entry.kind.knows_word(s.as_str()) {
                            return Some((entry.name, s.clone()));
                        }
                    },
                    _ => {},
                },
                None => {},
            }
        }
        at = at + 1;
    }
    None
}

/// What is said of the misfit whose name comes first.
fn find_misfit(entries: &Vec<Entry>, members: &Vec<Member>) -> (r: Option<String>)
    ensures
        text_option(r) == (match misfit(
            entries_model(entries@),
            members_model(members@),
            entries@.len() as int,
        ) {
            Some(i) => complaint_at(entries_model(entries@), members_model(members@), i),
            None => None,
        }),
{
    let ghost schema = entries_model(entries@);
    let ghost fields = members_model(members@);
    let mut found: Option<(usize, String)> = None;
    let mut n: usize = 0;
    while n < entries.len()
        invariant
            n <= entries@.len(),
            schema == entries_model(entries@),
            fields == members_model(members@),
            match found {
                Some((i, text)) => i < n && misfit(schema, fields, n as int) == Some(i as int)
                    && complaint_at(schema, fields, i as int) == Some(text@),
                None => misfit(schema, fields, n as int) is None,
            },
        decreases entries@.len() - n,
    {
        let entry = entries[n];
        assert(schema[n as int] == (entry.name@, entry.kind));
        let said: Option<String> = match find_member(members, entry.name) {
            Some(i) => entry.kind.complain(&members[i].value),
            None => None,
        };
        assert(text_option(said) == complaint_at(schema, fields, n as int));
        match said {
            Some(text) => {
                let first: bool = match &found {
                    Some((i, _)) => {
                        assert(schema[*i as int].0 == entries@[*i as int].name@);
                        comes_before(entry.name, entries[*i].name)
                    },
                    None => true,
                };
                if first {
                    found = Some((n, text));
                }
            },
            None => {},
        }
        n = n + 1;
    }
    match found {
        Some((_, text)) => Some(text),
        None => None,
    }
}

/// The first field that is missing.
fn find_absent(entries: &Vec<Entry>, members: &Vec<Member>) -> (r: Option<&'static str>)
    ensures
        match r {
            Some(name) => absent(entries_model(entries@), members_model(members@), 0) == Some(
                name@,
            ),
            None => absent(entries_model(entries@), members_model(members@), 0) is None,
        },
{
    let ghost schema = entries_model(entries@);
    let ghost fields = members_model(members@);
    let mut at: usize = 0;
    while at < entries.len()
        invariant
            at <= entries@.len(),
            schema == entries_model(entries@),
            fields == members_model(members@),
            absent(schema, fields, 0) == absent(schema, fields, at as int),
        decreases entries@.len() - at,
    {
        let entry = entries[at];
        assert(schema[at as int] == (entry.name@, entry.kind));
        if find_member(members, entry.name).is_none() {
            return Some(entry.name);
        }
        at = at + 1;
    }
    None
}

/// What is said of members that are no payload.
fn find_parse_fault(entries: &Vec<Entry>, members: &Vec<Member>) -> (r: Option<String>)
    ensures
        text_option(r) == parse_fault(entries_model(entries@), members_model(members@)),
{
    proof {
        lemma_misfit(
            entries_model(entries@),
            members_model(members@),
            entries@.len() as int,
        );
    }
    match find_misfit(entries, members) {
        Some(text) => Some(text),
        None => match find_absent(entries, members) {
            Some(name) => Some(marked("missing field `", name)),
            None => None,
        },
    }
}

/// What keeps members from being a payload of a shape.
pub fn find_fault(shape: Shape, members: &Vec<Member>) -> (r: Option<EncodeError>)
    ensures
        match r {
            Some(e) => fault(shape.schema(), members_model(members@)) == Some(e@),
            None => fault(shape.schema(), members_model(members@)) is None,
        },
{
    proof {
        reveal(fault);
    }
    let entries = shape.entries();
    match find_strange_word(&entries, members) {
        Some((field, value)) => Some(EncodeError::BadEnum { field, value }),
        None => match find_parse_fault(&entries, members) {
            Some(text) => Some(EncodeError::BadPayload(text)),
            None => None,
        },
    }
}

/// What is said of a list that does not hold the values of the fields in their
/// order.
pub fn find_list_fault(shape: Shape, values: &Vec<Field>) -> (r: Option<String>)
    ensures
        text_option(r) == list_fault(shape, values_model(values@), 0),
{
    let entries = shape.entries();
    let ghost schema = entries_model(entries@);
    let mut at: usize = 0;
    while at < entries.len()
        invariant
            at <= entries@.len(),
            schema == entries_model(entries@),
            schema == shape.schema(),
            list_fault(shape, values_model(values@), 0) == list_fault(
                shape,
                values_model(values@),
                at as nat,
            ),
        decreases entries@.len() - at,
    {
        let entry = entries[at];
        assert(schema[at as int] == (entry.name@, entry.kind));
        if at >= values.len() {
            let title = shape.sized_title_text();
            return Some(invalid_length_text(at, title.as_str()));
        }
        match entry.kind.complain(&values[at]) {
            Some(text) => {
                return Some(text);
            },
            None => {},
        }
        at = at + 1;
    }
    if values.len() > entries.len() {
        Some(invalid_length_text(values.len(), "fewer elements in array"))
    } else {
        None
    }
}

/// The members that a list of the values of the fields stands for.
pub fn name_values(shape: Shape, values: &Vec<Field>) -> (out: Vec<Member>)
    requires
        values@.len() == shape.schema().len(),
    ensures
        members_model(out@) == named(shape.schema(), values_model(values@)),
{
    let entries = shape.entries();
    let ghost schema = entries_model(entries@);
    let ghost fields = named(schema, values_model(values@));
    let mut out: Vec<Member> = Vec::new();
    let mut i: usize = 0;
    while i < values.len()
        invariant
            i <= values@.len(),
            schema == entries_model(entries@),
            schema.len() == values@.len(),
            fields == named(schema, values_model(values@)),
            members_model(out@) == fields.take(i as int),
        decreases values@.len() - i,
    {
        let ghost before = out@;
        let entry = entries[i];
        assert(schema[i as int] == (entry.name@, entry.kind));
        out.push(member(entry.name, copy_field(&values[i])));
        proof {
            assert(members_model(out@) =~= members_model(before).push(fields[i as int]));
            assert(fields.take(i + 1) =~= fields.take(i as int).push(fields[i as int]));
        }
        i = i + 1;
    }
    proof {
        assert(fields.take(i as int) =~= fields);
    }
    out
}

/// Whether fields need nothing more to be a payload: they are one, or what is said
/// of them is not that a field is missing.
pub open spec fn is_full(schema: Schema, fields: Fields) -> bool {
    match parse_fault(schema, fields) {
        Some(text) => !has_text(text, "missing field"@),
        None => true,
    }
}

/// Whether members need nothing more to be a payload.
pub fn members_full(shape: Shape, members: &Vec<Member>) -> (r: bool)
    ensures
        r == is_full(shape.schema(), members_model(members@)),
{
    let entries = shape.entries();
    match find_parse_fault(&entries, members) {
        Some(text) => {
            let text = chars_of(text.as_str());
            let part = chars_of("missing field");
            !contains_text(text.as_slice(), part.as_slice())
        },
        None => true,
    }
}

} // verus!
