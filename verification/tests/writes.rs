use cb_daemon::mailbox::convert::{
    check_ranges, decode_payload, dto_field_names, encode_payload, is_full_payload, merge_payload,
    validate_write, validate_write_merged,
};
use cb_daemon::mailbox::dto::{
    ActivationCodeDto, RfDeviceCalibrationDto, RfDevicePairingDto, SensorPairingWriteDto,
    SystemStatusDto, ZoneConfigDto, ZoneLimitsDto, ZoneStateDto,
};
use cb_daemon::mailbox::error::WriteError;
use cb_daemon::mailbox::policy::{write_policy, PolicyMode, WritePolicy};
use cb_daemon::mailbox::value::{Field, Member, Nested, Number, Payload};
use cb_daemon::mailbox::words::{
    ActionEnum, FanEnum, FreshAirEnum, ModeEnum, PowerEnum, SensorTypeEnum,
};
use cb_daemon::registers::ids::RegId;

/// A payload of fields.
fn obj(fields: &[(&str, Field)]) -> Payload {
    Payload::Object(
        fields
            .iter()
            .map(|(name, value)| Member {
                name: (*name).to_owned(),
                value: value.clone(),
            })
            .collect(),
    )
}

/// A payload of raw text.
fn raw(hex: &str) -> Payload {
    Payload::Text(hex.to_owned())
}

fn num(n: u64) -> Field {
    Field::Number(Number::Integer(n))
}

fn flag(b: bool) -> Field {
    Field::Bool(b)
}

fn word(s: &str) -> Field {
    Field::Text(s.to_owned())
}

fn halves(n: u8) -> Field {
    Field::Number(Number::Halves(n))
}

fn tenths(whole: u8, tenths: u8) -> Field {
    Field::Number(Number::Tenths { whole, tenths })
}

fn numbers(list: &[u64]) -> Field {
    Field::List(list.iter().map(|n| Nested::Number(Number::Integer(*n))).collect())
}

#[test]
fn typed_write_to_read_only_register_rejected() {
    let err = validate_write(RegId::new(0x08), &obj(&[])).unwrap_err();
    assert_eq!(err, WriteError::ReadOnlyRegister { reg: 0x08 });
}

#[test]
fn raw_hex_write_to_read_only_register_rejected() {
    let err = validate_write(RegId::new(0x08), &raw("41413100000000")).unwrap_err();
    assert_eq!(err, WriteError::ReadOnlyRegister { reg: 0x08 });
}

#[test]
fn typed_write_with_read_only_field_rejected() {
    let err = validate_write(
        RegId::new(0x03),
        &obj(&[("open", flag(true)), ("damper_pct", num(50)), ("measured_temp_c", tenths(23, 1))]),
    )
    .unwrap_err();
    assert_eq!(
        err,
        WriteError::ReadOnlyField {
            reg: 0x03,
            field: "measured_temp_c",
        }
    );
}

#[test]
fn typed_write_with_unknown_field_rejected() {
    let err = validate_write(RegId::new(0x03), &obj(&[("damperx", num(50))])).unwrap_err();
    assert_eq!(
        err,
        WriteError::UnknownField {
            reg: 0x03,
            field: "damperx".to_owned(),
        }
    );
    assert_eq!(
        err.describe(),
        "unknown field 'damperx' for register 03",
        "wire contract: reason must name the offending key exactly"
    );
}

#[test]
fn the_field_whose_name_comes_first_is_reported() {
    let err = validate_write(
        RegId::new(0x05),
        &obj(&[("zz", num(1)), ("rf_sys_id", num(1)), ("bogus", num(1))]),
    );
    assert_eq!(
        err,
        Err(WriteError::ReadOnlyField {
            reg: 0x05,
            field: "rf_sys_id",
        })
    );
    assert_eq!(
        validate_write(RegId::new(0x05), &obj(&[("zz", num(1)), ("bogus", num(1))])),
        Err(WriteError::UnknownField {
            reg: 0x05,
            field: "bogus".to_owned(),
        })
    );
}

#[test]
fn typed_write_with_dto_exact_payload_never_unknown_field() {
    let result = validate_write(
        RegId::new(0x03),
        &obj(&[
            ("open", flag(true)),
            ("damper_pct", num(50)),
            ("sensor_type", word("rf")),
            ("target_temp_c", halves(48)),
            ("measured_temp_c", tenths(23, 1)),
        ]),
    );
    assert!(
        !matches!(result, Err(WriteError::UnknownField { .. })),
        "DTO-exact payload must not produce an unknown-field error: {result:?}"
    );
}

#[test]
fn typed_write_with_full_dto_payload_validates_ok() {
    let result = validate_write(
        RegId::new(0x01),
        &obj(&[
            ("header", num(0x20)),
            ("total_zones", num(3)),
            ("constant_zones", num(1)),
            ("constant_zone_ids", numbers(&[1, 2, 0])),
            ("filter_clean_required", flag(false)),
        ]),
    );
    assert_eq!(result, Ok(()));
}

#[test]
fn raw_hex_write_bypasses_unknown_field_check() {
    let result = validate_write(RegId::new(0x03), &raw("02820030000000"));
    assert_eq!(result, Ok(()));
}

#[test]
fn decode_payload_zone_state_unaffected_by_field_table() {
    let decoded = decode_payload(RegId::new(0x03), [0x00, 0xb2, 0x01, 48, 23, 3, 0x00])
        .expect("reg 03 decodes");
    assert_eq!(
        decoded,
        obj(&[
            ("open", flag(true)),
            ("damper_pct", num(50)),
            ("sensor_type", word("rf")),
            ("target_temp_c", halves(48)),
            ("measured_temp_c", tenths(23, 3)),
        ]),
        "read path still produces the full DTO object"
    );
}

#[test]
fn typed_write_with_only_writable_fields_accepted() {
    let result = validate_write(
        RegId::new(0x03),
        &obj(&[("open", flag(true)), ("damper_pct", num(50)), ("target_temp_c", halves(48))]),
    );
    assert_eq!(result, Ok(()));
}

#[test]
fn raw_hex_write_to_writable_register_accepted() {
    let result = validate_write(RegId::new(0x05), &raw("01010330000100"));
    assert_eq!(result, Ok(()));
}

#[test]
fn write_to_internal_register_rejected() {
    let err = validate_write(RegId::new(0x07), &obj(&[])).unwrap_err();
    assert_eq!(err, WriteError::InternalRegister { reg: 0x07 });
}

#[test]
fn write_to_unverified_register_rejected() {
    let err = validate_write(RegId::new(0x1e), &obj(&[])).unwrap_err();
    assert_eq!(err, WriteError::UnverifiedRegister { reg: 0x1e });
}

#[test]
fn typed_write_to_write_only_register_accepted() {
    let result = validate_write(
        RegId::new(0x09),
        &obj(&[
            ("action", word("set_code")),
            ("unlock_code", word("abcd")),
            ("activation_days", num(30)),
        ]),
    );
    assert_eq!(result, Ok(()));
}

#[test]
fn reg01_typed_write_range_via_validate_write() {
    let payload = |zones: u8| {
        obj(&[
            ("header", num(0x20)),
            ("total_zones", num(zones as u64)),
            ("constant_zones", num(1)),
            ("constant_zone_ids", numbers(&[1, 0, 0])),
            ("filter_clean_required", flag(false)),
        ])
    };
    assert_eq!(
        validate_write(RegId::new(0x01), &payload(10)),
        Ok(()),
        "numZones at bound accepted"
    );
    let err = validate_write(RegId::new(0x01), &payload(11)).unwrap_err();
    assert_eq!(
        err,
        WriteError::OutOfRange {
            field: "numZones",
            value: 11,
            max: 10,
        }
    );
}

#[test]
fn raw_hex_write_bypasses_range_checks() {
    let result = validate_write(RegId::new(0x05), &raw("01070000000000"));
    assert_eq!(result, Ok(()));
}

#[test]
fn range_boundaries_reg01() {
    assert_eq!(check_ranges(0x01, [0, 10, 3, 0, 0, 0, 0]), Ok(()));
    assert_eq!(
        check_ranges(0x01, [0, 11, 3, 0, 0, 0, 0]).unwrap_err(),
        WriteError::OutOfRange {
            field: "numZones",
            value: 11,
            max: 10
        }
    );
    assert_eq!(
        check_ranges(0x01, [0, 10, 4, 0, 0, 0, 0]).unwrap_err(),
        WriteError::OutOfRange {
            field: "numConstants",
            value: 4,
            max: 3
        }
    );
}

#[test]
fn range_boundaries_reg03() {
    assert_eq!(check_ranges(0x03, [0, 100, 0, 80, 0, 9, 0]), Ok(()));
    assert_eq!(
        check_ranges(0x03, [0, 101, 0, 80, 0, 9, 0]).unwrap_err(),
        WriteError::OutOfRange {
            field: "damper",
            value: 101,
            max: 100
        }
    );
    assert_eq!(
        check_ranges(0x03, [0, 0xe4, 0, 80, 0, 9, 0]),
        Ok(()),
        "damper 100 with the open flag (bit 7) set is accepted"
    );
    assert_eq!(
        check_ranges(0x03, [0, 0xe5, 0, 80, 0, 9, 0]).unwrap_err(),
        WriteError::OutOfRange {
            field: "damper",
            value: 101,
            max: 100
        }
    );
    assert_eq!(
        check_ranges(0x03, [0, 100, 0, 81, 0, 9, 0]).unwrap_err(),
        WriteError::OutOfRange {
            field: "setTemp×2",
            value: 81,
            max: 80
        }
    );
    assert_eq!(
        check_ranges(0x03, [0, 100, 0, 80, 0, 10, 0]).unwrap_err(),
        WriteError::OutOfRange {
            field: "measDec",
            value: 10,
            max: 9
        }
    );
}

#[test]
fn range_boundaries_reg04() {
    assert_eq!(check_ranges(0x04, [0, 0, 0, 22, 2, 0, 0]), Ok(()));
    assert_eq!(
        check_ranges(0x04, [0, 0, 0, 23, 2, 0, 0]).unwrap_err(),
        WriteError::OutOfRange {
            field: "motion",
            value: 23,
            max: 22
        }
    );
    assert_eq!(
        check_ranges(0x04, [0, 0, 0, 22, 3, 0, 0]).unwrap_err(),
        WriteError::OutOfRange {
            field: "motionConfig",
            value: 3,
            max: 2
        }
    );
}

#[test]
fn range_boundaries_reg05() {
    assert_eq!(check_ranges(0x05, [0, 6, 0, 80, 10, 2, 16]), Ok(()));
    assert_eq!(
        check_ranges(0x05, [0, 7, 0, 80, 10, 2, 16]).unwrap_err(),
        WriteError::OutOfRange {
            field: "mode",
            value: 7,
            max: 6
        }
    );
    assert_eq!(
        check_ranges(0x05, [0, 6, 0, 81, 10, 2, 16]).unwrap_err(),
        WriteError::OutOfRange {
            field: "setTemp×2",
            value: 81,
            max: 80
        }
    );
    assert_eq!(
        check_ranges(0x05, [0, 6, 0, 80, 10, 3, 16]).unwrap_err(),
        WriteError::OutOfRange {
            field: "freshAir",
            value: 3,
            max: 2
        }
    );
    assert_eq!(
        check_ranges(0x05, [0, 6, 0, 80, 10, 2, 17]).unwrap_err(),
        WriteError::OutOfRange {
            field: "rfSysId",
            value: 17,
            max: 16
        }
    );
    assert_eq!(
        check_ranges(0x05, [0, 6, 0, 80, 11, 2, 16]).unwrap_err(),
        WriteError::OutOfRange {
            field: "myzone",
            value: 11,
            max: 10
        }
    );
}

#[test]
fn ranges_skipped_for_registers_without_table() {
    assert_eq!(check_ranges(0x09, [0xff; 7]), Ok(()));
    assert_eq!(check_ranges(0x1e, [0xff; 7]), Ok(()));
}

#[test]
fn merge_payload_overlays_client_fields_over_bank() {
    let bank = obj(&[
        ("power", word("on")),
        ("mode", word("cool")),
        ("fan", word("high")),
        ("target_temp_c", halves(42)),
        ("myzone_id", num(3)),
        ("fresh_air", flag(false)),
        ("rf_sys_id", num(5)),
    ]);
    let client = obj(&[("power", word("off")), ("target_temp_c", halves(48))]);
    let merged = merge_payload(&bank, &client);
    assert_eq!(
        merged,
        obj(&[
            ("power", word("off")),
            ("mode", word("cool")),
            ("fan", word("high")),
            ("target_temp_c", halves(48)),
            ("myzone_id", num(3)),
            ("fresh_air", flag(false)),
            ("rf_sys_id", num(5)),
        ]),
        "client wins per-field; bank-only fields preserved"
    );
}

#[test]
fn merge_payload_falls_back_to_overlay_when_bank_not_object() {
    let bank = raw("01010330000100");
    let client = obj(&[("power", word("on"))]);
    assert_eq!(
        merge_payload(&bank, &client),
        client,
        "non-object bank returns overlay unchanged"
    );
    assert_eq!(
        merge_payload(&bank, &bank),
        bank,
        "non-object bank and overlay return overlay"
    );
}

#[test]
fn merge_payload_keeps_bank_object_when_overlay_not_object() {
    let bank = obj(&[("power", word("on")), ("rf_sys_id", num(5))]);
    let overlay = raw("01010330000100");
    assert_eq!(
        merge_payload(&bank, &overlay),
        bank,
        "non-object overlay returns bank's object unchanged"
    );
}

#[test]
fn is_full_payload_full_activation_code_is_full() {
    let payload = obj(&[
        ("action", word("set_code")),
        ("unlock_code", word("abcd")),
        ("activation_days", num(30)),
    ]);
    assert!(is_full_payload(RegId::new(0x09), &payload));
}

#[test]
fn is_full_payload_partial_activation_code_is_partial() {
    let payload = obj(&[("action", word("set_code")), ("unlock_code", word("abcd"))]);
    assert!(
        !is_full_payload(RegId::new(0x09), &payload),
        "missing activation_days → partial"
    );
}

#[test]
fn is_full_payload_activation_code_with_bad_enum_is_full() {
    let payload = obj(
        &[("action", word("bogus")), ("unlock_code", word("abcd")), ("activation_days", num(30))],
    );
    assert!(
        is_full_payload(RegId::new(0x09), &payload),
        "key-complete but invalid enum → full; encode_payload surfaces the error"
    );
}

#[test]
fn a_payload_is_full_unless_a_missing_field_is_spoken_of() {
    let reg = RegId::new(0x09);
    // A value that does not fit comes before a missing field.
    assert!(is_full_payload(reg, &obj(&[("activation_days", num(256))])));
    assert!(!is_full_payload(reg, &obj(&[("activation_days", num(30))])));
    // The text of a value that does not fit is searched like any other.
    let spoken = obj(&[("activation_days", word("missing field"))]);
    assert!(!is_full_payload(reg, &spoken));
    assert!(is_full_payload(reg, &obj(&[("activation_days", word("missing"))])));
}

#[test]
fn is_full_payload_non_object_is_not_full() {
    assert!(!is_full_payload(RegId::new(0x09), &Payload::Null));
    assert!(!is_full_payload(RegId::new(0x09), &Payload::List(Vec::new())));
    assert!(!is_full_payload(
        RegId::new(0x09),
        &raw("01020304000000")
    ));
}

#[test]
fn is_full_payload_rf_device_pairing() {
    let full = obj(
        &[("pairing_control", num(1)), ("rf_device_type", num(2)), ("zone_channel", num(3))],
    );
    assert!(is_full_payload(RegId::new(0x26), &full));
    let partial = obj(&[("pairing_control", num(1)), ("rf_device_type", num(2))]);
    assert!(
        !is_full_payload(RegId::new(0x26), &partial),
        "missing zone_channel → partial"
    );
}

#[test]
fn is_full_payload_reg12_write_shape_is_full() {
    let payload = obj(&[("sensor_uid", word("a1b2c3")), ("zone", num(1))]);
    assert!(
        is_full_payload(RegId::new(0x12), &payload),
        "write shape (sensor_uid + zone) → full"
    );
}

#[test]
fn is_full_payload_unknown_register_is_not_full() {
    assert!(!is_full_payload(RegId::new(0x16), &obj(&[])));
}

#[test]
fn dto_field_names_empty_outside_write_dto_registers() {
    assert!(dto_field_names(RegId::new(0x16)).is_empty());
    assert!(dto_field_names(RegId::new(0x02)).is_empty());
    assert!(dto_field_names(RegId::new(0x0a)).is_empty());
    assert!(dto_field_names(RegId::new(0x13)).is_empty());
}

#[test]
fn validate_write_merged_rejects_client_sent_read_only_field() {
    let bank = obj(&[
        ("power", word("on")),
        ("mode", word("cool")),
        ("fan", word("high")),
        ("target_temp_c", halves(42)),
        ("myzone_id", num(3)),
        ("fresh_air", flag(false)),
        ("rf_sys_id", num(5)),
    ]);
    let client = obj(&[("rf_sys_id", num(1))]);
    let merged = merge_payload(&bank, &client);
    let err = validate_write_merged(RegId::new(0x05), &client, &merged).unwrap_err();
    assert_eq!(
        err,
        WriteError::ReadOnlyField {
            reg: 0x05,
            field: "rf_sys_id",
        }
    );
}

#[test]
fn validate_write_merged_accepts_bank_read_only_fields() {
    let bank = obj(&[
        ("power", word("on")),
        ("mode", word("cool")),
        ("fan", word("high")),
        ("target_temp_c", halves(42)),
        ("myzone_id", num(3)),
        ("fresh_air", flag(false)),
        ("rf_sys_id", num(5)),
    ]);
    let client = obj(&[("power", word("on"))]);
    let merged = merge_payload(&bank, &client);
    assert_eq!(
        validate_write_merged(RegId::new(0x05), &client, &merged),
        Ok(()),
        "merged payload carrying bank read-only fields (rf_sys_id) accepted"
    );
}

#[test]
fn validate_write_merged_enforces_mode_check() {
    let bank = obj(&[("error_code", num(0))]);
    let client = obj(&[("error_code", num(1))]);
    let merged = merge_payload(&bank, &client);
    let err = validate_write_merged(RegId::new(0x08), &client, &merged).unwrap_err();
    assert_eq!(err, WriteError::ReadOnlyRegister { reg: 0x08 });
}

#[test]
fn validate_write_merged_enforces_range_check_on_merged_bytes() {
    let bank = obj(&[
        ("header", num(0x20)),
        ("total_zones", num(10)),
        ("constant_zones", num(1)),
        ("constant_zone_ids", numbers(&[1, 0, 0])),
        ("filter_clean_required", flag(false)),
    ]);
    let client = obj(&[("total_zones", num(11))]);
    let merged = merge_payload(&bank, &client);
    let err = validate_write_merged(RegId::new(0x01), &client, &merged).unwrap_err();
    assert_eq!(
        err,
        WriteError::OutOfRange {
            field: "numZones",
            value: 11,
            max: 10,
        }
    );
}

#[test]
fn validate_write_merged_accepts_raw_hex_client_payload() {
    let bank = obj(&[
        ("power", word("on")),
        ("mode", word("cool")),
        ("fan", word("high")),
        ("target_temp_c", halves(42)),
        ("myzone_id", num(3)),
        ("fresh_air", flag(false)),
        ("rf_sys_id", num(5)),
    ]);
    let client = raw("01010330000100");
    let merged = merge_payload(&bank, &client);
    assert_eq!(
        validate_write_merged(RegId::new(0x05), &client, &merged),
        Ok(()),
        "raw-hex client payload bypasses field and range checks"
    );
}

#[test]
fn dto_field_names_table_keys_deserialize_into_dtos() {
    for reg in [0x01u8, 0x03, 0x04, 0x05, 0x09, 0x12, 0x26, 0x27] {
        let fields: Vec<(&str, Field)> = dto_field_names(RegId::new(reg))
            .into_iter()
            .map(|name| (name, valid_field_value(reg, name)))
            .collect();
        let payload = obj(&fields);
        assert!(
            encode_payload(RegId::new(reg), &payload).is_ok(),
            "reg {reg:02x}: every table key must be a field of the register"
        );
        assert!(is_full_payload(RegId::new(reg), &payload));
    }
}

fn valid_field_value(reg: u8, field: &str) -> Field {
    match (reg, field) {
        (0x01, "header") => num(0x20),
        (0x01, "total_zones")
        | (0x05, "myzone_id")
        | (0x26, "zone_channel")
        | (0x27, "up_down_position") => num(3),
        (0x01, "constant_zones")
        | (0x04, "motion_status")
        | (0x12, "zone")
        | (0x26, "pairing_control")
        | (0x27, "calibration_control") => num(1),
        (0x01, "constant_zone_ids") => numbers(&[1, 2, 0]),
        (0x01, "filter_clean_required") => flag(false),
        (0x03, "open") => flag(true),
        (0x03, "damper_pct") => num(50),
        (0x03, "sensor_type") => word("rf"),
        (0x03 | 0x05, "target_temp_c") => halves(48),
        (0x03, "measured_temp_c") => tenths(23, 1),
        (0x04, "min_damper") => num(10),
        (0x04, "max_damper") => num(90),
        (0x04, "motion_config") | (0x26, "rf_device_type") | (0x27, "channel") => num(2),
        (0x04, "zone_error") => num(0),
        (0x04, "rssi") | (0x05, "rf_sys_id") => num(5),
        (0x05, "power") => word("on"),
        (0x05, "mode") => word("cool"),
        (0x05, "fan") => word("high"),
        (0x05, "fresh_air") => word("none"),
        (0x09, "action") => word("set_code"),
        (0x09, "unlock_code") => word("abcd"),
        (0x09, "activation_days") => num(30),
        (0x12, "sensor_uid") => word("a1b2c3"),
        _ => panic!("no valid test value for reg {reg:02x} field '{field}'"),
    }
}

#[test]
fn dto_field_names_table_matches_dto_key_sets() {
    let dtos: Vec<(u8, Payload)> = vec![
        (
            0x01,
            ZoneConfigDto {
                header: 0x20,
                total_zones: 3,
                constant_zones: 1,
                constant_zone_ids: [1, 2, 0],
                filter_clean_required: false,
            }
            .to_payload(),
        ),
        (
            0x03,
            ZoneStateDto {
                open: true,
                damper_pct: 50,
                sensor_type: SensorTypeEnum::Rf,
                target_temp_c: Number::Halves(48),
                measured_temp_c: Number::Tenths {
                    whole: 23,
                    tenths: 1,
                },
            }
            .to_payload(),
        ),
        (
            0x04,
            ZoneLimitsDto {
                min_damper: 10,
                max_damper: 90,
                motion_status: 1,
                motion_config: 2,
                zone_error: 0,
                rssi: 5,
            }
            .to_payload(),
        ),
        (
            0x05,
            SystemStatusDto {
                power: PowerEnum::On,
                mode: ModeEnum::Cool,
                fan: FanEnum::High,
                target_temp_c: Number::Halves(48),
                myzone_id: 3,
                fresh_air: FreshAirEnum::Absent,
                rf_sys_id: 5,
            }
            .to_payload(),
        ),
        (
            0x09,
            ActivationCodeDto {
                action: ActionEnum::SetCode,
                unlock_code: "abcd".to_owned(),
                activation_days: 30,
            }
            .to_payload(),
        ),
        (
            0x12,
            SensorPairingWriteDto {
                sensor_uid: "a1b2c3".to_owned(),
                zone: 1,
            }
            .to_payload(),
        ),
        (
            0x26,
            RfDevicePairingDto {
                pairing_control: 1,
                rf_device_type: 2,
                zone_channel: 3,
            }
            .to_payload(),
        ),
        (
            0x27,
            RfDeviceCalibrationDto {
                calibration_control: 1,
                channel: 2,
                up_down_position: 3,
            }
            .to_payload(),
        ),
    ];
    for (reg, payload) in dtos {
        let Payload::Object(members) = &payload else {
            panic!("expected fields");
        };
        let mut dto_keys: Vec<&str> = members.iter().map(|m| m.name.as_str()).collect();
        dto_keys.sort_unstable();
        let mut table_keys: Vec<&str> = dto_field_names(RegId::new(reg));
        table_keys.sort_unstable();
        assert_eq!(
            dto_keys, table_keys,
            "reg {reg:02x}: DTO key set must equal the field-name table"
        );
    }
}

#[test]
fn display_read_only_register() {
    let err = WriteError::ReadOnlyRegister { reg: 0x08 };
    assert_eq!(err.describe(), "register 08 is read-only");
}

#[test]
fn display_read_only_field() {
    let err = WriteError::ReadOnlyField {
        reg: 0x03,
        field: "measured_temp_c",
    };
    assert_eq!(
        err.describe(),
        "field 'measured_temp_c' is read-only on register 03"
    );
}

#[test]
fn display_write_only_register() {
    let err = WriteError::WriteOnlyRegister { reg: 0x09 };
    assert_eq!(err.describe(), "register 09 is write-only");
}

#[test]
fn display_internal_register() {
    let err = WriteError::InternalRegister { reg: 0x07 };
    assert_eq!(err.describe(), "register 07 is handled internally");
}

#[test]
fn display_unverified_register() {
    let err = WriteError::UnverifiedRegister { reg: 0x1e };
    assert_eq!(
        err.describe(),
        "register 1e is unverified; writes not permitted"
    );
}

#[test]
fn display_out_of_range() {
    let err = WriteError::OutOfRange {
        field: "damper",
        value: 150,
        max: 100,
    };
    assert_eq!(err.describe(), "field 'damper' 150 out of range (max 100)");
}

fn policy(reg: u8) -> WritePolicy {
    write_policy(RegId::new(reg))
}

fn assert_policy(reg: u8, mode: PolicyMode, writable: &[&str], read_only: &[&str]) {
    let p = policy(reg);
    assert_eq!(p.mode, mode, "reg {reg:02x} mode");
    assert_eq!(p.writable_fields, writable, "reg {reg:02x} writable_fields");
    assert_eq!(
        p.read_only_fields, read_only,
        "reg {reg:02x} read_only_fields"
    );
}

#[test]
fn full_policy_table() {
    assert_policy(0x01, PolicyMode::ReadWrite, &[], &[]);
    assert_policy(0x02, PolicyMode::ReadOnly, &[], &[]);
    assert_policy(
        0x03,
        PolicyMode::ReadWrite,
        &["open", "damper_pct", "target_temp_c"],
        &["sensor_type", "measured_temp_c"],
    );
    assert_policy(
        0x04,
        PolicyMode::ReadWrite,
        &["min_damper", "max_damper", "motion_config"],
        &["motion_status", "zone_error", "rssi"],
    );
    assert_policy(0x05, PolicyMode::ReadWrite, &[], &["rf_sys_id"]);
    assert_policy(0x06, PolicyMode::ReadOnly, &[], &[]);
    assert_policy(0x07, PolicyMode::Internal, &[], &[]);
    assert_policy(0x08, PolicyMode::ReadOnly, &[], &[]);
    assert_policy(0x09, PolicyMode::WriteOnly, &[], &[]);
    assert_policy(0x0a, PolicyMode::ReadOnly, &[], &[]);
    assert_policy(
        0x12,
        PolicyMode::ReadWrite,
        &["sensor_uid", "zone"],
        &["pairing", "sensor_rev"],
    );
    assert_policy(0x13, PolicyMode::Unverified, &[], &[]);
    assert_policy(0x26, PolicyMode::ReadWrite, &[], &[]);
    assert_policy(0x27, PolicyMode::ReadWrite, &[], &[]);
}

#[test]
fn unknown_registers_default_to_unverified() {
    for reg in [
        0x00u8, 0x0b, 0x0c, 0x0d, 0x0e, 0x0f, 0x10, 0x11, 0x14, 0x15, 0x16, 0x1e, 0x25, 0x28,
        0x2a, 0xff,
    ] {
        let p = policy(reg);
        assert_eq!(p.mode, PolicyMode::Unverified, "reg {reg:02x} mode");
        assert!(
            p.writable_fields.is_empty(),
            "reg {reg:02x} writable_fields"
        );
        assert!(
            p.read_only_fields.is_empty(),
            "reg {reg:02x} read_only_fields"
        );
    }
}
