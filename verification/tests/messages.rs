use cb_daemon::mailbox::convert::{decode_payload, encode_payload, event_body, merge_payload};
use cb_daemon::mailbox::error::EncodeError;
use cb_daemon::mailbox::kind::Kind;
use cb_daemon::mailbox::snapshot::{snapshot_units, Content, ZoneSnapshot};
use cb_daemon::mailbox::value::{Field, Member, Nested, Number, Payload};
use cb_daemon::registers::bank::RegisterBank;
use cb_daemon::registers::ids::RegId;
use cb_daemon::registers::wire::CanRecord;

/// A payload of fields.
fn obj(fields: &[(&str, Field)]) -> Payload {
    Payload::Object(
        fields
            .iter()
            .map(|(name, value)| Member {
                name: (*name).to_owned(),
                value: value.clone(),
            })
            .collect(),
    )
}

/// A payload of raw text.
fn raw(hex: &str) -> Payload {
    Payload::Text(hex.to_owned())
}

fn num(n: u64) -> Field {
    Field::Number(Number::Integer(n))
}

fn flag(b: bool) -> Field {
    Field::Bool(b)
}

fn word(s: &str) -> Field {
    Field::Text(s.to_owned())
}

fn halves(n: u8) -> Field {
    Field::Number(Number::Halves(n))
}

fn tenths(whole: u8, tenths: u8) -> Field {
    Field::Number(Number::Tenths { whole, tenths })
}

fn numbers(list: &[u64]) -> Field {
    Field::List(list.iter().map(|n| Nested::Number(Number::Integer(*n))).collect())
}

/// The field of a payload.
fn at<'a>(payload: &'a Payload, name: &str) -> &'a Field {
    let Payload::Object(members) = payload else {
        panic!("expected fields, got {payload:?}");
    };
    &members
        .iter()
        .find(|m| m.name == name)
        .expect("field is there")
        .value
}

fn assert_wire_round_trip(reg: RegId, payload: &Payload, expected: [u8; 7]) {
    let bytes = encode_payload(reg, payload).unwrap();
    assert_eq!(bytes, expected, "unexpected wire bytes");
    let decoded = decode_payload(reg, bytes).unwrap();
    assert_eq!(&decoded, payload, "payload did not round-trip");
}

#[test]
fn reg01_zone_config_round_trip() {
    assert_wire_round_trip(
        RegId::new(0x01),
        &obj(&[
            ("header", num(0x20)),
            ("total_zones", num(3)),
            ("constant_zones", num(1)),
            ("constant_zone_ids", numbers(&[1, 0, 0])),
            ("filter_clean_required", flag(false)),
        ]),
        [0x20, 0x03, 0x01, 0x01, 0x00, 0x00, 0x00],
    );
}

#[test]
fn reg02_unit_activation_round_trip() {
    assert_wire_round_trip(
        RegId::new(0x02),
        &obj(&[
            ("unit_type", word("panasonic")),
            ("activation_status", word("code_enabled")),
            ("dict_fw_major", num(2)),
            ("dict_fw_minor", num(3)),
        ]),
        [0x12, 0x01, 0x02, 0x03, 0x00, 0x00, 0x00],
    );
}

#[test]
fn reg03_zone_state_round_trip() {
    assert_wire_round_trip(
        RegId::new(0x03),
        &obj(&[
            ("open", flag(true)),
            ("damper_pct", num(100)),
            ("sensor_type", word("wired")),
            ("target_temp_c", halves(48)),
            ("measured_temp_c", tenths(23, 1)),
        ]),
        [0x00, 0xE4, 0x02, 0x30, 0x17, 0x01, 0x00],
    );
}

#[test]
fn reg04_zone_limits_round_trip() {
    assert_wire_round_trip(
        RegId::new(0x04),
        &obj(&[
            ("min_damper", num(10)),
            ("max_damper", num(90)),
            ("motion_status", num(1)),
            ("motion_config", num(2)),
            ("zone_error", num(0)),
            ("rssi", num(45)),
        ]),
        [0x00, 0x0a, 0x5a, 0x01, 0x02, 0x00, 0x2d],
    );
}

#[test]
fn reg05_system_status_round_trip() {
    assert_wire_round_trip(
        RegId::new(0x05),
        &cooling(),
        [0x01, 0x01, 0x03, 0x30, 0x00, 0x01, 0x00],
    );
}

#[test]
fn reg06_firmware_round_trip() {
    assert_wire_round_trip(
        RegId::new(0x06),
        &obj(&[
            ("fw_major", num(1)),
            ("fw_minor", num(2)),
            ("cb_type", num(3)),
            ("rf_fw_major", num(0)),
        ]),
        [0x01, 0x02, 0x03, 0x00, 0x00, 0x00, 0x00],
    );
}

#[test]
fn reg08_system_error_round_trip() {
    assert_wire_round_trip(
        RegId::new(0x08),
        &obj(&[("error_code", word("E1234"))]),
        [0x45, 0x31, 0x32, 0x33, 0x34, 0x00, 0x00],
    );
}

#[test]
fn reg09_activation_code_round_trip() {
    assert_wire_round_trip(
        RegId::new(0x09),
        &obj(&[
            ("action", word("set_code")),
            ("unlock_code", word("a1b2")),
            ("activation_days", num(30)),
        ]),
        [0x01, 0xa1, 0xb2, 0x1e, 0x00, 0x00, 0x00],
    );
}

#[test]
fn reg09_activation_code_uppercase_normalized() {
    let bytes = encode_payload(
        RegId::new(0x09),
        &obj(&[
            ("action", word("unlock")),
            ("unlock_code", word("A1B2")),
            ("activation_days", num(7)),
        ]),
    )
    .unwrap();
    assert_eq!(bytes, [0x02, 0xa1, 0xb2, 0x07, 0x00, 0x00, 0x00]);
    let decoded = decode_payload(RegId::new(0x09), bytes).unwrap();
    assert_eq!(
        decoded,
        obj(&[
            ("action", word("unlock")),
            ("unlock_code", word("a1b2")),
            ("activation_days", num(7)),
        ])
    );
}

#[test]
fn reg0a_unit_announcement_round_trip() {
    assert_wire_round_trip(RegId::new(0x0a), &obj(&[]), [0; 7]);
}

#[test]
fn reg12_sensor_pairing_read_round_trip() {
    assert_wire_round_trip(
        RegId::new(0x12),
        &obj(&[
            ("sensor_uid", word("01613d")),
            ("pairing", flag(true)),
            ("sensor_rev", num(5)),
        ]),
        [0x01, 0x61, 0x3d, 0x40, 0x05, 0x00, 0x00],
    );
}

#[test]
fn reg12_sensor_pairing_write_encode_path() {
    let bytes = encode_payload(
        RegId::new(0x12),
        &obj(&[("sensor_uid", word("01613d")), ("zone", num(2))]),
    )
    .unwrap();
    assert_eq!(bytes, [0x01, 0x61, 0x3d, 0x02, 0x00, 0x00, 0x00]);
    // Bytes are always read in the shape that is read: bit 6 of byte 3 is
    // pairing, and the zone of a write is not recovered.
    let decoded = decode_payload(RegId::new(0x12), bytes).unwrap();
    assert_eq!(
        decoded,
        obj(&[
            ("sensor_uid", word("01613d")),
            ("pairing", flag(false)),
            ("sensor_rev", num(0)),
        ])
    );
}

#[test]
fn reg12_read_shape_wins_on_encode() {
    let bytes = encode_payload(
        RegId::new(0x12),
        &obj(&[
            ("sensor_uid", word("01613d")),
            ("pairing", flag(false)),
            ("sensor_rev", num(9)),
            ("zone", num(3)),
        ]),
    )
    .unwrap();
    assert_eq!(bytes, [0x01, 0x61, 0x3d, 0x00, 0x09, 0x00, 0x00]);
    let decoded = decode_payload(RegId::new(0x12), bytes).unwrap();
    assert_eq!(
        decoded,
        obj(&[("sensor_uid", word("01613d")), ("pairing", flag(false)), ("sensor_rev", num(9))])
    );
}

#[test]
fn reg13_info_byte_round_trip() {
    assert_wire_round_trip(
        RegId::new(0x13),
        &obj(&[("info_byte", num(7))]),
        [0x07, 0x00, 0x00, 0x00, 0x00, 0x00, 0x00],
    );
}

#[test]
fn reg26_rf_device_pairing_round_trip() {
    assert_wire_round_trip(
        RegId::new(0x26),
        &obj(&[("pairing_control", num(1)), ("rf_device_type", num(2)), ("zone_channel", num(3))]),
        [0x01, 0x02, 0x03, 0x00, 0x00, 0x00, 0x00],
    );
}

#[test]
fn reg27_rf_device_calibration_round_trip() {
    assert_wire_round_trip(
        RegId::new(0x27),
        &obj(&[("calibration_control", num(1)), ("channel", num(5)), ("up_down_position", num(7))]),
        [0x01, 0x05, 0x07, 0x00, 0x00, 0x00, 0x00],
    );
}

#[test]
fn reg27_raw_hex_confirms_channel_before_position() {
    let bytes = encode_payload(RegId::new(0x27), &raw("01050700000000")).unwrap();
    assert_eq!(bytes, [0x01, 0x05, 0x07, 0x00, 0x00, 0x00, 0x00]);
    let decoded = decode_payload(RegId::new(0x27), bytes).unwrap();
    assert_eq!(
        decoded,
        obj(&[("calibration_control", num(1)), ("channel", num(5)), ("up_down_position", num(7))])
    );
}

#[test]
fn raw_hex_reg05_acceptance_criterion() {
    let bytes = encode_payload(RegId::new(0x05), &raw("01010330000100")).unwrap();
    assert_eq!(bytes, [0x01, 0x01, 0x03, 0x30, 0x00, 0x01, 0x00]);
    let decoded = decode_payload(RegId::new(0x05), bytes).unwrap();
    assert_eq!(decoded, cooling());
    assert_eq!(encode_payload(RegId::new(0x05), &decoded).unwrap(), bytes);
}

#[test]
fn raw_hex_unknown_registers_passthrough() {
    let cases = [
        (0x16, "a1b2c3d4e5f607"),
        (0x17, "00112233445566"),
        (0x1d, "deadbeefcafe00"),
        (0x1e, "ffffffffffffff"),
    ];
    for (reg, hex) in cases {
        let bytes = encode_payload(RegId::new(reg), &raw(hex)).unwrap();
        let decoded = decode_payload(RegId::new(reg), bytes).unwrap();
        assert_eq!(decoded, raw(hex), "reg {reg:#04x} decode");
        assert_eq!(
            encode_payload(RegId::new(reg), &decoded).unwrap(),
            bytes,
            "reg {reg:#04x} re-encode"
        );
    }
}

#[test]
fn raw_hex_accepts_uppercase() {
    let bytes = encode_payload(RegId::new(0x16), &raw("0102030405060F")).unwrap();
    assert_eq!(bytes, [0x01, 0x02, 0x03, 0x04, 0x05, 0x06, 0x0f]);
}

#[test]
fn raw_hex_rejects_wrong_length_and_non_hex() {
    let err = encode_payload(RegId::new(0x16), &raw("0102030405060")).unwrap_err();
    assert!(
        matches!(err, EncodeError::BadHex(_)),
        "13 chars must be BadHex"
    );
    let err = encode_payload(RegId::new(0x16), &raw("0102030405060z")).unwrap_err();
    assert!(
        matches!(err, EncodeError::BadHex(_)),
        "non-hex must be BadHex"
    );
    let err = encode_payload(RegId::new(0x16), &raw("zzzzzzzzzzzzzz")).unwrap_err();
    assert!(matches!(err, EncodeError::BadHex(_)));
}

#[test]
fn unknown_register_rejects_typed_object() {
    let err = encode_payload(RegId::new(0x16), &obj(&[("info_byte", num(1))])).unwrap_err();
    assert!(matches!(err, EncodeError::UnknownRegister(_)));
}

#[test]
fn unknown_wire_enum_falls_back_to_raw_hex() {
    let decoded =
        decode_payload(RegId::new(0x05), [0x07, 0x00, 0x00, 0x00, 0x00, 0x00, 0x00]).unwrap();
    assert_eq!(decoded, raw("07000000000000"));
    let decoded =
        decode_payload(RegId::new(0x03), [0x00, 0x00, 0x05, 0x30, 0x17, 0x01, 0x00]).unwrap();
    assert_eq!(decoded, raw("00000530170100"));
}

#[test]
fn enum_mode_bytes() {
    let cases = [
        ("cool", 0x01),
        ("heat", 0x02),
        ("vent", 0x03),
        ("auto", 0x04),
        ("dry", 0x05),
        ("myauto", 0x06),
    ];
    for (wire, byte) in cases {
        let payload = obj(&[
            ("power", word("on")),
            ("mode", word(wire)),
            ("fan", word("auto")),
            ("target_temp_c", halves(48)),
            ("myzone_id", num(0)),
            ("fresh_air", word("off")),
            ("rf_sys_id", num(0)),
        ]);
        let bytes = encode_payload(RegId::new(0x05), &payload).unwrap();
        assert_eq!(bytes[1], byte, "mode={wire}");
        let decoded = decode_payload(RegId::new(0x05), bytes).unwrap();
        assert_eq!(at(&decoded, "mode"), &word(wire), "mode={wire} decode");
    }
}

#[test]
fn enum_fan_bytes() {
    let cases = [
        ("off", 0x00),
        ("low", 0x01),
        ("medium", 0x02),
        ("high", 0x03),
        ("auto", 0x04),
        ("auto_aa", 0x05),
    ];
    for (wire, byte) in cases {
        let payload = obj(&[
            ("power", word("on")),
            ("mode", word("cool")),
            ("fan", word(wire)),
            ("target_temp_c", halves(48)),
            ("myzone_id", num(0)),
            ("fresh_air", word("off")),
            ("rf_sys_id", num(0)),
        ]);
        let bytes = encode_payload(RegId::new(0x05), &payload).unwrap();
        assert_eq!(bytes[2], byte, "fan={wire}");
        let decoded = decode_payload(RegId::new(0x05), bytes).unwrap();
        assert_eq!(at(&decoded, "fan"), &word(wire), "fan={wire} decode");
    }
}

#[test]
fn enum_power_bytes() {
    let cases = [("on", 0x01), ("off", 0x00)];
    for (wire, byte) in cases {
        let payload = obj(&[
            ("power", word(wire)),
            ("mode", word("cool")),
            ("fan", word("auto")),
            ("target_temp_c", halves(48)),
            ("myzone_id", num(0)),
            ("fresh_air", word("off")),
            ("rf_sys_id", num(0)),
        ]);
        let bytes = encode_payload(RegId::new(0x05), &payload).unwrap();
        assert_eq!(bytes[0], byte, "power={wire}");
        let decoded = decode_payload(RegId::new(0x05), bytes).unwrap();
        assert_eq!(at(&decoded, "power"), &word(wire), "power={wire} decode");
    }
}

#[test]
fn enum_sensor_type_bytes() {
    let cases = [
        ("no_sensor", 0x00),
        ("rf", 0x01),
        ("wired", 0x02),
        ("rf2can_booster", 0x03),
        ("rf_x", 0x04),
    ];
    for (wire, byte) in cases {
        let payload = obj(&[
            ("open", flag(true)),
            ("damper_pct", num(100)),
            ("sensor_type", word(wire)),
            ("target_temp_c", halves(48)),
            ("measured_temp_c", tenths(23, 0)),
        ]);
        let bytes = encode_payload(RegId::new(0x03), &payload).unwrap();
        assert_eq!(bytes[2], byte, "sensor_type={wire}");
        let decoded = decode_payload(RegId::new(0x03), bytes).unwrap();
        assert_eq!(at(&decoded, "sensor_type"), &word(wire), "sensor_type={wire} decode");
    }
}

#[test]
fn enum_activation_status_bytes() {
    let cases = [("no_code", 0x00), ("code_enabled", 0x01), ("expired", 0x02)];
    for (wire, byte) in cases {
        let payload = obj(&[
            ("unit_type", word("daikin")),
            ("activation_status", word(wire)),
            ("dict_fw_major", num(0)),
            ("dict_fw_minor", num(0)),
        ]);
        let bytes = encode_payload(RegId::new(0x02), &payload).unwrap();
        assert_eq!(bytes[1], byte, "activation_status={wire}");
        let decoded = decode_payload(RegId::new(0x02), bytes).unwrap();
        assert_eq!(
            at(&decoded, "activation_status"), &word(wire),
            "activation_status={wire} decode"
        );
    }
}

#[test]
fn enum_action_bytes() {
    let cases = [("set_code", 0x01), ("unlock", 0x02)];
    for (wire, byte) in cases {
        let payload = obj(&[
            ("action", word(wire)),
            ("unlock_code", word("a1b2")),
            ("activation_days", num(0)),
        ]);
        let bytes = encode_payload(RegId::new(0x09), &payload).unwrap();
        assert_eq!(bytes[0], byte, "action={wire}");
        let decoded = decode_payload(RegId::new(0x09), bytes).unwrap();
        assert_eq!(at(&decoded, "action"), &word(wire), "action={wire} decode");
    }
}

#[test]
fn enum_unit_type_bytes() {
    let cases = [
        ("daikin", 0x11),
        ("panasonic", 0x12),
        ("fujitsu", 0x13),
        ("samsung_dvm", 0x19),
    ];
    for (wire, byte) in cases {
        let payload = obj(&[
            ("unit_type", word(wire)),
            ("activation_status", word("no_code")),
            ("dict_fw_major", num(1)),
            ("dict_fw_minor", num(2)),
        ]);
        let bytes = encode_payload(RegId::new(0x02), &payload).unwrap();
        assert_eq!(bytes[0], byte, "unit_type={wire}");
        let decoded = decode_payload(RegId::new(0x02), bytes).unwrap();
        assert_eq!(at(&decoded, "unit_type"), &word(wire), "unit_type={wire} decode");
    }
}

#[test]
fn event_body_zone_bearing_and_plain_records() {
    let record = CanRecord::parse_one("0703111110301e40030000000").unwrap();
    let (register, zone, payload) = event_body(&record);
    assert_eq!(register, "03");
    assert_eq!(zone, Some(1));
    assert_eq!(at(&payload, "damper_pct"), &num(100));

    let record = CanRecord::parse_one("0703111110501010330000100").unwrap();
    let (register, zone, payload) = event_body(&record);
    assert_eq!(register, "05");
    assert_eq!(zone, None);
    assert_eq!(at(&payload, "power"), &word("on"));

    let record = CanRecord::parse_one("07031111116a1b2c3d4e5f607").unwrap();
    let (register, zone, payload) = event_body(&record);
    assert_eq!(register, "16");
    assert_eq!(zone, None);
    assert_eq!(payload, raw("a1b2c3d4e5f607"));
}

#[test]
fn snapshot_units_covers_all_unit_types() {
    let mut bank = RegisterBank::new();
    bank.apply(&CanRecord::parse_one("0703111110501010330000100").unwrap());
    bank.apply(&CanRecord::parse_one("0803111110501010330000100").unwrap());
    bank.apply(&CanRecord::parse_one("0803abcde0601020300000000").unwrap());

    let units = snapshot_units(&bank);
    assert_eq!(
        units.iter().map(|u| u.key()).collect::<Vec<_>>(),
        vec!["07:11111", "08:11111", "08:abcde"]
    );
}

/// The status of register `05` that `01010330000100` stands for.
fn cooling() -> Payload {
    obj(&[
        ("power", word("on")),
        ("mode", word("cool")),
        ("fan", word("high")),
        ("target_temp_c", halves(48)),
        ("myzone_id", num(0)),
        ("fresh_air", word("off")),
        ("rf_sys_id", num(0)),
    ])
}

#[test]
fn snapshot_units_decodes_dtos_and_nested_zones() {
    let mut bank = RegisterBank::new();
    bank.apply(&CanRecord::parse_one("0703111110501010330000100").unwrap());
    bank.apply(&CanRecord::parse_one("0703111110301e40230170100").unwrap());

    let units = snapshot_units(&bank);
    assert_eq!(units[0].key(), "07:11111");
    let content = |reg: u8| {
        &units[0]
            .registers
            .iter()
            .find(|r| r.reg == RegId::new(reg))
            .expect("register is there")
            .content
    };
    assert_eq!(content(0x05), &Content::Single(cooling()));
    assert_eq!(
        content(0x03),
        &Content::Zones(vec![ZoneSnapshot {
            zone: 1,
            payload: obj(&[
                ("open", flag(true)),
                ("damper_pct", num(100)),
                ("sensor_type", word("wired")),
                ("target_temp_c", halves(48)),
                ("measured_temp_c", tenths(23, 1)),
            ]),
        }])
    );
}

#[test]
fn snapshot_holds_payloads_and_zones() {
    let mut bank = RegisterBank::new();
    bank.apply(&CanRecord::parse_one("0703111110501010330000100").unwrap());
    bank.apply(&CanRecord::parse_one("0703111110301e40230170100").unwrap());
    bank.apply(&CanRecord::parse_one("070311111030be40230170100").unwrap());
    bank.apply(&CanRecord::parse_one("07031111116a1b2c3d4e5f607").unwrap());

    let units = snapshot_units(&bank);
    assert_eq!(units.len(), 1);
    let registers = &units[0].registers;
    assert_eq!(
        registers.iter().map(|r| r.reg.get()).collect::<Vec<_>>(),
        vec![0x03, 0x05, 0x16]
    );
    // Zone 11 is beyond the last zone of a snapshot.
    assert_eq!(
        registers[0].content,
        Content::Zones(vec![ZoneSnapshot {
            zone: 1,
            payload: obj(&[
                ("open", flag(true)),
                ("damper_pct", num(100)),
                ("sensor_type", word("wired")),
                ("target_temp_c", halves(48)),
                ("measured_temp_c", tenths(23, 1)),
            ]),
        }])
    );
    assert_eq!(registers[1].content, Content::Single(cooling()));
    assert_eq!(registers[2].content, Content::Single(raw("a1b2c3d4e5f607")));
}

#[test]
fn snapshot_of_an_empty_mailbox_is_empty() {
    assert!(snapshot_units(&RegisterBank::new()).is_empty());
}

#[test]
fn fresh_air_words_round_trip() {
    for (i, wire) in ["none", "off", "on"].iter().enumerate() {
        let payload = merge_payload(&cooling(), &obj(&[("fresh_air", word(wire))]));
        let bytes = encode_payload(RegId::new(0x05), &payload).unwrap();
        assert_eq!(bytes[5] as usize, i, "fresh_air={wire}");
        let decoded = decode_payload(RegId::new(0x05), bytes).unwrap();
        assert_eq!(at(&decoded, "fresh_air"), &word(wire));
    }
}

#[test]
fn unlock_code_faults_name_the_bad_half() {
    let code = |text: &str| {
        encode_payload(
            RegId::new(0x09),
            &obj(&[
                ("action", word("unlock")),
                ("unlock_code", word(text)),
                ("activation_days", num(7)),
            ]),
        )
    };
    assert_eq!(
        code("A1B2").unwrap(),
        [0x02, 0xa1, 0xb2, 0x07, 0x00, 0x00, 0x00]
    );
    assert_eq!(code("a1b"), Err(EncodeError::BadHex("a1b".to_owned())));
    assert_eq!(code("zzb2"), Err(EncodeError::BadHex("zz".to_owned())));
    assert_eq!(code("a1zz"), Err(EncodeError::BadHex("zz".to_owned())));
}

#[test]
fn pairing_is_bit_six_of_the_info_byte() {
    let decoded = decode_payload(RegId::new(0x12), [1, 2, 3, 0xff, 0, 0, 0]).unwrap();
    assert_eq!(at(&decoded, "pairing"), &flag(true));
    assert_eq!(
        encode_payload(
            RegId::new(0x12),
            &obj(&[("sensor_uid", word("01613")), ("zone", num(2))]),
        ),
        Err(EncodeError::BadHex("01613".to_owned()))
    );
}

#[test]
fn error_codes_are_five_ascii_characters() {
    let code = |text: &str| encode_payload(RegId::new(0x08), &obj(&[("error_code", word(text))]));
    assert_eq!(
        code("AA1"),
        Err(EncodeError::BadPayload(
            "error_code must be exactly 5 ASCII chars: \"AA1\"".to_owned()
        ))
    );
    assert_eq!(
        code("a\"b").unwrap_err().describe(),
        "bad register payload: error_code must be exactly 5 ASCII chars: \"a\\\"b\""
    );
    assert!(code("ééééé").is_err());
    // Padding of a code is not shown.
    let decoded = decode_payload(RegId::new(0x08), [b'A', b'A', b'1', b' ', 0, 9, 9]).unwrap();
    assert_eq!(at(&decoded, "error_code"), &word("AA1"));
}

#[test]
fn payload_faults_come_in_order() {
    let reg = RegId::new(0x05);
    assert_eq!(
        encode_payload(reg, &obj(&[("mode", word("bogus")), ("rf_sys_id", word("x"))])),
        Err(EncodeError::BadEnum {
            field: "mode",
            value: "bogus".to_owned(),
        })
    );
    let fault = encode_payload(reg, &obj(&[("rf_sys_id", num(256))])).unwrap_err();
    assert!(matches!(fault, EncodeError::BadPayload(_)));
    assert_eq!(
        fault.describe(),
        "bad register payload: invalid value: integer `256`, expected u8"
    );
    // Of two values that do not fit, the one whose field comes first by name is
    // reported.
    assert_eq!(
        encode_payload(reg, &obj(&[("rf_sys_id", num(256)), ("myzone_id", flag(true))]))
            .unwrap_err()
            .describe(),
        "bad register payload: invalid type: boolean `true`, expected u8"
    );
    assert_eq!(
        encode_payload(reg, &obj(&[("power", word("on"))]))
            .unwrap_err()
            .describe(),
        "bad register payload: missing field `mode`"
    );
    assert_eq!(
        encode_payload(reg, &Payload::Null).unwrap_err().describe(),
        "bad register payload: invalid type: null, expected struct SystemStatusDto"
    );
    assert_eq!(
        encode_payload(RegId::new(0x0a), &Payload::Bool(true))
            .unwrap_err()
            .describe(),
        "bad register payload: invalid type: boolean `true`, expected struct UnitAnnouncementDto"
    );
    assert_eq!(
        encode_payload(RegId::new(0x13), &Payload::Number(Number::Negative(4)))
            .unwrap_err()
            .describe(),
        "bad register payload: invalid type: integer `-4`, expected struct InfoByteDto"
    );
    assert_eq!(
        encode_payload(RegId::new(0x08), &Payload::Decimal("1.5".to_owned()))
            .unwrap_err()
            .describe(),
        "bad register payload: invalid type: floating point `1.5`, expected struct SystemErrorDto"
    );
    assert_eq!(
        encode_payload(RegId::new(0x16), &obj(&[])).unwrap_err(),
        EncodeError::UnknownRegister("16".to_owned())
    );
    assert_eq!(
        EncodeError::UnknownRegister("16".to_owned()).describe(),
        "unknown register in catalog: 16"
    );
    assert_eq!(
        EncodeError::BadHex("zz".to_owned()).describe(),
        "malformed raw-hex payload: zz"
    );
    assert_eq!(
        EncodeError::BadEnum {
            field: "mode",
            value: "bogus".to_owned(),
        }
        .describe(),
        "unsupported mode value: bogus"
    );
}

#[test]
fn temperatures_round_and_saturate() {
    let zone = |target: Number, measured: Number| {
        encode_payload(
            RegId::new(0x03),
            &obj(&[
                ("open", flag(false)),
                ("damper_pct", num(0)),
                ("sensor_type", word("no_sensor")),
                ("target_temp_c", Field::Number(target)),
                ("measured_temp_c", Field::Number(measured)),
            ]),
        )
        .unwrap()
    };
    let bytes = zone(
        Number::Tenths {
            whole: 21,
            tenths: 3,
        },
        Number::Halves(43),
    );
    assert_eq!((bytes[3], bytes[4], bytes[5]), (43, 21, 5));
    let bytes = zone(Number::Integer(300), Number::Integer(300));
    assert_eq!((bytes[3], bytes[4], bytes[5]), (255, 255, 0));
    let bytes = zone(
        Number::Other {
            half_degrees: 49,
            whole: 24,
            tenths: 9,
        },
        Number::Other {
            half_degrees: 49,
            whole: 24,
            tenths: 9,
        },
    );
    assert_eq!((bytes[3], bytes[4], bytes[5]), (49, 24, 9));
    // More than nine tenths are carried.
    let bytes = zone(
        Number::Integer(0),
        Number::Tenths {
            whole: 21,
            tenths: 15,
        },
    );
    assert_eq!((bytes[4], bytes[5]), (22, 5));
}

#[test]
fn every_register_settles_after_one_round() {
    for reg in 0..=255u8 {
        if reg == 0x08 {
            continue;
        }
        let reg = RegId::new(reg);
        let data = [0x01, 0x02, 0x02, 0x30, 0x17, 0x02, 0x03];
        let once = encode_payload(reg, &decode_payload(reg, data).unwrap()).unwrap();
        let twice = encode_payload(reg, &decode_payload(reg, once).unwrap()).unwrap();
        assert_eq!(once, twice);
    }
}

#[test]
fn written_fields_read_back() {
    let cases = [
        (
            0x02,
            obj(&[
                ("unit_type", word("daikin")),
                ("activation_status", word("code_enabled")),
                ("dict_fw_major", num(7)),
                ("dict_fw_minor", num(255)),
            ]),
        ),
        (
            0x05,
            obj(&[
                ("power", word("on")),
                ("mode", word("cool")),
                ("fan", word("high")),
                ("target_temp_c", halves(255)),
                ("myzone_id", num(3)),
                ("fresh_air", word("none")),
                ("rf_sys_id", num(5)),
            ]),
        ),
        (0x08, obj(&[("error_code", word("AA123"))])),
        (
            0x09,
            obj(&[
                ("action", word("set_code")),
                ("unlock_code", word("abcd")),
                ("activation_days", num(30)),
            ]),
        ),
        (
            0x12,
            obj(&[
                ("sensor_uid", word("01613d")),
                ("pairing", flag(true)),
                ("sensor_rev", num(9)),
            ]),
        ),
        (0x0a, obj(&[])),
    ];
    for (reg, written) in cases {
        let reg = RegId::new(reg);
        let bytes = encode_payload(reg, &written).unwrap();
        assert_eq!(decode_payload(reg, bytes).unwrap(), written, "{reg:?}");
    }
}

#[test]
fn padding_of_an_error_code_does_not_read_back() {
    let reg = RegId::new(0x08);
    let bytes = encode_payload(reg, &obj(&[("error_code", word("AA1  "))])).unwrap();
    assert_eq!(
        decode_payload(reg, bytes).unwrap(),
        obj(&[("error_code", word("AA1"))])
    );
}

#[test]
fn more_than_seven_bits_of_a_damper_do_not_read_back() {
    let reg = RegId::new(0x03);
    let state = |damper: u64| {
        obj(&[
            ("open", flag(false)),
            ("damper_pct", num(damper)),
            ("sensor_type", word("rf")),
            ("target_temp_c", halves(48)),
            ("measured_temp_c", tenths(23, 3)),
        ])
    };
    let bytes = encode_payload(reg, &state(127)).unwrap();
    assert_eq!(decode_payload(reg, bytes).unwrap(), state(127));
    let bytes = encode_payload(reg, &state(128)).unwrap();
    assert_ne!(decode_payload(reg, bytes).unwrap(), state(128));
}

/// An object with one key.
fn tagged(key: &str, value: Nested) -> Field {
    Field::Single {
        key: key.to_owned(),
        value,
    }
}

#[test]
fn a_key_without_a_value_is_a_word() {
    let with = |field: Field| merge_payload(&cooling(), &obj(&[("power", field)]));
    let reg = RegId::new(0x05);
    for (wire, byte) in [("on", 0x01), ("off", 0x00)] {
        let bytes = encode_payload(reg, &with(tagged(wire, Nested::Null))).unwrap();
        assert_eq!(bytes, encode_payload(reg, &with(word(wire))).unwrap());
        assert_eq!(bytes[0], byte);
    }
    let said = |field: Field| encode_payload(reg, &with(field)).unwrap_err().describe();
    assert_eq!(
        said(tagged("bogus", Nested::Null)),
        "bad register payload: unknown variant `bogus`, expected `on` or `off`"
    );
    assert_eq!(
        said(tagged("on", Nested::Bool(true))),
        "bad register payload: invalid type: boolean `true`, expected unit"
    );
    assert_eq!(
        said(Field::Object),
        "bad register payload: invalid value: map, expected map with a single key"
    );
    assert_eq!(
        said(Field::Bool(false)),
        "bad register payload: invalid type: boolean `false`, expected string or map"
    );
    // Only a text that is an unknown word is reported with its field.
    assert_eq!(said(word("bogus")), "unsupported power value: bogus");
}

#[test]
fn messages_list_the_known_words() {
    let cases = [
        (Kind::UnitType, "one of `daikin`, `panasonic`, `fujitsu`, `samsung_dvm`"),
        (Kind::Activation, "one of `no_code`, `code_enabled`, `expired`"),
        (Kind::Sensor, "one of `no_sensor`, `rf`, `wired`, `rf2can_booster`, `rf_x`"),
        (Kind::Power, "`on` or `off`"),
        (Kind::Mode, "one of `cool`, `heat`, `vent`, `auto`, `dry`, `myauto`"),
        (Kind::Fan, "one of `off`, `low`, `medium`, `high`, `auto`, `auto_aa`"),
        (Kind::FreshAir, "one of `none`, `off`, `on`"),
        (Kind::Action, "`set_code` or `unlock`"),
    ];
    for (kind, listed) in cases {
        assert_eq!(
            kind.complain(&word("?")),
            Some(format!("unknown variant `?`, expected {listed}"))
        );
        for part in listed.split('`').skip(1).step_by(2) {
            assert_eq!(kind.complain(&word(part)), None, "{part}");
            assert_eq!(kind.complain(&tagged(part, Nested::Null)), None, "{part}");
        }
    }
}

#[test]
fn a_list_of_the_values_stands_for_the_fields() {
    let list = |values: &[Field]| Payload::List(values.to_vec());
    assert_eq!(
        encode_payload(
            RegId::new(0x01),
            &list(&[num(0x20), num(3), num(1), numbers(&[1, 0, 0]), flag(false)]),
        )
        .unwrap(),
        [0x20, 0x03, 0x01, 0x01, 0x00, 0x00, 0x00]
    );
    assert_eq!(
        encode_payload(
            RegId::new(0x05),
            &list(&[
                word("on"),
                tagged("cool", Nested::Null),
                word("high"),
                num(24),
                num(0),
                word("off"),
                num(0),
            ]),
        )
        .unwrap(),
        [0x01, 0x01, 0x03, 0x30, 0x00, 0x01, 0x00]
    );
    // Register 12 tries the shape that is read first.
    assert_eq!(
        encode_payload(RegId::new(0x12), &list(&[word("01613d"), flag(true), num(5)])).unwrap(),
        [0x01, 0x61, 0x3d, 0x40, 0x05, 0x00, 0x00]
    );
    assert_eq!(
        encode_payload(RegId::new(0x12), &list(&[word("01613d"), num(2)])).unwrap(),
        [0x01, 0x61, 0x3d, 0x02, 0x00, 0x00, 0x00]
    );
    assert_eq!(encode_payload(RegId::new(0x0a), &list(&[])).unwrap(), [0; 7]);

    let said = |reg: u8, values: &[Field]| {
        encode_payload(RegId::new(reg), &list(values))
            .unwrap_err()
            .describe()
    };
    assert_eq!(
        said(0x13, &[]),
        "bad register payload: invalid length 0, expected struct InfoByteDto with 1 element"
    );
    assert_eq!(
        said(0x06, &[num(1), num(2)]),
        "bad register payload: invalid length 2, expected struct FirmwareDto with 4 elements"
    );
    assert_eq!(
        said(0x13, &[num(1), num(2), num(3)]),
        "bad register payload: invalid length 3, expected fewer elements in array"
    );
    assert_eq!(
        said(0x0a, &[num(1)]),
        "bad register payload: invalid length 1, expected fewer elements in array"
    );
    assert_eq!(
        said(0x06, &[num(1), word("x")]),
        "bad register payload: invalid type: string \"x\", expected u8"
    );
    // Words in a list are not reported with a field.
    assert_eq!(
        said(0x05, &[word("bogus")]),
        "bad register payload: unknown variant `bogus`, expected `on` or `off`"
    );
}

/// A number of JSON, where it is whole.
fn whole(number: &serde_json::Number) -> Option<Number> {
    match number.as_u64() {
        Some(n) => Some(Number::Integer(n)),
        None => number.as_i64().map(|n| Number::Negative(n.unsigned_abs())),
    }
}

/// A value of JSON inside a list or an object.
fn nested(value: &serde_json::Value) -> Nested {
    match value {
        serde_json::Value::Null => Nested::Null,
        serde_json::Value::Bool(b) => Nested::Bool(*b),
        serde_json::Value::Number(n) => match whole(n) {
            Some(n) => Nested::Number(n),
            None => Nested::Decimal(n.to_string()),
        },
        serde_json::Value::String(s) => Nested::Text(s.clone()),
        serde_json::Value::Array(_) => Nested::List,
        serde_json::Value::Object(_) => Nested::Object,
    }
}

/// A value of JSON in a field.
fn field(value: &serde_json::Value) -> Field {
    match value {
        serde_json::Value::Null => Field::Null,
        serde_json::Value::Bool(b) => Field::Bool(*b),
        serde_json::Value::Number(n) => match whole(n) {
            Some(n) => Field::Number(n),
            None => Field::Decimal {
                number: Number::Integer(0),
                text: n.to_string(),
            },
        },
        serde_json::Value::String(s) => Field::Text(s.clone()),
        serde_json::Value::Array(items) => Field::List(items.iter().map(nested).collect()),
        serde_json::Value::Object(map) => match map.iter().next() {
            Some((key, value)) if map.len() == 1 => tagged(key, nested(value)),
            _ => Field::Object,
        },
    }
}

#[test]
fn messages_are_those_of_json() {
    let texts = [
        "null", "true", "false", "0", "255", "256", "18446744073709551615", "-1",
        "-9223372036854775808", "1.5", "-0.0", "2.0", "1e21", "1e-7", "18446744073709551616",
        "\"\"", "\"a \\\"b\\\" \\n\"", "\"caf\u{e9}\"",
        "[]", "[1]", "[1,2]", "[1,2,3]", "[1,2,3,4]",
        "[1,256,3]", "[1,-1,3]", "[1,2.5,3]", "[1,null]", "[true]", "[\"x\"]", "[[1]]", "[{}]",
        "{}", "{\"on\":null}", "{\"a\":1,\"b\":2}",
    ];
    for text in texts {
        let value: serde_json::Value = serde_json::from_str(text).unwrap();
        let given = field(&value);
        let said = |e: serde_json::Error| e.to_string();
        assert_eq!(
            Kind::Byte.complain(&given),
            serde_json::from_value::<u8>(value.clone()).err().map(said),
            "{text}"
        );
        assert_eq!(
            Kind::Flag.complain(&given),
            serde_json::from_value::<bool>(value.clone()).err().map(said),
            "{text}"
        );
        assert_eq!(
            Kind::Text.complain(&given),
            serde_json::from_value::<String>(value.clone()).err().map(said),
            "{text}"
        );
        assert_eq!(
            Kind::Triple.complain(&given),
            serde_json::from_value::<[u8; 3]>(value.clone()).err().map(said),
            "{text}"
        );
        assert_eq!(
            Kind::Temperature.complain(&given),
            serde_json::from_value::<f64>(value.clone()).err().map(said),
            "{text}"
        );
    }
}
