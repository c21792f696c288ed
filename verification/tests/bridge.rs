use cb_daemon::daemon::address::{
    build_write_record, primary_unit, resolve_unit, validate_read_register,
};
use cb_daemon::daemon::client::{
    changed_status, connect_status, frame_step, handle_client_message, invalid_message,
    session_goes_on, snapshot_message, waiting_step, ClientFrame, ClientSession, FrameStep,
    Request, StreamOutcome, WsEvent,
};
use cb_daemon::daemon::config::{mock_backend_avoids_accessory, Backend};
use cb_daemon::daemon::hub::{renews_mailbox, Hub, CHANNEL_BOUND};
use cb_daemon::daemon::pending::{PendingAcks, PendingReads, SessionTimeouts};
use cb_daemon::daemon::replies::{event_message, power_off_records, read_result_message};
use cb_daemon::daemon::watchdog::{
    idle_deadline, idle_power_off, snapshot_overdue, Liveness, LivenessStep, Watchdog,
};
use cb_daemon::engine::event::{EngineCmd, EngineEvent, SessionState};
use cb_daemon::link::AOA_DEFAULT_PATH;
use cb_daemon::mailbox::dto::{AckStatus, StatusState};
use cb_daemon::mailbox::message::{ClientMessage, ServerMessage};
use cb_daemon::mailbox::value::{Field, Member, Nested, Number, Payload};
use cb_daemon::registers::bank::{BankKey, RegisterBank};
use cb_daemon::registers::ids::{RegId, UnitId, UnitType};
use cb_daemon::registers::wire::{CanRecord, Dest};

/// A payload of fields.
fn obj(fields: &[(&str, Field)]) -> Payload {
    Payload::Object(
        fields
            .iter()
            .map(|(name, value)| Member {
                name: (*name).to_owned(),
                value: value.clone(),
            })
            .collect(),
    )
}

/// A payload of raw text.
fn raw(hex: &str) -> Payload {
    Payload::Text(hex.to_owned())
}

fn num(n: u64) -> Field {
    Field::Number(Number::Integer(n))
}

fn flag(b: bool) -> Field {
    Field::Bool(b)
}

fn word(s: &str) -> Field {
    Field::Text(s.to_owned())
}

fn numbers(list: &[u64]) -> Field {
    Field::List(list.iter().map(|n| Nested::Number(Number::Integer(*n))).collect())
}

/// The field of a payload.
fn at<'a>(payload: &'a Payload, name: &str) -> &'a Field {
    let Payload::Object(members) = payload else {
        panic!("expected fields, got {payload:?}");
    };
    &members
        .iter()
        .find(|m| m.name == name)
        .expect("field is there")
        .value
}

fn seed_reg05(bank: &mut RegisterBank, id: UnitId) {
    bank.apply(&CanRecord {
        unit_type: UnitType::aircon(),
        dest: Dest::Tablet,
        unit_id: id,
        reg: RegId::new(0x05),
        data: [0x01, 0x01, 0x03, 0x30, 0x00, 0x01, 0x00],
    });
}

fn aircon_reg05(unit_id: UnitId, data: [u8; 7]) -> CanRecord {
    CanRecord {
        unit_type: UnitType::aircon(),
        dest: Dest::Tablet,
        unit_id,
        reg: RegId::new(0x05),
        data,
    }
}

fn write_payload() -> Payload {
    raw("01010330000100")
}

#[test]
fn primary_unit_prefers_live_dump_over_hint_default() {
    let mut bank = RegisterBank::new();
    let live = UnitId::try_new(0x0_181F3).unwrap();
    bank.apply(&CanRecord {
        unit_type: UnitType::aircon(),
        dest: Dest::Tablet,
        unit_id: live,
        reg: RegId::new(0x06),
        data: [0; 7],
    });
    assert_eq!(
        primary_unit(&bank, Some(live)),
        Some((UnitType::aircon(), live))
    );
    assert_eq!(primary_unit(&bank, None), Some((UnitType::aircon(), live)));
    let empty = RegisterBank::new();
    assert_eq!(primary_unit(&empty, None), None);
    assert_eq!(
        primary_unit(&empty, Some(live)),
        Some((UnitType::aircon(), live))
    );
}

#[test]
fn primary_unit_picks_08_unit_when_bank_has_only_08_records() {
    let mut bank = RegisterBank::new();
    let small = UnitId::try_new(0x0_00001).unwrap();
    let large = UnitId::try_new(0x0_00002).unwrap();
    bank.apply(&CanRecord {
        unit_type: UnitType::new(0x08),
        dest: Dest::Tablet,
        unit_id: large,
        reg: RegId::new(0x06),
        data: [0; 7],
    });
    bank.apply(&CanRecord {
        unit_type: UnitType::new(0x08),
        dest: Dest::Tablet,
        unit_id: small,
        reg: RegId::new(0x06),
        data: [0; 7],
    });
    assert_eq!(
        primary_unit(&bank, None),
        Some((UnitType::new(0x08), small))
    );
}

#[test]
fn primary_unit_with_hint_at_08_unit_returns_unit_type_08() {
    let mut bank = RegisterBank::new();
    let split = UnitId::try_new(0x0_00042).unwrap();
    let aircon = UnitId::try_new(0x0_00001).unwrap();
    bank.apply(&CanRecord {
        unit_type: UnitType::new(0x08),
        dest: Dest::Tablet,
        unit_id: split,
        reg: RegId::new(0x06),
        data: [0; 7],
    });
    bank.apply(&CanRecord {
        unit_type: UnitType::aircon(),
        dest: Dest::Tablet,
        unit_id: aircon,
        reg: RegId::new(0x06),
        data: [0; 7],
    });
    assert_eq!(
        primary_unit(&bank, Some(split)),
        Some((UnitType::new(0x08), split))
    );
}

#[test]
fn event_message_shapes_08_unit_record() {
    let rec = CanRecord {
        unit_type: UnitType::new(0x08),
        dest: Dest::Tablet,
        unit_id: UnitId::try_new(0x0_0ABCD).unwrap(),
        reg: RegId::new(0x03),
        data: [0x02, 0xe4, 0x00, 0x03, 0x00, 0x00, 0x00],
    };
    let event = event_message(&rec);
    let ServerMessage::Event {
        unit_type,
        unit_id,
        register,
        zone,
        payload,
    } = event
    else {
        panic!("expected Event message");
    };
    assert_eq!(unit_type, "08");
    assert_eq!(unit_id, "0abcd");
    assert_eq!(register, "03");
    assert_eq!(zone, Some(0x02));
    assert_eq!(at(&payload, "open"), &flag(true));
    assert_eq!(at(&payload, "damper_pct"), &num(100));

    let rec = CanRecord {
        unit_type: UnitType::new(0x08),
        dest: Dest::Tablet,
        unit_id: UnitId::try_new(0x0_0ABCD).unwrap(),
        reg: RegId::new(0x05),
        data: [0x01, 0x01, 0x03, 0x30, 0x00, 0x01, 0x00],
    };
    let ServerMessage::Event { zone, .. } = event_message(&rec) else {
        panic!("expected Event message");
    };
    assert_eq!(zone, None);
}

#[test]
fn build_write_record_addresses_08_unit() {
    let rec = build_write_record(
        None,
        Some(UnitId::try_new(0x0_ABCDE).unwrap()),
        Some("08"),
        Some("abcde"),
        "05",
        None,
        &write_payload(),
    )
    .expect("record");
    assert_eq!(rec.unit_type, UnitType::new(0x08));
    assert_eq!(rec.unit_id, UnitId::try_new(0x0_ABCDE).unwrap());
    assert_eq!(rec.reg, RegId::new(0x05));

    let mut bank = RegisterBank::new();
    let id = UnitId::try_new(0x0_ABCDE).unwrap();
    bank.apply(&CanRecord {
        unit_type: UnitType::new(0x08),
        dest: Dest::Tablet,
        unit_id: id,
        reg: RegId::new(0x06),
        data: [0; 7],
    });
    let rec = build_write_record(
        Some(&bank),
        None,
        None,
        Some("abcde"),
        "05",
        None,
        &write_payload(),
    )
    .expect("record");
    assert_eq!(rec.unit_type, UnitType::new(0x08));
    assert_eq!(rec.unit_id, id);
}

#[test]
fn build_write_record_defaults_omitted_fields_to_primary() {
    let mut bank = RegisterBank::new();
    let primary_id = UnitId::try_new(0x0_181F3).unwrap();
    bank.apply(&CanRecord {
        unit_type: UnitType::aircon(),
        dest: Dest::Tablet,
        unit_id: primary_id,
        reg: RegId::new(0x05),
        data: [0x01, 0x01, 0x03, 0x30, 0x00, 0x01, 0x00],
    });

    let rec = build_write_record(Some(&bank), None, None, None, "05", None, &write_payload())
        .expect("record");
    assert_eq!(rec.unit_type, UnitType::aircon());
    assert_eq!(rec.unit_id, primary_id);

    let rec = build_write_record(
        Some(&bank),
        None,
        Some("08"),
        None,
        "05",
        None,
        &write_payload(),
    )
    .expect("record");
    assert_eq!(rec.unit_type, UnitType::new(0x08));
    assert_eq!(rec.unit_id, primary_id);
}

#[test]
fn build_write_record_errors_without_primary_when_bank_empty_and_no_hint() {
    let err = build_write_record(None, None, None, None, "05", None, &write_payload())
        .expect_err("no primary unit available");
    assert_eq!(err, "no primary unit available");
    let empty = RegisterBank::new();
    let err = build_write_record(Some(&empty), None, None, None, "05", None, &write_payload())
        .expect_err("no primary unit available");
    assert_eq!(err, "no primary unit available");
}

#[test]
fn build_write_record_stamps_zone_for_zone_bearing_register() {
    let rec = build_write_record(
        None,
        Some(UnitId::try_new(0x0_ABCDE).unwrap()),
        None,
        None,
        "03",
        Some(2),
        &write_payload(),
    )
    .expect("record");
    assert_eq!(rec.reg, RegId::new(0x03));
    assert_eq!(rec.data[0], 2, "zone must be stamped into wire byte 0");
}

#[test]
fn validate_read_register_rejects_write_only() {
    let err = validate_read_register("09", None).expect_err("write-only read");
    assert_eq!(err, "register 09 is write-only");
}

#[test]
fn validate_read_register_rejects_internal() {
    let err = validate_read_register("07", None).expect_err("internal read");
    assert_eq!(err, "register 07 is handled internally");
}

#[test]
fn validate_read_register_requires_zone_for_zone_bearing_register() {
    let err = validate_read_register("03", None).expect_err("zone-less read");
    assert_eq!(err, "zone required for register 03");
    assert_eq!(validate_read_register("03", Some(2)), Ok(RegId::new(0x03)));
    assert_eq!(validate_read_register("05", Some(2)), Ok(RegId::new(0x05)));
}

#[test]
fn validate_read_register_parses_register_like_write_path() {
    let err = validate_read_register("xyz", None).expect_err("bad register");
    assert!(err.starts_with("invalid register: "), "got {err:?}");
}

#[test]
fn read_result_shapes_zone_read_as_read_result() {
    let msg = read_result_message(
        "m1".to_owned(),
        UnitType::new(0x08),
        UnitId::try_new(0x0_ABCDE).unwrap(),
        RegId::new(0x03),
        Some(2),
        Some([0x02, 0xe4, 0x00, 0x03, 0x00, 0x00, 0x00]),
    );
    let ServerMessage::ReadResult {
        msg_id,
        unit_type,
        unit_id,
        register,
        zone,
        payload,
    } = msg
    else {
        panic!("expected ReadResult message");
    };
    assert_eq!(msg_id, "m1");
    assert_eq!(unit_type, "08");
    assert_eq!(unit_id, "abcde");
    assert_eq!(register, "03");
    assert_eq!(zone, Some(2));
    assert_eq!(at(&payload, "open"), &flag(true));
    assert_eq!(at(&payload, "damper_pct"), &num(100));
}

#[test]
fn read_result_unknown_register_falls_back_to_raw_hex() {
    let msg = read_result_message(
        "m2".to_owned(),
        UnitType::aircon(),
        UnitId::try_new(0x0_181F3).unwrap(),
        RegId::new(0x16),
        None,
        Some([0xaa, 0xbb, 0xcc, 0xdd, 0xee, 0xff, 0x11]),
    );
    let ServerMessage::ReadResult { payload, .. } = msg else {
        panic!("expected ReadResult message");
    };
    assert_eq!(payload, raw("aabbccddeeff11"));
}

#[test]
fn read_result_missing_value_acks_error() {
    let msg = read_result_message(
        "m3".to_owned(),
        UnitType::aircon(),
        UnitId::try_new(0x0_181F3).unwrap(),
        RegId::new(0x02),
        None,
        None,
    );
    let ServerMessage::Ack { status, reason, .. } = msg else {
        panic!("expected Ack message");
    };
    assert_eq!(status, AckStatus::Error);
    assert_eq!(reason.as_deref(), Some("register 02 has no value"));
}

#[test]
fn build_write_record_rejects_read_only_register() {
    let mut bank = RegisterBank::new();
    let id = UnitId::try_new(0x0_ABCDE).unwrap();
    bank.apply(&CanRecord {
        unit_type: UnitType::aircon(),
        dest: Dest::Tablet,
        unit_id: id,
        reg: RegId::new(0x08),
        data: [0; 7],
    });
    let err = build_write_record(
        Some(&bank),
        Some(id),
        None,
        None,
        "08",
        None,
        &obj(&[]),
    )
    .expect_err("read-only register write must be rejected");
    assert_eq!(err, "register 08 is read-only");
}

#[test]
fn build_write_record_rejects_read_only_field() {
    let mut bank = RegisterBank::new();
    let id = UnitId::try_new(0x0_ABCDE).unwrap();
    bank.apply(&CanRecord {
        unit_type: UnitType::aircon(),
        dest: Dest::Tablet,
        unit_id: id,
        reg: RegId::new(0x05),
        data: [0x01, 0x01, 0x03, 0x30, 0x00, 0x01, 0x00],
    });
    let err = build_write_record(
        Some(&bank),
        Some(id),
        None,
        None,
        "05",
        None,
        &obj(&[("rf_sys_id", num(1))]),
    )
    .expect_err("read-only field write must be rejected");
    assert_eq!(err, "field 'rf_sys_id' is read-only on register 05");
}

#[test]
fn build_write_record_rejects_unverified_register() {
    let mut bank = RegisterBank::new();
    let id = UnitId::try_new(0x0_ABCDE).unwrap();
    bank.apply(&CanRecord {
        unit_type: UnitType::aircon(),
        dest: Dest::Tablet,
        unit_id: id,
        reg: RegId::new(0x13),
        data: [0; 7],
    });
    let err = build_write_record(
        Some(&bank),
        Some(id),
        None,
        None,
        "13",
        None,
        &obj(&[]),
    )
    .expect_err("unverified register write must be rejected");
    assert_eq!(err, "register 13 is unverified; writes not permitted");
}

#[test]
fn build_write_record_rejects_out_of_range_field_value() {
    let mut bank = RegisterBank::new();
    let id = UnitId::try_new(0x0_ABCDE).unwrap();
    bank.apply(&CanRecord {
        unit_type: UnitType::aircon(),
        dest: Dest::Tablet,
        unit_id: id,
        reg: RegId::new(0x01),
        data: [0x20, 0x01, 0x01, 0x01, 0x00, 0x00, 0x00],
    });
    let err = build_write_record(
        Some(&bank),
        Some(id),
        None,
        None,
        "01",
        None,
        &obj(&[
            ("header", num(0x20)),
            ("total_zones", num(11)),
            ("constant_zones", num(1)),
            ("constant_zone_ids", numbers(&[1, 0, 0])),
            ("filter_clean_required", flag(false)),
        ]),
    )
    .expect_err("out-of-range field write must be rejected");
    assert_eq!(err, "field 'numZones' 11 out of range (max 10)");
}

#[test]
fn build_write_record_sparse_typed_merge_preserves_bank_fields() {
    let mut bank = RegisterBank::new();
    let id = UnitId::try_new(0x0_ABCDE).unwrap();
    seed_reg05(&mut bank, id);
    let rec = build_write_record(
        Some(&bank),
        Some(id),
        None,
        None,
        "05",
        None,
        &obj(&[("fan", word("low"))]),
    )
    .expect("sparse merge must succeed");
    assert_eq!(rec.data, [0x01, 0x01, 0x01, 0x30, 0x00, 0x01, 0x00]);
    assert_eq!(rec.data[1], 0x01, "mode (cool) preserved from the bank");
    assert_eq!(rec.data[2], 0x01, "fan (low) from the client");
    assert_eq!(rec.data[3], 0x30, "target_temp_c preserved from the bank");
    assert_eq!(rec.data[5], 0x01, "fresh_air preserved from the bank");
}

#[test]
fn build_write_record_sparse_typed_merge_zone_bearing() {
    let mut bank = RegisterBank::new();
    let id = UnitId::try_new(0x0_ABCDE).unwrap();
    bank.apply(&CanRecord {
        unit_type: UnitType::aircon(),
        dest: Dest::Tablet,
        unit_id: id,
        reg: RegId::new(0x03),
        data: [0x02, 0x64, 0x00, 0x30, 0x00, 0x00, 0x00],
    });
    let rec = build_write_record(
        Some(&bank),
        Some(id),
        None,
        None,
        "03",
        Some(2),
        &obj(&[("open", flag(true))]),
    )
    .expect("zone merge must succeed");
    assert_eq!(rec.reg, RegId::new(0x03));
    assert_eq!(rec.data[0], 2, "zone must be stamped into wire byte 0");
    assert_eq!(rec.data[1], 0xE4, "open set by client, damper preserved");
    assert_eq!(rec.data[3], 0x30, "target_temp_c preserved from the bank");
}

#[test]
fn build_write_record_sparse_typed_merge_no_bank_state() {
    let bank = RegisterBank::new();
    let id = UnitId::try_new(0x0_ABCDE).unwrap();
    let err = build_write_record(
        Some(&bank),
        Some(id),
        None,
        None,
        "05",
        None,
        &obj(&[("power", word("on"))]),
    )
    .expect_err("no bank state must be rejected");
    assert_eq!(
        err,
        "no bank state for register 05; send a full payload or issue a read first"
    );

    let err = build_write_record(
        Some(&bank),
        Some(id),
        None,
        None,
        "03",
        Some(2),
        &obj(&[("open", flag(true))]),
    )
    .expect_err("no zone bank state must be rejected");
    assert_eq!(
        err,
        "no bank state for register 03 [zone 2]; send a full payload or issue a read first"
    );
}

#[test]
fn build_write_record_sparse_typed_merge_undecodable_bank() {
    let mut bank = RegisterBank::new();
    let id = UnitId::try_new(0x0_ABCDE).unwrap();
    bank.apply(&CanRecord {
        unit_type: UnitType::aircon(),
        dest: Dest::Tablet,
        unit_id: id,
        reg: RegId::new(0x05),
        data: [0x7f, 0x01, 0x03, 0x30, 0x00, 0x01, 0x00],
    });
    let err = build_write_record(
        Some(&bank),
        Some(id),
        None,
        None,
        "05",
        None,
        &obj(&[("power", word("on"))]),
    )
    .expect_err("undecodable bank must be rejected");
    assert_eq!(
        err,
        "cannot merge: bank state for register 05 is not typed; send a full payload or issue a read first"
    );
}

#[test]
fn build_write_record_rejects_non_object_typed_payload() {
    let mut bank = RegisterBank::new();
    let id = UnitId::try_new(0x0_ABCDE).unwrap();
    seed_reg05(&mut bank, id);
    let err = build_write_record(
        Some(&bank),
        Some(id),
        None,
        None,
        "05",
        None,
        &Payload::Null,
    )
    .expect_err("non-object typed payload must be rejected");
    assert!(
        err.starts_with("bad register payload: "),
        "expected BadPayload reason, got {err:?}"
    );
    assert_eq!(
        err,
        "bad register payload: invalid type: null, expected struct SystemStatusDto"
    );
}

#[test]
fn a_list_of_values_cannot_be_completed() {
    let mut bank = RegisterBank::new();
    let id = UnitId::try_new(0x0_ABCDE).unwrap();
    seed_reg05(&mut bank, id);
    let values = Payload::List(vec![
        Field::Number(Number::Integer(1)),
        Field::Number(Number::Integer(2)),
        Field::Number(Number::Integer(3)),
    ]);
    assert_eq!(
        build_write_record(Some(&bank), Some(id), None, None, "26", None, &values),
        Err("bad register payload: expected an object".to_owned())
    );
}

#[test]
fn build_write_record_sparse_typed_merge_reg12_write_shape() {
    let mut bank = RegisterBank::new();
    let id = UnitId::try_new(0x0_ABCDE).unwrap();
    bank.apply(&CanRecord {
        unit_type: UnitType::aircon(),
        dest: Dest::Tablet,
        unit_id: id,
        reg: RegId::new(0x12),
        data: [0x01, 0x61, 0x3d, 0x00, 0x05, 0x00, 0x00],
    });
    let rec = build_write_record(
        Some(&bank),
        Some(id),
        None,
        None,
        "12",
        None,
        &obj(&[("zone", num(1))]),
    )
    .expect("reg-12 merge must succeed");
    assert_eq!(
        rec.data,
        [0x01, 0x61, 0x3d, 0x01, 0x00, 0x00, 0x00],
        "uid from bank, zone from client, write shape"
    );
}

#[test]
fn power_off_records_preserves_bytes_with_power_off() {
    let mut bank = RegisterBank::new();
    let id = UnitId::try_new(0x0_ABCDE).unwrap();
    bank.apply(&aircon_reg05(
        id,
        [0x01, 0x02, 0x03, 0x30, 0x00, 0x01, 0x00],
    ));

    let records = power_off_records(&bank);
    assert_eq!(records.len(), 1);
    let rec = &records[0];
    assert_eq!(rec.unit_type, UnitType::aircon());
    assert_eq!(rec.dest, Dest::ControlBox);
    assert_eq!(rec.unit_id, id);
    assert_eq!(rec.reg, RegId::new(0x05));
    assert_eq!(
        rec.data,
        [0x00, 0x02, 0x03, 0x30, 0x00, 0x01, 0x00],
        "power byte flipped to Off, every other byte preserved"
    );
}

#[test]
fn power_off_records_skips_units_without_reg05() {
    let mut bank = RegisterBank::new();
    let with_status = UnitId::try_new(0x0_00001).unwrap();
    let without_status = UnitId::try_new(0x0_00002).unwrap();
    bank.apply(&aircon_reg05(
        with_status,
        [0x01, 0x01, 0x03, 0x30, 0x00, 0x01, 0x00],
    ));
    bank.apply(&CanRecord {
        unit_type: UnitType::aircon(),
        dest: Dest::Tablet,
        unit_id: without_status,
        reg: RegId::new(0x06),
        data: [0; 7],
    });

    let records = power_off_records(&bank);
    assert_eq!(records.len(), 1);
    assert_eq!(records[0].unit_id, with_status);

    let mut bank = RegisterBank::new();
    bank.apply(&CanRecord {
        unit_type: UnitType::aircon(),
        dest: Dest::Tablet,
        unit_id: without_status,
        reg: RegId::new(0x06),
        data: [0; 7],
    });
    assert!(power_off_records(&bank).is_empty());
}

#[test]
fn power_off_records_ignores_non_aircon_units() {
    let mut bank = RegisterBank::new();
    let id = UnitId::try_new(0x0_ABCDE).unwrap();
    bank.apply(&CanRecord {
        unit_type: UnitType::new(0x08),
        dest: Dest::Tablet,
        unit_id: id,
        reg: RegId::new(0x05),
        data: [0x01, 0x01, 0x03, 0x30, 0x00, 0x01, 0x00],
    });
    assert!(
        power_off_records(&bank).is_empty(),
        "a non-AIRCON unit's reg-05 status must never be powered off"
    );
}

#[test]
fn power_off_records_empty_bank_yields_empty_vec() {
    let bank = RegisterBank::new();
    assert!(power_off_records(&bank).is_empty());
}

fn key(reg: u8, zone: Option<u8>) -> BankKey {
    BankKey {
        unit_type: UnitType::aircon(),
        unit_id: UnitId::try_new(0x0_181F3).unwrap(),
        reg: RegId::new(reg),
        zone,
    }
}

#[test]
fn pending_reads_resolve_returns_all_msg_ids_for_key() {
    let mut pending = PendingReads::with_timeout(5_000);
    let plain = key(0x05, None);
    assert_eq!(pending.resolve(plain), Vec::<String>::new(), "absent key");

    pending.push(plain, "r1".to_owned(), 0);
    pending.push(plain, "r2".to_owned(), 0);
    assert_eq!(pending.resolve(plain), vec!["r1", "r2"]);
    assert_eq!(
        pending.resolve(plain),
        Vec::<String>::new(),
        "resolved key is removed"
    );

    let zoned = key(0x03, Some(2));
    pending.push(zoned, "r3".to_owned(), 0);
    assert_eq!(pending.resolve(zoned), vec!["r3"]);
}

#[test]
fn pending_acks_next_deadline_returns_earliest() {
    let now = 1_000;
    let mut pending = PendingAcks::with_timeout(60_000);
    assert_eq!(pending.next_deadline(), None, "empty");

    pending.push("a".to_owned(), now);
    let earliest = pending.next_deadline().expect("single deadline");
    assert!(earliest > now, "deadline lies in the future");

    pending.push("b".to_owned(), now + 1);
    pending.push("c".to_owned(), now + 2);
    assert_eq!(pending.next_deadline(), Some(earliest));
}

#[test]
fn pending_reads_next_deadline_returns_earliest() {
    let now = 1_000;
    let mut pending = PendingReads::with_timeout(60_000);
    assert_eq!(pending.next_deadline(), None, "empty");

    let plain = key(0x05, None);
    pending.push(plain, "r1".to_owned(), now);
    let earliest = pending.next_deadline().expect("single deadline");
    assert!(earliest > now, "deadline lies in the future");

    pending.push(plain, "r2".to_owned(), now + 1);
    pending.push(key(0x03, Some(2)), "r3".to_owned(), now + 2);
    assert_eq!(pending.next_deadline(), Some(earliest));
}

#[test]
fn idle_deadline_saturates_on_overflowing_duration() {
    let now = 5_000;
    let saturated = idle_deadline(now, u64::MAX);
    let fine = idle_deadline(now, 100);
    assert!(
        saturated >= now,
        "saturated deadline must still be in the future"
    );
    assert_eq!(saturated, u64::MAX);
    assert_eq!(fine - now, 100);
}

#[test]
fn mock_path_never_selects_aoa_accessory() {
    assert!(mock_backend_avoids_accessory(Backend::Mock));
    assert!(!mock_backend_avoids_accessory(Backend::Aoa));
    assert_eq!(AOA_DEFAULT_PATH, "/dev/usb_accessory");
}

#[test]
fn channel_bound_is_32() {
    assert_eq!(CHANNEL_BOUND, 32);
}

#[test]
fn mock_backend_does_not_open_usb_accessory() {
    assert!(mock_backend_avoids_accessory(Backend::Mock));
    assert!(!mock_backend_avoids_accessory(Backend::Aoa));
}

/// A mailbox with the status of one unit.
fn single_aircon_bank() -> RegisterBank {
    let mut bank = RegisterBank::new();
    bank.apply(&aircon_reg05(
        UnitId::try_new(0x0_ABCDE).unwrap(),
        [0x01, 0x01, 0x03, 0x30, 0x00, 0x01, 0x00],
    ));
    bank
}

fn write_message(msg_id: &str, payload: Payload) -> ClientMessage {
    ClientMessage::Write {
        msg_id: msg_id.to_owned(),
        unit_type: None,
        unit_id: None,
        register: "05".to_owned(),
        zone: None,
        payload,
    }
}

fn success(msg_id: &str) -> ServerMessage {
    ServerMessage::Ack {
        msg_id: msg_id.to_owned(),
        status: AckStatus::Success,
        reason: None,
    }
}

fn failure(msg_id: &str, reason: &str) -> ServerMessage {
    ServerMessage::Ack {
        msg_id: msg_id.to_owned(),
        status: AckStatus::Error,
        reason: Some(reason.to_owned()),
    }
}

fn command(msg_id: &str, action: &str) -> ClientMessage {
    ClientMessage::Command {
        msg_id: msg_id.to_owned(),
        action: action.to_owned(),
    }
}

fn read_message(msg_id: &str, register: &str, zone: Option<u8>) -> ClientMessage {
    ClientMessage::Read {
        msg_id: msg_id.to_owned(),
        unit_type: None,
        unit_id: None,
        register: register.to_owned(),
        zone,
    }
}

#[test]
fn writes_are_acknowledged_once_they_are_transmitted() {
    let bank = single_aircon_bank();
    let mut session = ClientSession::new(SessionTimeouts::default());
    for id in ["b", "a", "c"] {
        let request = handle_client_message(
            Some(&bank),
            None,
            write_message(id, obj(&[("power", word("off"))])),
        );
        let Request::Queue { cmd, waiting } = request else {
            panic!("expected a command");
        };
        let EngineCmd::WriteRegisters(records) = cmd else {
            panic!("expected a write");
        };
        assert_eq!(records.len(), 1);
        assert_eq!(records[0].data, [0x00, 0x01, 0x03, 0x30, 0x00, 0x01, 0x00]);
        assert_eq!(session.on_queued(waiting, None, 100), None);
    }
    assert_eq!(session.next_deadline(), Some(10_100));
    let flushed = WsEvent::Engine(EngineEvent::WriteFlushed);
    assert_eq!(
        session.on_event(&flushed),
        vec![success("a"), success("b"), success("c")]
    );
    assert!(session.on_event(&flushed).is_empty());
    assert_eq!(session.next_deadline(), None);
}

#[test]
fn silent_bus_times_requests_out_once() {
    let bank = single_aircon_bank();
    let mut session = ClientSession::new(SessionTimeouts::default());
    let Request::Queue { waiting, .. } = handle_client_message(
        Some(&bank),
        None,
        write_message("w", raw("01010330000100")),
    ) else {
        panic!("expected a command");
    };
    assert_eq!(session.on_queued(waiting, None, 0), None);
    let Request::Queue { cmd, waiting } =
        handle_client_message(Some(&bank), None, read_message("r", "05", Some(9)))
    else {
        panic!("expected a command");
    };
    let EngineCmd::ReadRegister { zone, reg, .. } = cmd else {
        panic!("expected a read");
    };
    assert_eq!((reg.get(), zone), (0x05, None), "zone of a plain register is ignored");
    assert_eq!(session.on_queued(waiting, None, 1_000), None);

    assert_eq!(session.next_deadline(), Some(6_000));
    assert!(session.on_time(5_999).is_empty());
    assert_eq!(session.on_time(6_000), vec![failure("r", "read timeout")]);
    assert_eq!(session.next_deadline(), Some(10_000));
    assert_eq!(session.on_time(10_000), vec![failure("w", "write timeout")]);
    assert!(session.on_time(u64::MAX).is_empty());
}

#[test]
fn report_answers_all_reads_of_its_register() {
    let bank = single_aircon_bank();
    let unit_id = UnitId::try_new(0x0_ABCDE).unwrap();
    let mut session = ClientSession::new(SessionTimeouts::default());
    for (id, register) in [("r1", "05"), ("r2", "02"), ("r3", "05")] {
        let Request::Queue { waiting, .. } =
            handle_client_message(Some(&bank), None, read_message(id, register, None))
        else {
            panic!("expected a command");
        };
        assert_eq!(session.on_queued(waiting, None, 0), None);
    }
    let report = |reg: u8, data: Option<[u8; 7]>| {
        WsEvent::Engine(EngineEvent::RegisterRead {
            unit_type: UnitType::aircon(),
            unit_id,
            reg: RegId::new(reg),
            zone: None,
            data,
        })
    };
    let answers = session.on_event(&report(0x05, Some([0x01, 0x01, 0x03, 0x30, 0, 1, 0])));
    let ids: Vec<&str> = answers
        .iter()
        .map(|m| match m {
            ServerMessage::ReadResult { msg_id, .. } => msg_id.as_str(),
            other => panic!("expected a read result, got {other:?}"),
        })
        .collect();
    assert_eq!(ids, vec!["r1", "r3"]);
    assert_eq!(
        session.on_event(&report(0x02, None)),
        vec![failure("r2", "register 02 has no value")]
    );
    assert!(session.on_event(&report(0x05, None)).is_empty());
}

#[test]
fn requests_that_cannot_be_served_are_answered_at_once() {
    let bank = single_aircon_bank();
    let answer = |msg: ClientMessage| match handle_client_message(Some(&bank), None, msg) {
        Request::Answer(m) => m,
        other => panic!("expected an answer, got {other:?}"),
    };
    assert_eq!(
        answer(command("c1", "flush_unit")),
        failure("c1", "flush_unit not implemented yet")
    );
    assert_eq!(
        answer(command("c2", "dance")),
        failure("c2", "unknown action: dance")
    );
    assert_eq!(
        answer(read_message("r", "09", None)),
        failure("r", "register 09 is write-only")
    );
    assert_eq!(
        answer(write_message("w", obj(&[("rf_sys_id", num(1))]))),
        failure("w", "field 'rf_sys_id' is read-only on register 05")
    );
    assert_eq!(
        handle_client_message(None, None, write_message("w", raw("01010330000100"))).is_refusal(),
        Some("no primary unit available".to_owned())
    );
}

trait Refusal {
    fn is_refusal(&self) -> Option<String>;
}

impl Refusal for Request {
    fn is_refusal(&self) -> Option<String> {
        match self {
            Request::Answer(ServerMessage::Ack {
                status: AckStatus::Error,
                reason,
                ..
            }) => reason.clone(),
            _ => None,
        }
    }
}

#[test]
fn resync_is_acknowledged_when_it_is_queued() {
    let mut session = ClientSession::new(SessionTimeouts::default());
    let Request::Queue { cmd, waiting } =
        handle_client_message(None, None, command("c", "resync"))
    else {
        panic!("expected a command");
    };
    assert!(matches!(cmd, EngineCmd::ResyncMailbox));
    assert_eq!(
        session.on_queued(waiting.clone(), None, 0),
        Some(success("c"))
    );
    assert_eq!(
        session.on_queued(waiting, Some("channel closed".to_owned()), 0),
        Some(failure("c", "channel closed"))
    );
}

#[test]
fn only_the_end_of_the_events_ends_a_session() {
    assert!(session_goes_on(StreamOutcome::Delivered));
    assert!(session_goes_on(StreamOutcome::Lagged));
    assert!(!session_goes_on(StreamOutcome::Closed));
}

#[test]
fn frames_lead_to_steps() {
    assert_eq!(frame_step(ClientFrame::Text), FrameStep::Handle);
    assert_eq!(frame_step(ClientFrame::Ping), FrameStep::Pong);
    assert_eq!(frame_step(ClientFrame::Pong), FrameStep::Ignore);
    assert_eq!(frame_step(ClientFrame::Closed), FrameStep::End);
    assert_eq!(frame_step(ClientFrame::Failed), FrameStep::End);
    assert_eq!(
        frame_step(ClientFrame::Binary),
        FrameStep::Reply(ServerMessage::Error {
            message: "binary frames not supported".to_owned(),
            reason: None,
        })
    );
    assert_eq!(waiting_step(ClientFrame::Text), FrameStep::Ignore);
    assert_eq!(waiting_step(ClientFrame::Binary), FrameStep::Ignore);
    assert_eq!(waiting_step(ClientFrame::Ping), FrameStep::Pong);
    assert_eq!(waiting_step(ClientFrame::Closed), FrameStep::End);
    assert_eq!(
        invalid_message("eof".to_owned()),
        ServerMessage::Error {
            message: "invalid client message".to_owned(),
            reason: Some("eof".to_owned()),
        }
    );
}

#[test]
fn state_is_told_on_connect_and_when_it_changed() {
    assert_eq!(
        connect_status(StatusState::Resyncing),
        ServerMessage::Status {
            state: StatusState::Resyncing,
            detail: None,
        }
    );
    assert_eq!(
        changed_status(StatusState::Synced, StatusState::Synced),
        None
    );
    assert_eq!(
        changed_status(StatusState::Negotiating, StatusState::Synced),
        Some(connect_status(StatusState::Synced))
    );
}

#[test]
fn hub_holds_the_current_mailbox() {
    let mut hub = Hub::new();
    assert_eq!(hub.status, StatusState::Negotiating);
    let change = aircon_reg05(UnitId::try_new(0x0_ABCDE).unwrap(), [0; 7]);
    let heard = hub.on_event(EngineEvent::RegistersChanged {
        records: vec![change],
    });
    assert_eq!(heard.len(), 1);
    assert!(hub.held.is_none(), "nothing is held before the dump");

    let heard = hub.on_event(EngineEvent::Snapshot {
        bank: single_aircon_bank(),
        can_records: None,
    });
    assert!(matches!(
        heard.as_slice(),
        [WsEvent::Engine(EngineEvent::Snapshot { .. })]
    ));
    let _ = hub.on_event(EngineEvent::RegistersChanged {
        records: vec![change],
    });
    let held = hub.held.as_ref().unwrap();
    assert_eq!(
        held.get(change.unit_type, change.unit_id, change.reg),
        Some([0; 7])
    );
}

#[test]
fn hub_turns_states_into_status() {
    let mut hub = Hub::new();
    let heard = hub.on_event(EngineEvent::SessionState(SessionState::Synced));
    assert!(matches!(
        heard.as_slice(),
        [WsEvent::Status {
            state: StatusState::Synced,
            detail: None
        }]
    ));
    assert_eq!(hub.status, StatusState::Synced);
    let heard = hub.on_event(EngineEvent::LinkError("gone".to_owned()));
    let [WsEvent::Engine(EngineEvent::LinkError(text)), WsEvent::Status { state, detail }] =
        heard.as_slice()
    else {
        panic!("expected an error and a status");
    };
    assert_eq!(text, "gone");
    assert_eq!(*state, StatusState::LinkDown);
    assert_eq!(detail.as_deref(), Some("gone"));
    assert_eq!(hub.status, StatusState::Synced, "the state event moves it");
}

#[test]
fn watchdog_arms_fires_and_disarms() {
    assert_eq!(Watchdog::start(0, 0, 0, 60_000), None, "zero disables it");
    let mut dog = Watchdog::start(0, 1_000, 500, 60).unwrap();
    assert_eq!(dog.deadline, Some(1_500), "armed at the start");
    dog.on_clients(0, 1_200);
    assert_eq!(dog.deadline, Some(1_500), "a repeated zero moves nothing");
    assert!(dog.on_deadline(0, 1_500));
    assert_eq!(dog.deadline, Some(1_560), "next attempt");
    dog.on_clients(1, 1_530);
    assert_eq!(dog.deadline, None);
    dog.on_clients(0, 2_000);
    assert_eq!(dog.deadline, Some(2_500), "full time anew");
    assert!(!dog.on_deadline(1, 2_500), "a client that races wins");
    assert_eq!(dog.deadline, None);
    assert_eq!(Watchdog::start(2, 0, 500, 60).unwrap().deadline, None);
}

#[test]
fn idle_power_off_needs_a_status() {
    assert_eq!(idle_power_off(None), None);
    assert_eq!(idle_power_off(Some(&RegisterBank::new())), None);
    let records = idle_power_off(Some(&single_aircon_bank())).unwrap();
    assert_eq!(records.len(), 1);
    assert_eq!(records[0].data, [0x00, 0x01, 0x03, 0x30, 0x00, 0x01, 0x00]);
}

#[test]
fn silent_clients_are_closed() {
    let mut live = Liveness::start(0, 30_000, 75_000);
    assert_eq!(live.next_deadline(), 30_000);
    assert_eq!(live.on_time(29_999), LivenessStep::Wait);
    assert_eq!(live.on_time(30_000), LivenessStep::Ping);
    live.on_heard(30_010);
    assert_eq!(live.on_time(60_000), LivenessStep::Ping);
    assert_eq!(live.on_time(90_000), LivenessStep::Ping);
    assert_eq!(live.next_deadline(), 105_010);
    assert_eq!(live.on_time(105_010), LivenessStep::Close);
    assert_eq!(snapshot_overdue(0, 14_999, 15_000), None);
    assert_eq!(
        snapshot_overdue(0, 15_000, 15_000),
        Some(connect_status(StatusState::LinkDown))
    );
}

#[test]
fn clients_name_units_by_their_digits() {
    let bank = single_aircon_bank();
    assert_eq!(
        resolve_unit(Some(&bank), None, Some("7"), None),
        Err("invalid unit_type: BadHex".to_owned())
    );
    assert_eq!(
        resolve_unit(Some(&bank), None, None, Some("xyzzy")),
        Err("invalid unit_id: BadHex".to_owned())
    );
    let other = UnitId::from_hex("00042").unwrap();
    assert_eq!(
        resolve_unit(Some(&bank), None, None, Some("00042")),
        Ok((UnitType::aircon(), other)),
        "an unknown id goes to the main type"
    );
    assert_eq!(
        resolve_unit(None, Some(other), Some("02"), None),
        Ok((UnitType::new(0x02), other))
    );
}

#[test]
fn empty_write_keeps_the_value() {
    let bank = single_aircon_bank();
    let record =
        build_write_record(Some(&bank), None, None, None, "05", None, &obj(&[])).unwrap();
    assert_eq!(record.data, [0x01, 0x01, 0x03, 0x30, 0x00, 0x01, 0x00]);
    assert_eq!(record.dest, Dest::ControlBox);
}

#[test]
fn snapshots_and_changes_are_told() {
    let mut session = ClientSession::new(SessionTimeouts::default());
    let bank = single_aircon_bank();
    let told = session.on_event(&WsEvent::Engine(EngineEvent::Snapshot {
        bank: bank.clone(),
        can_records: None,
    }));
    assert_eq!(told, vec![snapshot_message(&bank)]);
    let record = CanRecord::parse_one("07031111116a1b2c3d4e5f607").unwrap();
    let told = session.on_event(&WsEvent::Engine(EngineEvent::RegistersChanged {
        records: vec![record, record],
    }));
    assert_eq!(told, vec![event_message(&record), event_message(&record)]);
    let told = session.on_event(&WsEvent::Status {
        state: StatusState::LinkDown,
        detail: Some("gone".to_owned()),
    });
    assert_eq!(
        told,
        vec![ServerMessage::Status {
            state: StatusState::LinkDown,
            detail: Some("gone".to_owned()),
        }]
    );
    assert!(session
        .on_event(&WsEvent::Engine(EngineEvent::ProtocolWarn("odd".to_owned())))
        .is_empty());
}

#[test]
fn only_dumps_and_changes_renew_the_mailbox() {
    let record = CanRecord::parse_one("0703abcde0601020300000000").unwrap();
    assert!(renews_mailbox(&EngineEvent::Snapshot {
        bank: RegisterBank::new(),
        can_records: None,
    }));
    assert!(renews_mailbox(&EngineEvent::RegistersChanged {
        records: vec![record],
    }));
    assert!(!renews_mailbox(&EngineEvent::RegistersChanged {
        records: vec![],
    }));
    assert!(!renews_mailbox(&EngineEvent::WriteFlushed));
    assert!(!renews_mailbox(&EngineEvent::LinkError("gone".to_owned())));
}

#[test]
fn words_of_outcomes_and_states() {
    assert_eq!(AckStatus::Success.as_word(), "success");
    assert_eq!(AckStatus::Error.as_word(), "error");
    assert_eq!(StatusState::Negotiating.as_word(), "negotiating");
    assert_eq!(StatusState::Synced.as_word(), "synced");
    assert_eq!(StatusState::Resyncing.as_word(), "resyncing");
    assert_eq!(StatusState::LinkDown.as_word(), "link_down");
}
