use cb_daemon::crc::crc8;
use cb_daemon::engine::event::{EngineCmd, EngineEvent};
use cb_daemon::engine::session::{Session, State};
use cb_daemon::engine::wire::{
    build_jz18, build_set_can, is_get_can_nack, is_ping, parse_get_can, ACK_CAN, ACK_CAN_ZERO,
    DIRTY_RESET_SET_CAN, DUMP_SET_CAN, EMPTY_SET_CAN, GET_SYSTEM_DATA, PING,
};
use cb_daemon::registers::ids::{RegId, UnitId, UnitType};
use cb_daemon::registers::wire::{CanRecord, Dest, WireError};

#[test]
fn golden_payload_crcs() {
    assert_eq!(crc8(PING.as_bytes()), 0xdb);
    assert_eq!(crc8(GET_SYSTEM_DATA.as_bytes()), 0x15);
    assert_eq!(crc8(EMPTY_SET_CAN.as_bytes()), 0xb2);
    assert_eq!(crc8(ACK_CAN.as_bytes()), 0xaa);
    assert_eq!(crc8(DUMP_SET_CAN.as_bytes()), 0x9c);
    assert_eq!(crc8(DIRTY_RESET_SET_CAN.as_bytes()), 0x6a);
}

#[test]
fn dirty_reset_matches_aaservice_seed_token() {
    assert_eq!(DIRTY_RESET_SET_CAN, "setCAN 0701000000600000000000000");
    assert_eq!(crc8(b"setCAN 0701000000600000000000000"), 0x6a);
}

#[test]
fn dump_matches_stock_myair5_unit08_flush_tokens() {
    assert_eq!(
        DUMP_SET_CAN,
        "setCAN 0801000000600000000000000 0801000000236000000000000"
    );
}

#[test]
fn is_ping_exact() {
    assert!(is_ping(b"Ping"));
    assert!(!is_ping(b"Ping "));
    assert!(!is_ping(b"ping"));
}

#[test]
fn is_get_can_nack_polarity() {
    assert!(is_get_can_nack(b"getCAN 0"));
    assert!(is_get_can_nack(b"getCAN 0000"));
    assert!(!is_get_can_nack(b"getCAN 1"));
    assert!(!is_get_can_nack(b"getCAN 1 0703abcde0501010330000100"));
    assert!(!is_get_can_nack(b"CAN2 in use"));
}

#[test]
fn parse_get_can_skips_lone_one() {
    let payload = b"getCAN 1 0703abcde0120030101000000 0703abcde0501010330000100";
    let records = parse_get_can(payload).unwrap();
    assert_eq!(records.len(), 2);
    assert_eq!(records[0].reg.get(), 0x01);
    assert_eq!(records[1].reg.get(), 0x05);
}

#[test]
fn parse_get_can_requires_prefix() {
    assert!(matches!(
        parse_get_can(b"0703abcde0120030101000000"),
        Err(WireError::Incomplete)
    ));
}

#[test]
fn build_set_can_joins_records() {
    let r = CanRecord {
        unit_type: UnitType::new(0x07),
        dest: Dest::ControlBox,
        unit_id: UnitId::try_new(0).unwrap(),
        reg: RegId::new(0x06),
        data: [0; 7],
    };
    let bytes = build_set_can(std::slice::from_ref(&r));
    assert_eq!(bytes, b"setCAN 0701000000600000000000000");
    let two = build_set_can(&[r.clone(), r]);
    assert_eq!(
        two,
        b"setCAN 0701000000600000000000000 0701000000600000000000000"
    );
}

#[test]
fn build_set_can_empty_matches_empty_poll_prefix() {
    assert_eq!(build_set_can(&[]), EMPTY_SET_CAN.as_bytes());
}

fn sample_record() -> CanRecord {
    CanRecord {
        unit_type: UnitType::new(0x07),
        dest: Dest::Tablet,
        unit_id: UnitId::try_new(0x0_11111).unwrap(),
        reg: RegId::new(0x05),
        data: [0x01, 0x01, 0x03, 0x30, 0x00, 0x01, 0x00],
    }
}

fn live_unit_reg06() -> CanRecord {
    CanRecord {
        unit_type: UnitType::aircon(),
        dest: Dest::Tablet,
        unit_id: UnitId::try_new(0x0_11111).unwrap(),
        reg: RegId::new(0x06),
        data: [0; 7],
    }
}

fn get_can_payload(records: &[CanRecord]) -> Vec<u8> {
    let mut s = String::from("getCAN 1");
    for r in records {
        s.push(' ');
        s.push_str(&r.to_wire());
    }
    s.into_bytes()
}

fn advance_to_dump(s: &mut Session) {
    assert_eq!(s.on_ping().expect("negotiate"), GET_SYSTEM_DATA.as_bytes());
    let ev = s.on_frame(b"CAN2 in use");
    assert!(matches!(ev.as_slice(), [EngineEvent::Negotiated { .. }]));
    assert_eq!(s.state, State::RequestDump);
    assert!(s.can_in_use);
    assert_eq!(s.on_ping().expect("dirty reset"), DIRTY_RESET_SET_CAN.as_bytes());
    let ev = s.on_frame(&get_can_payload(std::slice::from_ref(&live_unit_reg06())));
    assert!(ev.is_empty(), "reset response must not emit events");
    assert_eq!(s.on_ping().expect("ack reset"), ACK_CAN.as_bytes());
    assert!(!s.dump_sent);
}

fn advance_to_steady(s: &mut Session, dump_records: &[CanRecord]) {
    advance_to_dump(s);
    assert_eq!(s.on_ping().expect("dump"), DUMP_SET_CAN.as_bytes());
    let ev = s.on_frame(&get_can_payload(dump_records));
    assert!(
        ev.iter().any(|e| matches!(e, EngineEvent::Snapshot { .. })),
        "expected Snapshot, got {ev:?}"
    );
    assert_eq!(s.state, State::Steady);
    assert!(!s.can_in_use);
    assert!(s.ack_armed);
    assert_eq!(s.on_ping().expect("ack after dump"), ACK_CAN.as_bytes());
}

#[test]
fn expect_can2_retries_get_system_data_until_can2() {
    let mut s = Session::new();
    assert_eq!(s.on_ping().unwrap(), GET_SYSTEM_DATA.as_bytes());
    assert_eq!(s.on_ping().unwrap(), GET_SYSTEM_DATA.as_bytes());
    assert_eq!(s.state, State::ExpectCan2);
    assert_eq!(s.on_ping().unwrap(), GET_SYSTEM_DATA.as_bytes());
    let ev = s.on_frame(b"CAN2 in use");
    assert!(matches!(ev.as_slice(), [EngineEvent::Negotiated { .. }]));
    assert_eq!(s.state, State::RequestDump);
    assert_eq!(s.on_ping().unwrap(), DIRTY_RESET_SET_CAN.as_bytes());
    assert_eq!(s.on_ping().unwrap(), DUMP_SET_CAN.as_bytes());
    assert!(s.on_ping().is_none(), "must not dump twice before getCAN");
}

#[test]
fn can2_then_dump_like_stock_seeded_flush() {
    let mut s = Session::new();
    advance_to_dump(&mut s);
    assert_eq!(s.on_ping().expect("dump"), DUMP_SET_CAN.as_bytes());

    let dump_rec = live_unit_reg06();
    let ev = s.on_frame(&get_can_payload(std::slice::from_ref(&dump_rec)));
    assert!(ev.iter().any(|e| matches!(e, EngineEvent::Snapshot { .. })));
    assert_eq!(s.state, State::Steady);
    assert_eq!(s.on_ping().unwrap(), ACK_CAN.as_bytes());
    assert_eq!(
        s.bank
            .get(dump_rec.unit_type, dump_rec.unit_id, dump_rec.reg),
        Some(dump_rec.data)
    );
}

#[test]
fn dump_get_can_arms_ack_then_empty_set_can_poll() {
    let mut s = Session::new();
    advance_to_steady(&mut s, &[sample_record()]);
    let jz18 = build_jz18(UnitType::aircon(), live_unit_reg06().unit_id);
    assert_eq!(
        s.on_ping().unwrap(),
        build_set_can(std::slice::from_ref(&jz18))
    );
    assert_eq!(s.on_ping().unwrap(), EMPTY_SET_CAN.as_bytes());
}

#[test]
fn dump_can_records_include_real_system_status() {
    let mut s = Session::new();
    advance_to_dump(&mut s);
    assert_eq!(s.on_ping().unwrap(), DUMP_SET_CAN.as_bytes());
    let rec = sample_record();
    let ev = s.on_frame(&get_can_payload(std::slice::from_ref(&rec)));
    let Some(EngineEvent::Snapshot {
        can_records: Some(recs),
        ..
    }) = ev
        .into_iter()
        .find(|e| matches!(e, EngineEvent::Snapshot { .. }))
    else {
        panic!("expected Snapshot with can_records");
    };
    assert!(
        recs.iter().any(|r| &r[9..11] == "05"),
        "can_records must include the real reg 05: {recs:?}"
    );
}

#[test]
fn reg05_machinery_skipped_on_08_only_bank() {
    let mut s = Session::new();
    s.state = State::RequestDump;
    s.dump_sent = true;
    let rf = CanRecord {
        unit_type: UnitType::new(0x08),
        dest: Dest::Tablet,
        unit_id: UnitId::try_new(0x0_0ABCD).unwrap(),
        reg: RegId::new(0x03),
        data: [0x01, 0xe4, 0x01, 0x2c, 0x14, 0x05, 0x00],
    };
    let ev = s.on_frame(&get_can_payload(std::slice::from_ref(&rf)));
    let Some(EngineEvent::Snapshot {
        bank,
        can_records: Some(recs),
    }) = ev
        .into_iter()
        .find(|e| matches!(e, EngineEvent::Snapshot { .. }))
    else {
        panic!("expected Snapshot with can_records");
    };
    assert_eq!(s.state, State::Steady);
    assert!(
        bank.get(UnitType::aircon(), rf.unit_id, RegId::new(0x05))
            .is_none(),
        "no AIRCON-typed reg 05 may be fabricated for an 08 id"
    );
    assert!(
        !bank.has_unit(UnitType::aircon(), rf.unit_id),
        "no phantom AIRCON unit may appear"
    );
    assert!(
        recs.iter().all(|r| &r[9..11] != "05"),
        "can_records must not include reg 05 on an 08-only bank: {recs:?}"
    );
    assert!(
        s.write_queue.is_empty(),
        "no AIRCON-typed setCAN may be queued for an 08 id"
    );
    assert_eq!(s.on_ping().unwrap(), ACK_CAN.as_bytes());
    assert_eq!(s.on_ping().unwrap(), EMPTY_SET_CAN.as_bytes());
}

#[test]
fn snapshot_can_records_include_non_aircon_unit_records() {
    let mut s = Session::new();
    advance_to_dump(&mut s);
    assert_eq!(s.on_ping().unwrap(), DUMP_SET_CAN.as_bytes());
    let aircon = live_unit_reg06();
    let rf = CanRecord {
        unit_type: UnitType::new(0x08),
        dest: Dest::Unknown(0x03),
        unit_id: UnitId::try_new(0x0_0F0F0).unwrap(),
        reg: RegId::new(0x06),
        data: [0; 7],
    };
    let ev = s.on_frame(&get_can_payload(&[aircon, rf]));
    let Some(EngineEvent::Snapshot {
        can_records: Some(recs),
        ..
    }) = ev
        .into_iter()
        .find(|e| matches!(e, EngineEvent::Snapshot { .. }))
    else {
        panic!("expected Snapshot with can_records");
    };
    assert!(
        recs.iter().any(|r| &r[0..2] == "08"),
        "can_records must include the 08 record: {recs:?}"
    );
    assert!(recs.iter().any(|r| &r[0..2] == "07"));
}

#[test]
fn dump_without_reg05_fabricates_nothing_and_queues_unit_flush() {
    let mut s = Session::new();
    advance_to_dump(&mut s);
    assert_eq!(s.on_ping().unwrap(), DUMP_SET_CAN.as_bytes());
    let zone = CanRecord {
        unit_type: UnitType::aircon(),
        dest: Dest::Unknown(0x03),
        unit_id: UnitId::try_new(0x0_11111).unwrap(),
        reg: RegId::new(0x03),
        data: [0x01, 0xe4, 0x01, 0x2c, 0x14, 0x05, 0x00],
    };
    let live = live_unit_reg06();
    let ev = s.on_frame(&get_can_payload(&[live.clone(), zone]));
    let Some(EngineEvent::Snapshot {
        bank,
        can_records: Some(recs),
    }) = ev
        .into_iter()
        .find(|e| matches!(e, EngineEvent::Snapshot { .. }))
    else {
        panic!("expected Snapshot with can_records");
    };
    assert!(
        bank.get(UnitType::aircon(), live.unit_id, RegId::new(0x05))
            .is_none(),
        "no reg 05 may be fabricated when the dump omitted it"
    );
    assert!(
        recs.iter().all(|r| &r[9..11] != "05"),
        "can_records must not fabricate reg 05: {recs:?}"
    );
    assert!(recs.iter().any(|r| &r[9..11] == "03"));
    assert!(recs.iter().any(|r| &r[9..11] == "06"));
    assert_eq!(s.on_ping().unwrap(), ACK_CAN.as_bytes());
    let jz18 = build_jz18(UnitType::aircon(), live.unit_id);
    let flush = CanRecord {
        unit_type: UnitType::aircon(),
        dest: Dest::ControlBox,
        unit_id: live.unit_id,
        reg: RegId::new(0x06),
        data: [0; 7],
    };
    assert_eq!(
        s.on_ping().unwrap(),
        build_set_can(&[jz18.clone(), jz18, flush])
    );
    assert_eq!(s.on_ping().unwrap(), EMPTY_SET_CAN.as_bytes());
}

#[test]
fn dump_sent_once_until_get_can_or_nack_resend() {
    let mut s = Session::new();
    advance_to_dump(&mut s);
    assert_eq!(s.on_ping().unwrap(), DUMP_SET_CAN.as_bytes());
    assert!(s.dump_sent);
    assert!(s.on_ping().is_none());
    assert!(s.on_ping().is_none());
    let _ = s.on_frame(b"getCAN 0");
    assert_eq!(s.on_ping().unwrap(), ACK_CAN.as_bytes());
    assert_eq!(s.on_ping().unwrap(), DUMP_SET_CAN.as_bytes());
    assert!(s.on_ping().is_none());
}

#[test]
fn dump_get_can_nack_acks_then_resends_dump() {
    let mut s = Session::new();
    advance_to_dump(&mut s);
    assert_eq!(s.on_ping().unwrap(), DUMP_SET_CAN.as_bytes());
    let ev = s.on_frame(b"getCAN 0");
    assert!(ev.is_empty());
    assert_eq!(s.state, State::RequestDump);
    assert_eq!(s.on_ping().unwrap(), ACK_CAN.as_bytes());
    assert_eq!(s.on_ping().unwrap(), DUMP_SET_CAN.as_bytes());
    assert!(s.on_ping().is_none());
}

#[test]
fn dump_with_reg05_skips_unit_scoped_flush() {
    let mut s = Session::new();
    advance_to_steady(&mut s, &[sample_record()]);
    let jz18 = build_jz18(UnitType::aircon(), live_unit_reg06().unit_id);
    assert_eq!(
        s.on_ping().unwrap(),
        build_set_can(std::slice::from_ref(&jz18))
    );
    assert_eq!(s.on_ping().unwrap(), EMPTY_SET_CAN.as_bytes());
}

#[test]
fn can2_in_use_skips_empty_set_can_in_steady() {
    let mut s = Session::new();
    advance_to_steady(&mut s, &[sample_record()]);
    let jz18 = build_jz18(UnitType::aircon(), live_unit_reg06().unit_id);
    assert_eq!(
        s.on_ping().unwrap(),
        build_set_can(std::slice::from_ref(&jz18))
    );
    assert_eq!(s.on_ping().unwrap(), EMPTY_SET_CAN.as_bytes());

    let _ = s.on_frame(b"CAN2 in use");
    assert!(s.can_in_use);
    assert!(
        s.on_ping().is_none(),
        "must not send empty setCAN while can_in_use"
    );
}

#[test]
fn negotiate_mismatch_warns_and_stays_alive() {
    let mut s = Session::new();
    let _ = s.on_ping();
    let ev = s.on_frame(b"CAN1 weird");
    assert!(matches!(ev.as_slice(), [EngineEvent::ProtocolWarn(_)]));
    assert!(matches!(s.state, State::Negotiate | State::ExpectCan2));
    assert_eq!(s.on_ping().unwrap(), GET_SYSTEM_DATA.as_bytes());
    assert_eq!(s.state, State::ExpectCan2);
    let ev = s.on_frame(b"status: CAN2 in use ok");
    assert!(matches!(ev.as_slice(), [EngineEvent::Negotiated { .. }]));
    assert_eq!(s.state, State::RequestDump);
    assert_eq!(s.on_ping().unwrap(), DIRTY_RESET_SET_CAN.as_bytes());
}

#[test]
fn steady_priority_ack_then_queue_then_empty() {
    let mut s = Session::new();
    advance_to_steady(&mut s, &[sample_record()]);

    let jz18 = build_jz18(UnitType::aircon(), live_unit_reg06().unit_id);
    assert_eq!(
        s.on_ping().unwrap(),
        build_set_can(std::slice::from_ref(&jz18))
    );
    assert_eq!(s.on_ping().unwrap(), EMPTY_SET_CAN.as_bytes());

    let rec = CanRecord {
        unit_type: UnitType::new(0x07),
        dest: Dest::ControlBox,
        unit_id: UnitId::try_new(0).unwrap(),
        reg: RegId::new(0x06),
        data: [0; 7],
    };
    s.apply_cmd(EngineCmd::WriteRegisters(vec![rec.clone()]));
    let tx = s.on_ping().unwrap();
    assert_eq!(tx, build_set_can(std::slice::from_ref(&rec)));

    let _ = s.on_frame(&get_can_payload(&[sample_record()]));
    s.apply_cmd(EngineCmd::WriteRegisters(vec![rec]));
    assert_eq!(s.on_ping().unwrap(), ACK_CAN.as_bytes());
    let tx = s.on_ping().unwrap();
    assert!(tx.starts_with(b"setCAN "));
    assert_ne!(tx, EMPTY_SET_CAN.as_bytes());
    assert_ne!(tx, ACK_CAN.as_bytes());
}

#[test]
fn write_get_can_arms_ack() {
    let mut s = Session::new();
    advance_to_steady(&mut s, &[sample_record()]);

    let rec = sample_record();
    let mut write = rec.clone();
    write.dest = Dest::ControlBox;
    s.apply_cmd(EngineCmd::WriteRegisters(vec![write]));
    let _ = s.on_ping();
    let ev = s.on_frame(&get_can_payload(std::slice::from_ref(&rec)));
    assert!(matches!(
        ev.as_slice(),
        [EngineEvent::RegistersChanged { .. }]
    ));
    assert_eq!(s.on_ping().unwrap(), ACK_CAN.as_bytes());
}

#[test]
fn resync_reenters_dump_and_snapshot() {
    let mut s = Session::new();
    advance_to_steady(&mut s, &[sample_record()]);

    s.apply_cmd(EngineCmd::ResyncMailbox);
    assert_eq!(s.state, State::RequestDump);
    assert!(!s.dirty_reset_sent);

    assert_eq!(s.on_ping().unwrap(), DIRTY_RESET_SET_CAN.as_bytes());
    let _ = s.on_frame(&get_can_payload(std::slice::from_ref(&live_unit_reg06())));
    assert_eq!(s.on_ping().unwrap(), ACK_CAN.as_bytes());
    assert_eq!(s.on_ping().unwrap(), DUMP_SET_CAN.as_bytes());
    let rec = sample_record();
    let ev = s.on_frame(&get_can_payload(std::slice::from_ref(&rec)));
    assert!(matches!(ev.as_slice(), [EngineEvent::Snapshot { .. }]));
    assert_eq!(s.state, State::Steady);
}

#[test]
fn early_get_can_before_dump_tx_applies_but_stays() {
    let mut s = Session::new();
    advance_to_dump(&mut s);
    assert!(!s.dump_sent);

    let rec = sample_record();
    let ev = s.on_frame(&get_can_payload(std::slice::from_ref(&rec)));
    assert!(ev.is_empty());
    assert_eq!(s.state, State::RequestDump);
    assert_eq!(
        s.bank.get(rec.unit_type, rec.unit_id, rec.reg),
        Some(rec.data)
    );

    assert_eq!(s.on_ping().unwrap(), ACK_CAN.as_bytes());
    assert_eq!(s.on_ping().unwrap(), DUMP_SET_CAN.as_bytes());
    let ev = s.on_frame(b"getCAN 1");
    assert!(matches!(ev.as_slice(), [EngineEvent::Snapshot { .. }]));
    assert_eq!(s.state, State::Steady);
    assert_eq!(s.on_ping().unwrap(), ACK_CAN.as_bytes());
}

#[test]
fn shutdown_flag() {
    let mut s = Session::new();
    assert!(!s.is_shutdown());
    s.apply_cmd(EngineCmd::Shutdown);
    assert!(s.is_shutdown());
}

#[test]
fn reg06_announcement_queues_jz18() {
    let mut s = Session::new();
    advance_to_steady(&mut s, &[live_unit_reg06()]);
    let live = live_unit_reg06();
    let jz18 = build_jz18(UnitType::aircon(), live.unit_id);
    let flush = CanRecord {
        unit_type: UnitType::aircon(),
        dest: Dest::ControlBox,
        unit_id: live.unit_id,
        reg: RegId::new(0x06),
        data: [0; 7],
    };
    let expected = build_set_can(&[jz18.clone(), jz18, flush]);
    assert_eq!(s.on_ping().unwrap(), expected);
}

#[test]
fn type08_announcement_queues_type08_jz18() {
    let mut s = Session::new();
    advance_to_dump(&mut s);
    assert_eq!(s.on_ping().unwrap(), DUMP_SET_CAN.as_bytes());
    let rf = CanRecord {
        unit_type: UnitType::new(0x08),
        dest: Dest::Tablet,
        unit_id: UnitId::try_new(0x0_0F0F0).unwrap(),
        reg: RegId::new(0x06),
        data: [0; 7],
    };
    let ev = s.on_frame(&get_can_payload(std::slice::from_ref(&rf)));
    assert!(ev.iter().any(|e| matches!(e, EngineEvent::Snapshot { .. })));
    assert_eq!(s.on_ping().unwrap(), ACK_CAN.as_bytes());
    let flush = CanRecord {
        unit_type: UnitType::aircon(),
        dest: Dest::ControlBox,
        unit_id: live_unit_reg06().unit_id,
        reg: RegId::new(0x06),
        data: [0; 7],
    };
    let expected = build_set_can(&[
        build_jz18(UnitType::aircon(), live_unit_reg06().unit_id),
        build_jz18(rf.unit_type, rf.unit_id),
        flush,
    ]);
    assert_eq!(s.on_ping().unwrap(), expected);
}

#[test]
fn steady_reg06_announcement_queues_jz18() {
    let mut s = Session::new();
    advance_to_steady(&mut s, &[sample_record()]);
    let jz18 = build_jz18(UnitType::aircon(), live_unit_reg06().unit_id);
    assert_eq!(
        s.on_ping().unwrap(),
        build_set_can(std::slice::from_ref(&jz18))
    );
    assert_eq!(s.on_ping().unwrap(), EMPTY_SET_CAN.as_bytes());
    let rec = live_unit_reg06();
    let ev = s.on_frame(&get_can_payload(std::slice::from_ref(&rec)));
    assert!(matches!(
        ev.as_slice(),
        [EngineEvent::RegistersChanged { .. }]
    ));
    assert_eq!(s.on_ping().unwrap(), ACK_CAN.as_bytes());
    let expected = build_set_can(&[build_jz18(rec.unit_type, rec.unit_id)]);
    assert_eq!(s.on_ping().unwrap(), expected);
}

#[test]
fn outbound_reg06_flush_does_not_self_trigger_jz18() {
    let mut s = Session::new();
    advance_to_steady(&mut s, &[sample_record()]);
    let jz18 = build_jz18(UnitType::aircon(), live_unit_reg06().unit_id);
    assert_eq!(
        s.on_ping().unwrap(),
        build_set_can(std::slice::from_ref(&jz18))
    );
    assert_eq!(s.on_ping().unwrap(), EMPTY_SET_CAN.as_bytes());
    let flush = CanRecord {
        unit_type: UnitType::aircon(),
        dest: Dest::ControlBox,
        unit_id: UnitId::try_new(0).unwrap(),
        reg: RegId::new(0x06),
        data: [0; 7],
    };
    s.apply_cmd(EngineCmd::WriteRegisters(vec![flush.clone()]));
    let tx = s.on_ping().unwrap();
    assert_eq!(tx, build_set_can(std::slice::from_ref(&flush)));
    assert_eq!(s.on_ping().unwrap(), EMPTY_SET_CAN.as_bytes());
}

fn drain_steady_polls(s: &mut Session) {
    for _ in 0..4 {
        if s.write_queue.is_empty() && !s.ack_armed {
            break;
        }
        s.on_ping();
    }
    assert!(
        s.write_queue.is_empty() && !s.ack_armed,
        "steady polls must settle with an empty queue"
    );
}

fn read_flush(unit_type: UnitType, unit_id: UnitId) -> CanRecord {
    CanRecord {
        unit_type,
        dest: Dest::ControlBox,
        unit_id,
        reg: RegId::new(0x06),
        data: [0; 7],
    }
}

#[test]
fn read_register_queues_flush_and_dedupes_identical_read() {
    let mut s = Session::new();
    advance_to_steady(&mut s, &[sample_record()]);
    drain_steady_polls(&mut s);

    let target = live_unit_reg06();
    s.apply_cmd(EngineCmd::ReadRegister {
        unit_type: target.unit_type,
        unit_id: target.unit_id,
        reg: RegId::new(0x05),
        zone: None,
    });
    s.apply_cmd(EngineCmd::ReadRegister {
        unit_type: target.unit_type,
        unit_id: target.unit_id,
        reg: RegId::new(0x05),
        zone: None,
    });
    let expected_flush = read_flush(target.unit_type, target.unit_id);
    assert_eq!(s.write_queue.len(), 1, "identical reads must share a flush");
    let queued = s.write_queue[0].clone();
    assert_eq!(queued.unit_type, expected_flush.unit_type);
    assert_eq!(queued.dest, Dest::ControlBox);
    assert_eq!(queued.unit_id, expected_flush.unit_id);
    assert_eq!(queued.reg, RegId::new(0x06));
    assert_eq!(queued.data, [0; 7]);
    assert_eq!(s.pending_reads.len(), 2);
    assert!(
        s.pending_reads.iter().all(|p| !p.flush_sent),
        "reads start pending until their flush is TX'd"
    );
}

#[test]
fn read_resolves_after_flush_tx_get_can() {
    let mut s = Session::new();
    advance_to_steady(&mut s, &[sample_record()]);
    drain_steady_polls(&mut s);

    let target = live_unit_reg06();
    s.apply_cmd(EngineCmd::ReadRegister {
        unit_type: target.unit_type,
        unit_id: target.unit_id,
        reg: RegId::new(0x05),
        zone: None,
    });
    let flush = read_flush(target.unit_type, target.unit_id);
    assert_eq!(
        s.on_ping().unwrap(),
        build_set_can(std::slice::from_ref(&flush))
    );
    assert!(s.pending_reads[0].flush_sent);

    let fresh = CanRecord {
        unit_type: target.unit_type,
        dest: Dest::Tablet,
        unit_id: target.unit_id,
        reg: RegId::new(0x05),
        data: [0x02, 0x02, 0x04, 0x31, 0x00, 0x02, 0x00],
    };
    let ev = s.on_frame(&get_can_payload(std::slice::from_ref(&fresh)));
    let read = ev
        .iter()
        .find(|e| matches!(e, EngineEvent::RegisterRead { .. }))
        .expect("register read must resolve after flush TX");
    match read {
        EngineEvent::RegisterRead {
            unit_type,
            unit_id,
            reg,
            zone,
            data: Some(data),
        } => {
            assert_eq!(*unit_type, fresh.unit_type);
            assert_eq!(*unit_id, fresh.unit_id);
            assert_eq!(*reg, fresh.reg);
            assert_eq!(*zone, None);
            assert_eq!(*data, fresh.data);
        }
        other => panic!("expected resolved read, got {other:?}"),
    }
    assert!(
        s.pending_reads.is_empty(),
        "resolved reads must be removed from the pending list"
    );
}

#[test]
fn read_absent_register_emits_none() {
    let mut s = Session::new();
    advance_to_steady(&mut s, &[sample_record()]);
    drain_steady_polls(&mut s);

    let target = live_unit_reg06();
    s.apply_cmd(EngineCmd::ReadRegister {
        unit_type: target.unit_type,
        unit_id: target.unit_id,
        reg: RegId::new(0x02),
        zone: None,
    });
    assert_eq!(
        s.on_ping().unwrap(),
        build_set_can(std::slice::from_ref(&read_flush(
            target.unit_type,
            target.unit_id
        )))
    );
    let ev = s.on_frame(b"getCAN 1");
    let read = ev
        .iter()
        .find(|e| matches!(e, EngineEvent::RegisterRead { .. }))
        .expect("absent register must still resolve to None");
    assert!(
        matches!(read, EngineEvent::RegisterRead { data: None, .. }),
        "expected RegisterRead with None, got {read:?}"
    );
    assert!(s.pending_reads.is_empty());
}

#[test]
fn pre_flush_get_can_does_not_resolve_read() {
    let mut s = Session::new();
    advance_to_steady(&mut s, &[sample_record()]);
    drain_steady_polls(&mut s);

    let target = live_unit_reg06();
    s.apply_cmd(EngineCmd::ReadRegister {
        unit_type: target.unit_type,
        unit_id: target.unit_id,
        reg: RegId::new(0x05),
        zone: None,
    });

    let rec = sample_record();
    let ev = s.on_frame(&get_can_payload(std::slice::from_ref(&rec)));
    assert!(
        !ev.iter()
            .any(|e| matches!(e, EngineEvent::RegisterRead { .. })),
        "pre-flush getCAN must not resolve the read: {ev:?}"
    );
    assert_eq!(s.pending_reads.len(), 1);
    assert!(!s.pending_reads[0].flush_sent);

    assert_eq!(s.on_ping().unwrap(), ACK_CAN.as_bytes());
    assert_eq!(
        s.on_ping().unwrap(),
        build_set_can(std::slice::from_ref(&read_flush(
            target.unit_type,
            target.unit_id
        )))
    );
    let ev = s.on_frame(&get_can_payload(std::slice::from_ref(&rec)));
    assert!(matches!(
        ev.iter()
            .find(|e| matches!(e, EngineEvent::RegisterRead { .. })),
        Some(EngineEvent::RegisterRead { data: Some(_), .. })
    ));
    assert!(s.pending_reads.is_empty());
}

#[test]
fn zone_read_resolves_addressed_zone_slot() {
    let mut s = Session::new();
    advance_to_dump(&mut s);
    assert_eq!(s.on_ping().unwrap(), DUMP_SET_CAN.as_bytes());
    let z1 = CanRecord {
        unit_type: UnitType::aircon(),
        dest: Dest::Unknown(0x03),
        unit_id: UnitId::try_new(0x0_11111).unwrap(),
        reg: RegId::new(0x03),
        data: [0x01, 0xe4, 0x01, 0x2c, 0x14, 0x05, 0x00],
    };
    let z2 = CanRecord {
        unit_type: UnitType::aircon(),
        dest: Dest::Unknown(0x03),
        unit_id: z1.unit_id,
        reg: RegId::new(0x03),
        data: [0x02, 0xe4, 0x02, 0x2d, 0x15, 0x06, 0x01],
    };
    let ev = s.on_frame(&get_can_payload(&[z1.clone(), z2]));
    assert!(ev.iter().any(|e| matches!(e, EngineEvent::Snapshot { .. })));
    assert_eq!(s.state, State::Steady);
    drain_steady_polls(&mut s);
    assert!(s.write_queue.is_empty());

    s.apply_cmd(EngineCmd::ReadRegister {
        unit_type: z1.unit_type,
        unit_id: z1.unit_id,
        reg: z1.reg,
        zone: Some(0x01),
    });
    s.apply_cmd(EngineCmd::ReadRegister {
        unit_type: z1.unit_type,
        unit_id: z1.unit_id,
        reg: z1.reg,
        zone: Some(0x03),
    });
    assert_eq!(s.write_queue.len(), 1);
    assert_eq!(
        s.on_ping().unwrap(),
        build_set_can(std::slice::from_ref(&read_flush(z1.unit_type, z1.unit_id)))
    );

    let mut fresh_z1 = z1;
    fresh_z1.data = [0x01, 0xff, 0x03, 0x40, 0x20, 0x0a, 0x02];
    let ev = s.on_frame(&get_can_payload(std::slice::from_ref(&fresh_z1)));
    let reads: Vec<_> = ev
        .iter()
        .filter_map(|e| match e {
            EngineEvent::RegisterRead {
                unit_type: _,
                unit_id: _,
                reg: _,
                zone,
                data,
            } => Some((*zone, *data)),
            _ => None,
        })
        .collect();
    assert_eq!(reads.len(), 2, "both zone reads resolve: {reads:?}");
    assert!(
        reads.contains(&(Some(0x01), Some(fresh_z1.data))),
        "zone 1 must read its fresh slot: {reads:?}"
    );
    assert!(
        reads.contains(&(Some(0x03), None)),
        "undelivered zone 3 must resolve None: {reads:?}"
    );
    assert!(s.pending_reads.is_empty());
}

fn settle_steady(s: &mut Session) {
    assert_eq!(
        s.on_ping().unwrap(),
        build_set_can(std::slice::from_ref(&build_jz18(
            UnitType::aircon(),
            live_unit_reg06().unit_id
        )))
    );
    assert_eq!(s.on_ping().unwrap(), EMPTY_SET_CAN.as_bytes());
}

#[test]
fn lone_crc_failed_getcan_arms_ack_can_zero() {
    let mut s = Session::new();
    advance_to_steady(&mut s, &[sample_record()]);
    settle_steady(&mut s);

    s.on_crc_failure(true);
    assert_eq!(s.on_ping().unwrap(), ACK_CAN_ZERO.as_bytes());
    assert_eq!(
        s.on_ping().unwrap(),
        EMPTY_SET_CAN.as_bytes(),
        "latch cleared: no second ackCAN without a new frame"
    );
}

#[test]
fn bad_then_good_getcan_no_polarity_leak() {
    let mut s = Session::new();
    advance_to_steady(&mut s, &[sample_record()]);
    settle_steady(&mut s);

    s.on_crc_failure(true);
    let ev = s.on_frame(&get_can_payload(std::slice::from_ref(&sample_record())));
    assert!(matches!(
        ev.as_slice(),
        [EngineEvent::RegistersChanged { .. }]
    ));
    assert_eq!(s.on_ping().unwrap(), ACK_CAN.as_bytes());
}

#[test]
fn good_then_bad_getcan_ack_zero() {
    let mut s = Session::new();
    advance_to_steady(&mut s, &[sample_record()]);
    settle_steady(&mut s);

    let ev = s.on_frame(&get_can_payload(std::slice::from_ref(&sample_record())));
    assert!(matches!(
        ev.as_slice(),
        [EngineEvent::RegistersChanged { .. }]
    ));
    s.on_crc_failure(true);
    assert_eq!(s.on_ping().unwrap(), ACK_CAN_ZERO.as_bytes());
}

#[test]
fn bad_non_getcan_flips_armed_ack_to_zero() {
    let mut s = Session::new();
    advance_to_steady(&mut s, &[sample_record()]);
    settle_steady(&mut s);

    let ev = s.on_frame(&get_can_payload(std::slice::from_ref(&sample_record())));
    assert!(matches!(
        ev.as_slice(),
        [EngineEvent::RegistersChanged { .. }]
    ));
    s.on_crc_failure(false);
    assert_eq!(s.on_ping().unwrap(), ACK_CAN_ZERO.as_bytes());
}

#[test]
fn bad_non_getcan_alone_does_not_arm() {
    let mut s = Session::new();
    advance_to_steady(&mut s, &[sample_record()]);
    settle_steady(&mut s);

    s.on_crc_failure(false);
    assert_eq!(
        s.on_ping().unwrap(),
        EMPTY_SET_CAN.as_bytes(),
        "no latch: a CRC-failed non-getCAN must not emit ackCAN"
    );
}

#[test]
fn good_non_getcan_after_bad_restores_polarity() {
    let mut s = Session::new();
    advance_to_steady(&mut s, &[sample_record()]);
    settle_steady(&mut s);

    s.on_crc_failure(true);
    let ev = s.on_frame(b"bogus steady frame");
    assert!(
        matches!(ev.as_slice(), [EngineEvent::ProtocolWarn(_)]),
        "non-getCAN in steady must warn: {ev:?}"
    );
    assert_eq!(s.on_ping().unwrap(), ACK_CAN.as_bytes());
}
