use cb_daemon::registers::bank::{is_zone_bearing, BankKey, RegisterBank, ZONE_BEARING_REGS};
use cb_daemon::registers::ids::{IdError, RegId, UnitId, UnitType};
use cb_daemon::registers::wire::{CanRecord, Dest, WireError};

#[test]
fn unit_id_round_trip_hex() {
    let id = UnitId::from_hex("abcde").unwrap();
    assert_eq!(id.get(), 0x0_ABCDE);
    assert_eq!(id.to_hex(), "abcde");
}

#[test]
fn unit_id_rejects_over_20_bits() {
    assert_eq!(UnitId::try_from(0x0010_0000), Err(IdError::OutOfRange));
}

#[test]
fn unit_type_and_reg_display() {
    assert_eq!(UnitType::new(0x07).to_hex(), "07");
    assert_eq!(RegId::new(0x0a).to_hex(), "0a");
}

fn assert_round_trip(wire: &str) {
    let parsed = CanRecord::parse_one(wire).expect("parse_one");
    assert_eq!(parsed.to_wire(), wire.to_ascii_lowercase());
    let again = CanRecord::parse_one(&parsed.to_wire()).unwrap();
    assert_eq!(again, parsed);
}

#[test]
fn round_trip_reg_01_zone_config() {
    assert_round_trip("0703abcde0120030101000000");
}

#[test]
fn round_trip_reg_03_zone_state() {
    assert_round_trip("0703abcde0301e40030000000");
}

#[test]
fn round_trip_reg_05_system_status() {
    assert_round_trip("0703abcde0501010330000100");
}

#[test]
fn round_trip_reg_06_flush() {
    assert_round_trip("0701000000600000000000000");
}

#[test]
fn round_trip_reg_06_firmware_style() {
    assert_round_trip("0703abcde0601020300000000");
}

#[test]
fn parse_many_skips_lone_one() {
    let input = "1 0703abcde0120030101000000 0703abcde0501010330000100";
    let records = CanRecord::parse_many(input).unwrap();
    assert_eq!(records.len(), 2);
    assert_eq!(records[0].reg.get(), 0x01);
    assert_eq!(records[1].reg.get(), 0x05);
}

#[test]
fn parse_many_fails_fast_on_malformed() {
    let input = "0703abcde0120030101000000 badtoken 0703abcde0501010330000100";
    let err = CanRecord::parse_many(input).unwrap_err();
    assert!(matches!(
        err,
        WireError::Incomplete | WireError::BadHex | WireError::InvalidId
    ));
}

#[test]
fn edge_bad_length() {
    assert_eq!(
        CanRecord::parse_one("0703abcde012003010100000"),
        Err(WireError::Incomplete)
    );
    assert_eq!(
        CanRecord::parse_one("0703abcde01200301010000000"),
        Err(WireError::Incomplete)
    );
}

#[test]
fn edge_non_hex() {
    assert_eq!(
        CanRecord::parse_one("0703abcde01200301010000gg"),
        Err(WireError::BadHex)
    );
}

#[test]
fn edge_empty() {
    assert_eq!(CanRecord::parse_one(""), Err(WireError::Incomplete));
    assert_eq!(CanRecord::parse_one("   "), Err(WireError::Incomplete));
    assert!(CanRecord::parse_many("").unwrap().is_empty());
    assert!(CanRecord::parse_many("   ").unwrap().is_empty());
}

#[test]
fn edge_one_only() {
    assert!(CanRecord::parse_many("1").unwrap().is_empty());
    assert!(CanRecord::parse_many("1 1 1").unwrap().is_empty());
}

#[test]
fn dest_unknown_round_trip() {
    let wire = "0702abcde0501010330000100";
    let parsed = CanRecord::parse_one(wire).unwrap();
    assert_eq!(parsed.dest, Dest::Unknown(0x02));
    assert_eq!(parsed.to_wire(), wire);
    assert_eq!(CanRecord::parse_one(&parsed.to_wire()).unwrap(), parsed);
}

#[test]
fn dest_known_variants() {
    let cb = CanRecord::parse_one("0701000000600000000000000").unwrap();
    assert_eq!(cb.dest, Dest::ControlBox);
    let tab = CanRecord::parse_one("0703abcde0120030101000000").unwrap();
    assert_eq!(tab.dest, Dest::Tablet);
}

fn record(reg: u8, data: [u8; 7]) -> CanRecord {
    CanRecord {
        unit_type: UnitType::new(0x07),
        dest: Dest::Tablet,
        unit_id: UnitId::try_new(0x0_ABCDE).unwrap(),
        reg: RegId::new(reg),
        data,
    }
}

#[test]
fn apply_dump_then_get_by_key() {
    let mut bank = RegisterBank::new();
    let r05 = CanRecord::parse_one("0703abcde0501010330000100").unwrap();
    let r03 = CanRecord::parse_one("0703abcde0301e40030000000").unwrap();

    bank.apply(&r05);
    bank.apply(&r03);

    assert_eq!(bank.len(), 2);
    assert_eq!(
        bank.get(r05.unit_type, r05.unit_id, r05.reg),
        Some(r05.data)
    );
    assert_eq!(
        bank.get_zone(r03.unit_type, r03.unit_id, r03.reg, r03.data[0]),
        Some(r03.data)
    );
    let mut cb = r05.clone();
    cb.dest = Dest::ControlBox;
    assert_eq!(BankKey::from_record(&cb), BankKey::from_record(&r05));
}

#[test]
fn reapply_identical_is_idempotent() {
    let mut bank = RegisterBank::new();
    let r = CanRecord::parse_one("0703abcde0501010330000100").unwrap();
    bank.apply(&r);
    let len_before = bank.len();
    let bytes_before = bank.get(r.unit_type, r.unit_id, r.reg).unwrap();

    bank.apply(&r);
    assert_eq!(bank.len(), len_before);
    assert_eq!(bank.get(r.unit_type, r.unit_id, r.reg), Some(bytes_before));
}

#[test]
fn distinct_zones_for_reg_03() {
    let mut bank = RegisterBank::new();
    let z1 = record(0x03, [0x01, 0xe4, 0x00, 0x03, 0x00, 0x00, 0x00]);
    let z2 = record(0x03, [0x02, 0xe4, 0x00, 0x03, 0x00, 0x00, 0x00]);

    bank.apply(&z1);
    bank.apply(&z2);

    assert_eq!(bank.len(), 2);
    assert_eq!(
        bank.get_zone(z1.unit_type, z1.unit_id, z1.reg, 0x01),
        Some(z1.data)
    );
    assert_eq!(
        bank.get_zone(z2.unit_type, z2.unit_id, z2.reg, 0x02),
        Some(z2.data)
    );
    assert!(is_zone_bearing(RegId::new(0x03)));
    assert!(is_zone_bearing(RegId::new(0x04)));
    assert!(!is_zone_bearing(RegId::new(0x05)));
    assert_eq!(ZONE_BEARING_REGS, [0x03, 0x04]);
}

#[test]
fn non_zone_reg_05_ignores_byte0_as_zone() {
    let mut bank = RegisterBank::new();
    let a = record(0x05, [0x01, 0x01, 0x03, 0x30, 0x00, 0x01, 0x00]);
    let b = record(0x05, [0x02, 0x01, 0x03, 0x30, 0x00, 0x01, 0x00]);

    bank.apply(&a);
    bank.apply(&b);

    assert_eq!(bank.len(), 1);
    assert_eq!(
        bank.get(a.unit_type, a.unit_id, a.reg),
        Some(b.data),
        "last write wins on the single non-zone slot"
    );
    assert_eq!(BankKey::from_record(&a).zone, None);
    assert_eq!(BankKey::from_record(&b).zone, None);
    assert_eq!(BankKey::from_record(&a), BankKey::from_record(&b));
}

#[test]
fn preferred_unit_id_prefers_hint_when_present() {
    let mut bank = RegisterBank::new();
    let live = UnitId::try_new(0x0_11111).unwrap();
    let mock = UnitId::try_new(0x0_ABCDE).unwrap();
    let hint = live;

    bank.apply(&CanRecord {
        unit_type: UnitType::aircon(),
        dest: Dest::Tablet,
        unit_id: live,
        reg: RegId::new(0x06),
        data: [0; 7],
    });
    bank.apply(&CanRecord {
        unit_type: UnitType::aircon(),
        dest: Dest::Tablet,
        unit_id: mock,
        reg: RegId::new(0x06),
        data: [1; 7],
    });

    assert_eq!(bank.preferred_unit_id(UnitType::aircon(), Some(hint)), live);
    assert_eq!(bank.preferred_unit_id(UnitType::aircon(), Some(mock)), mock);
}

#[test]
fn preferred_unit_id_falls_back_to_smallest_seen() {
    let mut bank = RegisterBank::new();
    let a = UnitId::try_new(0x0_11111).unwrap();
    let b = UnitId::try_new(0x0_ABCDE).unwrap();
    bank.apply(&CanRecord {
        unit_type: UnitType::aircon(),
        dest: Dest::Tablet,
        unit_id: b,
        reg: RegId::new(0x06),
        data: [0; 7],
    });
    bank.apply(&CanRecord {
        unit_type: UnitType::aircon(),
        dest: Dest::Tablet,
        unit_id: a,
        reg: RegId::new(0x06),
        data: [0; 7],
    });
    assert_eq!(bank.preferred_unit_id(UnitType::aircon(), None), a);
    let missing = UnitId::try_new(0x0_FFFFF).unwrap();
    assert_eq!(bank.preferred_unit_id(UnitType::aircon(), Some(missing)), a);
}

#[test]
fn preferred_unit_id_empty_bank_uses_hint_or_zero() {
    let bank = RegisterBank::new();
    let hint = UnitId::try_new(0x0_11111).unwrap();
    assert_eq!(bank.preferred_unit_id(UnitType::aircon(), Some(hint)), hint);
    assert_eq!(bank.preferred_unit_id(UnitType::aircon(), None), UnitId::zero());
}

#[test]
fn unit_types_distinct_ascending() {
    let mut bank = RegisterBank::new();
    let type08 = UnitType::new(0x08);
    let id = UnitId::try_new(0x0_11111).unwrap();
    bank.apply(&CanRecord {
        unit_type: type08,
        dest: Dest::Tablet,
        unit_id: id,
        reg: RegId::new(0x06),
        data: [0; 7],
    });
    bank.apply(&CanRecord {
        unit_type: UnitType::aircon(),
        dest: Dest::Tablet,
        unit_id: id,
        reg: RegId::new(0x06),
        data: [0; 7],
    });
    bank.apply(&CanRecord {
        unit_type: type08,
        dest: Dest::Tablet,
        unit_id: UnitId::try_new(0x0_ABCDE).unwrap(),
        reg: RegId::new(0x05),
        data: [1; 7],
    });

    assert_eq!(bank.unit_types(), vec![UnitType::aircon(), type08]);
    assert_eq!(bank.unit_types().len(), 2);
}

#[test]
fn unit_ids_ascending_per_type() {
    let mut bank = RegisterBank::new();
    let small = UnitId::try_new(0x0_11111).unwrap();
    let large = UnitId::try_new(0x0_ABCDE).unwrap();
    bank.apply(&CanRecord {
        unit_type: UnitType::aircon(),
        dest: Dest::Tablet,
        unit_id: large,
        reg: RegId::new(0x06),
        data: [0; 7],
    });
    bank.apply(&CanRecord {
        unit_type: UnitType::aircon(),
        dest: Dest::Tablet,
        unit_id: small,
        reg: RegId::new(0x06),
        data: [0; 7],
    });
    bank.apply(&CanRecord {
        unit_type: UnitType::new(0x08),
        dest: Dest::Tablet,
        unit_id: large,
        reg: RegId::new(0x06),
        data: [1; 7],
    });

    assert_eq!(bank.unit_ids(UnitType::aircon()), vec![small, large]);
    assert_eq!(bank.unit_ids(UnitType::new(0x08)), vec![large]);
    assert!(bank.unit_ids(UnitType::new(0x02)).is_empty());
}

#[test]
fn records_for_any_unit_across_ids_sorted_and_tablet() {
    let mut bank = RegisterBank::new();
    let small = UnitId::try_new(0x0_11111).unwrap();
    let large = UnitId::try_new(0x0_ABCDE).unwrap();
    bank.apply(&CanRecord {
        unit_type: UnitType::aircon(),
        dest: Dest::Tablet,
        unit_id: large,
        reg: RegId::new(0x05),
        data: [0x01, 0x01, 0x03, 0x30, 0x00, 0x01, 0x00],
    });
    bank.apply(&CanRecord {
        unit_type: UnitType::aircon(),
        dest: Dest::Tablet,
        unit_id: small,
        reg: RegId::new(0x03),
        data: [0x02, 0xe4, 0x00, 0x03, 0x00, 0x00, 0x00],
    });
    bank.apply(&CanRecord {
        unit_type: UnitType::aircon(),
        dest: Dest::Tablet,
        unit_id: small,
        reg: RegId::new(0x03),
        data: [0x01, 0xe4, 0x00, 0x03, 0x00, 0x00, 0x00],
    });
    bank.apply(&CanRecord {
        unit_type: UnitType::aircon(),
        dest: Dest::Tablet,
        unit_id: small,
        reg: RegId::new(0x05),
        data: [0x01, 0x01, 0x03, 0x30, 0x00, 0x01, 0x00],
    });
    bank.apply(&CanRecord {
        unit_type: UnitType::new(0x08),
        dest: Dest::Tablet,
        unit_id: small,
        reg: RegId::new(0x06),
        data: [1; 7],
    });

    let records = bank.records_for_any_unit(UnitType::aircon());
    let summary: Vec<(u32, u8, u8)> = records
        .iter()
        .map(|r| (r.unit_id.get(), r.reg.get(), r.data[0]))
        .collect();
    assert_eq!(
        summary,
        vec![
            (small.get(), 0x03, 0x01),
            (small.get(), 0x03, 0x02),
            (small.get(), 0x05, 0x01),
            (large.get(), 0x05, 0x01),
        ]
    );
    assert!(records.iter().all(|r| r.dest == Dest::Tablet));
    assert!(records.iter().all(|r| r.unit_type == UnitType::aircon()));
}

#[test]
fn records_for_unit_lists_that_unit_only() {
    let mut bank = RegisterBank::new();
    let wanted = UnitId::try_new(0x0_11111).unwrap();
    let other = UnitId::try_new(0x0_22222).unwrap();
    let of = |unit_type: UnitType, unit_id: UnitId, reg: u8, first: u8| CanRecord {
        unit_type,
        dest: Dest::ControlBox,
        unit_id,
        reg: RegId::new(reg),
        data: [first, 0, 0, 0, 0, 0, 0],
    };
    bank.apply(&of(UnitType::aircon(), wanted, 0x05, 1));
    bank.apply(&of(UnitType::aircon(), wanted, 0x03, 2));
    bank.apply(&of(UnitType::aircon(), wanted, 0x03, 1));
    bank.apply(&of(UnitType::aircon(), other, 0x05, 3));
    bank.apply(&of(UnitType::new(0x08), wanted, 0x06, 4));

    let summary: Vec<(u8, u8)> = bank
        .records_for_unit(UnitType::aircon(), wanted)
        .iter()
        .map(|r| (r.reg.get(), r.data[0]))
        .collect();
    assert_eq!(summary, vec![(0x03, 1), (0x03, 2), (0x05, 1)]);
    assert!(bank.records_for_unit(UnitType::new(0x08), other).is_empty());
}

#[test]
fn listings_of_units_and_types_make_the_whole() {
    let mut bank = RegisterBank::new();
    let mut stored = Vec::new();
    for (unit_type, unit_id, reg, first) in [
        (0x08, 0x22222, 0x06, 4),
        (0x07, 0x22222, 0x05, 3),
        (0x07, 0x11111, 0x03, 2),
        (0x07, 0x11111, 0x03, 1),
        (0x07, 0x11111, 0x05, 9),
        (0x07, 0x11111, 0x05, 8),
    ] {
        let record = CanRecord {
            unit_type: UnitType::new(unit_type),
            dest: Dest::Tablet,
            unit_id: UnitId::try_new(unit_id).unwrap(),
            reg: RegId::new(reg),
            data: [first, 0, 0, 0, 0, 0, 0],
        };
        bank.apply(&record);
        stored.push(BankKey::from_record(&record));
    }
    stored.sort_by_key(|key| key.place());
    stored.dedup();
    let total: usize = bank
        .unit_types()
        .into_iter()
        .map(|t| bank.records_for_any_unit(t).len())
        .sum();
    assert_eq!(bank.len(), 5);
    assert_eq!(bank.len(), total);
    assert_eq!(bank.len(), stored.len());

    let aircon = UnitType::aircon();
    let listed = bank.records_for_any_unit(aircon);
    let by_unit: Vec<CanRecord> = bank
        .unit_ids(aircon)
        .into_iter()
        .flat_map(|id| bank.records_for_unit(aircon, id))
        .collect();
    assert_eq!(listed, by_unit);

    let mut again = RegisterBank::new();
    for record in &listed {
        again.apply(record);
    }
    assert_eq!(again.len(), 4);
    for key in stored {
        let expected = if key.unit_type == aircon {
            bank.get_key(&key)
        } else {
            None
        };
        assert_eq!(again.get_key(&key), expected);
    }
}
