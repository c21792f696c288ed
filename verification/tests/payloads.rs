use cb_daemon::registers::bank::RegisterBank;
use cb_daemon::registers::decoded::DecodedRegister;
use cb_daemon::registers::enums::{
    Action, ActivationStatus, Fan, FreshAir, Mode, Power, SensorType, UnitBrand,
};
use cb_daemon::registers::ids::{RegId, UnitId, UnitType};
use cb_daemon::registers::payloads::{
    ActivationCode, FirmwareStatus, InfoByte, RfDeviceCalibration, RfDevicePairing,
    SensorPairingRead, SensorPairingWrite, SystemError, SystemStatus, UnitActivation,
    UnitAnnouncement, ZoneConfig, ZoneLimits, ZoneState,
};
use cb_daemon::registers::wire::{CanRecord, Dest};

#[test]
fn zone_config_round_trip() {
    let original = ZoneConfig {
        header: 0x20,
        num_zones: 3,
        num_constant: 1,
        constant: [0x01, 0x00, 0x00],
        filter_clean: false,
    };
    let bytes: [u8; 7] = original.into();
    assert_eq!(bytes, [0x20, 0x03, 0x01, 0x01, 0x00, 0x00, 0x00]);
    let decoded = ZoneConfig::from(bytes);
    assert_eq!(decoded, original);

    let record = CanRecord::parse_one("0703abcde0120030101000000").unwrap();
    assert_eq!(record.decode(), DecodedRegister::ZoneConfig(original));
    assert_eq!(
        DecodedRegister::ZoneConfig(original).to_bytes(),
        record.data
    );
    assert_eq!(
        DecodedRegister::ZoneConfig(original).reg_id(),
        RegId::new(0x01)
    );
}

#[test]
fn zone_state_round_trip_and_packing() {
    let original = ZoneState {
        zone: 0x01,
        open: true,
        percent: 100,
        sensor: SensorType::NoSensor,
        set_temp_x2: 0x30,
        meas_int: 0,
        meas_dec: 0,
    };
    let bytes: [u8; 7] = original.into();
    assert_eq!(bytes[0], 0x01);
    assert_eq!(bytes[1], 0xe4);
    assert_eq!(bytes[3], 0x30);
    assert_eq!(ZoneState::from(bytes), original);

    let closed = ZoneState {
        zone: 0x02,
        open: false,
        percent: 50,
        sensor: SensorType::Rf,
        set_temp_x2: 0x2a,
        meas_int: 0x18,
        meas_dec: 0x02,
    };
    let b: [u8; 7] = closed.into();
    assert_eq!(b[1], 50);
    assert_eq!(ZoneState::from(b), closed);

    let record = CanRecord::parse_one("0703abcde0301e40030000000").unwrap();
    let DecodedRegister::ZoneState(zs) = record.decode() else {
        panic!("expected ZoneState");
    };
    assert!(zs.open);
    assert_eq!(zs.percent, 100);
    assert_eq!(zs.zone, 0x01);
    assert_eq!(zs.set_temp_x2, 0x30);
    assert_eq!(zs.sensor, SensorType::NoSensor);
}

#[test]
fn system_status_round_trip_and_fresh_air() {
    let original = SystemStatus {
        power: Power::On,
        mode: Mode::Cool,
        fan: Fan::High,
        set_temp_x2: 0x30,
        myzone_id: 0,
        fresh_air: FreshAir::Off,
        rf_sys_id: 0,
    };
    let bytes: [u8; 7] = original.into();
    assert_eq!(bytes, [0x01, 0x01, 0x03, 0x30, 0x00, 0x01, 0x00]);
    assert_eq!(SystemStatus::from(bytes), original);

    assert_eq!(FreshAir::from_u8(0x00), FreshAir::Absent);
    assert_eq!(FreshAir::from_u8(0x01), FreshAir::Off);
    assert_eq!(FreshAir::from_u8(0x02), FreshAir::On);
    assert_eq!(FreshAir::On.to_u8(), 0x02);

    let record = CanRecord::parse_one("0703abcde0501010330000100").unwrap();
    assert_eq!(record.decode(), DecodedRegister::SystemStatus(original));
}

#[test]
fn firmware_status_round_trip_never_flush_variant() {
    let original = FirmwareStatus {
        fw_major: 0x01,
        fw_minor: 0x02,
        cb_type: 0x03,
        rf_fw_major: 0x00,
    };
    let bytes: [u8; 7] = original.into();
    assert_eq!(bytes, [0x01, 0x02, 0x03, 0x00, 0x00, 0x00, 0x00]);
    assert_eq!(FirmwareStatus::from(bytes), original);

    let record = CanRecord::parse_one("0703abcde0601020300000000").unwrap();
    assert_eq!(record.decode(), DecodedRegister::FirmwareStatus(original));
    let zeros = CanRecord::flush_all();
    assert!(matches!(
        zeros.decode(),
        DecodedRegister::FirmwareStatus(FirmwareStatus {
            fw_major: 0,
            fw_minor: 0,
            cb_type: 0,
            rf_fw_major: 0,
        })
    ));
}

#[test]
fn mod_unit_activation_round_trip() {
    let original = UnitActivation {
        unit_type: UnitBrand::Daikin,
        activation_status: ActivationStatus::CodeEnabled,
        dict_fw_major: 0x02,
        dict_fw_minor: 0x03,
    };
    let bytes: [u8; 7] = original.into();
    assert_eq!(bytes, [0x11, 0x01, 0x02, 0x03, 0x00, 0x00, 0x00]);
    let decoded = DecodedRegister::from_reg_data(RegId::new(0x02), bytes);
    assert_eq!(decoded, DecodedRegister::UnitActivation(original));
    assert_eq!(decoded.reg_id(), RegId::new(0x02));
    assert_eq!(decoded.to_bytes(), bytes);
}

#[test]
fn mod_zone_limits_round_trip() {
    let original = ZoneLimits {
        zone: 0x01,
        min_damper: 20,
        max_damper: 80,
        motion_status: 2,
        motion_config: 1,
        zone_error: 0x03,
        rssi: 0x2a,
    };
    let bytes: [u8; 7] = original.into();
    assert_eq!(bytes, [0x01, 20, 80, 2, 1, 0x03, 0x2a]);
    let decoded = DecodedRegister::from_reg_data(RegId::new(0x04), bytes);
    assert_eq!(decoded, DecodedRegister::ZoneLimits(original));
    assert_eq!(decoded.reg_id(), RegId::new(0x04));
    assert_eq!(decoded.to_bytes(), bytes);
}

#[test]
fn system_error_round_trip() {
    let original = SystemError {
        error_code: [b'A', b'A', b'1', 0x00, b'X'],
    };
    let bytes: [u8; 7] = original.into();
    let decoded = DecodedRegister::from_reg_data(RegId::new(0x08), bytes);
    assert_eq!(decoded, DecodedRegister::SystemError(original));
    assert_eq!(decoded.reg_id(), RegId::new(0x08));
    assert_eq!(decoded.to_bytes(), bytes);
}

#[test]
fn mod_activation_code_round_trip() {
    let original = ActivationCode {
        action: Action::Unlock,
        unlock_code: [0xab, 0xcd],
        activation_days: 30,
    };
    let bytes: [u8; 7] = original.into();
    assert_eq!(bytes, [0x02, 0xab, 0xcd, 30, 0x00, 0x00, 0x00]);
    let decoded = DecodedRegister::from_reg_data(RegId::new(0x09), bytes);
    assert_eq!(decoded, DecodedRegister::ActivationCode(original));
    assert_eq!(decoded.reg_id(), RegId::new(0x09));
    assert_eq!(decoded.to_bytes(), bytes);
}

#[test]
fn mod_unit_announcement_round_trip() {
    let original = UnitAnnouncement {};
    let bytes: [u8; 7] = original.into();
    let decoded = DecodedRegister::from_reg_data(RegId::new(0x0a), bytes);
    assert_eq!(decoded, DecodedRegister::UnitAnnouncement(original));
    assert_eq!(decoded.reg_id(), RegId::new(0x0a));
    assert_eq!(decoded.to_bytes(), bytes);
}

#[test]
fn sensor_pairing_read_default_for_reg_12() {
    let bytes = [0xaa, 0xbb, 0xcc, 0x40, 0x03, 0x00, 0x00];
    let decoded = DecodedRegister::from_reg_data(RegId::new(0x12), bytes);
    let expected = DecodedRegister::SensorPairingRead(SensorPairingRead {
        sensor_uid: [0xaa, 0xbb, 0xcc],
        info_byte: 0x40,
        sensor_rev: 0x03,
    });
    assert_eq!(decoded, expected);
    assert_eq!(decoded.reg_id(), RegId::new(0x12));
    assert_eq!(decoded.to_bytes(), bytes);
}

#[test]
fn sensor_pairing_write_round_trip_via_variant() {
    let original = SensorPairingWrite {
        sensor_uid: [0xaa, 0xbb, 0xcc],
        zone: 0x05,
    };
    let bytes: [u8; 7] = original.into();
    assert_eq!(bytes, [0xaa, 0xbb, 0xcc, 0x05, 0x00, 0x00, 0x00]);
    assert!(matches!(
        DecodedRegister::from_reg_data(RegId::new(0x12), bytes),
        DecodedRegister::SensorPairingRead(_)
    ));
    let write = DecodedRegister::SensorPairingWrite(original);
    assert_eq!(write.reg_id(), RegId::new(0x12));
    assert_eq!(write.to_bytes(), bytes);
}

#[test]
fn info_byte_round_trip() {
    let original = InfoByte {
        info_byte: 0x7f,
        rest: [0x01, 0x02, 0x03, 0x04, 0x05, 0x06],
    };
    let bytes: [u8; 7] = original.into();
    let decoded = DecodedRegister::from_reg_data(RegId::new(0x13), bytes);
    assert_eq!(decoded, DecodedRegister::InfoByte(original));
    assert_eq!(decoded.reg_id(), RegId::new(0x13));
    assert_eq!(decoded.to_bytes(), bytes);
}

#[test]
fn mod_rf_device_pairing_round_trip() {
    let original = RfDevicePairing {
        pairing_control: 0x01,
        rf_device_type: 129,
        zone_channel: 0x03,
    };
    let bytes: [u8; 7] = original.into();
    let decoded = DecodedRegister::from_reg_data(RegId::new(0x26), bytes);
    assert_eq!(decoded, DecodedRegister::RfDevicePairing(original));
    assert_eq!(decoded.reg_id(), RegId::new(0x26));
    assert_eq!(decoded.to_bytes(), bytes);
}

#[test]
fn rf_device_calibration_round_trip() {
    let original = RfDeviceCalibration {
        calibration_control: 0x02,
        channel: 0x0a,
        up_down_position: 0x05,
    };
    let bytes: [u8; 7] = original.into();
    let decoded = DecodedRegister::from_reg_data(RegId::new(0x27), bytes);
    assert_eq!(decoded, DecodedRegister::RfDeviceCalibration(original));
    assert_eq!(decoded.reg_id(), RegId::new(0x27));
    assert_eq!(decoded.to_bytes(), bytes);
}

#[test]
fn unknown_enum_passthrough() {
    assert_eq!(Power::from_u8(0xfe), Power::Unknown(0xfe));
    assert_eq!(Power::Unknown(0xfe).to_u8(), 0xfe);
    assert_eq!(Mode::from_u8(0xfe), Mode::Unknown(0xfe));
    assert_eq!(Mode::Unknown(0xfe).to_u8(), 0xfe);
    assert_eq!(Fan::from_u8(0xfe), Fan::Unknown(0xfe));
    assert_eq!(Fan::Unknown(0xfe).to_u8(), 0xfe);
    assert_eq!(FreshAir::from_u8(0xfe), FreshAir::Unknown(0xfe));
    assert_eq!(FreshAir::Unknown(0xfe).to_u8(), 0xfe);
    assert_eq!(SensorType::from_u8(0xfe), SensorType::Unknown(0xfe));
    assert_eq!(SensorType::Unknown(0xfe).to_u8(), 0xfe);

    let status = SystemStatus {
        power: Power::Unknown(0xfe),
        mode: Mode::Unknown(0xfe),
        fan: Fan::Unknown(0xfe),
        set_temp_x2: 0x20,
        myzone_id: 1,
        fresh_air: FreshAir::Unknown(0xfe),
        rf_sys_id: 0,
    };
    let bytes: [u8; 7] = status.into();
    assert_eq!(bytes[0], 0xfe);
    assert_eq!(bytes[1], 0xfe);
    assert_eq!(bytes[2], 0xfe);
    assert_eq!(bytes[5], 0xfe);
    assert_eq!(SystemStatus::from(bytes), status);
}

#[test]
fn flush_all_and_is_flush() {
    let flush = CanRecord::flush_all();
    assert_eq!(flush.to_wire(), "0701000000600000000000000");
    assert!(flush.is_flush());
    assert_eq!(flush.unit_type, UnitType::aircon());
    assert_eq!(flush.dest, Dest::ControlBox);
    assert_eq!(flush.unit_id.get(), 0);
    assert_eq!(flush.reg.get(), 0x06);
    assert_eq!(flush.data, [0; 7]);

    let firmware = CanRecord::parse_one("0703abcde0601020300000000").unwrap();
    assert!(!firmware.is_flush());
    let almost = CanRecord::parse_one("0701000000600000000000001").unwrap();
    assert!(!almost.is_flush());

    let other_type = CanRecord {
        unit_type: UnitType::new(0x02),
        dest: Dest::ControlBox,
        unit_id: UnitId::zero(),
        reg: RegId::new(0x06),
        data: [0; 7],
    };
    assert!(!other_type.is_flush());
}

#[test]
fn unknown_register_passthrough() {
    for reg in [0x07, 0x16, 0x17, 0x1d, 0x1e] {
        let data = [0x01, 0x02, 0x03, 0x04, 0x05, 0x06, 0x07];
        let decoded = DecodedRegister::from_reg_data(RegId::new(reg), data);
        assert_eq!(
            decoded,
            DecodedRegister::Unknown {
                reg: RegId::new(reg),
                data,
            }
        );
        assert_eq!(decoded.reg_id(), RegId::new(reg));
        assert_eq!(decoded.to_bytes(), data);
    }
}

#[test]
fn getcan_fragment_applies_into_bank() {
    let fragment = "\
1 \
0703abcde0120030101000000 \
0703abcde0501010330000100 \
0703abcde0301e40030000000 \
0703abcde0302640030000000 \
0703abcde0601020300000000";
    let records = CanRecord::parse_many(fragment).unwrap();
    let mut bank = RegisterBank::new();
    for r in &records {
        bank.apply(r);
    }

    let unit_type = UnitType::aircon();
    let unit_id = UnitId::from_hex("abcde").unwrap();

    let cfg = bank
        .get_decoded(unit_type, unit_id, RegId::new(0x01))
        .expect("zone config");
    assert!(matches!(
        cfg,
        DecodedRegister::ZoneConfig(ZoneConfig {
            header: 0x20,
            num_zones: 3,
            num_constant: 1,
            ..
        })
    ));

    let sys = bank
        .get_decoded(unit_type, unit_id, RegId::new(0x05))
        .expect("system status");
    assert_eq!(
        sys,
        DecodedRegister::SystemStatus(SystemStatus {
            power: Power::On,
            mode: Mode::Cool,
            fan: Fan::High,
            set_temp_x2: 0x30,
            myzone_id: 0,
            fresh_air: FreshAir::Off,
            rf_sys_id: 0,
        })
    );

    let z1 = bank
        .get_zone_decoded(unit_type, unit_id, RegId::new(0x03), 0x01)
        .expect("zone 1");
    let DecodedRegister::ZoneState(zs1) = z1 else {
        panic!("expected ZoneState");
    };
    assert_eq!(zs1.zone, 0x01);
    assert!(zs1.open);
    assert_eq!(zs1.percent, 100);

    let z2 = bank
        .get_zone_decoded(unit_type, unit_id, RegId::new(0x03), 0x02)
        .expect("zone 2");
    let DecodedRegister::ZoneState(zs2) = z2 else {
        panic!("expected ZoneState");
    };
    assert_eq!(zs2.zone, 0x02);
    assert!(!zs2.open);
    assert_eq!(zs2.percent, 100);

    let fw = bank
        .get_decoded(unit_type, unit_id, RegId::new(0x06))
        .expect("firmware");
    assert!(matches!(fw, DecodedRegister::FirmwareStatus(_)));
}

#[test]
fn from_bytes_structs() {
    let data = [0x20_u8, 0x03, 0x01, 0x01, 0x00, 0x00, 0x00];
    let cfg = ZoneConfig::from(data);
    assert_eq!(cfg.num_zones, 3);
    let back: [u8; 7] = cfg.into();
    assert_eq!(back, data);
}

#[test]
fn payloads_unit_activation_round_trip() {
    let original = UnitActivation {
        unit_type: UnitBrand::Daikin,
        activation_status: ActivationStatus::CodeEnabled,
        dict_fw_major: 0x02,
        dict_fw_minor: 0x03,
    };
    let bytes: [u8; 7] = original.into();
    assert_eq!(bytes, [0x11, 0x01, 0x02, 0x03, 0x00, 0x00, 0x00]);
    assert_eq!(UnitActivation::from(bytes), original);
}

#[test]
fn payloads_zone_limits_round_trip() {
    let original = ZoneLimits {
        zone: 0x01,
        min_damper: 20,
        max_damper: 80,
        motion_status: 2,
        motion_config: 1,
        zone_error: 0x03,
        rssi: 0x2a,
    };
    let bytes: [u8; 7] = original.into();
    assert_eq!(bytes, [0x01, 20, 80, 2, 1, 0x03, 0x2a]);
    assert_eq!(ZoneLimits::from(bytes), original);
}

#[test]
fn system_error_raw_bytes_no_trim() {
    let original = SystemError {
        error_code: [b'A', b'A', b'1', 0x00, b'X'],
    };
    let bytes: [u8; 7] = original.into();
    assert_eq!(bytes, [b'A', b'A', b'1', 0x00, b'X', 0x00, 0x00]);
    let decoded = SystemError::from(bytes);
    assert_eq!(decoded.error_code, [b'A', b'A', b'1', 0x00, b'X']);
    assert_eq!(decoded, original);
}

#[test]
fn payloads_activation_code_round_trip() {
    let original = ActivationCode {
        action: Action::Unlock,
        unlock_code: [0xab, 0xcd],
        activation_days: 30,
    };
    let bytes: [u8; 7] = original.into();
    assert_eq!(bytes, [0x02, 0xab, 0xcd, 30, 0x00, 0x00, 0x00]);
    assert_eq!(ActivationCode::from(bytes), original);
}

#[test]
fn payloads_unit_announcement_round_trip() {
    let original = UnitAnnouncement {};
    let bytes: [u8; 7] = original.into();
    assert_eq!(bytes, [0; 7]);
    assert_eq!(UnitAnnouncement::from(bytes), original);
}

#[test]
fn sensor_pairing_read_round_trip() {
    let original = SensorPairingRead {
        sensor_uid: [0xaa, 0xbb, 0xcc],
        info_byte: 0x40,
        sensor_rev: 0x03,
    };
    let bytes: [u8; 7] = original.into();
    assert_eq!(bytes, [0xaa, 0xbb, 0xcc, 0x40, 0x03, 0x00, 0x00]);
    assert_eq!(SensorPairingRead::from(bytes), original);
}

#[test]
fn sensor_pairing_write_round_trip() {
    let original = SensorPairingWrite {
        sensor_uid: [0xaa, 0xbb, 0xcc],
        zone: 0x05,
    };
    let bytes: [u8; 7] = original.into();
    assert_eq!(bytes, [0xaa, 0xbb, 0xcc, 0x05, 0x00, 0x00, 0x00]);
    assert_eq!(SensorPairingWrite::from(bytes), original);
}

#[test]
fn info_byte_preserves_trailing_bytes() {
    let original = InfoByte {
        info_byte: 0x7f,
        rest: [0x01, 0x02, 0x03, 0x04, 0x05, 0x06],
    };
    let bytes: [u8; 7] = original.into();
    assert_eq!(bytes, [0x7f, 0x01, 0x02, 0x03, 0x04, 0x05, 0x06]);
    assert_eq!(InfoByte::from(bytes), original);
}

#[test]
fn payloads_rf_device_pairing_round_trip() {
    let original = RfDevicePairing {
        pairing_control: 0x01,
        rf_device_type: 129,
        zone_channel: 0x03,
    };
    let bytes: [u8; 7] = original.into();
    assert_eq!(bytes, [0x01, 129, 0x03, 0x00, 0x00, 0x00, 0x00]);
    assert_eq!(RfDevicePairing::from(bytes), original);
}

#[test]
fn rf_device_calibration_wire_order() {
    let original = RfDeviceCalibration {
        calibration_control: 0x02,
        channel: 0x0a,
        up_down_position: 0x05,
    };
    let bytes: [u8; 7] = original.into();
    assert_eq!(bytes, [0x02, 0x0a, 0x05, 0x00, 0x00, 0x00, 0x00]);
    assert_eq!(RfDeviceCalibration::from(bytes), original);
}

#[test]
fn unit_brand_boundaries() {
    assert_eq!(UnitBrand::from_u8(0x11), UnitBrand::Daikin);
    assert_eq!(UnitBrand::from_u8(0x12), UnitBrand::Panasonic);
    assert_eq!(UnitBrand::from_u8(0x13), UnitBrand::Fujitsu);
    assert_eq!(UnitBrand::from_u8(0x19), UnitBrand::SamsungDvm);
    assert_eq!(UnitBrand::Daikin.to_u8(), 0x11);
    assert_eq!(UnitBrand::Panasonic.to_u8(), 0x12);
    assert_eq!(UnitBrand::Fujitsu.to_u8(), 0x13);
    assert_eq!(UnitBrand::SamsungDvm.to_u8(), 0x19);
    assert_eq!(UnitBrand::from_u8(0x7f), UnitBrand::Unknown(0x7f));
    assert_eq!(UnitBrand::Unknown(0x7f).to_u8(), 0x7f);
}

#[test]
fn activation_status_boundaries() {
    assert_eq!(ActivationStatus::from_u8(0x00), ActivationStatus::NoCode);
    assert_eq!(
        ActivationStatus::from_u8(0x01),
        ActivationStatus::CodeEnabled
    );
    assert_eq!(ActivationStatus::from_u8(0x02), ActivationStatus::Expired);
    assert_eq!(ActivationStatus::NoCode.to_u8(), 0x00);
    assert_eq!(ActivationStatus::CodeEnabled.to_u8(), 0x01);
    assert_eq!(ActivationStatus::Expired.to_u8(), 0x02);
    assert_eq!(
        ActivationStatus::from_u8(0x7f),
        ActivationStatus::Unknown(0x7f)
    );
    assert_eq!(ActivationStatus::Unknown(0x7f).to_u8(), 0x7f);
}

#[test]
fn action_boundaries() {
    assert_eq!(Action::from_u8(0x01), Action::SetCode);
    assert_eq!(Action::from_u8(0x02), Action::Unlock);
    assert_eq!(Action::SetCode.to_u8(), 0x01);
    assert_eq!(Action::Unlock.to_u8(), 0x02);
    assert_eq!(Action::from_u8(0x7f), Action::Unknown(0x7f));
    assert_eq!(Action::Unknown(0x7f).to_u8(), 0x7f);
}
