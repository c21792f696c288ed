use cb_daemon::daemon::feeder::{
    build_report, feeder_unit_id, get_can_with_sample, sample_record, Feeder, FeederSpec,
};
use cb_daemon::engine::event::{EngineCmd, EngineEvent, SessionState};
use cb_daemon::engine::runner::{link_ended, link_failed, CbEngine, FrameStep};
use cb_daemon::engine::wire::{
    build_jz18, build_set_can, ACK_CAN, ACK_CAN_ZERO, DIRTY_RESET_SET_CAN, DUMP_SET_CAN,
    EMPTY_SET_CAN, GET_SYSTEM_DATA,
};
use cb_daemon::frame::Frame;
use cb_daemon::link::MockLink;
use cb_daemon::registers::ids::{RegId, UnitId, UnitType};
use cb_daemon::registers::wire::{CanRecord, Dest};

/// An engine over a scripted link, run by hand.
struct Bench {
    engine: CbEngine<MockLink>,
    events: Vec<EngineEvent>,
    stopped: bool,
}

fn framed(payload: &[u8]) -> Vec<u8> {
    Frame {
        payload: payload.to_vec(),
    }
    .encode()
}

impl Bench {
    fn start(link: MockLink) -> Self {
        let engine = CbEngine::new(link);
        let events = vec![engine.started()];
        Self {
            engine,
            events,
            stopped: false,
        }
    }

    /// Reads the link once and performs what the engine decides.
    fn turn(&mut self) {
        let chunk = match self.engine.link.read(1024) {
            Err(_) => {
                self.events.extend(link_failed("link closed".to_owned()));
                self.stopped = true;
                return;
            }
            Ok(bytes) if bytes.is_empty() => {
                self.events.extend(link_ended());
                self.stopped = true;
                return;
            }
            Ok(bytes) => bytes,
        };
        let step = self.engine.on_bytes(&chunk);
        for met in &step.met {
            match self.engine.on_frame(met) {
                FrameStep::Idle => {}
                FrameStep::Events(events) => self.events.extend(events),
                FrameStep::Transmit { bytes, flushed } => {
                    self.engine.link.write_all(&bytes).expect("open link");
                    if flushed {
                        self.events.push(EngineEvent::WriteFlushed);
                    }
                }
            }
        }
        self.events.extend(step.warning);
    }

    fn hear(&mut self, payload: &[u8]) {
        self.engine.link.push_inbound(&framed(payload));
        self.turn();
    }

    /// Pings the engine and returns the bytes of its answer.
    fn ping(&mut self) -> Vec<u8> {
        let _ = self.engine.link.take_written();
        self.hear(b"Ping");
        self.engine.link.take_written()
    }

    fn command(&mut self, cmd: EngineCmd) {
        self.events.extend(self.engine.on_command(cmd));
    }

    fn take_events(&mut self) -> Vec<EngineEvent> {
        std::mem::take(&mut self.events)
    }

    fn negotiate(&mut self) {
        assert_eq!(self.ping(), framed(GET_SYSTEM_DATA.as_bytes()));
        self.hear(b"CAN2 in use");
    }

    /// Resets the mailbox and requests its dump.
    fn request_dump(&mut self) {
        assert_eq!(self.ping(), framed(DIRTY_RESET_SET_CAN.as_bytes()));
        self.hear(&get_can_body(&[reset_record()]));
        assert_eq!(self.ping(), framed(ACK_CAN.as_bytes()));
        assert_eq!(self.ping(), framed(DUMP_SET_CAN.as_bytes()));
    }

    fn synced() -> Self {
        let mut bench = Self::start(MockLink::new());
        bench.negotiate();
        bench.request_dump();
        bench.hear(&get_can_body(&[sample()]));
        assert_eq!(bench.ping(), framed(ACK_CAN.as_bytes()));
        let jz18 = build_jz18(UnitType::new(0x07), unit());
        assert_eq!(bench.ping(), framed(&build_set_can(&[jz18])));
        assert_eq!(bench.ping(), framed(EMPTY_SET_CAN.as_bytes()));
        bench
    }
}

fn unit() -> UnitId {
    UnitId::try_new(0x0_ABCDE).unwrap()
}

fn sample() -> CanRecord {
    CanRecord {
        unit_type: UnitType::new(0x07),
        dest: Dest::Tablet,
        unit_id: unit(),
        reg: RegId::new(0x05),
        data: [0x01, 0x01, 0x03, 0x30, 0x00, 0x01, 0x00],
    }
}

fn reset_record() -> CanRecord {
    CanRecord {
        reg: RegId::new(0x06),
        data: [0; 7],
        ..sample()
    }
}

fn get_can_body(records: &[CanRecord]) -> Vec<u8> {
    let mut body = b"getCAN 1 ".to_vec();
    for rec in records {
        body.extend_from_slice(rec.to_wire().as_bytes());
        body.push(b' ');
    }
    body.pop();
    body
}

#[test]
fn mocklink_full_path_negotiate_dump_poll_write_ack() {
    let mut bench = Bench::start(MockLink::new());
    bench.negotiate();
    assert!(bench
        .take_events()
        .iter()
        .any(|e| matches!(e, EngineEvent::Negotiated { .. })));
    bench.request_dump();
    bench.hear(&get_can_body(&[sample()]));
    assert!(bench
        .take_events()
        .iter()
        .any(|e| matches!(e, EngineEvent::Snapshot { .. })));
    assert_eq!(bench.ping(), framed(ACK_CAN.as_bytes()));
    let jz18 = build_jz18(UnitType::new(0x07), unit());
    assert_eq!(bench.ping(), framed(&build_set_can(&[jz18])));
    assert_eq!(bench.ping(), framed(EMPTY_SET_CAN.as_bytes()));

    let write = CanRecord {
        unit_type: UnitType::new(0x07),
        dest: Dest::ControlBox,
        unit_id: UnitId::try_new(0).unwrap(),
        reg: RegId::new(0x06),
        data: [0; 7],
    };
    let _ = bench.take_events();
    bench.command(EngineCmd::WriteRegisters(vec![write]));
    assert_eq!(bench.ping(), framed(&build_set_can(&[write])));
    assert!(matches!(
        bench.take_events().as_slice(),
        [EngineEvent::WriteFlushed]
    ));
    bench.hear(&get_can_body(&[sample()]));
    assert!(matches!(
        bench.take_events().as_slice(),
        [EngineEvent::RegistersChanged { .. }]
    ));
    assert_eq!(bench.ping(), framed(ACK_CAN.as_bytes()));

    assert!(!bench.engine.is_shutdown());
    bench.command(EngineCmd::Shutdown);
    assert!(bench.engine.is_shutdown());
}

#[test]
fn mocklink_read_register_resolves_on_flush_get_can() {
    let mut bench = Bench::synced();
    bench.command(EngineCmd::ReadRegister {
        unit_type: UnitType::new(0x07),
        unit_id: unit(),
        reg: RegId::new(0x05),
        zone: None,
    });
    let flush = CanRecord {
        dest: Dest::ControlBox,
        ..reset_record()
    };
    assert_eq!(bench.ping(), framed(&build_set_can(&[flush])));
    let _ = bench.take_events();
    let fresh = CanRecord {
        data: [0x02, 0x02, 0x04, 0x31, 0x00, 0x02, 0x00],
        ..sample()
    };
    bench.hear(&get_can_body(&[fresh]));
    let events = bench.take_events();
    let Some(EngineEvent::RegisterRead {
        unit_type,
        unit_id,
        reg,
        zone,
        data: Some(data),
    }) = events
        .iter()
        .find(|e| matches!(e, EngineEvent::RegisterRead { .. }))
    else {
        panic!("expected a resolved read, got {events:?}");
    };
    assert_eq!(*unit_type, fresh.unit_type);
    assert_eq!(*unit_id, fresh.unit_id);
    assert_eq!(*reg, fresh.reg);
    assert_eq!(*zone, None);
    assert_eq!(*data, fresh.data);
    assert_eq!(bench.ping(), framed(ACK_CAN.as_bytes()));
}

#[test]
fn mocklink_resync_emits_fresh_snapshot() {
    let mut bench = Bench::start(MockLink::new());
    bench.negotiate();
    bench.request_dump();
    bench.hear(b"getCAN 1");
    assert!(bench
        .take_events()
        .iter()
        .any(|e| matches!(e, EngineEvent::Snapshot { .. })));

    bench.command(EngineCmd::ResyncMailbox);
    bench.request_dump();
    bench.hear(b"getCAN 1 0703abcde0501010330000100");
    let events = bench.take_events();
    let Some(EngineEvent::Snapshot { bank, .. }) = events
        .iter()
        .find(|e| matches!(e, EngineEvent::Snapshot { .. }))
    else {
        panic!("expected a snapshot, got {events:?}");
    };
    assert_eq!(
        bank.get(UnitType::new(0x07), unit(), RegId::new(0x05)),
        Some(sample().data)
    );
}

#[test]
fn link_error_emits_and_exits() {
    let mut link = MockLink::new();
    link.close();
    let mut bench = Bench::start(link);
    bench.turn();
    assert!(bench.stopped);
    assert!(matches!(
        bench.events.last(),
        Some(EngineEvent::LinkError(text)) if text == "link closed"
    ));
}

#[test]
fn link_eof_zero_read_emits_link_error_and_exits() {
    let mut bench = Bench::start(MockLink::new());
    bench.turn();
    assert!(bench.stopped);
    let Some(EngineEvent::LinkError(msg)) = bench.events.last() else {
        panic!("expected a link error");
    };
    assert!(
        msg.contains("EOF") || msg.contains('0'),
        "expected EOF wording, got {msg}"
    );
}

#[test]
fn session_state_first_event_is_negotiating() {
    let bench = Bench::start(MockLink::new());
    assert!(matches!(
        bench.events.first(),
        Some(EngineEvent::SessionState(SessionState::Negotiating))
    ));
}

#[test]
fn session_state_synced_accompanies_snapshot() {
    let mut bench = Bench::start(MockLink::new());
    bench.negotiate();
    bench.request_dump();
    bench.hear(b"getCAN 1");
    let events = bench.take_events();
    let at = events
        .iter()
        .position(|e| matches!(e, EngineEvent::Snapshot { .. }))
        .expect("snapshot");
    assert!(matches!(
        events[at + 1],
        EngineEvent::SessionState(SessionState::Synced)
    ));
}

#[test]
fn session_state_resync_emits_resyncing_before_synced_snapshot() {
    let mut bench = Bench::start(MockLink::new());
    bench.negotiate();
    bench.request_dump();
    bench.hear(b"getCAN 1");
    let _ = bench.take_events();

    bench.command(EngineCmd::ResyncMailbox);
    assert!(matches!(
        bench.take_events().as_slice(),
        [EngineEvent::SessionState(SessionState::Resyncing)]
    ));
    bench.request_dump();
    let _ = bench.take_events();
    bench.hear(b"getCAN 1");
    assert!(matches!(
        bench.take_events().as_slice(),
        [
            EngineEvent::Snapshot { .. },
            EngineEvent::SessionState(SessionState::Synced)
        ]
    ));
}

#[test]
fn session_state_link_down_before_link_error() {
    let mut link = MockLink::new();
    link.close();
    let mut bench = Bench::start(link);
    bench.turn();
    assert!(matches!(
        bench.events.as_slice(),
        [
            EngineEvent::SessionState(SessionState::Negotiating),
            EngineEvent::SessionState(SessionState::LinkDown),
            EngineEvent::LinkError(_)
        ]
    ));
}

#[test]
fn damaged_report_is_refused_once() {
    let mut bench = Bench::synced();
    let _ = bench.take_events();
    let mut bytes = framed(&get_can_body(&[sample()]));
    bytes[13] = b'9';
    bench.engine.link.push_inbound(&bytes);
    bench.turn();
    let events = bench.take_events();
    let [EngineEvent::ProtocolWarn(text)] = events.as_slice() else {
        panic!("expected a warning, got {events:?}");
    };
    assert!(text.starts_with("frame scan: InvalidCrc"), "{text}");
    assert_eq!(bench.ping(), framed(ACK_CAN_ZERO.as_bytes()));
    assert_eq!(bench.ping(), framed(EMPTY_SET_CAN.as_bytes()));
}

#[test]
fn frames_in_pieces_are_put_together() {
    let mut bench = Bench::start(MockLink::new());
    let bytes = framed(b"Ping");
    for byte in &bytes[..bytes.len() - 1] {
        bench.engine.link.push_inbound(&[*byte]);
        bench.turn();
        assert!(bench.engine.link.written().is_empty());
    }
    bench.engine.link.push_inbound(&bytes[bytes.len() - 1..]);
    bench.turn();
    assert_eq!(
        bench.engine.link.written(),
        framed(GET_SYSTEM_DATA.as_bytes())
    );
}

#[test]
fn feeder_task_emits_snapshot() {
    let mut bench = Bench::start(MockLink::new());
    let mut feeder = Feeder::new(FeederSpec::default());
    for _ in 0..8 {
        let written = bench.ping();
        if let Ok((frame, _)) = Frame::decode_one(&written) {
            if let Some(reply) = feeder.on_written(&frame.payload) {
                bench.hear(&reply);
            }
        }
    }
    assert!(bench
        .events
        .iter()
        .any(|e| matches!(e, EngineEvent::Snapshot { .. })));
}

#[test]
fn feeder_reports_one_unit() {
    assert_eq!(feeder_unit_id(), unit());
    assert_eq!(sample_record(), sample());
    assert_eq!(get_can_with_sample(), get_can_body(&[sample()]));
    assert_eq!(build_report(&[]), b"getCAN 1");
    assert_eq!(
        build_report(&[sample(), reset_record()]),
        get_can_body(&[sample(), reset_record()])
    );
}

#[test]
fn feeder_answers_what_is_written() {
    let mut feeder = Feeder::new(FeederSpec::default());
    let said = |feeder: &mut Feeder, payload: &[u8]| {
        feeder
            .on_written(payload)
            .map(|bytes| String::from_utf8(bytes).unwrap())
    };
    assert_eq!(
        said(&mut feeder, GET_SYSTEM_DATA.as_bytes()).as_deref(),
        Some("CAN2 in use")
    );
    assert_eq!(said(&mut feeder, ACK_CAN.as_bytes()), None);
    assert_eq!(said(&mut feeder, b"setCAN nonsense"), None);
    assert_eq!(
        said(&mut feeder, EMPTY_SET_CAN.as_bytes()).as_deref(),
        Some("getCAN 1")
    );
    let both = "getCAN 1 0703abcde0501010330000100 0703abcde16deadbeef010203";
    assert_eq!(
        said(&mut feeder, DIRTY_RESET_SET_CAN.as_bytes()).as_deref(),
        Some(both)
    );
    assert_eq!(
        said(&mut feeder, DUMP_SET_CAN.as_bytes()).as_deref(),
        Some("getCAN 1 0803abcde0600000000000000")
    );
    assert_eq!(
        said(&mut feeder, b"setCAN 0801abcde050101032e000100").as_deref(),
        Some("getCAN 1 0803abcde050101032e000100")
    );
    assert!(!feeder.is_finished());

    let mut quiet = Feeder::new(FeederSpec::default().without_reg05().stop_after_dump());
    assert_eq!(
        said(&mut quiet, DIRTY_RESET_SET_CAN.as_bytes()).as_deref(),
        Some("getCAN 1 0703abcde16deadbeef010203")
    );
    assert!(!quiet.is_finished());
    let _ = said(&mut quiet, DUMP_SET_CAN.as_bytes());
    assert!(quiet.is_finished());

    let spec = FeederSpec::default().scripted_reg06(
        UnitType::new(0x0a),
        UnitId::from_hex("fedcb").unwrap(),
        [0; 7],
    );
    let mut announcing = Feeder::new(spec);
    assert_eq!(
        said(&mut announcing, EMPTY_SET_CAN.as_bytes()).as_deref(),
        Some("getCAN 1 0a03fedcb0600000000000000")
    );
    assert_eq!(
        said(&mut announcing, EMPTY_SET_CAN.as_bytes()).as_deref(),
        Some("getCAN 1")
    );
}

#[test]
fn damaged_report_and_ping_in_one_read_are_answered_with_a_refusal() {
    let mut bench = Bench::synced();
    let _ = bench.take_events();
    let _ = bench.engine.link.take_written();
    let mut bytes = framed(&get_can_body(&[sample()]));
    bytes[13] = b'9';
    bytes.extend(framed(b"Ping"));
    bench.engine.link.push_inbound(&bytes);
    bench.turn();
    assert_eq!(
        bench.engine.link.take_written(),
        framed(ACK_CAN_ZERO.as_bytes())
    );
    assert!(bench.take_events().is_empty());
}

#[test]
fn the_last_frame_of_a_read_decides_the_acknowledgement() {
    let good = framed(&get_can_body(&[sample()]));
    let mut bad = good.clone();
    bad[13] = b'9';
    for (first, second, answer) in [
        (&bad, &good, ACK_CAN.as_bytes()),
        (&good, &bad, ACK_CAN_ZERO.as_bytes()),
    ] {
        let mut bench = Bench::synced();
        let mut bytes = first.clone();
        bytes.extend(second);
        bench.engine.link.push_inbound(&bytes);
        bench.turn();
        assert_eq!(bench.ping(), framed(answer));
    }
}

#[test]
fn noise_before_the_start_of_a_frame_is_not_reported() {
    let mut bench = Bench::synced();
    let _ = bench.take_events();
    bench.engine.link.push_inbound(b"xx<U>Pi");
    bench.turn();
    assert!(bench.take_events().is_empty());
    bench.engine.link.push_inbound(b"xxxx</U=00>noise");
    bench.turn();
    assert!(matches!(
        bench.take_events().as_slice(),
        [EngineEvent::ProtocolWarn(_)]
    ));
}
