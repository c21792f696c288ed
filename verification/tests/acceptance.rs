use cb_daemon::daemon::client::{
    changed_status, connect_status, frame_step, handle_client_message, invalid_message,
    snapshot_message, waiting_step, ClientFrame, ClientSession, FrameStep, Request, WsEvent,
};
use cb_daemon::daemon::config::Config;
use cb_daemon::daemon::feeder::{Feeder, FeederSpec};
use cb_daemon::daemon::hub::Hub;
use cb_daemon::daemon::pending::{PendingAcks, PendingReads, SessionTimeouts};
use cb_daemon::daemon::watchdog::{idle_power_off, Watchdog};
use cb_daemon::engine::event::{EngineCmd, EngineEvent};
use cb_daemon::engine::runner::{link_failed, CbEngine, FrameStep as EngineStep};
use cb_daemon::frame::Frame;
use cb_daemon::link::MockLink;
use cb_daemon::mailbox::dto::{AckStatus, StatusState};
use cb_daemon::mailbox::message::{ClientMessage, ServerMessage};
use cb_daemon::mailbox::snapshot::{Content, RegisterSnapshot};
use cb_daemon::mailbox::value::{Field, Member, Number, Payload};
use cb_daemon::registers::bank::{BankKey, RegisterBank};
use cb_daemon::registers::ids::{RegId, UnitId, UnitType};
use cb_daemon::registers::wire::{CanRecord, Dest};

/// A client and all it was told.
struct Client {
    session: ClientSession,
    told: StatusState,
    bridged: bool,
    inbox: Vec<ServerMessage>,
}

/// The daemon over the scripted control box, with a clock of its own.
struct World {
    engine: CbEngine<MockLink>,
    feeder: Option<Feeder>,
    hub: Hub,
    timeouts: SessionTimeouts,
    clients: Vec<Option<Client>>,
    commands: Vec<EngineCmd>,
    now: u64,
}

impl World {
    fn spawn(feeder: Option<FeederSpec>, timeouts: SessionTimeouts) -> Self {
        let engine = CbEngine::new(MockLink::new());
        let started = engine.started();
        let mut world = Self {
            engine,
            feeder: feeder.map(Feeder::new),
            hub: Hub::new(),
            timeouts,
            clients: Vec::new(),
            commands: Vec::new(),
            now: 0,
        };
        world.fan_out(vec![started]);
        world
    }

    fn mock() -> Self {
        Self::spawn(Some(FeederSpec::default()), SessionTimeouts::default())
    }

    fn synced(spec: FeederSpec) -> Self {
        let mut world = Self::spawn(Some(spec), SessionTimeouts::default());
        world.run(20);
        world
    }

    fn fan_out(&mut self, events: Vec<EngineEvent>) {
        for event in events {
            for heard in self.hub.on_event(event) {
                for client in self.clients.iter_mut().flatten() {
                    if client.bridged {
                        let told = client.session.on_event(&heard);
                        client.inbox.extend(told);
                    }
                }
            }
        }
        self.bridge();
    }

    /// Lets clients in that waited for the mailbox.
    fn bridge(&mut self) {
        let Some(bank) = self.hub.held.as_ref() else {
            return;
        };
        for client in self.clients.iter_mut().flatten() {
            if !client.bridged {
                client.bridged = true;
                client
                    .inbox
                    .extend(changed_status(client.told, self.hub.status));
                client.inbox.push(snapshot_message(bank));
            }
        }
    }

    fn connect(&mut self) -> usize {
        self.clients.push(Some(Client {
            session: ClientSession::new(self.timeouts),
            told: self.hub.status,
            bridged: false,
            inbox: vec![connect_status(self.hub.status)],
        }));
        self.bridge();
        self.clients.len() - 1
    }

    fn disconnect(&mut self, id: usize) {
        self.clients[id] = None;
    }

    fn count(&self) -> usize {
        self.clients.iter().flatten().count()
    }

    fn client(&mut self, id: usize) -> &mut Client {
        self.clients[id].as_mut().expect("connected")
    }

    fn inbox(&mut self, id: usize) -> Vec<ServerMessage> {
        std::mem::take(&mut self.client(id).inbox)
    }

    fn command(&mut self, cmd: EngineCmd) {
        self.commands.push(cmd.clone());
        let event = self.engine.on_command(cmd);
        self.fan_out(event.into_iter().collect());
    }

    fn send(&mut self, id: usize, msg: ClientMessage) {
        match handle_client_message(self.hub.held.as_ref(), None, msg) {
            Request::Answer(answer) => self.client(id).inbox.push(answer),
            Request::Queue { cmd, waiting } => {
                let now = self.now;
                let ack = self.client(id).session.on_queued(waiting, None, now);
                self.client(id).inbox.extend(ack);
                self.command(cmd);
            }
        }
    }

    /// A frame of a client that is no text; `false` when the session ends.
    fn send_frame(&mut self, id: usize, frame: ClientFrame) -> bool {
        match frame_step(frame) {
            FrameStep::Reply(answer) => {
                self.client(id).inbox.push(answer);
                true
            }
            FrameStep::End => false,
            _ => true,
        }
    }

    /// A text of a client that is no JSON.
    fn send_garbage(&mut self, id: usize, text: &str) {
        assert_eq!(frame_step(ClientFrame::Text), FrameStep::Handle);
        let err = serde_json::from_str::<serde_json::Value>(text).expect_err("no JSON");
        self.client(id).inbox.push(invalid_message(err.to_string()));
    }

    fn read_link(&mut self) {
        let Ok(chunk) = self.engine.link.read(1024) else {
            let events = link_failed("link closed".to_owned());
            self.fan_out(events);
            return;
        };
        let step = self.engine.on_bytes(&chunk);
        assert!(step.warning.is_none(), "the scripted box sends whole frames");
        for met in &step.met {
            match self.engine.on_frame(met) {
                EngineStep::Idle => {}
                EngineStep::Events(events) => self.fan_out(events),
                EngineStep::Transmit { bytes, flushed } => {
                    self.engine.link.write_all(&bytes).expect("open link");
                    if flushed {
                        self.fan_out(vec![EngineEvent::WriteFlushed]);
                    }
                }
            }
        }
    }

    fn hear(&mut self, payload: Vec<u8>) {
        let bytes = Frame { payload }.encode();
        self.engine.link.push_inbound(&bytes);
        self.read_link();
    }

    /// Pings the daemon a number of times, a hundredth of a second apart.
    fn run(&mut self, pings: usize) {
        for _ in 0..pings {
            self.wait(10);
            let Some(mut feeder) = self.feeder else {
                continue;
            };
            if feeder.is_finished() {
                continue;
            }
            self.hear(b"Ping".to_vec());
            let written = self.engine.link.take_written();
            if let Ok((frame, _)) = Frame::decode_one(&written) {
                let reply = feeder.on_written(&frame.payload);
                self.feeder = Some(feeder);
                if let Some(reply) = reply {
                    self.hear(reply);
                }
            }
        }
    }

    fn wait(&mut self, millis: u64) {
        self.now += millis;
        let now = self.now;
        for client in self.clients.iter_mut().flatten() {
            let expired = client.session.on_time(now);
            client.inbox.extend(expired);
        }
    }

    fn close_link(&mut self) {
        self.engine.link.close();
        self.read_link();
    }
}

fn raw(text: &str) -> Payload {
    Payload::Text(text.to_owned())
}

fn word(text: &str) -> Field {
    Field::Text(text.to_owned())
}

fn obj(members: &[(&str, Field)]) -> Payload {
    Payload::Object(
        members
            .iter()
            .map(|(name, value)| Member {
                name: (*name).to_owned(),
                value: value.clone(),
            })
            .collect(),
    )
}

fn at<'a>(payload: &'a Payload, name: &str) -> &'a Field {
    let Payload::Object(members) = payload else {
        panic!("expected a typed payload, got {payload:?}");
    };
    &members
        .iter()
        .find(|m| m.name == name)
        .unwrap_or_else(|| panic!("no field {name}"))
        .value
}

fn write(msg_id: &str, register: &str, zone: Option<u8>, payload: Payload) -> ClientMessage {
    ClientMessage::Write {
        msg_id: msg_id.to_owned(),
        unit_type: None,
        unit_id: None,
        register: register.to_owned(),
        zone,
        payload,
    }
}

fn reg05_write(msg_id: &str) -> ClientMessage {
    write(msg_id, "05", None, raw("0101032e000100"))
}

fn reg_read(msg_id: &str, register: &str, zone: Option<u8>) -> ClientMessage {
    ClientMessage::Read {
        msg_id: msg_id.to_owned(),
        unit_type: None,
        unit_id: None,
        register: register.to_owned(),
        zone,
    }
}

fn command(msg_id: &str, action: &str) -> ClientMessage {
    ClientMessage::Command {
        msg_id: msg_id.to_owned(),
        action: action.to_owned(),
    }
}

fn acks<'a>(inbox: &'a [ServerMessage], id: &str) -> Vec<(AckStatus, Option<&'a str>)> {
    inbox
        .iter()
        .filter_map(|m| match m {
            ServerMessage::Ack {
                msg_id,
                status,
                reason,
            } if msg_id == id => Some((*status, reason.as_deref())),
            _ => None,
        })
        .collect()
}

fn statuses(inbox: &[ServerMessage]) -> Vec<(StatusState, Option<String>)> {
    inbox
        .iter()
        .filter_map(|m| match m {
            ServerMessage::Status { state, detail } => Some((*state, detail.clone())),
            _ => None,
        })
        .collect()
}

fn event_of<'a>(
    inbox: &'a [ServerMessage],
    reg: &str,
    id: &str,
) -> Option<(&'a str, Option<u8>, &'a Payload)> {
    inbox.iter().find_map(|m| match m {
        ServerMessage::Event {
            unit_type,
            unit_id,
            register,
            zone,
            payload,
        } if register == reg && unit_id == id => Some((unit_type.as_str(), *zone, payload)),
        _ => None,
    })
}

fn read_result<'a>(inbox: &'a [ServerMessage], id: &str) -> Option<(Option<u8>, &'a Payload)> {
    inbox.iter().find_map(|m| match m {
        ServerMessage::ReadResult {
            msg_id,
            unit_type,
            unit_id,
            zone,
            payload,
            ..
        } if msg_id == id => {
            assert_eq!(unit_type, "07");
            assert_eq!(unit_id, "abcde");
            Some((*zone, payload))
        }
        _ => None,
    })
}

fn has_snapshot(inbox: &[ServerMessage]) -> bool {
    inbox
        .iter()
        .any(|m| matches!(m, ServerMessage::Snapshot { .. }))
}

/// The registers of a unit in the last snapshot that was told.
fn snapshot_unit(inbox: &[ServerMessage], key: &str) -> Option<Vec<RegisterSnapshot>> {
    inbox.iter().rev().find_map(|m| match m {
        ServerMessage::Snapshot { units } => Some(
            units
                .iter()
                .find(|u| u.key() == key)
                .map(|u| u.registers.clone()),
        ),
        _ => None,
    })?
}

fn single(registers: &[RegisterSnapshot], reg: u8) -> Option<Payload> {
    registers.iter().find_map(|r| match &r.content {
        Content::Single(payload) if r.reg == RegId::new(reg) => Some(payload.clone()),
        _ => None,
    })
}

fn assert_default_status(payload: &Payload, fan: &str) {
    assert_eq!(at(payload, "power"), &word("on"));
    assert_eq!(at(payload, "mode"), &word("cool"));
    assert_eq!(at(payload, "fan"), &word(fan));
    assert_eq!(
        at(payload, "target_temp_c"),
        &Field::Number(Number::Halves(48))
    );
    assert_eq!(at(payload, "fresh_air"), &word("off"));
    assert_eq!(
        at(payload, "rf_sys_id"),
        &Field::Number(Number::Integer(0))
    );
}

#[test]
fn mock_backend_ws_receives_mailbox_snapshot() {
    let mut world = World::mock();
    let id = world.connect();
    world.run(20);
    let inbox = world.inbox(id);
    let aircon = snapshot_unit(&inbox, "07:abcde").expect("unit");
    assert_default_status(&single(&aircon, 0x05).expect("status"), "high");
    let other = snapshot_unit(&inbox, "08:abcde").expect("unit");
    assert_eq!(
        at(&single(&other, 0x06).expect("version"), "fw_major"),
        &Field::Number(Number::Integer(0))
    );
}

#[test]
fn disconnect_before_snapshot_second_client_stays_connected() {
    let mut world = World::spawn(None, SessionTimeouts::default());
    let first = world.connect();
    world.run(10);
    world.disconnect(first);
    let second = world.connect();
    world.run(100);
    assert_eq!(
        statuses(&world.inbox(second)),
        vec![(StatusState::Negotiating, None)]
    );
    assert_eq!(waiting_step(ClientFrame::Text), FrameStep::Ignore);
}

#[test]
fn two_clients_both_receive_snapshot() {
    let mut world = World::mock();
    let a = world.connect();
    let b = world.connect();
    world.run(20);
    assert!(snapshot_unit(&world.inbox(a), "07:abcde").is_some());
    assert!(snapshot_unit(&world.inbox(b), "07:abcde").is_some());
}

#[test]
fn three_clients_all_receive_snapshot_and_none_rejected() {
    let mut world = World::mock();
    let ids = [world.connect(), world.connect(), world.connect()];
    world.run(20);
    for id in ids {
        let inbox = world.inbox(id);
        let aircon = snapshot_unit(&inbox, "07:abcde").expect("unit");
        assert_eq!(
            at(&single(&aircon, 0x05).expect("status"), "power"),
            &word("on")
        );
        let other = snapshot_unit(&inbox, "08:abcde").expect("unit");
        assert_eq!(
            at(&single(&other, 0x06).expect("version"), "fw_major"),
            &Field::Number(Number::Integer(0))
        );
    }
}

#[test]
fn event_fanout_to_all_clients() {
    let mut world = World::synced(FeederSpec::default());
    let a = world.connect();
    let b = world.connect();
    world.send(a, reg05_write("req-fanout"));
    world.run(5);
    let (inbox_a, inbox_b) = (world.inbox(a), world.inbox(b));
    assert_eq!(
        acks(&inbox_a, "req-fanout"),
        vec![(AckStatus::Success, None)]
    );
    assert!(acks(&inbox_b, "req-fanout").is_empty());
    assert!(event_of(&inbox_a, "05", "abcde").is_some());
    assert!(event_of(&inbox_b, "05", "abcde").is_some());
}

#[test]
fn batch_ack_two_writes() {
    let mut world = World::synced(FeederSpec::default());
    let id = world.connect();
    world.send(id, reg05_write("req-b1"));
    world.send(id, reg05_write("req-b2"));
    world.run(2_000);
    let inbox = world.inbox(id);
    assert_eq!(acks(&inbox, "req-b1"), vec![(AckStatus::Success, None)]);
    assert_eq!(acks(&inbox, "req-b2"), vec![(AckStatus::Success, None)]);
}

#[test]
fn disconnect_isolation() {
    let mut world = World::synced(FeederSpec::default());
    let a = world.connect();
    let b = world.connect();
    world.disconnect(a);
    world.send(b, reg05_write("req-iso"));
    world.run(5);
    let inbox = world.inbox(b);
    assert_eq!(acks(&inbox, "req-iso"), vec![(AckStatus::Success, None)]);
    assert!(event_of(&inbox, "05", "abcde").is_some());
}

#[test]
fn mailbox_write_and_resync_reach_engine() {
    let mut world = World::synced(FeederSpec::default());
    let id = world.connect();
    world.send(id, reg05_write("req-101"));
    world.run(3);
    world.send(id, command("req-201", "resync"));
    let inbox = world.inbox(id);
    assert_eq!(acks(&inbox, "req-101"), vec![(AckStatus::Success, None)]);
    assert_eq!(acks(&inbox, "req-201"), vec![(AckStatus::Success, None)]);
    assert!(matches!(
        world.commands.as_slice(),
        [EngineCmd::WriteRegisters(_), EngineCmd::ResyncMailbox]
    ));
}

#[test]
fn write_zone_bearing_register_stamps_wire_zone() {
    let mut world = World::synced(FeederSpec::default());
    let id = world.connect();
    world.send(id, write("req-301", "03", Some(2), raw("00e40230170100")));
    world.run(3);
    assert_eq!(
        acks(&world.inbox(id), "req-301"),
        vec![(AckStatus::Success, None)]
    );
    let [EngineCmd::WriteRegisters(records)] = world.commands.as_slice() else {
        panic!("expected one write");
    };
    assert_eq!(records.len(), 1);
    assert_eq!(records[0].reg.get(), 0x03);
    assert_eq!(records[0].data[0], 2);
    assert_eq!(records[0].data[1], 0xE4);
}

#[test]
fn write_non_zone_register_ignores_zone() {
    let mut world = World::synced(FeederSpec::default());
    let id = world.connect();
    world.send(id, write("req-302", "05", Some(9), raw("01010330000100")));
    world.run(3);
    assert_eq!(
        acks(&world.inbox(id), "req-302"),
        vec![(AckStatus::Success, None)]
    );
    let [EngineCmd::WriteRegisters(records)] = world.commands.as_slice() else {
        panic!("expected one write");
    };
    assert_eq!(records[0].reg.get(), 0x05);
    assert_eq!(records[0].data[0], 0x01);
}

#[test]
fn status_first_message_on_connect() {
    let mut world = World::mock();
    let early = world.connect();
    assert_eq!(
        world.inbox(early).first(),
        Some(&connect_status(StatusState::Negotiating))
    );
}

#[test]
fn status_negotiating_then_synced() {
    let mut world = World::mock();
    let id = world.connect();
    world.run(20);
    let states: Vec<StatusState> = statuses(&world.inbox(id))
        .into_iter()
        .map(|(state, _)| state)
        .collect();
    assert_eq!(states, vec![StatusState::Negotiating, StatusState::Synced]);
}

#[test]
fn status_resync_emits_resyncing_then_synced() {
    let mut world = World::synced(FeederSpec::default());
    let id = world.connect();
    let _ = world.inbox(id);
    world.send(id, command("req-resync", "resync"));
    world.run(20);
    let inbox = world.inbox(id);
    let states: Vec<StatusState> = statuses(&inbox).into_iter().map(|(s, _)| s).collect();
    assert_eq!(states, vec![StatusState::Resyncing, StatusState::Synced]);
    assert!(has_snapshot(&inbox));
}

#[test]
fn status_link_down_on_forced_link_close() {
    let mut world = World::synced(FeederSpec::default());
    let id = world.connect();
    let _ = world.inbox(id);
    world.close_link();
    assert_eq!(
        statuses(&world.inbox(id)),
        vec![
            (StatusState::LinkDown, None),
            (StatusState::LinkDown, Some("link closed".to_owned()))
        ]
    );
}

#[test]
fn status_transition_broadcast_to_all_clients() {
    let mut world = World::synced(FeederSpec::default());
    let ids = [world.connect(), world.connect(), world.connect()];
    world.close_link();
    for id in ids {
        assert_eq!(
            statuses(&world.inbox(id)).last(),
            Some(&(StatusState::LinkDown, Some("link closed".to_owned())))
        );
    }
}

#[test]
fn status_late_client_receives_current_synced() {
    let mut world = World::synced(FeederSpec::default());
    let id = world.connect();
    let inbox = world.inbox(id);
    assert_eq!(inbox[0], connect_status(StatusState::Synced));
    assert!(has_snapshot(&inbox));
    assert_eq!(statuses(&inbox).len(), 1);
}

#[test]
fn read_known_register_returns_typed_read_result() {
    let mut world = World::synced(FeederSpec::default());
    let id = world.connect();
    world.send(id, reg_read("req-read-01", "05", None));
    world.run(5);
    let inbox = world.inbox(id);
    let (zone, payload) = read_result(&inbox, "req-read-01").expect("result");
    assert_eq!(zone, None);
    assert_default_status(payload, "high");
}

#[test]
fn read_unknown_register_returns_raw_hex() {
    let mut world = World::synced(FeederSpec::default());
    let id = world.connect();
    world.send(id, reg_read("req-read-02", "16", None));
    world.run(5);
    let inbox = world.inbox(id);
    let (_, payload) = read_result(&inbox, "req-read-02").expect("result");
    assert_eq!(payload, &raw("deadbeef010203"));
}

#[test]
fn read_write_only_register_rejected() {
    let mut world = World::synced(FeederSpec::default());
    let id = world.connect();
    world.send(id, reg_read("req-read-03", "09", None));
    assert_eq!(
        acks(&world.inbox(id), "req-read-03"),
        vec![(AckStatus::Error, Some("register 09 is write-only"))]
    );
    assert!(world.commands.is_empty());
}

#[test]
fn read_internal_register_rejected() {
    let mut world = World::synced(FeederSpec::default());
    let id = world.connect();
    world.send(id, reg_read("req-read-04", "07", None));
    assert_eq!(
        acks(&world.inbox(id), "req-read-04"),
        vec![(AckStatus::Error, Some("register 07 is handled internally"))]
    );
}

#[test]
fn read_zone_bearing_register_with_zone_returns_zone_value() {
    let mut world = World::synced(FeederSpec::default());
    let id = world.connect();
    world.send(
        id,
        write("req-read-zone-write", "03", Some(2), raw("00e40230170100")),
    );
    world.run(5);
    let inbox = world.inbox(id);
    assert_eq!(
        acks(&inbox, "req-read-zone-write"),
        vec![(AckStatus::Success, None)]
    );
    assert!(event_of(&inbox, "03", "abcde").is_some());

    world.send(id, reg_read("req-read-05", "03", Some(2)));
    world.run(5);
    let inbox = world.inbox(id);
    let (zone, payload) = read_result(&inbox, "req-read-05").expect("result");
    assert_eq!(zone, Some(2));
    assert_eq!(at(payload, "open"), &Field::Bool(true));
    assert_eq!(
        at(payload, "damper_pct"),
        &Field::Number(Number::Integer(100))
    );
}

#[test]
fn read_zone_bearing_register_without_zone_rejected() {
    let mut world = World::synced(FeederSpec::default());
    let id = world.connect();
    world.send(id, reg_read("req-read-06", "03", None));
    assert_eq!(
        acks(&world.inbox(id), "req-read-06"),
        vec![(AckStatus::Error, Some("zone required for register 03"))]
    );
}

#[test]
fn read_unreported_register_acks_has_no_value() {
    let mut world = World::synced(FeederSpec::default());
    let id = world.connect();
    world.send(id, reg_read("req-read-07", "02", None));
    world.run(5);
    assert_eq!(
        acks(&world.inbox(id), "req-read-07"),
        vec![(AckStatus::Error, Some("register 02 has no value"))]
    );
}

#[test]
fn write_policy_error_acks_exact_reasons() {
    let mut world = World::synced(FeederSpec::default());
    let id = world.connect();
    let number = |n: u64| Field::Number(Number::Integer(n));
    let cases = [
        (
            "req-a2-1",
            "08",
            raw("00000000000000"),
            "register 08 is read-only",
        ),
        (
            "req-a2-2",
            "05",
            obj(&[("rf_sys_id", number(1))]),
            "field 'rf_sys_id' is read-only on register 05",
        ),
        (
            "req-a2-3",
            "07",
            raw("00000000000000"),
            "register 07 is handled internally",
        ),
        (
            "req-a2-4",
            "0b",
            raw("00000000000000"),
            "register 0b is unverified; writes not permitted",
        ),
        (
            "req-a2-5",
            "05",
            obj(&[("myzone_id", number(11))]),
            "field 'myzone' 11 out of range (max 10)",
        ),
    ];
    for (msg_id, register, payload, reason) in cases {
        world.send(id, write(msg_id, register, None, payload));
        assert_eq!(
            acks(&world.inbox(id), msg_id),
            vec![(AckStatus::Error, Some(reason))]
        );
    }
    world.send(id, reg05_write("req-a2-health"));
    world.run(3);
    assert_eq!(
        acks(&world.inbox(id), "req-a2-health"),
        vec![(AckStatus::Success, None)]
    );
}

#[test]
fn jz18_scripted_reg06_announcement_replies_reg07() {
    let spec = FeederSpec::default().scripted_reg06(
        UnitType::new(0x0A),
        UnitId::try_new(0x0_FEDCB).unwrap(),
        [0; 7],
    );
    let mut world = World::spawn(Some(spec), SessionTimeouts::default());
    let id = world.connect();
    world.run(30);
    let inbox = world.inbox(id);
    let (unit_type, _, payload) = event_of(&inbox, "07", "fedcb").expect("echo");
    assert_eq!(unit_type, "0a");
    assert_eq!(payload, &raw("00000000000000"));
}

#[test]
fn multi_unit_write_to_08_unit_echoes_type_08() {
    let mut world = World::synced(FeederSpec::default());
    let id = world.connect();
    world.send(
        id,
        ClientMessage::Write {
            msg_id: "req-a4-08".to_owned(),
            unit_type: Some("08".to_owned()),
            unit_id: Some("abcde".to_owned()),
            register: "05".to_owned(),
            zone: None,
            payload: raw("0101032e000100"),
        },
    );
    world.run(5);
    let inbox = world.inbox(id);
    assert_eq!(acks(&inbox, "req-a4-08"), vec![(AckStatus::Success, None)]);
    let (unit_type, _, _) = event_of(&inbox, "05", "abcde").expect("echo");
    assert_eq!(unit_type, "08");
}

#[test]
fn no_synthesis_snapshot_without_reg05() {
    let mut world = World::synced(FeederSpec::default().without_reg05());
    let id = world.connect();
    let inbox = world.inbox(id);
    let other = snapshot_unit(&inbox, "08:abcde").expect("unit");
    assert!(single(&other, 0x06).is_some());
    for m in &inbox {
        if let ServerMessage::Snapshot { units } = m {
            assert!(units
                .iter()
                .all(|u| u.registers.iter().all(|r| r.reg != RegId::new(0x05))));
        }
    }
}

#[test]
fn binary_frame_rejected_with_error() {
    let mut world = World::synced(FeederSpec::default());
    let id = world.connect();
    let _ = world.inbox(id);
    assert!(world.send_frame(id, ClientFrame::Binary));
    assert_eq!(
        world.inbox(id),
        vec![ServerMessage::Error {
            message: "binary frames not supported".to_owned(),
            reason: None,
        }]
    );
    world.send(id, reg05_write("req-a7"));
    world.run(3);
    assert_eq!(
        acks(&world.inbox(id), "req-a7"),
        vec![(AckStatus::Success, None)]
    );
}

#[test]
fn invalid_json_rejected_with_error() {
    let mut world = World::synced(FeederSpec::default());
    let id = world.connect();
    let _ = world.inbox(id);
    world.send_garbage(id, "{not json");
    assert_eq!(
        world.inbox(id),
        vec![ServerMessage::Error {
            message: "invalid client message".to_owned(),
            reason: Some("key must be a string at line 1 column 2".to_owned()),
        }]
    );
    world.send(id, reg05_write("req-a8"));
    world.run(3);
    assert_eq!(
        acks(&world.inbox(id), "req-a8"),
        vec![(AckStatus::Success, None)]
    );
}

#[test]
fn unknown_command_returns_error_ack_and_connection_stays_usable() {
    let mut world = World::synced(FeederSpec::default());
    let id = world.connect();
    world.send(id, command("req-a9-bogus", "defragment"));
    assert_eq!(
        acks(&world.inbox(id), "req-a9-bogus"),
        vec![(AckStatus::Error, Some("unknown action: defragment"))]
    );
    world.send(id, reg05_write("req-a9-health"));
    world.run(3);
    assert_eq!(
        acks(&world.inbox(id), "req-a9-health"),
        vec![(AckStatus::Success, None)]
    );
}

#[test]
fn sparse_typed_write_on_reg05_merges_over_bank() {
    let mut world = World::synced(FeederSpec::default());
    let id = world.connect();
    world.send(id, write("req-d11-1", "05", None, obj(&[("fan", word("low"))])));
    world.run(5);
    let inbox = world.inbox(id);
    assert_eq!(acks(&inbox, "req-d11-1"), vec![(AckStatus::Success, None)]);
    let (_, _, payload) = event_of(&inbox, "05", "abcde").expect("echo");
    assert_default_status(payload, "low");

    world.send(id, reg_read("req-d11-read", "05", None));
    world.run(5);
    let inbox = world.inbox(id);
    let (_, payload) = read_result(&inbox, "req-d11-read").expect("result");
    assert_default_status(payload, "high");
}

#[test]
fn sparse_typed_write_with_no_bank_state_errors() {
    let mut world = World::synced(FeederSpec::default());
    let id = world.connect();
    world.send(
        id,
        write("req-d11-2", "03", Some(2), obj(&[("open", Field::Bool(true))])),
    );
    assert_eq!(
        acks(&world.inbox(id), "req-d11-2"),
        vec![(
            AckStatus::Error,
            Some(
                "no bank state for register 03 [zone 2]; send a full payload or issue a read first"
            )
        )]
    );
}

#[test]
fn sparse_typed_write_client_sent_read_only_field_errors() {
    let mut world = World::synced(FeederSpec::default());
    let id = world.connect();
    world.send(
        id,
        write(
            "req-d11-3",
            "05",
            None,
            obj(&[("rf_sys_id", Field::Number(Number::Integer(1)))]),
        ),
    );
    assert_eq!(
        acks(&world.inbox(id), "req-d11-3"),
        vec![(
            AckStatus::Error,
            Some("field 'rf_sys_id' is read-only on register 05")
        )]
    );
}

#[test]
fn idle_failsafe_powers_off_after_client_disconnect() {
    let mut world = World::synced(FeederSpec::default());
    let id = world.connect();
    let mut dog = Watchdog::start(world.count(), world.now, 150, 100).expect("enabled");
    assert_eq!(dog.deadline, None);
    world.disconnect(id);
    dog.on_clients(world.count(), world.now);
    let deadline = dog.deadline.expect("armed");
    assert_eq!(deadline, world.now + 150);
    assert!(dog.on_deadline(world.count(), deadline));
    let records = idle_power_off(world.hub.held.as_ref()).expect("records");
    assert_eq!(records.len(), 1);
    assert_eq!(records[0].unit_type, UnitType::aircon());
    assert_eq!(records[0].unit_id, UnitId::try_new(0x0_ABCDE).unwrap());
    assert_eq!(records[0].reg.get(), 0x05);
    assert_eq!(records[0].data, [0x00, 0x01, 0x03, 0x30, 0x00, 0x01, 0x00]);
}

fn short_timeouts() -> SessionTimeouts {
    SessionTimeouts {
        write_ack: 400,
        read: 300,
    }
}

#[test]
fn silent_bus_write_times_out() {
    let mut world = World::spawn(
        Some(FeederSpec::default().stop_after_dump()),
        short_timeouts(),
    );
    world.run(20);
    let id = world.connect();
    let _ = world.inbox(id);
    world.send(id, reg05_write("req-silent-w"));
    world.run(200);
    assert_eq!(
        world.inbox(id),
        vec![ServerMessage::Ack {
            msg_id: "req-silent-w".to_owned(),
            status: AckStatus::Error,
            reason: Some("write timeout".to_owned()),
        }]
    );
}

#[test]
fn silent_bus_read_times_out() {
    let mut world = World::spawn(
        Some(FeederSpec::default().stop_after_dump()),
        short_timeouts(),
    );
    world.run(20);
    let id = world.connect();
    let _ = world.inbox(id);
    world.send(id, reg_read("req-silent-r", "05", None));
    world.run(200);
    assert_eq!(
        world.inbox(id),
        vec![ServerMessage::Ack {
            msg_id: "req-silent-r".to_owned(),
            status: AckStatus::Error,
            reason: Some("read timeout".to_owned()),
        }]
    );
}

#[test]
fn short_timeouts_normal_traffic_not_double_acked() {
    let mut world = World::spawn(Some(FeederSpec::default()), short_timeouts());
    world.run(20);
    let id = world.connect();
    world.send(id, reg05_write("req-fast-w"));
    world.send(id, reg_read("req-fast-r", "05", None));
    world.run(200);
    let inbox = world.inbox(id);
    assert_eq!(acks(&inbox, "req-fast-w"), vec![(AckStatus::Success, None)]);
    assert!(acks(&inbox, "req-fast-r").is_empty());
    assert!(read_result(&inbox, "req-fast-r").is_some());
}

#[test]
fn watchdog_without_reg05_feeder_never_writes() {
    let mut world = World::synced(FeederSpec::default().without_reg05());
    let mut dog = Watchdog::start(world.count(), 0, 200, 100).expect("enabled");
    for _ in 0..10 {
        let at = dog.deadline.expect("armed");
        assert!(dog.on_deadline(world.count(), at));
        assert_eq!(idle_power_off(world.hub.held.as_ref()), None);
    }
    let id = world.connect();
    assert!(snapshot_unit(&world.inbox(id), "08:abcde").is_some());
}

fn read_key() -> BankKey {
    BankKey {
        unit_type: UnitType::aircon(),
        unit_id: UnitId::try_new(0x0_181F3).unwrap(),
        reg: RegId::new(0x02),
        zone: None,
    }
}

#[test]
fn pending_reads_drain_expired_returns_only_dead_entries() {
    let mut pending = PendingReads::with_timeout(200);
    pending.push(read_key(), "early".to_owned(), 0);
    pending.push(read_key(), "late".to_owned(), 250);
    assert_eq!(pending.drain_expired(350), vec!["early"]);
    assert_eq!(pending.resolve(read_key()), vec!["late"]);
}

#[test]
fn pending_acks_next_deadline_ignores_msg_id_order() {
    let mut pending = PendingAcks::with_timeout(60_000);
    assert_eq!(pending.next_deadline(), None);
    pending.push("req-z".to_owned(), 0);
    let earliest = pending.next_deadline().expect("single deadline");
    assert!(earliest > 0);
    pending.push("req-a".to_owned(), 250);
    assert_eq!(pending.next_deadline(), Some(earliest));
}

#[test]
fn pending_acks_drain_expired_fires_earliest_deadline_across_ids() {
    let mut pending = PendingAcks::with_timeout(200);
    pending.push("req-z".to_owned(), 0);
    pending.push("req-a".to_owned(), 250);
    assert_eq!(pending.drain_expired(350), vec!["req-z"]);
    assert_eq!(pending.drain_all(), vec!["req-a"]);
}

#[test]
fn pending_acks_drain_expired_returns_only_dead_entries() {
    let mut pending = PendingAcks::with_timeout(200);
    pending.push("early".to_owned(), 0);
    pending.push("late".to_owned(), 250);
    assert_eq!(pending.drain_expired(350), vec!["early"]);
    assert_eq!(pending.drain_all(), vec!["late"]);
}

#[test]
fn interleaved_write_read_deadlines_expire_independently() {
    let mut pending = PendingAcks::with_timeout(200);
    let mut pending_reads = PendingReads::with_timeout(200);
    pending.push("w1".to_owned(), 0);
    pending_reads.push(read_key(), "r1".to_owned(), 0);
    pending.push("w2".to_owned(), 250);
    pending_reads.push(read_key(), "r2".to_owned(), 250);
    assert_eq!(pending.drain_expired(350), vec!["w1"]);
    assert_eq!(pending_reads.drain_expired(350), vec!["r1"]);
    assert_eq!(pending.drain_all(), vec!["w2"]);
    assert_eq!(pending_reads.resolve(read_key()), vec!["r2"]);
}

/// A watchdog over a mailbox, with the clients and the clock driven by hand.
struct Yard {
    dog: Option<Watchdog>,
    bank: RegisterBank,
    clients: usize,
    now: u64,
    writes: Vec<Vec<CanRecord>>,
}

impl Yard {
    fn spawn(bank: RegisterBank, timeout: u64, retry: u64) -> Self {
        Self {
            dog: Watchdog::start(0, 0, timeout, retry),
            bank,
            clients: 0,
            now: 0,
            writes: Vec::new(),
        }
    }

    fn connect(&mut self) {
        self.clients += 1;
        if let Some(dog) = self.dog.as_mut() {
            dog.on_clients(self.clients, self.now);
        }
    }

    fn disconnect(&mut self) {
        self.clients -= 1;
        if let Some(dog) = self.dog.as_mut() {
            dog.on_clients(self.clients, self.now);
        }
    }

    fn wait(&mut self, millis: u64) {
        let end = self.now + millis;
        while let Some(dog) = self.dog.as_mut() {
            match dog.deadline {
                Some(at) if at <= end => {
                    self.now = at;
                    if dog.on_deadline(self.clients, at) {
                        self.writes.extend(idle_power_off(Some(&self.bank)));
                    }
                }
                _ => break,
            }
        }
        self.now = end;
    }
}

fn aircon_reg05(unit_id: UnitId, data: [u8; 7]) -> CanRecord {
    CanRecord {
        unit_type: UnitType::aircon(),
        dest: Dest::Tablet,
        unit_id,
        reg: RegId::new(0x05),
        data,
    }
}

fn single_aircon_bank() -> RegisterBank {
    let mut bank = RegisterBank::new();
    bank.apply(&aircon_reg05(
        UnitId::try_new(0x0_ABCDE).unwrap(),
        [0x01, 0x01, 0x03, 0x30, 0x00, 0x01, 0x00],
    ));
    bank
}

fn assert_power_off(rec: &CanRecord, expected_id: UnitId, expected_data: [u8; 7]) {
    assert_eq!(rec.unit_type, UnitType::aircon());
    assert_eq!(rec.dest, Dest::ControlBox);
    assert_eq!(rec.unit_id, expected_id);
    assert_eq!(rec.reg, RegId::new(0x05));
    assert_eq!(rec.data, expected_data);
}

#[test]
fn watchdog_fires_after_disconnect_timeout() {
    let mut yard = Yard::spawn(single_aircon_bank(), 150, 100);
    yard.connect();
    yard.wait(50);
    yard.disconnect();
    yard.wait(149);
    assert!(yard.writes.is_empty());
    yard.wait(1);
    assert_eq!(yard.writes.len(), 1);
    assert_power_off(
        &yard.writes[0][0],
        UnitId::try_new(0x0_ABCDE).unwrap(),
        [0x00, 0x01, 0x03, 0x30, 0x00, 0x01, 0x00],
    );
}

#[test]
fn watchdog_fires_on_all_aircon_units() {
    let mut bank = single_aircon_bank();
    bank.apply(&aircon_reg05(
        UnitId::try_new(0x0_00002).unwrap(),
        [0x01, 0x02, 0x03, 0x2e, 0x00, 0x01, 0x00],
    ));
    let mut yard = Yard::spawn(bank, 100, 100);
    yard.wait(100);
    let [records] = yard.writes.as_slice() else {
        panic!("expected one write");
    };
    assert_eq!(records.len(), 2);
    assert_power_off(
        &records[0],
        UnitId::try_new(0x0_00002).unwrap(),
        [0x00, 0x02, 0x03, 0x2e, 0x00, 0x01, 0x00],
    );
    assert_power_off(
        &records[1],
        UnitId::try_new(0x0_ABCDE).unwrap(),
        [0x00, 0x01, 0x03, 0x30, 0x00, 0x01, 0x00],
    );
}

#[test]
fn watchdog_skips_aircon_units_without_reg05() {
    let without = CanRecord {
        reg: RegId::new(0x06),
        ..aircon_reg05(UnitId::try_new(0x0_00002).unwrap(), [0; 7])
    };
    let mut bank = single_aircon_bank();
    bank.apply(&without);
    let mut yard = Yard::spawn(bank, 100, 100);
    yard.wait(100);
    assert_eq!(yard.writes.len(), 1);
    assert_eq!(yard.writes[0].len(), 1);
    assert_eq!(yard.writes[0][0].unit_id.get(), 0x0_ABCDE);

    let mut bank = RegisterBank::new();
    bank.apply(&without);
    let mut yard = Yard::spawn(bank, 100, 100);
    yard.wait(400);
    assert!(yard.writes.is_empty());
}

#[test]
fn watchdog_never_powers_off_non_aircon_units() {
    let id = UnitId::try_new(0x0_ABCDE).unwrap();
    let mut bank = single_aircon_bank();
    bank.apply(&CanRecord {
        unit_type: UnitType::new(0x08),
        ..aircon_reg05(id, [0x01, 0x01, 0x03, 0x30, 0x00, 0x01, 0x00])
    });
    let mut yard = Yard::spawn(bank, 100, 100);
    yard.wait(100);
    assert_eq!(yard.writes.len(), 1);
    assert_eq!(yard.writes[0].len(), 1);
    assert_power_off(
        &yard.writes[0][0],
        id,
        [0x00, 0x01, 0x03, 0x30, 0x00, 0x01, 0x00],
    );
    assert_eq!(
        yard.bank.get(UnitType::new(0x08), id, RegId::new(0x05)),
        Some([0x01, 0x01, 0x03, 0x30, 0x00, 0x01, 0x00])
    );
}

#[test]
fn watchdog_reconnect_before_deadline_disarms() {
    let mut yard = Yard::spawn(single_aircon_bank(), 300, 100);
    yard.connect();
    yard.wait(50);
    yard.disconnect();
    yard.wait(150);
    yard.connect();
    yard.wait(250);
    assert!(yard.writes.is_empty());
}

#[test]
fn watchdog_refires_periodically_while_disconnected() {
    let mut yard = Yard::spawn(single_aircon_bank(), 150, 200);
    yard.connect();
    yard.wait(50);
    yard.disconnect();
    yard.wait(550);
    assert_eq!(yard.writes.len(), 3);
    for records in &yard.writes {
        assert_eq!(records.len(), 1);
        assert_power_off(
            &records[0],
            UnitId::try_new(0x0_ABCDE).unwrap(),
            [0x00, 0x01, 0x03, 0x30, 0x00, 0x01, 0x00],
        );
    }
}

#[test]
fn watchdog_connected_client_never_fires() {
    let mut yard = Yard::spawn(single_aircon_bank(), 100, 50);
    yard.connect();
    yard.wait(500);
    assert!(yard.writes.is_empty());
}

#[test]
fn watchdog_arms_at_startup_when_no_client_connected() {
    let mut yard = Yard::spawn(single_aircon_bank(), 150, 100);
    yard.wait(150);
    assert_eq!(yard.writes.len(), 1);
    assert_power_off(
        &yard.writes[0][0],
        UnitId::try_new(0x0_ABCDE).unwrap(),
        [0x00, 0x01, 0x03, 0x30, 0x00, 0x01, 0x00],
    );
}

#[test]
fn watchdog_zero_timeout_is_disabled() {
    let mut yard = Yard::spawn(single_aircon_bank(), 0, 50);
    assert!(yard.dog.is_none());
    yard.wait(400);
    assert!(yard.writes.is_empty());
    assert_eq!(Config::default().ws_idle_timeout_minutes, 0);
}

#[test]
fn engine_states_are_not_told_twice() {
    let mut world = World::mock();
    let id = world.connect();
    world.run(20);
    let told = statuses(&world.inbox(id));
    assert!(told.windows(2).all(|pair| pair[0] != pair[1]));
    let mut session = ClientSession::new(SessionTimeouts::default());
    let heard = WsEvent::Engine(EngineEvent::LinkError("gone".to_owned()));
    assert!(session.on_event(&heard).is_empty());
}
