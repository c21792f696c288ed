//! The session of one client: what its messages ask for, what it is told of the
//! engine's events, and which of its requests wait.
use crate::daemon::address::{
    addressed_zone, build_write_record, contents, readable, resolve_unit, resolved,
    validate_read_register, write_record, Contents,
};
use crate::daemon::pending::{
    acks_deadline, acks_due, acks_left, acks_with, earlier, earlier_of, ids_of, reads_but,
    reads_deadline, reads_due, reads_left, reads_of, reads_with, Acks, PendingAcks, PendingReads,
    Reads, SessionTimeouts,
};
use crate::daemon::replies::{
    event_message, event_of, map_session_state, read_answer, read_result_message, status_of,
};
use crate::engine::event::{texts, EngineCmd, EngineEvent, EventModel};
use crate::mailbox::dto::{AckStatus, StatusState};
use crate::mailbox::message::{
    ack, all_say, error_ack, lemma_say_more, success_ack, ClientMessage, Saying,
    ServerMessage,
};
use crate::mailbox::snapshot::snapshot_units;
use crate::mailbox::value::PayloadModel;
use crate::registers::bank::{is_zone_bearing, BankKey, RegisterBank};
use crate::registers::ids::UnitId;
use crate::registers::wire::CanRecord;
use crate::text::{same_text, str_option, text_option};
use vstd::prelude::*;
use vstd::string::*;

verus! {

/// What all sessions hear.
#[derive(Debug, Clone)]
pub enum WsEvent {
    /// An event of the engine.
    Engine(EngineEvent),
    /// A change of the state of the link.
    Status {
        /// State of the link.
        state: StatusState,
        /// Detail.
        detail: Option<String>,
    },
}

/// What an event for all sessions says.
#[verifier::ext_equal]
pub ghost enum WsEventModel {
    Engine(EventModel),
    Status { state: StatusState, detail: Option<Seq<char>> },
}

impl View for WsEvent {
    type V = WsEventModel;

    open spec fn view(&self) -> WsEventModel {
        match *self {
            WsEvent::Engine(e) => WsEventModel::Engine(e@),
            WsEvent::Status { state, detail } => WsEventModel::Status {
                state,
                detail: text_option(detail),
            },
        }
    }
}

/// What a message of a client says.
#[verifier::ext_equal]
pub ghost enum ClientModel {
    Write {
        msg_id: Seq<char>,
        unit_type: Option<Seq<char>>,
        unit_id: Option<Seq<char>>,
        register: Seq<char>,
        zone: Option<u8>,
        payload: PayloadModel,
    },
    Read {
        msg_id: Seq<char>,
        unit_type: Option<Seq<char>>,
        unit_id: Option<Seq<char>>,
        register: Seq<char>,
        zone: Option<u8>,
    },
    Command { msg_id: Seq<char>, action: Seq<char> },
}

impl View for ClientMessage {
    type V = ClientModel;

    open spec fn view(&self) -> ClientModel {
        match *self {
            ClientMessage::Write { msg_id, unit_type, unit_id, register, zone, payload } =>
                ClientModel::Write {
                msg_id: msg_id@,
                unit_type: text_option(unit_type),
                unit_id: text_option(unit_id),
                register: register@,
                zone,
                payload: payload@,
            },
            ClientMessage::Read { msg_id, unit_type, unit_id, register, zone } =>
                ClientModel::Read {
                msg_id: msg_id@,
                unit_type: text_option(unit_type),
                unit_id: text_option(unit_id),
                register: register@,
                zone,
            },
            ClientMessage::Command { msg_id, action } => ClientModel::Command {
                msg_id: msg_id@,
                action: action@,
            },
        }
    }
}

/// What a queued command waits for.
#[derive(Debug, Clone, PartialEq, Eq)]
pub enum Waiting {
    /// Nothing: it is acknowledged once it is queued.
    Nothing {
        /// Correlation id of the client.
        msg_id: String,
    },
    /// The transmission of the write.
    Flush {
        /// Correlation id of the client.
        msg_id: String,
    },
    /// The report of a register.
    Report {
        /// What is read.
        key: BankKey,
        /// Correlation id of the client.
        msg_id: String,
    },
}

/// What a message of a client leads to.
#[derive(Debug, Clone)]
pub enum Request {
    /// It is answered at once.
    Answer(ServerMessage),
    /// A command goes to the engine.
    Queue {
        /// The command.
        cmd: EngineCmd,
        /// What it waits for.
        waiting: Waiting,
    },
}

/// What a message of a client leads to.
#[verifier::ext_equal]
pub ghost enum Decision {
    Answer(Saying),
    Write { record: CanRecord, msg_id: Seq<char> },
    Read { key: BankKey, msg_id: Seq<char> },
    Resync { msg_id: Seq<char> },
}

impl Request {
    /// Whether this request carries a decision out.
    pub open spec fn follows(self, d: Decision) -> bool {
        match (self, d) {
            (Request::Answer(m), Decision::Answer(s)) => m.says(s),
            (
                Request::Queue {
                    cmd: EngineCmd::WriteRegisters(records),
                    waiting: Waiting::Flush { msg_id: id },
                },
                Decision::Write { record, msg_id },
            ) => records@ == seq![record] && id@ == msg_id,
            (
                Request::Queue {
                    cmd: EngineCmd::ReadRegister { unit_type, unit_id, reg, zone },
                    waiting: Waiting::Report { key: k, msg_id: id },
                },
                Decision::Read { key, msg_id },
            ) => key == (BankKey { unit_type, unit_id, reg, zone }) && k == key && id@ == msg_id,
            (
                Request::Queue {
                    cmd: EngineCmd::ResyncMailbox,
                    waiting: Waiting::Nothing { msg_id: id },
                },
                Decision::Resync { msg_id },
            ) => id@ == msg_id,
            _ => false,
        }
    }
}

/// The refusal of a request.
pub open spec fn refused(msg_id: Seq<char>, reason: Seq<char>) -> Decision {
    Decision::Answer(ack(msg_id, AckStatus::Error, Some(reason)))
}

/// What a message leads to. Writes and reads go to the engine where they are
/// permitted and address a unit; the only command is `resync`.
pub open spec fn decide(bank: Contents, hint: Option<UnitId>, msg: ClientModel) -> Decision {
    match msg {
        ClientModel::Write { msg_id, unit_type, unit_id, register, zone, payload } =>
            match write_record(bank, hint, unit_type, unit_id, register, zone, payload) {
            Ok(record) => Decision::Write { record, msg_id },
            Err(reason) => refused(msg_id, reason),
        },
        ClientModel::Read { msg_id, unit_type, unit_id, register, zone } => match readable(
            register,
            zone,
        ) {
            Err(reason) => refused(msg_id, reason),
            Ok(reg) => match resolved(bank, hint, unit_type, unit_id) {
                Err(reason) => refused(msg_id, reason),
                Ok((t, id)) => Decision::Read {
                    key: BankKey {
                        unit_type: t,
                        unit_id: id,
                        reg,
                        zone: addressed_zone(reg, zone),
                    },
                    msg_id,
                },
            },
        },
        ClientModel::Command { msg_id, action } => if action == "resync"@ {
            Decision::Resync { msg_id }
        } else if action == "flush_unit"@ {
            refused(msg_id, "flush_unit not implemented yet"@)
        } else {
            refused(msg_id, "unknown action: "@ + action)
        },
    }
}

/// The text inside an option.
fn inner(text: &Option<String>) -> (r: Option<&str>)
    ensures
        str_option(r) == text_option(*text),
{
    match text {
        Some(s) => Some(s.as_str()),
        None => None,
    }
}

/// What a message of a client leads to.
pub fn handle_client_message(
    bank: Option<&RegisterBank>,
    hint: Option<UnitId>,
    msg: ClientMessage,
) -> (r: Request)
    ensures
        r.follows(decide(contents(bank), hint, msg@)),
{
    match msg {
        ClientMessage::Write { msg_id, unit_type, unit_id, register, zone, payload } => {
            match build_write_record(
                bank,
                hint,
                inner(&unit_type),
                inner(&unit_id),
                register.as_str(),
                zone,
                &payload,
            ) {
                Ok(record) => {
                    let mut records: Vec<CanRecord> = Vec::new();
                    records.push(record);
                    proof {
                        assert(records@ =~= seq![record]);
                    }
                    Request::Queue {
                        cmd: EngineCmd::WriteRegisters(records),
                        waiting: Waiting::Flush { msg_id },
                    }
                },
                Err(reason) => Request::Answer(error_ack(msg_id, reason)),
            }
        },
        ClientMessage::Read { msg_id, unit_type, unit_id, register, zone } => {
            let reg = match validate_read_register(register.as_str(), zone) {
                Ok(reg) => reg,
                Err(reason) => {
                    return Request::Answer(error_ack(msg_id, reason));
                },
            };
            let (unit_type, unit_id) = match resolve_unit(
                bank,
                hint,
                inner(&unit_type),
                inner(&unit_id),
            ) {
                Ok(unit) => unit,
                Err(reason) => {
                    return Request::Answer(error_ack(msg_id, reason));
                },
            };
            let zone: Option<u8> = if is_zone_bearing(reg) {
                zone
            } else {
                None
            };
            let key = BankKey { unit_type, unit_id, reg, zone };
            Request::Queue {
                cmd: EngineCmd::ReadRegister { unit_type, unit_id, reg, zone },
                waiting: Waiting::Report { key, msg_id },
            }
        },
        ClientMessage::Command { msg_id, action } => {
            if same_text(action.as_str(), "resync") {
                Request::Queue {
                    cmd: EngineCmd::ResyncMailbox,
                    waiting: Waiting::Nothing { msg_id },
                }
            } else if same_text(action.as_str(), "flush_unit") {
                Request::Answer(error_ack(msg_id, "flush_unit not implemented yet".to_owned()))
            } else {
                let mut reason = "unknown action: ".to_owned();
                reason.append(action.as_str());
                Request::Answer(error_ack(msg_id, reason))
            }
        },
    }
}

/// The answer to a message that cannot be read.
pub fn invalid_message(reason: String) -> (m: ServerMessage)
    ensures
        m.says(Saying::Error { message: "invalid client message"@, reason: Some(reason@) }),
{
    ServerMessage::Error { message: "invalid client message".to_owned(), reason: Some(reason) }
}

/// What arrives from a client.
#[derive(Debug, Clone, Copy, PartialEq, Eq, Structural)]
pub enum ClientFrame {
    /// A text.
    Text,
    /// Bytes.
    Binary,
    /// A ping.
    Ping,
    /// A pong.
    Pong,
    /// The client closes, or is gone.
    Closed,
    /// The transport failed.
    Failed,
}

/// What is done with a frame of a client.
#[derive(Debug, Clone, PartialEq, Eq)]
pub enum FrameStep {
    /// Its text is a message.
    Handle,
    /// A pong is sent.
    Pong,
    /// Nothing.
    Ignore,
    /// A message is sent.
    Reply(ServerMessage),
    /// The session ends.
    End,
}

/// What is done with a frame of a client in a session.
pub fn frame_step(frame: ClientFrame) -> (step: FrameStep)
    ensures
        match frame {
            ClientFrame::Text => step is Handle,
            ClientFrame::Binary => step matches FrameStep::Reply(m) && m.says(
                Saying::Error { message: "binary frames not supported"@, reason: None },
            ),
            ClientFrame::Ping => step is Pong,
            ClientFrame::Pong => step is Ignore,
            ClientFrame::Closed | ClientFrame::Failed => step is End,
        },
{
    match frame {
        ClientFrame::Text => FrameStep::Handle,
        ClientFrame::Binary => FrameStep::Reply(
            ServerMessage::Error {
                message: "binary frames not supported".to_owned(),
                reason: None,
            },
        ),
        ClientFrame::Ping => FrameStep::Pong,
        ClientFrame::Pong => FrameStep::Ignore,
        ClientFrame::Closed | ClientFrame::Failed => FrameStep::End,
    }
}

/// What the stream of events gives a session.
#[derive(Debug, Clone, Copy, PartialEq, Eq, Structural)]
pub enum StreamOutcome {
    /// An event.
    Delivered,
    /// Word that events were lost because the session was too slow.
    Lagged,
    /// Word that no event will come any more.
    Closed,
}

/// Whether a session goes on after what the stream of events gave it: lost events
/// do not end it, the end of the stream does.
pub fn session_goes_on(outcome: StreamOutcome) -> (r: bool)
    ensures
        r == !(outcome is Closed),
{
    match outcome {
        StreamOutcome::Delivered | StreamOutcome::Lagged => true,
        StreamOutcome::Closed => false,
    }
}

/// What is done with a frame of a client while it waits for the first snapshot:
/// only pings are answered, and the wait ends when the client is gone.
pub fn waiting_step(frame: ClientFrame) -> (step: FrameStep)
    ensures
        match frame {
            ClientFrame::Ping => step is Pong,
            ClientFrame::Text | ClientFrame::Binary | ClientFrame::Pong => step is Ignore,
            ClientFrame::Closed | ClientFrame::Failed => step is End,
        },
{
    match frame {
        ClientFrame::Ping => FrameStep::Pong,
        ClientFrame::Text | ClientFrame::Binary | ClientFrame::Pong => FrameStep::Ignore,
        ClientFrame::Closed | ClientFrame::Failed => FrameStep::End,
    }
}

/// The state that a client is told when it connects.
pub fn connect_status(state: StatusState) -> (m: ServerMessage)
    ensures
        m.says(Saying::Status { state, detail: None }),
{
    ServerMessage::Status { state, detail: None }
}

/// What a client is told before its first snapshot when the state changed while it
/// waited.
pub fn changed_status(told: StatusState, current: StatusState) -> (m: Option<ServerMessage>)
    ensures
        match m {
            Some(m) => told != current && m.says(Saying::Status { state: current, detail: None }),
            None => told == current,
        },
{
    if told == current {
        None
    } else {
        Some(ServerMessage::Status { state: current, detail: None })
    }
}

/// The snapshot that a client is told.
pub fn snapshot_message(bank: &RegisterBank) -> (m: ServerMessage)
    ensures
        m.says(Saying::Snapshot { bank: bank@ }),
{
    ServerMessage::Snapshot { units: snapshot_units(bank) }
}

/// The acknowledgements of a list of requests.
pub open spec fn acks_to(
    ids: Seq<Seq<char>>,
    status: AckStatus,
    reason: Option<Seq<char>>,
) -> Seq<Saying> {
    ids.map_values(|id: Seq<char>| ack(id, status, reason))
}

/// The answers to a list of reads of one register.
pub open spec fn answers_to(ids: Seq<Seq<char>>, key: BankKey, data: Option<[u8; 7]>) -> Seq<
    Saying,
> {
    ids.map_values(
        |id: Seq<char>| read_answer(id, key.unit_type, key.unit_id, key.reg, key.zone, data),
    )
}

/// What a client is told of an event, given its waiting requests.
pub open spec fn event_sayings(acks: Acks, reads: Reads, e: WsEventModel) -> Seq<Saying> {
    match e {
        WsEventModel::Engine(EventModel::RegistersChanged { records }) => records.map_values(
            |r: CanRecord| event_of(r),
        ),
        WsEventModel::Engine(EventModel::Snapshot { bank, .. }) => seq![Saying::Snapshot { bank }],
        WsEventModel::Engine(EventModel::WriteFlushed) => acks_to(
            ids_of(acks),
            AckStatus::Success,
            None,
        ),
        WsEventModel::Engine(
            EventModel::RegisterRead { unit_type, unit_id, reg, zone, data },
        ) => {
            let key = BankKey { unit_type, unit_id, reg, zone };
            answers_to(reads_of(reads, key), key, data)
        },
        WsEventModel::Engine(EventModel::SessionState(s)) => seq![
            Saying::Status { state: status_of(s), detail: None },
        ],
        WsEventModel::Status { state, detail } => seq![Saying::Status { state, detail }],
        WsEventModel::Engine(_) => seq![],
    }
}

/// The writes that still wait after an event.
pub open spec fn acks_after(acks: Acks, e: WsEventModel) -> Acks {
    if e == WsEventModel::Engine(EventModel::WriteFlushed) {
        Acks::empty()
    } else {
        acks
    }
}

/// The reads that still wait after an event.
pub open spec fn reads_after(reads: Reads, e: WsEventModel) -> Reads {
    match e {
        WsEventModel::Engine(
            EventModel::RegisterRead { unit_type, unit_id, reg, zone, .. },
        ) => reads_but(reads, BankKey { unit_type, unit_id, reg, zone }),
        _ => reads,
    }
}

/// What is told of requests that have waited too long: writes first, then reads.
pub open spec fn expired_sayings(acks: Acks, reads: Reads, now: u64) -> Seq<Saying> {
    acks_to(ids_of(acks_due(acks, now)), AckStatus::Error, Some("write timeout"@)) + acks_to(
        reads_due(reads, now),
        AckStatus::Error,
        Some("read timeout"@),
    )
}

/// The requests of one client that wait.
#[derive(Debug, Clone, PartialEq, Eq)]
pub struct ClientSession {
    /// Writes that wait for their transmission.
    pub acks: PendingAcks,
    /// Reads that wait for their report.
    pub reads: PendingReads,
}

/// Appends acknowledgements of requests.
fn push_acks(
    out: &mut Vec<ServerMessage>,
    ids: Vec<String>,
    reason: Option<&str>,
    Ghost(sayings): Ghost<Seq<Saying>>,
)
    requires
        all_say(old(out)@, sayings),
    ensures
        all_say(
            final(out)@,
            sayings + acks_to(
                texts(ids@),
                if reason is Some {
                    AckStatus::Error
                } else {
                    AckStatus::Success
                },
                str_option(reason),
            ),
        ),
{
    let ghost all = acks_to(
        texts(ids@),
        if reason is Some {
            AckStatus::Error
        } else {
            AckStatus::Success
        },
        str_option(reason),
    );
    let mut i: usize = 0;
    proof {
        assert(sayings + all.take(0) =~= sayings);
    }
    while i < ids.len()
        invariant
            i <= ids@.len(),
            all == acks_to(
                texts(ids@),
                if reason is Some {
                    AckStatus::Error
                } else {
                    AckStatus::Success
                },
                str_option(reason),
            ),
            all_say(out@, sayings + all.take(i as int)),
        decreases ids@.len() - i,
    {
        let m = match reason {
            Some(r) => error_ack(ids[i].clone(), r.to_owned()),
            None => success_ack(ids[i].clone()),
        };
        let ghost before = out@;
        out.push(m);
        proof {
            lemma_say_more(before, sayings + all.take(i as int), m, all[i as int]);
            assert(sayings + all.take(i + 1) =~= (sayings + all.take(i as int)).push(
                all[i as int],
            ));
        }
        i = i + 1;
    }
    proof {
        assert(all.take(i as int) =~= all);
    }
}

/// A list of one message.
fn single(m: ServerMessage, Ghost(s): Ghost<Saying>) -> (out: Vec<ServerMessage>)
    requires
        m.says(s),
    ensures
        all_say(out@, seq![s]),
{
    let mut out: Vec<ServerMessage> = Vec::new();
    out.push(m);
    out
}

/// The events of changed records.
fn record_events(records: &Vec<CanRecord>) -> (out: Vec<ServerMessage>)
    ensures
        all_say(out@, records@.map_values(|r: CanRecord| event_of(r))),
{
    let mut out: Vec<ServerMessage> = Vec::new();
    let ghost all = records@.map_values(|r: CanRecord| event_of(r));
    let mut i: usize = 0;
    while i < records.len()
        invariant
            i <= records@.len(),
            all == records@.map_values(|r: CanRecord| event_of(r)),
            all_say(out@, all.take(i as int)),
        decreases records@.len() - i,
    {
        let m = event_message(&records[i]);
        let ghost before = out@;
        out.push(m);
        proof {
            lemma_say_more(before, all.take(i as int), m, all[i as int]);
            assert(all.take(i + 1) =~= all.take(i as int).push(all[i as int]));
        }
        i = i + 1;
    }
    proof {
        assert(all.take(i as int) =~= all);
    }
    out
}

/// The answers to reads of one register.
fn read_answers(ids: &Vec<String>, key: BankKey, data: Option<[u8; 7]>) -> (out: Vec<
    ServerMessage,
>)
    ensures
        all_say(out@, answers_to(texts(ids@), key, data)),
{
    let mut out: Vec<ServerMessage> = Vec::new();
    let ghost all = answers_to(texts(ids@), key, data);
    let mut i: usize = 0;
    while i < ids.len()
        invariant
            i <= ids@.len(),
            all == answers_to(texts(ids@), key, data),
            all_say(out@, all.take(i as int)),
        decreases ids@.len() - i,
    {
        let m = read_result_message(
            ids[i].clone(),
            key.unit_type,
            key.unit_id,
            key.reg,
            key.zone,
            data,
        );
        let ghost before = out@;
        out.push(m);
        proof {
            lemma_say_more(before, all.take(i as int), m, all[i as int]);
            assert(all.take(i + 1) =~= all.take(i as int).push(all[i as int]));
        }
        i = i + 1;
    }
    proof {
        assert(all.take(i as int) =~= all);
    }
    out
}

impl ClientSession {
    /// A session without requests.
    pub fn new(timeouts: SessionTimeouts) -> (s: ClientSession)
        ensures
            s.acks@ == Acks::empty(),
            s.reads@ == Reads::empty(),
            s.acks.timeout == timeouts.write_ack,
            s.reads.timeout == timeouts.read,
    {
        ClientSession {
            acks: PendingAcks::with_timeout(timeouts.write_ack),
            reads: PendingReads::with_timeout(timeouts.read),
        }
    }

    /// The earliest instant at which a request has waited too long.
    pub fn next_deadline(&self) -> (r: Option<u64>)
        ensures
            r == earlier(acks_deadline(self.acks@), reads_deadline(self.reads@)),
    {
        earlier_of(self.acks.next_deadline(), self.reads.next_deadline())
    }

    /// Takes note of what became of a command for the engine: where it could not be
    /// queued its client is told why; else a resync is acknowledged at once, and
    /// writes and reads wait.
    pub fn on_queued(&mut self, waiting: Waiting, failure: Option<String>, now: u64) -> (m: Option<
        ServerMessage,
    >)
        requires
            now + old(self).acks.timeout <= u64::MAX,
            now + old(self).reads.timeout <= u64::MAX,
        ensures
            final(self).acks.timeout == old(self).acks.timeout,
            final(self).reads.timeout == old(self).reads.timeout,
            match (failure, waiting) {
                (Some(reason), Waiting::Nothing { msg_id }) | (
                    Some(reason),
                    Waiting::Flush { msg_id },
                ) | (Some(reason), Waiting::Report { msg_id, .. }) => {
                    &&& m matches Some(m) && m.says(
                        ack(msg_id@, AckStatus::Error, Some(reason@)),
                    )
                    &&& final(self).acks@ == old(self).acks@
                    &&& final(self).reads@ == old(self).reads@
                },
                (None, Waiting::Nothing { msg_id }) => {
                    &&& m matches Some(m) && m.says(ack(msg_id@, AckStatus::Success, None))
                    &&& final(self).acks@ == old(self).acks@
                    &&& final(self).reads@ == old(self).reads@
                },
                (None, Waiting::Flush { msg_id }) => {
                    &&& m is None
                    &&& final(self).acks@ == acks_with(
                        old(self).acks@,
                        msg_id@,
                        (now + old(self).acks.timeout) as u64,
                    )
                    &&& exists|i: int|
                        0 <= i < final(self).acks@.len() && (#[trigger] final(self).acks@[i]).0
                            == msg_id@ && final(self).acks@[i].1 == now + old(self).acks.timeout
                    &&& final(self).reads@ == old(self).reads@
                },
                (None, Waiting::Report { key, msg_id }) => {
                    &&& m is None
                    &&& final(self).acks@ == old(self).acks@
                    &&& final(self).reads@ == reads_with(
                        old(self).reads@,
                        (key, msg_id@, (now + old(self).reads.timeout) as u64),
                    )
                    &&& exists|i: int|
                        0 <= i < final(self).reads@.len() && (#[trigger] final(self).reads@[i]).0
                            == key && final(self).reads@[i].1 == msg_id@
                            && final(self).reads@[i].2 == now + old(self).reads.timeout
                },
            },
    {
        match failure {
            Some(reason) => match waiting {
                Waiting::Nothing { msg_id } => Some(error_ack(msg_id, reason)),
                Waiting::Flush { msg_id } => Some(error_ack(msg_id, reason)),
                Waiting::Report { msg_id, .. } => Some(error_ack(msg_id, reason)),
            },
            None => match waiting {
                Waiting::Nothing { msg_id } => Some(success_ack(msg_id)),
                Waiting::Flush { msg_id } => {
                    self.acks.push(msg_id, now);
                    None
                },
                Waiting::Report { key, msg_id } => {
                    self.reads.push(key, msg_id, now);
                    None
                },
            },
        }
    }

    /// What the client is told of an event. A transmission answers all writes, and a
    /// report answers all reads of its register.
    pub fn on_event(&mut self, event: &WsEvent) -> (out: Vec<ServerMessage>)
        ensures
            all_say(out@, event_sayings(old(self).acks@, old(self).reads@, event@)),
            final(self).acks@ == acks_after(old(self).acks@, event@),
            final(self).reads@ == reads_after(old(self).reads@, event@),
            final(self).acks.timeout == old(self).acks.timeout,
            final(self).reads.timeout == old(self).reads.timeout,
    {
        match event {
            WsEvent::Engine(EngineEvent::RegistersChanged { records }) => record_events(records),
            WsEvent::Engine(EngineEvent::Snapshot { bank, .. }) => single(
                snapshot_message(bank),
                Ghost(Saying::Snapshot { bank: bank@ }),
            ),
            WsEvent::Engine(EngineEvent::WriteFlushed) => {
                let ids = self.acks.drain_all();
                let mut out: Vec<ServerMessage> = Vec::new();
                push_acks(&mut out, ids, None, Ghost(Seq::<Saying>::empty()));
                proof {
                    let all = acks_to(ids_of(old(self).acks@), AckStatus::Success, None);
                    assert(Seq::<Saying>::empty() + all =~= all);
                }
                out
            },
            WsEvent::Engine(EngineEvent::RegisterRead { unit_type, unit_id, reg, zone, data }) => {
                let key = BankKey {
                    unit_type: *unit_type,
                    unit_id: *unit_id,
                    reg: *reg,
                    zone: *zone,
                };
                let ids = self.reads.resolve(key);
                read_answers(&ids, key, *data)
            },
            WsEvent::Engine(EngineEvent::SessionState(state)) => single(
                connect_status(map_session_state(*state)),
                Ghost(Saying::Status { state: status_of(*state), detail: None }),
            ),
            WsEvent::Status { state, detail } => {
                let copy: Option<String> = match detail {
                    Some(d) => Some(d.clone()),
                    None => None,
                };
                single(
                    ServerMessage::Status { state: *state, detail: copy },
                    Ghost(Saying::Status { state: *state, detail: text_option(*detail) }),
                )
            },
            _ => Vec::new(),
        }
    }

    /// What the client is told of requests that have waited too long; they no longer
    /// wait.
    pub fn on_time(&mut self, now: u64) -> (out: Vec<ServerMessage>)
        ensures
            all_say(out@, expired_sayings(old(self).acks@, old(self).reads@, now)),
            final(self).acks@ == acks_left(old(self).acks@, now),
            final(self).reads@ == reads_left(old(self).reads@, now),
            final(self).acks.timeout == old(self).acks.timeout,
            final(self).reads.timeout == old(self).reads.timeout,
    {
        let writes = self.acks.drain_expired(now);
        let reads = self.reads.drain_expired(now);
        let mut out: Vec<ServerMessage> = Vec::new();
        let ghost first = acks_to(texts(writes@), AckStatus::Error, Some("write timeout"@));
        push_acks(&mut out, writes, Some("write timeout"), Ghost(Seq::<Saying>::empty()));
        proof {
            assert(Seq::<Saying>::empty() + first =~= first);
        }
        push_acks(&mut out, reads, Some("read timeout"), Ghost(first));
        out
    }
}

/// The correlation id of a message.
pub open spec fn id_of(msg: ClientModel) -> Seq<char> {
    match msg {
        ClientModel::Write { msg_id, .. } => msg_id,
        ClientModel::Read { msg_id, .. } => msg_id,
        ClientModel::Command { msg_id, .. } => msg_id,
    }
}

/// Every message is answered under its own correlation id: at once with an error
/// that tells the reason, or else by what its command waits for, which keeps the id.
pub proof fn law_requests_keep_their_id(bank: Contents, hint: Option<UnitId>, msg: ClientModel)
    ensures
        match decide(bank, hint, msg) {
            Decision::Answer(saying) => saying matches Saying::Ack { msg_id, status, reason }
                && msg_id == id_of(msg) && status is Error && reason is Some,
            Decision::Write { msg_id, .. } => msg is Write && msg_id == id_of(msg),
            Decision::Read { msg_id, .. } => msg is Read && msg_id == id_of(msg),
            Decision::Resync { msg_id } => msg is Command && msg_id == id_of(msg),
        },
{
}

/// A write is reported as a success only when the engine has transmitted it: of all
/// events only a transmission leads to acknowledgements of success, and it
/// acknowledges exactly the waiting writes, which then no longer wait.
pub proof fn law_success_follows_transmission(acks: Acks, reads: Reads, e: WsEventModel, i: int)
    requires
        0 <= i < event_sayings(acks, reads, e).len(),
        event_sayings(acks, reads, e)[i] matches Saying::Ack { status, .. } && status is Success,
    ensures
        e == WsEventModel::Engine(EventModel::WriteFlushed),
        event_sayings(acks, reads, e).len() == acks.len(),
        event_sayings(acks, reads, e)[i] == ack(acks[i].0, AckStatus::Success, None),
        acks_after(acks, e).len() == 0,
{
}

} // verus!
