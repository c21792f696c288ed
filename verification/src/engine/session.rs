//! State machine of the tablet side of a control-box session, without I/O.
//!
//! The control box drives the bus with pings. The session answers a ping with
//! at most one payload and turns every other frame into events.
use crate::engine::event::{events_model, texts, EngineCmd, EngineEvent, EventModel};
use crate::engine::wire::{
    build_jz18, build_set_can, can2_in_use, get_can, get_can_nack, get_can_records, is_can2_in_use,
    is_get_can, is_get_can_nack, jz18, parse_get_can, set_can, ACK_CAN, ACK_CAN_ZERO,
    DIRTY_RESET_SET_CAN, DUMP_SET_CAN, EMPTY_SET_CAN, GET_SYSTEM_DATA,
};
use crate::registers::bank::{
    is_zone_bearing, listing, lookup, smallest_unit, stored, type_present, unit_present,
    zone_bearing, BankKey, RegisterBank,
};
use crate::registers::decoded::{same_data, zero_data};
use crate::registers::ids::{RegId, UnitId, UnitType};
use crate::registers::wire::{record_digits, CanRecord, Dest, WireError};
use crate::text::{ascii, bytes_of, lossy_text, utf8_lossy};
use vstd::prelude::*;
use vstd::string::*;

verus! {

/// Protocol phase.
#[derive(Debug, Clone, Copy, PartialEq, Eq, Structural)]
pub enum State {
    /// Nothing happened yet.
    Init,
    /// Waiting for the first ping.
    WaitPing,
    /// The negotiation request went out.
    Negotiate,
    /// The negotiation request went out again.
    ExpectCan2,
    /// The mailbox dump is being requested.
    RequestDump,
    /// Reports and writes are exchanged.
    Steady,
}

/// A read that waits for the report of its flush.
#[derive(Debug, Clone, Copy, PartialEq, Eq, Structural)]
pub struct PendingRead {
    /// Unit type.
    pub unit_type: UnitType,
    /// Unit id.
    pub unit_id: UnitId,
    /// Register.
    pub reg: RegId,
    /// Zone of a zone-bearing register.
    pub zone: Option<u8>,
    /// The flush is on the bus: only a later report may answer the read.
    pub flush_sent: bool,
}

/// Session state: ping and frame handlers, mailbox, write queue.
#[derive(Debug)]
pub struct Session {
    /// Protocol phase.
    pub state: State,
    /// Mailbox.
    pub bank: RegisterBank,
    /// Records for the next write window.
    pub write_queue: Vec<CanRecord>,
    /// Reads that wait for a report.
    pub pending_reads: Vec<PendingRead>,
    /// The next answer is an acknowledgement.
    pub ack_armed: bool,
    /// The dump request went out.
    pub dump_sent: bool,
    /// The dump request goes out again after the acknowledgement.
    pub dump_needs_resend: bool,
    /// The reset that precedes the dump request went out.
    pub dirty_reset_sent: bool,
    /// Refusals of the reset, at most two of which are answered with a resend.
    pub reset_nacks: u8,
    /// A write window was transmitted and not yet reported.
    pub write_flushed: bool,
    /// Whether the checksum of the last frame other than a ping was right.
    pub crc_ok: bool,
    /// The unit said that its bus is in use: no empty polls.
    pub can_in_use: bool,
    /// Shutdown was requested.
    pub shutdown: bool,
}

/// What a session is.
#[verifier::ext_equal]
pub ghost struct Model {
    pub state: State,
    pub bank: Map<BankKey, [u8; 7]>,
    pub write_queue: Seq<CanRecord>,
    pub pending_reads: Seq<PendingRead>,
    pub ack_armed: bool,
    pub dump_sent: bool,
    pub dump_needs_resend: bool,
    pub dirty_reset_sent: bool,
    pub reset_nacks: u8,
    pub write_flushed: bool,
    pub crc_ok: bool,
    pub can_in_use: bool,
    pub shutdown: bool,
}

impl View for Session {
    type V = Model;

    open spec fn view(&self) -> Model {
        Model {
            state: self.state,
            bank: self.bank@,
            write_queue: self.write_queue@,
            pending_reads: self.pending_reads@,
            ack_armed: self.ack_armed,
            dump_sent: self.dump_sent,
            dump_needs_resend: self.dump_needs_resend,
            dirty_reset_sent: self.dirty_reset_sent,
            reset_nacks: self.reset_nacks,
            write_flushed: self.write_flushed,
            crc_ok: self.crc_ok,
            can_in_use: self.can_in_use,
            shutdown: self.shutdown,
        }
    }
}

/// A session before the first ping.
pub open spec fn initial() -> Model {
    Model {
        state: State::Init,
        bank: Map::empty(),
        write_queue: seq![],
        pending_reads: seq![],
        ack_armed: false,
        dump_sent: false,
        dump_needs_resend: false,
        dirty_reset_sent: false,
        reset_nacks: 0,
        write_flushed: false,
        crc_ok: true,
        can_in_use: false,
        shutdown: false,
    }
}

/// The flush of one unit: register `06` without content.
pub open spec fn unit_flush(unit_type: UnitType, unit_id: UnitId) -> CanRecord {
    CanRecord { unit_type, dest: Dest::ControlBox, unit_id, reg: RegId(0x06), data: zero_data() }
}

/// Whether the queue already holds a flush of the unit, whatever its
/// destination.
pub open spec fn flush_queued(
    queue: Seq<CanRecord>,
    unit_type: UnitType,
    unit_id: UnitId,
) -> bool {
    exists|i: int|
        0 <= i < queue.len() && (#[trigger] queue[i]).unit_type == unit_type && queue[i].unit_id
            == unit_id && queue[i].reg == RegId(0x06) && queue[i].data == zero_data()
}

/// The queue with a flush of the unit in it.
pub open spec fn with_flush(
    queue: Seq<CanRecord>,
    unit_type: UnitType,
    unit_id: UnitId,
) -> Seq<CanRecord> {
    if flush_queued(queue, unit_type, unit_id) {
        queue
    } else {
        queue.push(unit_flush(unit_type, unit_id))
    }
}

/// The session after a command.
pub open spec fn commanded(m: Model, cmd: EngineCmd) -> Model {
    match cmd {
        EngineCmd::WriteRegisters(records) => Model {
            write_queue: m.write_queue + records@,
            ..m
        },
        EngineCmd::ReadRegister { unit_type, unit_id, reg, zone } => Model {
            write_queue: with_flush(m.write_queue, unit_type, unit_id),
            pending_reads: m.pending_reads.push(
                PendingRead { unit_type, unit_id, reg, zone, flush_sent: false },
            ),
            ..m
        },
        EngineCmd::ResyncMailbox => Model {
            state: State::RequestDump,
            dump_sent: false,
            dump_needs_resend: false,
            dirty_reset_sent: false,
            reset_nacks: 0,
            ack_armed: false,
            ..m
        },
        EngineCmd::Shutdown => Model { shutdown: true, ..m },
    }
}

/// The reads once the write queue is on the bus.
pub open spec fn flushed_reads(reads: Seq<PendingRead>) -> Seq<PendingRead> {
    reads.map_values(|p: PendingRead| PendingRead { flush_sent: true, ..p })
}

/// What goes out in steady state: an acknowledgement that carries the checksum
/// outcome, else the queued writes, else an empty poll.
pub open spec fn transmitted(m: Model) -> (Model, Seq<u8>) {
    if m.ack_armed {
        (
            Model { ack_armed: false, ..m },
            if m.crc_ok {
                ascii(ACK_CAN@)
            } else {
                ascii(ACK_CAN_ZERO@)
            },
        )
    } else if m.write_queue.len() > 0 {
        (
            Model {
                write_queue: seq![],
                write_flushed: true,
                pending_reads: flushed_reads(m.pending_reads),
                ..m
            },
            set_can(m.write_queue),
        )
    } else {
        (m, ascii(EMPTY_SET_CAN@))
    }
}

/// The session after a ping, and its answer.
pub open spec fn pinged(m: Model) -> (Model, Option<Seq<u8>>) {
    match m.state {
        State::Init | State::WaitPing => (
            Model { state: State::Negotiate, ..m },
            Some(ascii(GET_SYSTEM_DATA@)),
        ),
        State::Negotiate | State::ExpectCan2 => (
            Model { state: State::ExpectCan2, ..m },
            Some(ascii(GET_SYSTEM_DATA@)),
        ),
        State::RequestDump => if m.ack_armed {
            (transmitted(m).0, Some(transmitted(m).1))
        } else if !m.dirty_reset_sent {
            (Model { dirty_reset_sent: true, ..m }, Some(ascii(DIRTY_RESET_SET_CAN@)))
        } else if !m.dump_sent || m.dump_needs_resend {
            (
                Model { dump_sent: true, dump_needs_resend: false, ..m },
                Some(ascii(DUMP_SET_CAN@)),
            )
        } else {
            (m, None)
        },
        State::Steady => if m.ack_armed || m.write_queue.len() > 0 || !m.can_in_use {
            (transmitted(m).0, Some(transmitted(m).1))
        } else {
            (m, None)
        },
    }
}

/// The replies to the announcements among records: one for each register `06`.
pub open spec fn handshakes(records: Seq<CanRecord>) -> Seq<CanRecord>
    decreases records.len(),
{
    if records.len() == 0 {
        seq![]
    } else if records.last().reg == RegId(0x06) {
        handshakes(records.drop_last()).push(jz18(records.last().unit_type, records.last().unit_id))
    } else {
        handshakes(records.drop_last())
    }
}

/// The value that a read asks for. A zone-bearing register is read by its zone.
pub open spec fn read_value(bank: Map<BankKey, [u8; 7]>, p: PendingRead) -> Option<[u8; 7]> {
    if zone_bearing(p.reg) {
        match p.zone {
            Some(_) => lookup(
                bank,
                BankKey { unit_type: p.unit_type, unit_id: p.unit_id, reg: p.reg, zone: p.zone },
            ),
            None => None,
        }
    } else {
        lookup(
            bank,
            BankKey { unit_type: p.unit_type, unit_id: p.unit_id, reg: p.reg, zone: None },
        )
    }
}

/// The answers to the reads whose flush is on the bus, in order.
pub open spec fn answers(bank: Map<BankKey, [u8; 7]>, reads: Seq<PendingRead>) -> Seq<EventModel>
    decreases reads.len(),
{
    if reads.len() == 0 {
        seq![]
    } else {
        let p = reads.last();
        let before = answers(bank, reads.drop_last());
        if p.flush_sent {
            before.push(
                EventModel::RegisterRead {
                    unit_type: p.unit_type,
                    unit_id: p.unit_id,
                    reg: p.reg,
                    zone: p.zone,
                    data: read_value(bank, p),
                },
            )
        } else {
            before
        }
    }
}

/// The reads whose flush is not on the bus yet, in order.
pub open spec fn waiting(reads: Seq<PendingRead>) -> Seq<PendingRead>
    decreases reads.len(),
{
    if reads.len() == 0 {
        seq![]
    } else if reads.last().flush_sent {
        waiting(reads.drop_last())
    } else {
        waiting(reads.drop_last()).push(reads.last())
    }
}

/// The queue after a dump: a flush of the first air conditioning unit joins when
/// the dump brought no system status of it.
pub open spec fn dump_queue(
    bank: Map<BankKey, [u8; 7]>,
    queue: Seq<CanRecord>,
    after: Seq<CanRecord>,
) -> bool {
    let aircon = UnitType(0x07);
    if !type_present(bank, aircon) {
        after == queue
    } else {
        exists|unit: UnitId| #[trigger]
            smallest_unit(bank, aircon, unit) && after == if lookup(
                bank,
                BankKey { unit_type: aircon, unit_id: unit, reg: RegId(0x05), zone: None },
            ) is Some {
                queue
            } else {
                queue.push(unit_flush(aircon, unit))
            }
    }
}

/// A warning.
pub open spec fn warning(text: Seq<char>) -> Seq<EventModel> {
    seq![EventModel::ProtocolWarn(text)]
}

/// The digits of every record of a mailbox, absent when it is empty.
pub open spec fn dump_texts(bank: Map<BankKey, [u8; 7]>) -> Option<Seq<Seq<char>>> {
    let all = listing(bank);
    if all.len() == 0 {
        None
    } else {
        Some(digits_list(all))
    }
}

/// The digits of each record.
pub open spec fn digits_list(records: Seq<CanRecord>) -> Seq<Seq<char>> {
    records.map_values(|r: CanRecord| record_digits(r))
}

/// What a frame does while negotiating.
pub open spec fn negotiated(m: Model, payload: Seq<u8>) -> (Model, Seq<EventModel>) {
    if can2_in_use(payload) {
        (
            Model { can_in_use: true, state: State::RequestDump, ..m },
            seq![EventModel::Negotiated { detail: utf8_lossy(payload) }],
        )
    } else {
        (m, warning("negotiate mismatch: "@ + utf8_lossy(payload)))
    }
}

/// What a refusal does while the dump is requested: it is acknowledged, and what
/// was sent last is sent again, the reset at most twice.
pub open spec fn refused(m: Model) -> Model {
    if m.dump_sent {
        Model { ack_armed: true, dump_needs_resend: true, ..m }
    } else if m.reset_nacks < 2 {
        Model {
            ack_armed: true,
            reset_nacks: (m.reset_nacks + 1) as u8,
            dirty_reset_sent: false,
            ..m
        }
    } else {
        Model { ack_armed: true, ..m }
    }
}

/// What a frame does while the dump is requested.
pub open spec fn dumped(
    m: Model,
    payload: Seq<u8>,
    after: Model,
    events: Seq<EventModel>,
) -> bool {
    if !get_can(payload) {
        after == m && events == warning("unexpected frame during dump: "@ + utf8_lossy(payload))
    } else if get_can_nack(payload) {
        after == refused(m) && events.len() == 0
    } else {
        match get_can_records(payload) {
            Err(e) => after == m && events == warning(
                "getCAN parse failed during dump: "@ + wire_error_name(e),
            ),
            Ok(records) => {
                let bank = stored(m.bank, records);
                let queue = m.write_queue + handshakes(records);
                if !m.dump_sent {
                    after == (Model { bank, write_queue: queue, ack_armed: true, ..m })
                        && events.len() == 0
                } else {
                    &&& dump_queue(bank, queue, after.write_queue)
                    &&& after == (Model {
                        bank,
                        write_queue: after.write_queue,
                        pending_reads: waiting(m.pending_reads),
                        state: State::Steady,
                        ack_armed: true,
                        can_in_use: false,
                        ..m
                    })
                    &&& events == seq![
                        EventModel::Snapshot { bank, can_records: dump_texts(bank) },
                    ] + answers(bank, m.pending_reads)
                }
            },
        }
    }
}

/// What a frame does in steady state.
pub open spec fn steadied(m: Model, payload: Seq<u8>) -> (Model, Seq<EventModel>) {
    if can2_in_use(payload) {
        (Model { can_in_use: true, ..m }, seq![])
    } else if !get_can(payload) {
        (m, warning("unexpected steady frame: "@ + utf8_lossy(payload)))
    } else {
        match get_can_records(payload) {
            Err(e) => (
                Model { can_in_use: false, ..m },
                warning("getCAN parse failed: "@ + wire_error_name(e)),
            ),
            Ok(records) => (
                Model {
                    bank: stored(m.bank, records),
                    write_queue: m.write_queue + handshakes(records),
                    pending_reads: waiting(m.pending_reads),
                    ack_armed: true,
                    can_in_use: false,
                    ..m
                },
                seq![EventModel::RegistersChanged { records }] + answers(
                    stored(m.bank, records),
                    m.pending_reads,
                ),
            ),
        }
    }
}

/// What a frame other than a ping does: its checksum counts as right, and the
/// phase decides.
pub open spec fn received(
    m: Model,
    payload: Seq<u8>,
    after: Model,
    events: Seq<EventModel>,
) -> bool {
    let n = Model { crc_ok: true, ..m };
    match m.state {
        State::Init | State::WaitPing => after == n && events == warning(
            "frame before negotiate started"@,
        ),
        State::Negotiate | State::ExpectCan2 => (after, events) == negotiated(n, payload),
        State::RequestDump => dumped(n, payload, after, events),
        State::Steady => (after, events) == steadied(n, payload),
    }
}

/// The name of a parse error.
pub open spec fn wire_error_name(e: WireError) -> Seq<char> {
    match e {
        WireError::Incomplete => "Incomplete"@,
        WireError::BadHex => "BadHex"@,
        WireError::InvalidId => "InvalidId"@,
    }
}

fn error_name(e: WireError) -> (text: &'static str)
    ensures
        text@ == wire_error_name(e),
{
    match e {
        WireError::Incomplete => "Incomplete",
        WireError::BadHex => "BadHex",
        WireError::InvalidId => "InvalidId",
    }
}

fn warn_event(head: &str, tail: &str) -> (events: Vec<EngineEvent>)
    ensures
        events_model(events@) == warning(head@ + tail@),
{
    let mut text = String::from_str(head);
    text.append(tail);
    let mut events: Vec<EngineEvent> = Vec::new();
    events.push(EngineEvent::ProtocolWarn(text));
    proof {
        assert(events_model(events@) =~= warning(head@ + tail@));
    }
    events
}

impl Session {
    /// A session before the first ping.
    pub fn new() -> (s: Session)
        ensures
            s@ == initial(),
    {
        let s = Session {
            state: State::Init,
            bank: RegisterBank::new(),
            write_queue: Vec::new(),
            pending_reads: Vec::new(),
            ack_armed: false,
            dump_sent: false,
            dump_needs_resend: false,
            dirty_reset_sent: false,
            reset_nacks: 0,
            write_flushed: false,
            crc_ok: true,
            can_in_use: false,
            shutdown: false,
        };
        proof {
            assert(s@ =~= initial());
        }
        s
    }

    /// Whether shutdown was requested.
    pub fn is_shutdown(&self) -> (r: bool)
        ensures
            r == self@.shutdown,
    {
        self.shutdown
    }

    /// Whether a write window was transmitted since the last call.
    pub fn take_write_flushed(&mut self) -> (r: bool)
        ensures
            r == old(self)@.write_flushed,
            final(self)@ == (Model { write_flushed: false, ..old(self)@ }),
    {
        let r = self.write_flushed;
        self.write_flushed = false;
        r
    }

    /// Records a frame whose checksum failed. A failed report also arms the
    /// acknowledgement, so that the next ping is answered with a refusal.
    pub fn on_crc_failure(&mut self, is_get_can: bool)
        ensures
            final(self)@ == (Model {
                crc_ok: false,
                ack_armed: old(self)@.ack_armed || is_get_can,
                ..old(self)@
            }),
    {
        self.crc_ok = false;
        if is_get_can {
            self.ack_armed = true;
        }
    }

    fn flush_is_queued(&self, unit_type: UnitType, unit_id: UnitId) -> (r: bool)
        ensures
            r == flush_queued(self.write_queue@, unit_type, unit_id),
    {
        let zeros: [u8; 7] = [0, 0, 0, 0, 0, 0, 0];
        proof {
            assert(zeros =~= zero_data());
        }
        let mut i: usize = 0;
        while i < self.write_queue.len()
            invariant
                i <= self.write_queue@.len(),
                zeros == zero_data(),
                forall|j: int|
                    0 <= j < i ==> !((#[trigger] self.write_queue@[j]).unit_type == unit_type
                        && self.write_queue@[j].unit_id == unit_id && self.write_queue@[j].reg
                        == RegId(0x06) && self.write_queue@[j].data == zero_data()),
            decreases self.write_queue@.len() - i,
        {
            let queued = self.write_queue[i];
            if queued.unit_type == unit_type && queued.unit_id == unit_id && queued.reg
                == RegId::new(0x06) && same_data(&queued.data, &zeros) {
                return true;
            }
            i = i + 1;
        }
        false
    }

    /// Applies a command.
    pub fn apply_cmd(&mut self, cmd: EngineCmd)
        ensures
            final(self)@ == commanded(old(self)@, cmd),
    {
        match cmd {
            EngineCmd::WriteRegisters(records) => {
                let mut records = records;
                self.write_queue.append(&mut records);
            },
            EngineCmd::ReadRegister { unit_type, unit_id, reg, zone } => {
                if !self.flush_is_queued(unit_type, unit_id) {
                    self.write_queue.push(flush_of(unit_type, unit_id));
                }
                self.pending_reads.push(
                    PendingRead { unit_type, unit_id, reg, zone, flush_sent: false },
                );
            },
            EngineCmd::ResyncMailbox => {
                self.state = State::RequestDump;
                self.dump_sent = false;
                self.dump_needs_resend = false;
                self.dirty_reset_sent = false;
                self.reset_nacks = 0;
                self.ack_armed = false;
            },
            EngineCmd::Shutdown => {
                self.shutdown = true;
            },
        }
        proof {
            assert(self@ =~= commanded(old(self)@, cmd));
        }
    }

    /// Handles a ping: at most one payload goes out.
    pub fn on_ping(&mut self) -> (r: Option<Vec<u8>>)
        ensures
            final(self)@ == pinged(old(self)@).0,
            match r {
                Some(payload) => pinged(old(self)@).1 == Some(payload@),
                None => pinged(old(self)@).1 is None,
            },
    {
        match self.state {
            State::Init | State::WaitPing => {
                self.state = State::Negotiate;
                Some(bytes_of(GET_SYSTEM_DATA))
            },
            State::Negotiate | State::ExpectCan2 => {
                self.state = State::ExpectCan2;
                Some(bytes_of(GET_SYSTEM_DATA))
            },
            State::RequestDump => {
                if self.ack_armed {
                    return Some(self.steady_tx());
                }
                if !self.dirty_reset_sent {
                    self.dirty_reset_sent = true;
                    return Some(bytes_of(DIRTY_RESET_SET_CAN));
                }
                if !self.dump_sent || self.dump_needs_resend {
                    self.dump_sent = true;
                    self.dump_needs_resend = false;
                    return Some(bytes_of(DUMP_SET_CAN));
                }
                None
            },
            State::Steady => {
                if self.ack_armed || self.write_queue.len() > 0 {
                    return Some(self.steady_tx());
                }
                if self.can_in_use {
                    return None;
                }
                Some(self.steady_tx())
            },
        }
    }

    /// What goes out in steady state.
    pub fn steady_tx(&mut self) -> (payload: Vec<u8>)
        ensures
            final(self)@ == transmitted(old(self)@).0,
            payload@ == transmitted(old(self)@).1,
    {
        if self.ack_armed {
            self.ack_armed = false;
            if self.crc_ok {
                return bytes_of(ACK_CAN);
            }
            return bytes_of(ACK_CAN_ZERO);
        }
        if self.write_queue.len() > 0 {
            let payload = build_set_can(self.write_queue.as_slice());
            self.write_queue = Vec::new();
            self.write_flushed = true;
            self.mark_flushes_sent();
            return payload;
        }
        bytes_of(EMPTY_SET_CAN)
    }

    fn mark_flushes_sent(&mut self)
        ensures
            final(self)@ == (Model {
                pending_reads: flushed_reads(old(self)@.pending_reads),
                ..old(self)@
            }),
    {
        let mut marked: Vec<PendingRead> = Vec::new();
        let mut i: usize = 0;
        while i < self.pending_reads.len()
            invariant
                i <= self.pending_reads@.len(),
                *self == *old(self),
                marked@ == flushed_reads(self.pending_reads@.take(i as int)),
            decreases self.pending_reads@.len() - i,
        {
            let p = self.pending_reads[i];
            marked.push(
                PendingRead {
                    unit_type: p.unit_type,
                    unit_id: p.unit_id,
                    reg: p.reg,
                    zone: p.zone,
                    flush_sent: true,
                },
            );
            proof {
                assert(marked@ =~= flushed_reads(self.pending_reads@.take(i + 1)));
            }
            i = i + 1;
        }
        proof {
            assert(self.pending_reads@.take(i as int) =~= self.pending_reads@);
        }
        self.pending_reads = marked;
    }

    /// Handles a frame other than a ping.
    pub fn on_frame(&mut self, payload: &[u8]) -> (events: Vec<EngineEvent>)
        ensures
            received(old(self)@, payload@, final(self)@, events_model(events@)),
    {
        self.crc_ok = true;
        match self.state {
            State::Init | State::WaitPing => {
                let events = warn_event("frame before negotiate started", "");
                proof {
                    reveal_strlit("");
                    assert("frame before negotiate started"@ + ""@
                        =~= "frame before negotiate started"@);
                }
                events
            },
            State::Negotiate | State::ExpectCan2 => self.on_negotiate_frame(payload),
            State::RequestDump => self.on_dump_frame(payload),
            State::Steady => self.on_steady_frame(payload),
        }
    }

    fn on_negotiate_frame(&mut self, payload: &[u8]) -> (events: Vec<EngineEvent>)
        ensures
            (final(self)@, events_model(events@)) == negotiated(old(self)@, payload@),
    {
        let text = lossy_text(payload);
        if is_can2_in_use(payload) {
            self.can_in_use = true;
            self.state = State::RequestDump;
            let mut events: Vec<EngineEvent> = Vec::new();
            events.push(EngineEvent::Negotiated { detail: text });
            proof {
                assert(events_model(events@) =~= negotiated(old(self)@, payload@).1);
            }
            events
        } else {
            warn_event("negotiate mismatch: ", text.as_str())
        }
    }

    fn on_dump_frame(&mut self, payload: &[u8]) -> (events: Vec<EngineEvent>)
        ensures
            dumped(old(self)@, payload@, final(self)@, events_model(events@)),
    {
        if !is_get_can(payload) {
            let text = lossy_text(payload);
            return warn_event("unexpected frame during dump: ", text.as_str());
        }
        if is_get_can_nack(payload) {
            self.ack_armed = true;
            if self.dump_sent {
                self.dump_needs_resend = true;
            } else if self.reset_nacks < 2 {
                self.reset_nacks = self.reset_nacks + 1;
                self.dirty_reset_sent = false;
            }
            return Vec::new();
        }
        match parse_get_can(payload) {
            Err(e) => warn_event("getCAN parse failed during dump: ", error_name(e)),
            Ok(records) => {
                self.store(records.as_slice());
                if !self.dump_sent {
                    self.ack_armed = true;
                    return Vec::new();
                }
                self.state = State::Steady;
                self.ack_armed = true;
                self.can_in_use = false;
                let can_records = self.dump_record_texts();
                self.queue_missing_status();
                let mut events: Vec<EngineEvent> = Vec::new();
                events.push(EngineEvent::Snapshot { bank: self.bank.clone(), can_records });
                let mut read = self.resolve_pending_reads();
                let ghost first = events@;
                let ghost more = read@;
                events.append(&mut read);
                proof {
                    assert(events_model(events@) =~= events_model(first) + events_model(more));
                    assert(events_model(first) =~= seq![
                        EventModel::Snapshot { bank: self.bank@, can_records: dump_texts(self.bank@) },
                    ]);
                }
                events
            },
        }
    }

    fn on_steady_frame(&mut self, payload: &[u8]) -> (events: Vec<EngineEvent>)
        ensures
            (final(self)@, events_model(events@)) == steadied(old(self)@, payload@),
    {
        if is_can2_in_use(payload) {
            self.can_in_use = true;
            let events: Vec<EngineEvent> = Vec::new();
            proof {
                assert(events_model(events@) =~= seq![]);
            }
            return events;
        }
        if !is_get_can(payload) {
            let text = lossy_text(payload);
            return warn_event("unexpected steady frame: ", text.as_str());
        }
        self.can_in_use = false;
        match parse_get_can(payload) {
            Err(e) => warn_event("getCAN parse failed: ", error_name(e)),
            Ok(records) => {
                self.store(records.as_slice());
                self.ack_armed = true;
                let ghost recs = records@;
                let mut events: Vec<EngineEvent> = Vec::new();
                events.push(EngineEvent::RegistersChanged { records });
                let mut read = self.resolve_pending_reads();
                let ghost first = events@;
                let ghost more = read@;
                events.append(&mut read);
                proof {
                    assert(events_model(events@) =~= events_model(first) + events_model(more));
                    assert(events_model(first) =~= seq![
                        EventModel::RegistersChanged { records: recs },
                    ]);
                }
                events
            },
        }
    }

    /// Stores reported records and queues the replies to announcements.
    fn store(&mut self, records: &[CanRecord])
        ensures
            final(self)@ == (Model {
                bank: stored(old(self)@.bank, records@),
                write_queue: old(self)@.write_queue + handshakes(records@),
                ..old(self)@
            }),
    {
        let mut i: usize = 0;
        proof {
            assert(records@.take(0) =~= seq![]);
            assert(self@.write_queue + Seq::<CanRecord>::empty() =~= self@.write_queue);
        }
        while i < records.len()
            invariant
                i <= records@.len(),
                self@ == (Model {
                    bank: stored(old(self)@.bank, records@.take(i as int)),
                    write_queue: old(self)@.write_queue + handshakes(records@.take(i as int)),
                    ..old(self)@
                }),
            decreases records@.len() - i,
        {
            let record = records[i];
            let ghost before = records@.take(i as int);
            let ghost now = records@.take(i + 1);
            proof {
                assert(now.drop_last() =~= before);
                assert(now.last() == record);
            }
            self.bank.apply(&record);
            if record.reg == RegId::new(0x06) {
                self.write_queue.push(build_jz18(record.unit_type, record.unit_id));
                proof {
                    assert(self.write_queue@ =~= old(self)@.write_queue + handshakes(now));
                }
            }
            i = i + 1;
        }
        proof {
            assert(records@.take(i as int) =~= records@);
        }
    }

    fn dump_record_texts(&self) -> (r: Option<Vec<String>>)
        ensures
            match r {
                Some(list) => dump_texts(self@.bank) == Some(texts(list@)),
                None => dump_texts(self@.bank) is None,
            },
    {
        let all = self.bank.all_records();
        if all.len() == 0 {
            return None;
        }
        let mut list: Vec<String> = Vec::new();
        let mut i: usize = 0;
        while i < all.len()
            invariant
                i <= all@.len(),
                texts(list@) == digits_list(all@.take(i as int)),
            decreases all@.len() - i,
        {
            let ghost before = list@;
            list.push(all[i].to_wire());
            proof {
                let d = record_digits(all@[i as int]);
                assert(texts(list@) =~= texts(before).push(d));
                assert(digits_list(all@.take(i + 1)) =~= digits_list(all@.take(i as int)).push(d));
            }
            i = i + 1;
        }
        proof {
            assert(all@.take(i as int) =~= all@);
        }
        Some(list)
    }

    /// Answers the reads whose flush is on the bus.
    fn resolve_pending_reads(&mut self) -> (events: Vec<EngineEvent>)
        ensures
            final(self)@ == (Model {
                pending_reads: waiting(old(self)@.pending_reads),
                ..old(self)@
            }),
            events_model(events@) == answers(old(self)@.bank, old(self)@.pending_reads),
    {
        let mut events: Vec<EngineEvent> = Vec::new();
        let mut remaining: Vec<PendingRead> = Vec::new();
        let mut i: usize = 0;
        proof {
            assert(self.pending_reads@.take(0) =~= seq![]);
            assert(events_model(events@) =~= seq![]);
        }
        while i < self.pending_reads.len()
            invariant
                i <= self.pending_reads@.len(),
                *self == *old(self),
                remaining@ == waiting(self.pending_reads@.take(i as int)),
                events_model(events@) == answers(
                    self.bank@,
                    self.pending_reads@.take(i as int),
                ),
            decreases self.pending_reads@.len() - i,
        {
            let p = self.pending_reads[i];
            let ghost now = self.pending_reads@.take(i + 1);
            let ghost shown = events@;
            proof {
                assert(now.drop_last() =~= self.pending_reads@.take(i as int));
                assert(now.last() == p);
            }
            if !p.flush_sent {
                remaining.push(p);
            } else {
                let data = self.read_slot(p);
                events.push(
                    EngineEvent::RegisterRead {
                        unit_type: p.unit_type,
                        unit_id: p.unit_id,
                        reg: p.reg,
                        zone: p.zone,
                        data,
                    },
                );
                proof {
                    assert(events_model(events@) =~= events_model(shown).push(
                        events@[shown.len() as int]@,
                    ));
                }
            }
            i = i + 1;
        }
        proof {
            assert(self.pending_reads@.take(i as int) =~= self.pending_reads@);
        }
        self.pending_reads = remaining;
        events
    }

    fn read_slot(&self, p: PendingRead) -> (data: Option<[u8; 7]>)
        ensures
            data == read_value(self@.bank, p),
    {
        if is_zone_bearing(p.reg) {
            match p.zone {
                Some(zone) => self.bank.get_zone(p.unit_type, p.unit_id, p.reg, zone),
                None => None,
            }
        } else {
            self.bank.get(p.unit_type, p.unit_id, p.reg)
        }
    }

    /// The first air conditioning unit of the mailbox.
    fn aircon_primary_unit_id(&self) -> (r: Option<UnitId>)
        ensures
            match r {
                Some(unit) => smallest_unit(self@.bank, UnitType(0x07), unit),
                None => !type_present(self@.bank, UnitType(0x07)),
            },
    {
        let ids = self.bank.unit_ids(UnitType::aircon());
        if ids.len() == 0 {
            proof {
                if type_present(self@.bank, UnitType(0x07)) {
                    let k = choose|k: BankKey| #[trigger]
                        self@.bank.dom().contains(k) && k.unit_type == UnitType(0x07);
                    assert(unit_present(self@.bank, UnitType(0x07), k.unit_id));
                    assert(ids@.contains(k.unit_id));
                }
            }
            return None;
        }
        proof {
            assert(ids@.contains(ids@[0]));
            assert(unit_present(self@.bank, UnitType(0x07), ids@[0]));
            assert(type_present(self@.bank, UnitType(0x07)));
        }
        Some(self.bank.preferred_unit_id(UnitType::aircon(), None))
    }

    /// Queues a flush of the first air conditioning unit when the mailbox has no
    /// system status of it.
    fn queue_missing_status(&mut self)
        ensures
            dump_queue(old(self)@.bank, old(self)@.write_queue, final(self)@.write_queue),
            final(self)@ == (Model { write_queue: final(self)@.write_queue, ..old(self)@ }),
    {
        match self.aircon_primary_unit_id() {
            None => {},
            Some(unit) => {
                if self.bank.get(UnitType::aircon(), unit, RegId::new(0x05)).is_none() {
                    self.write_queue.push(flush_of(UnitType::aircon(), unit));
                }
                proof {
                    let k = choose|k: BankKey| #[trigger]
                        self@.bank.dom().contains(k) && k.unit_type == UnitType(0x07)
                            && k.unit_id == unit;
                    assert(self@.bank.dom().contains(k));
                    assert(type_present(self@.bank, UnitType(0x07)));
                }
            },
        }
    }
}

fn flush_of(unit_type: UnitType, unit_id: UnitId) -> (r: CanRecord)
    ensures
        r == unit_flush(unit_type, unit_id),
{
    let data: [u8; 7] = [0, 0, 0, 0, 0, 0, 0];
    proof {
        assert(data =~= zero_data());
    }
    CanRecord { unit_type, dest: Dest::ControlBox, unit_id, reg: RegId::new(0x06), data }
}

} // verus!
