//! What each step of a session does, said over what goes in and what comes out.
use crate::engine::event::{EngineCmd, EventModel, SessionState};
use crate::engine::runner::{command_event, crc_failed, link_down, scan_warning, with_synced};
use crate::engine::session::{
    answers, commanded, dump_queue, dump_texts, handshakes, initial, pinged, received,
    transmitted, unit_flush, waiting, Model, PendingRead, State,
};
use crate::engine::wire::{
    can2_in_use, get_can, get_can_nack, get_can_records, jz18, set_can,
};
use crate::frame::{FrameError, Scan};
use crate::registers::bank::{listing, lookup, smallest_unit, type_present, BankKey};
use crate::registers::ids::{RegId, UnitId, UnitType};
use crate::registers::wire::{record_digits, records_of, CanRecord, Dest};
use crate::text::{ascii, decimal, has_text, lemma_ascii_bytes, utf8_lossy, words};
use vstd::prelude::*;
use vstd::utf8::{decode_utf8, is_ascii_chars, valid_utf8};

verus! {

/// A session starts with nothing: no record, nothing queued, nothing owed.
pub proof fn law_sessions_start_empty()
    ensures
        initial().bank == Map::<BankKey, [u8; 7]>::empty(),
        initial().write_queue.len() == 0,
        initial().pending_reads.len() == 0,
        !initial().ack_armed,
        !initial().write_flushed,
        !initial().can_in_use,
        !initial().shutdown,
        initial().crc_ok,
        pinged(initial()).1 == Some(ascii("getSystemData"@)),
{
}

/// Writes join the queue behind what stands in it, all of them and in order, and
/// nothing else changes.
pub proof fn law_writes_join_the_queue(m: Model, records: Vec<CanRecord>)
    ensures
        ({
            let after = commanded(m, EngineCmd::WriteRegisters(records));
            &&& after.write_queue.len() == m.write_queue.len() + records@.len()
            &&& forall|i: int|
                0 <= i < m.write_queue.len() ==> #[trigger] after.write_queue[i]
                    == m.write_queue[i]
            &&& forall|i: int|
                0 <= i < records@.len() ==> after.write_queue[m.write_queue.len() + i]
                    == #[trigger] records@[i]
            &&& after == (Model { write_queue: after.write_queue, ..m })
        }),
{
}

/// A read waits with exactly what it asked for, behind the others. A flush of its unit,
/// register `06` with seven zero bytes for the control box, joins the queue unless one
/// stands there.
pub proof fn law_reads_are_queued(
    m: Model,
    unit_type: UnitType,
    unit_id: UnitId,
    reg: RegId,
    zone: Option<u8>,
)
    ensures
        ({
            let after = commanded(m, EngineCmd::ReadRegister { unit_type, unit_id, reg, zone });
            let flush = after.write_queue.last();
            &&& after.pending_reads == m.pending_reads.push(
                PendingRead { unit_type, unit_id, reg, zone, flush_sent: false },
            )
            &&& (exists|i: int|
                0 <= i < m.write_queue.len() && (#[trigger] m.write_queue[i]).unit_type
                    == unit_type && m.write_queue[i].unit_id == unit_id && m.write_queue[i].reg
                    == RegId(0x06) && m.write_queue[i].data == [0u8, 0, 0, 0, 0, 0, 0])
                ==> after.write_queue == m.write_queue
            &&& !(exists|i: int|
                0 <= i < m.write_queue.len() && (#[trigger] m.write_queue[i]).unit_type
                    == unit_type && m.write_queue[i].unit_id == unit_id && m.write_queue[i].reg
                    == RegId(0x06) && m.write_queue[i].data == [0u8, 0, 0, 0, 0, 0, 0])
                ==> after.write_queue == m.write_queue.push(flush) && flush.unit_type == unit_type
                && flush.unit_id == unit_id && flush.reg == RegId(0x06) && flush.dest
                == Dest::ControlBox && flush.data == [0u8, 0, 0, 0, 0, 0, 0]
            &&& after == (Model {
                write_queue: after.write_queue,
                pending_reads: after.pending_reads,
                ..m
            })
        }),
{
}

/// A shutdown only asks for the end; a resync starts the dump anew and keeps what is
/// known, queued and waited for. Only a resync is announced.
pub proof fn law_other_commands(m: Model, cmd: EngineCmd)
    ensures
        commanded(m, EngineCmd::Shutdown) == (Model { shutdown: true, ..m }),
        commanded(m, EngineCmd::ResyncMailbox) == (Model {
            state: State::RequestDump,
            dump_sent: false,
            dump_needs_resend: false,
            dirty_reset_sent: false,
            reset_nacks: 0,
            ack_armed: false,
            ..m
        }),
        cmd is ResyncMailbox ==> command_event(cmd) == Some(
            EventModel::SessionState(SessionState::Resyncing),
        ),
        !(cmd is ResyncMailbox) ==> command_event(cmd) is None,
{
}

/// A steady ping with writes queued and no acknowledgement owed sends the whole queue.
/// Then the queue is empty, the window is to be reported, every read that waits counts
/// as flushed, and nothing else has changed.
pub proof fn law_ping_sends_the_queue(m: Model)
    requires
        m.state == State::Steady,
        !m.ack_armed,
        m.write_queue.len() > 0,
    ensures
        pinged(m).1 == Some(set_can(m.write_queue)),
        pinged(m).0.write_queue.len() == 0,
        pinged(m).0.write_flushed,
        pinged(m).0.pending_reads.len() == m.pending_reads.len(),
        forall|i: int|
            0 <= i < m.pending_reads.len() ==> #[trigger] pinged(m).0.pending_reads[i]
                == (PendingRead { flush_sent: true, ..m.pending_reads[i] }),
        pinged(m).0 == (Model {
            write_queue: pinged(m).0.write_queue,
            write_flushed: true,
            pending_reads: pinged(m).0.pending_reads,
            ..m
        }),
{
}

/// A steady ping with nothing to send is answered with an empty poll, or not at all
/// while the bus is in use, and changes nothing.
pub proof fn law_idle_ping(m: Model)
    requires
        m.state == State::Steady,
        !m.ack_armed,
        m.write_queue.len() == 0,
    ensures
        !m.can_in_use ==> pinged(m).1 == Some(ascii("setCAN "@)),
        m.can_in_use ==> pinged(m).1 is None,
        pinged(m).0 == m,
{
}

/// Once the dump is requested, no queued write goes out before the session is steady:
/// what a ping sends is an acknowledgement, the reset, the dump request or nothing, and
/// the queue stays.
pub proof fn law_dump_pings(m: Model)
    requires
        m.state == State::RequestDump,
    ensures
        m.ack_armed && m.crc_ok ==> pinged(m).1 == Some(ascii("ackCAN 1"@)),
        m.ack_armed && !m.crc_ok ==> pinged(m).1 == Some(ascii("ackCAN 0"@)),
        !m.ack_armed && !m.dirty_reset_sent ==> pinged(m).1 == Some(
            ascii("setCAN 0701000000600000000000000"@),
        ),
        !m.ack_armed && m.dirty_reset_sent && (!m.dump_sent || m.dump_needs_resend) ==> pinged(m).1
            == Some(ascii("setCAN 0801000000600000000000000 0801000000236000000000000"@)),
        !m.ack_armed && m.dirty_reset_sent && m.dump_sent && !m.dump_needs_resend ==> pinged(m).1
            is None,
        pinged(m).0.write_queue == m.write_queue,
        pinged(m).0.pending_reads == m.pending_reads,
        pinged(m).0.bank == m.bank,
        pinged(m).0.write_flushed == m.write_flushed,
        pinged(m).0.state == m.state,
{
}

/// The steady acknowledgement: its digit is the checksum outcome.
pub proof fn law_steady_acknowledgement(m: Model)
    requires
        m.ack_armed,
    ensures
        transmitted(m).1 == if m.crc_ok {
            ascii("ackCAN 1"@)
        } else {
            ascii("ackCAN 0"@)
        },
        transmitted(m).0 == (Model { ack_armed: false, ..m }),
{
}

/// Replies to announcements: one record more brings one reply more, for register `06`
/// alone, and the reply is register `07` of the same unit with seven zero bytes for the
/// control box.
pub proof fn law_replies_to_announcements(records: Seq<CanRecord>, r: CanRecord)
    ensures
        handshakes(Seq::empty()) == Seq::<CanRecord>::empty(),
        r.reg != RegId(0x06) ==> handshakes(records.push(r)) == handshakes(records),
        r.reg == RegId(0x06) ==> handshakes(records.push(r)) == handshakes(records).push(
            CanRecord {
                unit_type: r.unit_type,
                dest: Dest::ControlBox,
                unit_id: r.unit_id,
                reg: RegId(0x07),
                data: [0u8, 0, 0, 0, 0, 0, 0],
            },
        ),
{
    assert(records.push(r).drop_last() =~= records);
}

/// Which reads are answered and which stay: one read more is answered when its flush is
/// on the bus, and stays when it is not, in order.
pub proof fn law_reads_stay_or_are_answered(
    bank: Map<BankKey, [u8; 7]>,
    reads: Seq<PendingRead>,
    p: PendingRead,
)
    ensures
        waiting(Seq::empty()) == Seq::<PendingRead>::empty(),
        answers(bank, Seq::empty()) == Seq::<EventModel>::empty(),
        p.flush_sent ==> waiting(reads.push(p)) == waiting(reads) && answers(
            bank,
            reads.push(p),
        ).len() == answers(bank, reads).len() + 1,
        !p.flush_sent ==> waiting(reads.push(p)) == waiting(reads).push(p) && answers(
            bank,
            reads.push(p),
        ) == answers(bank, reads),
{
    assert(reads.push(p).drop_last() =~= reads);
}

/// A report in steady state tells its records, all of them and in order, is to be
/// acknowledged, ends the state of the bus being in use, and queues the replies to its
/// announcements behind what stands there.
pub proof fn law_steady_report(
    m: Model,
    payload: Seq<u8>,
    after: Model,
    events: Seq<EventModel>,
)
    requires
        m.state == State::Steady,
        received(m, payload, after, events),
        get_can(payload),
        !can2_in_use(payload),
        get_can_records(payload) is Ok,
    ensures
        events.len() > 0,
        events[0] == (EventModel::RegistersChanged { records: get_can_records(payload)->Ok_0 }),
        after.ack_armed,
        after.crc_ok,
        !after.can_in_use,
        after.state == State::Steady,
        after.write_queue == m.write_queue + handshakes(get_can_records(payload)->Ok_0),
        after.shutdown == m.shutdown,
        after.write_flushed == m.write_flushed,
{
}

/// The report that ends a dump gives the whole mailbox, as it is then, and the digits of
/// every record in it.
pub proof fn law_dump_ends(m: Model, payload: Seq<u8>, after: Model, events: Seq<EventModel>)
    requires
        m.state == State::RequestDump,
        m.dump_sent,
        received(m, payload, after, events),
        get_can(payload),
        !get_can_nack(payload),
        get_can_records(payload) is Ok,
    ensures
        events.len() > 0,
        events[0] == (EventModel::Snapshot {
            bank: after.bank,
            can_records: dump_texts(after.bank),
        }),
        after.state == State::Steady,
        after.ack_armed,
        after.crc_ok,
        !after.can_in_use,
        listing(after.bank).len() == 0 ==> dump_texts(after.bank) is None,
        listing(after.bank).len() > 0 ==> (dump_texts(after.bank) matches Some(list) && list.len()
            == listing(after.bank).len() && forall|i: int|
            0 <= i < list.len() ==> #[trigger] list[i] == record_digits(listing(after.bank)[i])),
        with_synced(events).len() >= 2,
        with_synced(events)[0] == events[0],
        with_synced(events)[1] == EventModel::SessionState(SessionState::Synced),
{
    lemma_synced_first(events);
}

/// After a mailbox comes the word that the session is in sync.
proof fn lemma_synced_first(events: Seq<EventModel>)
    requires
        events.len() > 0,
        events[0] is Snapshot,
    ensures
        with_synced(events).len() >= 2,
        with_synced(events)[0] == events[0],
        with_synced(events)[1] == EventModel::SessionState(SessionState::Synced),
    decreases events.len(),
{
    let init = events.drop_last();
    if events.len() == 1 {
        assert(init =~= seq![]);
        assert(with_synced(init) =~= seq![]);
    } else {
        assert(init[0] == events[0]);
        lemma_synced_first(init);
    }
}

/// Every event is passed on in order; only a mailbox is followed by one more.
pub proof fn law_events_are_passed_on(events: Seq<EventModel>, e: EventModel)
    ensures
        with_synced(Seq::empty()) == Seq::<EventModel>::empty(),
        e is Snapshot ==> with_synced(events.push(e)) == with_synced(events).push(e).push(
            EventModel::SessionState(SessionState::Synced),
        ),
        !(e is Snapshot) ==> with_synced(events.push(e)) == with_synced(events).push(e),
{
    assert(events.push(e).drop_last() =~= events);
}

/// A report before the dump request went out is stored and acknowledged, and gives no
/// event yet.
pub proof fn law_early_report(m: Model, payload: Seq<u8>, after: Model, events: Seq<EventModel>)
    requires
        m.state == State::RequestDump,
        !m.dump_sent,
        received(m, payload, after, events),
        get_can(payload),
        !get_can_nack(payload),
        get_can_records(payload) is Ok,
    ensures
        events.len() == 0,
        after.state == State::RequestDump,
        after.ack_armed,
        after.pending_reads == m.pending_reads,
        after.write_queue == m.write_queue + handshakes(get_can_records(payload)->Ok_0),
        after.dump_sent == m.dump_sent,
        after.dirty_reset_sent == m.dirty_reset_sent,
{
}

/// A refusal while the dump is requested is acknowledged. It has the dump request sent
/// again where that went out; before, it has the reset sent again, twice at most.
pub proof fn law_refusals(m: Model, payload: Seq<u8>, after: Model, events: Seq<EventModel>)
    requires
        m.state == State::RequestDump,
        received(m, payload, after, events),
        get_can(payload),
        get_can_nack(payload),
    ensures
        events.len() == 0,
        after.ack_armed,
        after.state == State::RequestDump,
        after.bank == m.bank,
        after.write_queue == m.write_queue,
        after.pending_reads == m.pending_reads,
        m.dump_sent ==> after.dump_needs_resend && after.dirty_reset_sent == m.dirty_reset_sent
            && after.reset_nacks == m.reset_nacks,
        !m.dump_sent && m.reset_nacks < 2 ==> !after.dirty_reset_sent && after.reset_nacks
            == m.reset_nacks + 1 && after.dump_needs_resend == m.dump_needs_resend,
        !m.dump_sent && m.reset_nacks >= 2 ==> after.dirty_reset_sent == m.dirty_reset_sent
            && after.reset_nacks == m.reset_nacks,
        after.dump_sent == m.dump_sent,
{
}

/// What is no report changes nothing but the checksum outcome and is warned of; only the
/// word that the bus is in use ends the negotiation, and later it only stops empty polls.
pub proof fn law_other_frames(m: Model, payload: Seq<u8>, after: Model, events: Seq<EventModel>)
    requires
        received(m, payload, after, events),
    ensures
        m.state == State::Init || m.state == State::WaitPing ==> after == (Model {
            crc_ok: true,
            ..m
        }) && events.len() == 1 && events[0] is ProtocolWarn,
        (m.state == State::Negotiate || m.state == State::ExpectCan2) && can2_in_use(payload)
            ==> after == (Model {
            crc_ok: true,
            can_in_use: true,
            state: State::RequestDump,
            ..m
        }) && events == seq![EventModel::Negotiated { detail: utf8_lossy(payload) }],
        (m.state == State::Negotiate || m.state == State::ExpectCan2) && !can2_in_use(payload)
            ==> after == (Model { crc_ok: true, ..m }) && events == seq![
            EventModel::ProtocolWarn("negotiate mismatch: "@ + utf8_lossy(payload)),
        ],
        m.state == State::RequestDump && !get_can(payload) ==> after == (Model {
            crc_ok: true,
            ..m
        }) && events == seq![
            EventModel::ProtocolWarn("unexpected frame during dump: "@ + utf8_lossy(payload)),
        ],
        m.state == State::Steady && can2_in_use(payload) ==> after == (Model {
            crc_ok: true,
            can_in_use: true,
            ..m
        }) && events.len() == 0,
        m.state == State::Steady && !can2_in_use(payload) && !get_can(payload) ==> after
            == (Model { crc_ok: true, ..m }) && events == seq![
            EventModel::ProtocolWarn("unexpected steady frame: "@ + utf8_lossy(payload)),
        ],
{
}

/// A report that cannot be read changes no record, no queue and no read, owes no
/// acknowledgement, and is warned of.
pub proof fn law_unreadable_reports(
    m: Model,
    payload: Seq<u8>,
    after: Model,
    events: Seq<EventModel>,
)
    requires
        m.state == State::Steady || m.state == State::RequestDump,
        received(m, payload, after, events),
        get_can(payload),
        !can2_in_use(payload),
        !get_can_nack(payload),
        get_can_records(payload) is Err,
    ensures
        after.bank == m.bank,
        after.write_queue == m.write_queue,
        after.pending_reads == m.pending_reads,
        after.ack_armed == m.ack_armed,
        after.state == m.state,
        events.len() == 1,
        events[0] is ProtocolWarn,
{
}

/// A frame with a wrong checksum changes no record, no queue and no read. A report among
/// them is to be acknowledged, with the refusal.
pub proof fn law_damaged_frames(m: Model, payload: Seq<u8>)
    ensures
        payload == ascii("Ping"@) ==> crc_failed(m, payload) == m,
        payload != ascii("Ping"@) ==> crc_failed(m, payload) == (Model {
            crc_ok: false,
            ack_armed: m.ack_armed || get_can(payload),
            ..m
        }),
{
}

/// A lost link is told twice: as a state, and with its reason.
pub proof fn law_lost_link(text: Seq<char>)
    ensures
        link_down(text).len() == 2,
        link_down(text)[0] == EventModel::SessionState(SessionState::LinkDown),
        link_down(text)[1] == EventModel::LinkError(text),
{
}

/// Which payloads are reports, and which of them ask for a retry: reports begin with the
/// bytes of `getCAN`, and those that ask for a retry have the digit zero as eighth byte.
pub proof fn law_reports(payload: Seq<u8>)
    ensures
        get_can(payload) <==> payload.len() >= 6 && payload[0] == 0x67 && payload[1] == 0x65
            && payload[2] == 0x74 && payload[3] == 0x43 && payload[4] == 0x41 && payload[5]
            == 0x4e,
        get_can_nack(payload) <==> get_can(payload) && payload.len() >= 8 && payload[7] == 0x30,
        can2_in_use(payload) <==> valid_utf8(payload) && has_text(
            decode_utf8(payload),
            "CAN2 in use"@,
        ),
{
    reveal_strlit("getCAN");
    let head = ascii("getCAN"@);
    assert(head =~= seq![0x67u8, 0x65, 0x74, 0x43, 0x41, 0x4e]);
    if payload.len() >= 6 {
        let front = payload.subrange(0, 6);
        assert(front[0] == payload[0] && front[1] == payload[1] && front[2] == payload[2]
            && front[3] == payload[3] && front[4] == payload[4] && front[5] == payload[5]);
        if payload[0] == 0x67 && payload[1] == 0x65 && payload[2] == 0x74 && payload[3] == 0x43
            && payload[4] == 0x41 && payload[5] == 0x4e {
            assert(front =~= head);
        }
    }
}

/// The records of a report are those of the words behind `getCAN`.
pub proof fn law_words_of_a_report(rest: Seq<char>)
    requires
        is_ascii_chars(rest),
    ensures
        get_can_records(ascii(seq!['g', 'e', 't', 'C', 'A', 'N'] + rest)) == records_of(
            words(rest),
        ),
        get_can(ascii(seq!['g', 'e', 't', 'C', 'A', 'N'] + rest)),
{
    reveal_strlit("getCAN");
    let head = seq!['g', 'e', 't', 'C', 'A', 'N'];
    let text = head + rest;
    assert("getCAN"@ =~= head);
    assert(is_ascii_chars(text)) by {
        assert forall|i: int| 0 <= i < text.len() implies '\0' <= #[trigger] text[i]
            <= '\u{7f}' by {
            if i >= 6 {
                assert(text[i] == rest[i - 6]);
            }
        }
    }
    lemma_ascii_bytes(text);
    assert(text.subrange(0, 6) =~= head);
    assert(text.skip(6) =~= rest);
    assert(ascii(text).subrange(0, 6) =~= ascii(head));
}

/// The records that the session makes itself: a flush and a reply to an announcement.
pub proof fn law_own_records(unit_type: UnitType, unit_id: UnitId)
    ensures
        unit_flush(unit_type, unit_id) == (CanRecord {
            unit_type,
            dest: Dest::ControlBox,
            unit_id,
            reg: RegId(0x06),
            data: [0u8, 0, 0, 0, 0, 0, 0],
        }),
        jz18(unit_type, unit_id) == (CanRecord {
            unit_type,
            dest: Dest::ControlBox,
            unit_id,
            reg: RegId(0x07),
            data: [0u8, 0, 0, 0, 0, 0, 0],
        }),
{
}

/// After a dump one flush is queued where the air conditioning unit with the smallest id
/// has no status yet; else nothing is.
pub proof fn law_missing_status_is_asked_for(
    bank: Map<BankKey, [u8; 7]>,
    queue: Seq<CanRecord>,
    after: Seq<CanRecord>,
    key: BankKey,
)
    requires
        dump_queue(bank, queue, after),
    ensures
        (forall|k: BankKey| #[trigger] bank.dom().contains(k) ==> k.unit_type.0 != 0x07) ==> after
            == queue,
        after == queue || (after.len() == queue.len() + 1 && after.drop_last() == queue),
        after.len() > queue.len() ==> {
            let flush = after.last();
            &&& flush.unit_type.0 == 0x07
            &&& flush.dest == Dest::ControlBox
            &&& flush.reg.0 == 0x06
            &&& flush.data == [0u8, 0, 0, 0, 0, 0, 0]
            &&& exists|k: BankKey| #[trigger]
                bank.dom().contains(k) && k.unit_type.0 == 0x07 && k.unit_id == flush.unit_id
            &&& !bank.dom().contains(
                BankKey {
                    unit_type: UnitType(0x07),
                    unit_id: flush.unit_id,
                    reg: RegId(0x05),
                    zone: None,
                },
            )
            &&& bank.dom().contains(key) && key.unit_type.0 == 0x07 ==> flush.unit_id@
                <= key.unit_id@
        },
        after == queue && bank.dom().contains(key) && key.unit_type.0 == 0x07 ==> exists|id: UnitId|
            id@ <= key.unit_id@ && #[trigger] bank.dom().contains(
                BankKey { unit_type: UnitType(0x07), unit_id: id, reg: RegId(0x05), zone: None },
            ),
{
    let aircon = UnitType(0x07);
    if bank.dom().contains(key) && key.unit_type.0 == 0x07 {
        assert(key.unit_type == aircon);
    }
    if type_present(bank, aircon) {
        let unit = choose|unit: UnitId| #[trigger]
            smallest_unit(bank, aircon, unit) && after == if lookup(
                bank,
                BankKey { unit_type: aircon, unit_id: unit, reg: RegId(0x05), zone: None },
            ) is Some {
                queue
            } else {
                queue.push(unit_flush(aircon, unit))
            };
        assert(queue.push(unit_flush(aircon, unit)).drop_last() =~= queue);
        let status = BankKey { unit_type: aircon, unit_id: unit, reg: RegId(0x05), zone: None };
        if lookup(bank, status) is Some {
            assert(bank.dom().contains(status));
        }
    }
}

/// A scan that ends at a fault without a frame is told, with the name of the fault.
pub proof fn law_faults_of_scans_are_told(s: Scan)
    ensures
        s.fault matches Some(e) ==> s.frames().len() == 0 ==> scan_warning(s) == Some(
            EventModel::ProtocolWarn("frame scan: "@ + e.text()),
        ),
        s.fault is None || s.frames().len() > 0 ==> scan_warning(s) is None,
        FrameError::Malformed.text() == "Malformed"@,
        FrameError::Incomplete.text() == "Incomplete"@,
{
}

/// The text of a wrong checksum has both values in decimal digits.
pub proof fn law_text_of_a_wrong_checksum(expected: u8, actual: u8)
    ensures
        (FrameError::InvalidCrc { expected, actual }).text() == "InvalidCrc { expected: "@
            + decimal(expected as nat) + ", actual: "@ + decimal(actual as nat) + " }"@,
{
}

} // verus!
