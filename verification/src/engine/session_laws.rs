//! Laws of the control-box session.
use crate::engine::event::{EngineCmd, EventModel};
use crate::engine::runner::{crc_failed, handled};
use crate::engine::session::{
    answers, commanded, dump_queue, flush_queued, flushed_reads, handshakes, initial, pinged,
    read_value, received, refused, transmitted, unit_flush, waiting, with_flush, Model,
    PendingRead, State,
};
use crate::engine::wire::{
    get_can, get_can_nack, get_can_records, joined_digits, jz18, set_can, ACK_CAN, ACK_CAN_ZERO,
    DIRTY_RESET_SET_CAN, DUMP_SET_CAN, EMPTY_SET_CAN, GET_SYSTEM_DATA, PING,
};
use crate::frame::Sighting;
use crate::registers::decoded::zero_data;
use crate::registers::bank::{lookup, stored, type_present, unit_present, BankKey};
use crate::registers::ids::{RegId, UnitId, UnitType};
use crate::registers::wire::{record_digits, CanRecord};
use crate::text::{ascii, lemma_hex_text};
use vstd::prelude::*;

verus! {

/// Whether the flush of every read that is not on the bus yet stands in the queue.
pub open spec fn flushes_stand(queue: Seq<CanRecord>, reads: Seq<PendingRead>) -> bool {
    forall|i: int|
        0 <= i < reads.len() && !(#[trigger] reads[i]).flush_sent ==> flush_queued(
            queue,
            reads[i].unit_type,
            reads[i].unit_id,
        )
}

/// What holds of a session in every reachable state: at most two refusals of the
/// reset are counted, a resend of the dump is due only after the dump went out,
/// and every read has its flush on the bus or in the queue.
pub open spec fn sound(m: Model) -> bool {
    &&& m.reset_nacks <= 2
    &&& m.dump_needs_resend ==> m.dump_sent
    &&& flushes_stand(m.write_queue, m.pending_reads)
}

/// A flush in the queue stays there when more records join.
proof fn lemma_flushes_stay(queue: Seq<CanRecord>, more: Seq<CanRecord>, reads: Seq<PendingRead>)
    requires
        flushes_stand(queue, reads),
    ensures
        flushes_stand(queue + more, reads),
{
    assert forall|i: int| 0 <= i < reads.len() && !(#[trigger] reads[i]).flush_sent implies
        flush_queued(queue + more, reads[i].unit_type, reads[i].unit_id) by {
        let j = choose|j: int|
            0 <= j < queue.len() && (#[trigger] queue[j]).unit_type == reads[i].unit_type
                && queue[j].unit_id == reads[i].unit_id && queue[j].reg == RegId(0x06)
                && queue[j].data == zero_data();
        assert((queue + more)[j] == queue[j]);
    }
}

/// The reads that stay have their flushes in the queue.
proof fn lemma_waiting_flushes(queue: Seq<CanRecord>, reads: Seq<PendingRead>)
    requires
        flushes_stand(queue, reads),
    ensures
        flushes_stand(queue, waiting(reads)),
    decreases reads.len(),
{
    if reads.len() > 0 {
        let before = reads.drop_last();
        assert forall|i: int| 0 <= i < before.len() && !(#[trigger] before[i]).flush_sent implies
            flush_queued(queue, before[i].unit_type, before[i].unit_id) by {
            assert(before[i] == reads[i]);
        }
        lemma_waiting_flushes(queue, before);
        let kept = waiting(reads);
        assert forall|i: int| 0 <= i < kept.len() && !(#[trigger] kept[i]).flush_sent implies
            flush_queued(queue, kept[i].unit_type, kept[i].unit_id) by {
            if !reads.last().flush_sent && i == kept.len() - 1 {
                assert(kept[i] == reads[reads.len() - 1]);
            } else {
                assert(kept[i] == waiting(before)[i]);
            }
        }
    }
}

/// Soundness holds at the start.
pub proof fn law_sound_initially()
    ensures
        sound(initial()),
{
}

/// Soundness is kept by every command.
pub proof fn law_sound_after_command(m: Model, cmd: EngineCmd)
    requires
        sound(m),
    ensures
        sound(commanded(m, cmd)),
{
    match cmd {
        EngineCmd::WriteRegisters(records) => {
            lemma_flushes_stay(m.write_queue, records@, m.pending_reads);
        },
        EngineCmd::ReadRegister { unit_type, unit_id, .. } => {
            let more = if flush_queued(m.write_queue, unit_type, unit_id) {
                seq![]
            } else {
                seq![unit_flush(unit_type, unit_id)]
            };
            lemma_flushes_stay(m.write_queue, more, m.pending_reads);
            law_reads_share_a_flush(m.write_queue, unit_type, unit_id);
            let after = commanded(m, cmd);
            assert(after.write_queue =~= m.write_queue + more);
            assert forall|i: int|
                0 <= i < after.pending_reads.len() && !(
                #[trigger] after.pending_reads[i]).flush_sent implies flush_queued(
                after.write_queue,
                after.pending_reads[i].unit_type,
                after.pending_reads[i].unit_id,
            ) by {
                if i < m.pending_reads.len() {
                    assert(after.pending_reads[i] == m.pending_reads[i]);
                }
            }
        },
        _ => {},
    }
}

/// Soundness is kept by every ping and by the report that a write window was
/// transmitted.
pub proof fn law_sound_after_ping(m: Model)
    requires
        sound(m),
    ensures
        sound(pinged(m).0),
        sound(transmitted(m).0),
        sound(Model { write_flushed: false, ..m }),
{
    assert(flushes_stand(seq![], flushed_reads(m.pending_reads)));
}

/// Soundness is kept by every frame, whether it arrives intact or not.
pub proof fn law_sound_after_frame(
    m: Model,
    payload: Seq<u8>,
    after: Model,
    events: Seq<EventModel>,
)
    requires
        sound(m),
        received(m, payload, after, events),
    ensures
        sound(after),
        sound(crc_failed(m, payload)),
{
    if let Ok(records) = get_can_records(payload) {
        let more = handshakes(records);
        let queue = m.write_queue + more;
        lemma_flushes_stay(m.write_queue, more, m.pending_reads);
        lemma_waiting_flushes(queue, m.pending_reads);
        let bank = stored(m.bank, records);
        if m.state == State::RequestDump && m.dump_sent && dump_queue(
            bank,
            queue,
            after.write_queue,
        ) {
            law_status_flush_is_for_a_reported_unit(bank, queue, after.write_queue);
            if after.write_queue != queue {
                let unit = choose|unit: UnitId| #[trigger]
                    unit_present(bank, UnitType(0x07), unit) && after.write_queue == queue.push(
                        unit_flush(UnitType(0x07), unit),
                    );
                let flush = seq![unit_flush(UnitType(0x07), unit)];
                lemma_flushes_stay(queue, flush, waiting(m.pending_reads));
                assert(queue + flush =~= after.write_queue);
            }
        }
    }
}

/// A due acknowledgement goes out before anything else once the dump phase is
/// reached. It tells whether the last frame arrived intact, and sending it
/// changes nothing but that it is no longer due.
pub proof fn law_ack_first(m: Model)
    requires
        m.state == State::RequestDump || m.state == State::Steady,
        m.ack_armed,
    ensures
        pinged(m).1 == Some(
            if m.crc_ok {
                ascii(ACK_CAN@)
            } else {
                ascii(ACK_CAN_ZERO@)
            },
        ),
        pinged(m).0 == (Model { ack_armed: false, ..m }),
{
}

/// The polarity of the next acknowledgement is the checksum outcome of the last
/// frame other than a ping; pings do not touch it. A report whose checksum failed is
/// refused at the next ping.
pub proof fn law_ack_polarity(m: Model, met: Sighting, after: Model)
    requires
        handled(m, met, after),
    ensures
        after.crc_ok == if met.payload == ascii(PING@) {
            m.crc_ok
        } else {
            met.intact
        },
        !met.intact && get_can(met.payload) && met.payload != ascii(PING@) && (m.state
            == State::RequestDump || m.state == State::Steady) ==> pinged(after).1 == Some(
            ascii(ACK_CAN_ZERO@),
        ),
{
}

/// Whether `states` are those of a session while frames arrive, the first before them
/// and each other one after its frame.
pub open spec fn states_through(states: Seq<Model>, met: Seq<Sighting>) -> bool {
    &&& states.len() == met.len() + 1
    &&& forall|i: int|
        0 <= i < met.len() ==> handled(states[i], #[trigger] met[i], states[i + 1])
}

/// However frames arrive, in one read or in many, the last one that is no ping
/// decides how the next acknowledgement goes out.
pub proof fn law_last_frame_decides(states: Seq<Model>, met: Seq<Sighting>, last: int)
    requires
        states_through(states, met),
        0 <= last < met.len(),
        met[last].payload != ascii(PING@),
        forall|i: int| last < i < met.len() ==> (#[trigger] met[i]).payload == ascii(PING@),
    ensures
        states.last().crc_ok == met[last].intact,
    decreases met.len(),
{
    let n = met.len() as int;
    law_ack_polarity(states[n - 1], met[n - 1], states[n]);
    if last < n - 1 {
        let fewer = met.drop_last();
        let before = states.drop_last();
        assert forall|i: int| 0 <= i < fewer.len() implies handled(
            before[i],
            #[trigger] fewer[i],
            before[i + 1],
        ) by {
            assert(fewer[i] == met[i]);
        }
        law_last_frame_decides(before, fewer, last);
    }
}

/// Until the unit says that its bus is in use, every ping is answered with the
/// negotiation request.
pub proof fn law_negotiation_is_retried(m: Model)
    requires
        m.state != State::RequestDump,
        m.state != State::Steady,
    ensures
        pinged(m).1 == Some(ascii(GET_SYSTEM_DATA@)),
        pinged(m).0.state == State::Negotiate || pinged(m).0.state == State::ExpectCan2,
        pinged(m).0 == (Model { state: pinged(m).0.state, ..m }),
{
}

/// After a resync the next pings send the reset, then the dump request, and then
/// nothing until a report or a refusal arrives.
pub proof fn law_resync_requests_the_dump_once(m: Model)
    ensures
        ({
            let start = commanded(m, EngineCmd::ResyncMailbox);
            let first = pinged(start);
            let second = pinged(first.0);
            let third = pinged(second.0);
            &&& start.state == State::RequestDump
            &&& start.bank == m.bank
            &&& start.write_queue == m.write_queue
            &&& start.pending_reads == m.pending_reads
            &&& first.1 == Some(ascii(DIRTY_RESET_SET_CAN@))
            &&& second.1 == Some(ascii(DUMP_SET_CAN@))
            &&& third.1 is None
            &&& third.0 == second.0
        }),
{
}

/// A refused dump request is acknowledged and then sent again, once.
pub proof fn law_refused_dump_is_resent(m: Model)
    requires
        m.state == State::RequestDump,
        m.dump_sent,
        m.dirty_reset_sent,
    ensures
        ({
            let ack = pinged(refused(m));
            let resend = pinged(ack.0);
            let silent = pinged(resend.0);
            &&& ack.1 == Some(
                if m.crc_ok {
                    ascii(ACK_CAN@)
                } else {
                    ascii(ACK_CAN_ZERO@)
                },
            )
            &&& resend.1 == Some(ascii(DUMP_SET_CAN@))
            &&& silent.1 is None
        }),
{
}

/// A reset that is refused for the third time is not sent again: the dump
/// request follows.
pub proof fn law_reset_retries_are_bounded(m: Model)
    requires
        m.state == State::RequestDump,
        !m.dump_sent,
        m.dirty_reset_sent,
        m.reset_nacks >= 2,
    ensures
        refused(m).dirty_reset_sent,
        pinged(pinged(refused(m)).0).1 == Some(ascii(DUMP_SET_CAN@)),
{
}

/// Records to send make a payload longer than the empty poll.
proof fn lemma_set_can_len(records: Seq<CanRecord>)
    requires
        records.len() > 0,
    ensures
        set_can(records).len() > ascii(EMPTY_SET_CAN@).len(),
{
    let d = record_digits(records[0]);
    lemma_hex_text(records[0].data@);
    assert(d.len() >= 14);
    assert(joined_digits(records).len() >= d.len());
}

/// While the unit says that its bus is in use, no empty poll goes out.
pub proof fn law_no_empty_poll_while_in_use(m: Model)
    requires
        m.state == State::Steady,
        m.can_in_use,
    ensures
        pinged(m).1 != Some(ascii(EMPTY_SET_CAN@)),
{
    reveal_strlit("ackCAN 1");
    reveal_strlit("ackCAN 0");
    reveal_strlit("setCAN ");
    if m.ack_armed {
        assert(ascii(ACK_CAN@).len() == 8);
        assert(ascii(ACK_CAN_ZERO@).len() == 8);
        assert(ascii(EMPTY_SET_CAN@).len() == 7);
    } else if m.write_queue.len() > 0 {
        lemma_set_can_len(m.write_queue);
    }
}

/// Queued writes go out together, in the order in which they were given, with
/// the first steady ping that owes no acknowledgement; then the queue is empty.
pub proof fn law_writes_go_out_in_order(m: Model, cmd: EngineCmd, records: Seq<CanRecord>)
    requires
        m.state == State::Steady,
        !m.ack_armed,
        cmd matches EngineCmd::WriteRegisters(v) && v@ == records,
        records.len() > 0,
    ensures
        pinged(commanded(m, cmd)).1 == Some(set_can(m.write_queue + records)),
        pinged(commanded(m, cmd)).0.write_queue.len() == 0,
        pinged(commanded(m, cmd)).0.write_flushed,
{
}

/// The answers and the reads that stay are the reads: nothing is lost or
/// answered twice, and no read stays whose flush is on the bus.
proof fn lemma_reads_split(bank: Map<BankKey, [u8; 7]>, reads: Seq<PendingRead>)
    ensures
        answers(bank, reads).len() + waiting(reads).len() == reads.len(),
        forall|i: int| 0 <= i < waiting(reads).len() ==> !(#[trigger] waiting(reads)[i]).flush_sent,
        forall|i: int|
            0 <= i < answers(bank, reads).len() ==> answers_flushed(
                #[trigger] answers(bank, reads)[i],
                reads,
            ),
    decreases reads.len(),
{
    if reads.len() > 0 {
        let init = reads.drop_last();
        lemma_reads_split(bank, init);
        let all = answers(bank, reads);
        let before = answers(bank, init);
        assert forall|i: int| 0 <= i < all.len() implies answers_flushed(
            #[trigger] all[i],
            reads,
        ) by {
            if i < before.len() {
                assert(all[i] == before[i]);
                assert(answers_flushed(before[i], init));
                let j = choose|j: int|
                    0 <= j < init.len() && (#[trigger] init[j]).flush_sent && answers_read(
                        before[i],
                        init[j],
                    );
                assert(reads[j] == init[j]);
            } else {
                assert(reads[reads.len() - 1].flush_sent);
                assert(answers_read(all[i], reads[reads.len() - 1]));
            }
        }
        let left = waiting(reads);
        let left_before = waiting(init);
        assert forall|i: int| 0 <= i < left.len() implies !(#[trigger] left[i]).flush_sent by {
            if i < left_before.len() {
                assert(left[i] == left_before[i]);
            }
        }
    }
}

/// Whether an event answers a read.
pub open spec fn answers_read(e: EventModel, p: PendingRead) -> bool {
    e matches EventModel::RegisterRead { unit_type, unit_id, reg, zone, .. } && unit_type
        == p.unit_type && unit_id == p.unit_id && reg == p.reg && zone == p.zone
}

/// Whether an event answers one of the reads whose flush is on the bus.
pub open spec fn answers_flushed(e: EventModel, reads: Seq<PendingRead>) -> bool {
    exists|j: int|
        0 <= j < reads.len() && (#[trigger] reads[j]).flush_sent && answers_read(e, reads[j])
}

/// A new read has not been flushed, and only a write window flushes: it sends
/// the whole queue.
pub proof fn law_only_a_write_window_flushes(m: Model, cmd: EngineCmd)
    ensures
        cmd is ReadRegister ==> !commanded(m, cmd).pending_reads.last().flush_sent,
        pinged(m).0.pending_reads != m.pending_reads ==> m.write_queue.len() > 0 && !m.ack_armed
            && pinged(m).1 == Some(set_can(m.write_queue)),
{
}

/// A read is answered only by a report that arrives after its flush went out: a
/// frame answers no read whose flush has not been sent.
pub proof fn law_reads_wait_for_their_flush(
    m: Model,
    payload: Seq<u8>,
    after: Model,
    events: Seq<EventModel>,
    at: int,
)
    requires
        received(m, payload, after, events),
        0 <= at < events.len(),
        events[at] is RegisterRead,
    ensures
        answers_flushed(events[at], m.pending_reads),
        forall|i: int|
            0 <= i < after.pending_reads.len() ==> !(
            #[trigger] after.pending_reads[i]).flush_sent,
{
    let bank = after.bank;
    lemma_reads_split(bank, m.pending_reads);
    let replies = answers(bank, m.pending_reads);
    assert(events[at] == replies[at - 1]);
}

/// Every report answers all the reads whose flush is on the bus, and keeps the
/// others.
pub proof fn law_report_answers_flushed_reads(
    m: Model,
    payload: Seq<u8>,
    after: Model,
    events: Seq<EventModel>,
)
    requires
        m.state == State::Steady || (m.state == State::RequestDump && m.dump_sent),
        received(m, payload, after, events),
        crate::engine::wire::get_can(payload),
        !crate::engine::wire::can2_in_use(payload),
        m.state == State::RequestDump ==> !get_can_nack(payload),
        get_can_records(payload) is Ok,
    ensures
        events.len() + after.pending_reads.len() == 1 + m.pending_reads.len(),
        after.pending_reads == waiting(m.pending_reads),
        after.ack_armed,
        after.state == State::Steady,
{
    lemma_reads_split(after.bank, m.pending_reads);
}

/// Nothing in the mailbox is made up: a slot holds what it held or what one of
/// the stored records says, and a record that was stored last in its slot is
/// there.
pub proof fn law_nothing_is_fabricated(
    bank: Map<BankKey, [u8; 7]>,
    records: Seq<CanRecord>,
    key: BankKey,
)
    ensures
        lookup(stored(bank, records), key) == lookup(bank, key) || exists|i: int|
            0 <= i < records.len() && BankKey::of(#[trigger] records[i]) == key && lookup(
                stored(bank, records),
                key,
            ) == Some(records[i].data),
        forall|i: int|
            0 <= i < records.len() && BankKey::of(#[trigger] records[i]) == key ==> lookup(
                stored(bank, records),
                key,
            ) is Some,
    decreases records.len(),
{
    if records.len() > 0 {
        let init = records.drop_last();
        law_nothing_is_fabricated(bank, init, key);
        let all = stored(bank, records);
        if BankKey::of(records.last()) == key {
            assert(BankKey::of(records[records.len() - 1]) == key);
        } else {
            assert(lookup(all, key) == lookup(stored(bank, init), key));
            if lookup(all, key) != lookup(bank, key) {
                let i = choose|i: int|
                    0 <= i < init.len() && BankKey::of(#[trigger] init[i]) == key && lookup(
                        stored(bank, init),
                        key,
                    ) == Some(init[i].data);
                assert(records[i] == init[i]);
            }
            assert forall|i: int|
                0 <= i < records.len() && BankKey::of(#[trigger] records[i])
                    == key implies lookup(all, key) is Some by {
                assert(init[i] == records[i]);
            }
        }
    }
}

/// The flush that follows a dump without a system status goes to an air
/// conditioning unit that the dump reported; without such a unit nothing is
/// queued.
pub proof fn law_status_flush_is_for_a_reported_unit(
    bank: Map<BankKey, [u8; 7]>,
    queue: Seq<CanRecord>,
    after: Seq<CanRecord>,
)
    requires
        dump_queue(bank, queue, after),
    ensures
        after == queue || exists|unit: UnitId| #[trigger]
            unit_present(bank, UnitType(0x07), unit) && after == queue.push(
                unit_flush(UnitType(0x07), unit),
            ),
        !type_present(bank, UnitType(0x07)) ==> after == queue,
{
}

/// Every announcement among reported records gets exactly one reply, to the unit
/// that announced itself.
pub proof fn law_announcements_are_answered(records: Seq<CanRecord>)
    ensures
        handshakes(records).len() == records.filter(|r: CanRecord| r.reg == RegId(0x06)).len(),
        forall|i: int|
            0 <= i < handshakes(records).len() ==> exists|j: int|
                0 <= j < records.len() && (#[trigger] records[j]).reg == RegId(0x06)
                    && #[trigger] handshakes(records)[i] == jz18(
                    records[j].unit_type,
                    records[j].unit_id,
                ),
    decreases records.len(),
{
    reveal(Seq::filter);
    if records.len() > 0 {
        let init = records.drop_last();
        law_announcements_are_answered(init);
        let all = handshakes(records);
        let before = handshakes(init);
        assert forall|i: int| 0 <= i < all.len() implies exists|j: int|
            0 <= j < records.len() && (#[trigger] records[j]).reg == RegId(0x06)
                && #[trigger] all[i] == jz18(records[j].unit_type, records[j].unit_id) by {
            if i < before.len() {
                assert(all[i] == before[i]);
                let j = choose|j: int|
                    0 <= j < init.len() && (#[trigger] init[j]).reg == RegId(0x06) && before[i]
                        == jz18(init[j].unit_type, init[j].unit_id);
                assert(records[j] == init[j]);
            } else {
                assert(records[records.len() - 1].reg == RegId(0x06));
            }
        }
    }
}

/// Reads of one unit share one flush: a second read queues no other.
pub proof fn law_reads_share_a_flush(queue: Seq<CanRecord>, unit_type: UnitType, unit_id: UnitId)
    ensures
        flush_queued(with_flush(queue, unit_type, unit_id), unit_type, unit_id),
        with_flush(with_flush(queue, unit_type, unit_id), unit_type, unit_id) == with_flush(
            queue,
            unit_type,
            unit_id,
        ),
{
    let q = with_flush(queue, unit_type, unit_id);
    if !flush_queued(queue, unit_type, unit_id) {
        assert(q[q.len() - 1] == unit_flush(unit_type, unit_id));
    }
}

/// A read gets what the bus says after it was asked: in steady state the next ping
/// sends a flush of the read's unit, and the next report answers the read with
/// the value that the mailbox holds once the report is stored.
pub proof fn law_read_returns_what_is_reported(
    m: Model,
    cmd: EngineCmd,
    read: PendingRead,
    payload: Seq<u8>,
    after: Model,
    events: Seq<EventModel>,
)
    requires
        m.state == State::Steady,
        !m.ack_armed,
        cmd == (EngineCmd::ReadRegister {
            unit_type: read.unit_type,
            unit_id: read.unit_id,
            reg: read.reg,
            zone: read.zone,
        }),
        received(pinged(commanded(m, cmd)).0, payload, after, events),
        crate::engine::wire::get_can(payload),
        !crate::engine::wire::can2_in_use(payload),
        get_can_records(payload) is Ok,
    ensures
        pinged(commanded(m, cmd)).1 == Some(set_can(commanded(m, cmd).write_queue)),
        flush_queued(commanded(m, cmd).write_queue, read.unit_type, read.unit_id),
        after.bank == stored(m.bank, get_can_records(payload)->Ok_0),
        events.last() == (EventModel::RegisterRead {
            unit_type: read.unit_type,
            unit_id: read.unit_id,
            reg: read.reg,
            zone: read.zone,
            data: read_value(after.bank, read),
        }),
        after.pending_reads.len() == 0,
{
    law_reads_share_a_flush(m.write_queue, read.unit_type, read.unit_id);
    let asked = commanded(m, cmd);
    let sent = pinged(asked).0;
    assert(asked.write_queue.len() > 0);
    let reads = sent.pending_reads;
    assert(reads =~= flushed_reads(asked.pending_reads));
    let last = reads.last();
    assert(last.flush_sent);
    assert(read_value(after.bank, last) == read_value(after.bank, read));
    lemma_reads_split(after.bank, reads);
    let kept = waiting(reads);
    assert(kept.len() == 0) by {
        if kept.len() > 0 {
            lemma_waiting_are_reads(reads, 0);
        }
    }
}

/// A read that stays is one of the reads.
proof fn lemma_waiting_are_reads(reads: Seq<PendingRead>, i: int)
    requires
        0 <= i < waiting(reads).len(),
    ensures
        exists|j: int|
            0 <= j < reads.len() && #[trigger] reads[j] == waiting(reads)[i] && !reads[j].flush_sent,
    decreases reads.len(),
{
    let before = reads.drop_last();
    if reads.last().flush_sent || i < waiting(before).len() {
        lemma_waiting_are_reads(before, i);
        let j = choose|j: int|
            0 <= j < before.len() && #[trigger] before[j] == waiting(before)[i]
                && !before[j].flush_sent;
        assert(reads[j] == before[j]);
    } else {
        assert(reads[reads.len() - 1] == reads.last());
    }
}

} // verus!
