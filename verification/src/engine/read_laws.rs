//! What a read of a register is answered with, said over the records of the report.
use crate::engine::event::EventModel;
use crate::engine::session::{answers, read_value, received, Model, PendingRead, State};
use crate::engine::wire::{can2_in_use, get_can, get_can_nack, get_can_records};
use crate::registers::bank::{stored, BankKey};
use crate::registers::bank_laws::law_slot_holds_the_last_report;
use crate::registers::ids::RegId;
use vstd::prelude::*;

verus! {

/// Every read whose flush is on the bus has its answer among the answers.
proof fn lemma_answer_of(bank: Map<BankKey, [u8; 7]>, reads: Seq<PendingRead>, j: int) -> (k: int)
    requires
        0 <= j < reads.len(),
        reads[j].flush_sent,
    ensures
        0 <= k < answers(bank, reads).len(),
        answers(bank, reads)[k] == (EventModel::RegisterRead {
            unit_type: reads[j].unit_type,
            unit_id: reads[j].unit_id,
            reg: reads[j].reg,
            zone: reads[j].zone,
            data: read_value(bank, reads[j]),
        }),
    decreases reads.len(),
{
    let init = reads.drop_last();
    if j == reads.len() - 1 {
        answers(bank, reads).len() - 1
    } else {
        assert(init[j] == reads[j]);
        let k = lemma_answer_of(bank, init, j);
        assert(answers(bank, reads)[k] == answers(bank, init)[k]);
        k
    }
}

/// A read is answered with what the box reported: a report answers every read whose
/// flush is on the bus with the data of its last record for the same unit type, the
/// same unit id and the same register, and, for registers `03` and `04`, with the zone
/// of the read in its first byte. `at` is the place of that record.
pub proof fn law_read_gives_the_last_report(
    m: Model,
    payload: Seq<u8>,
    after: Model,
    events: Seq<EventModel>,
    j: int,
    at: int,
) -> (k: int)
    requires
        m.state == State::Steady || (m.state == State::RequestDump && m.dump_sent),
        received(m, payload, after, events),
        get_can(payload),
        !can2_in_use(payload),
        m.state == State::RequestDump ==> !get_can_nack(payload),
        get_can_records(payload) is Ok,
        0 <= j < m.pending_reads.len(),
        m.pending_reads[j].flush_sent,
        ({
            let read = m.pending_reads[j];
            let records = get_can_records(payload)->Ok_0;
            &&& 0 <= at < records.len()
            &&& records[at].unit_type == read.unit_type
            &&& records[at].unit_id == read.unit_id
            &&& records[at].reg == read.reg
            &&& read.reg == RegId(0x03) || read.reg == RegId(0x04) ==> read.zone == Some(
                records[at].data[0],
            )
            &&& forall|i: int|
                at < i < records.len() ==> !((#[trigger] records[i]).unit_type == read.unit_type
                    && records[i].unit_id == read.unit_id && records[i].reg == read.reg && (
                read.reg == RegId(0x03) || read.reg == RegId(0x04) ==> read.zone == Some(
                    records[i].data[0],
                )))
        }),
    ensures
        0 < k < events.len(),
        events[k] == (EventModel::RegisterRead {
            unit_type: m.pending_reads[j].unit_type,
            unit_id: m.pending_reads[j].unit_id,
            reg: m.pending_reads[j].reg,
            zone: m.pending_reads[j].zone,
            data: Some(get_can_records(payload)->Ok_0[at].data),
        }),
{
    let read = m.pending_reads[j];
    let records = get_can_records(payload)->Ok_0;
    let zone = if read.reg == RegId(0x03) || read.reg == RegId(0x04) {
        read.zone
    } else {
        None
    };
    let n = Model { crc_ok: true, ..m };
    law_slot_holds_the_last_report(
        m.bank,
        records,
        read.unit_type,
        read.unit_id,
        read.reg,
        zone,
        at,
    );
    let k = lemma_answer_of(stored(m.bank, records), m.pending_reads, j);
    assert(n.pending_reads == m.pending_reads);
    k + 1
}

/// A read of which the report says nothing is answered with what the mailbox held: the
/// value under the same unit type, unit id and register, with the zone for registers
/// `03` and `04` and without one for all others. A read of `03` or `04` without a zone
/// has no value.
pub proof fn law_read_gives_what_was_held(
    m: Model,
    payload: Seq<u8>,
    after: Model,
    events: Seq<EventModel>,
    j: int,
) -> (k: int)
    requires
        m.state == State::Steady || (m.state == State::RequestDump && m.dump_sent),
        received(m, payload, after, events),
        get_can(payload),
        !can2_in_use(payload),
        m.state == State::RequestDump ==> !get_can_nack(payload),
        get_can_records(payload) is Ok,
        0 <= j < m.pending_reads.len(),
        m.pending_reads[j].flush_sent,
        ({
            let read = m.pending_reads[j];
            let records = get_can_records(payload)->Ok_0;
            forall|i: int|
                0 <= i < records.len() ==> !((#[trigger] records[i]).unit_type == read.unit_type
                    && records[i].unit_id == read.unit_id && records[i].reg == read.reg && (
                read.reg == RegId(0x03) || read.reg == RegId(0x04) ==> read.zone == Some(
                    records[i].data[0],
                )))
        }),
    ensures
        0 < k < events.len(),
        ({
            let read = m.pending_reads[j];
            let zoned = read.reg == RegId(0x03) || read.reg == RegId(0x04);
            let slot = BankKey {
                unit_type: read.unit_type,
                unit_id: read.unit_id,
                reg: read.reg,
                zone: if zoned {
                    read.zone
                } else {
                    None
                },
            };
            events[k] == (EventModel::RegisterRead {
                unit_type: read.unit_type,
                unit_id: read.unit_id,
                reg: read.reg,
                zone: read.zone,
                data: if m.bank.dom().contains(slot) && !(zoned && read.zone is None) {
                    Some(m.bank[slot])
                } else {
                    None
                },
            })
        }),
{
    let read = m.pending_reads[j];
    let records = get_can_records(payload)->Ok_0;
    let zone = if read.reg == RegId(0x03) || read.reg == RegId(0x04) {
        read.zone
    } else {
        None
    };
    law_slot_holds_the_last_report(
        m.bank,
        records,
        read.unit_type,
        read.unit_id,
        read.reg,
        zone,
        -1,
    );
    let k = lemma_answer_of(stored(m.bank, records), m.pending_reads, j);
    k + 1
}

} // verus!
