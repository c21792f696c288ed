//! What clients are told, message by message.
use crate::daemon::address::Contents;
use crate::daemon::client::{
    acks_after, decide, event_sayings, expired_sayings, reads_after, ClientModel, Decision,
    WsEventModel,
};
use crate::daemon::hub::{fan_out, held_after, renewing, status_after};
use crate::daemon::pending::{acks_due, reads_due, reads_of, Acks, Reads};
use crate::daemon::pending_laws::law_reads_of_a_register;
use crate::daemon::replies::{
    event_of, off_record, powered_off, powers_off, read_answer, status_of, status_slot,
};
use crate::engine::event::{EventModel, SessionState};
use crate::mailbox::convert::decoded;
use crate::mailbox::dto::{AckStatus, StatusState};
use crate::mailbox::message::{ack, Saying};
use crate::registers::bank::{stored, BankKey};
use crate::registers::enums::law_bytes_kept;
use crate::registers::ids::{id_digits, RegId, UnitId, UnitType};
use crate::registers::wire::{CanRecord, Dest};
use crate::text::hex_byte;
use vstd::prelude::*;

verus! {

/// Clients are told the state of the session as it is.
pub proof fn law_states_are_told(state: SessionState)
    ensures
        status_of(state) is Negotiating <==> state is Negotiating,
        status_of(state) is Synced <==> state is Synced,
        status_of(state) is Resyncing <==> state is Resyncing,
        status_of(state) is LinkDown <==> state is LinkDown,
{
}

/// What clients are told of a changed record: the unit and the register in hexadecimal
/// digits, the zone of registers `03` and `04` alone, and the whole value.
pub proof fn law_events_tell_the_record(record: CanRecord)
    ensures
        event_of(record) == (Saying::Event {
            unit_type: hex_byte(record.unit_type.0),
            unit_id: id_digits(record.unit_id@),
            register: hex_byte(record.reg.0),
            zone: if record.reg.0 == 0x03 || record.reg.0 == 0x04 {
                Some(record.data[0])
            } else {
                None
            },
            payload: decoded(record.reg, record.data),
        }),
{
}

/// A read is answered under its own id, with the register that was asked for and the
/// value that was found. Where there is none, the client is told so.
pub proof fn law_answers_tell_the_value(
    msg_id: Seq<char>,
    unit_type: UnitType,
    unit_id: UnitId,
    reg: RegId,
    zone: Option<u8>,
    bytes: [u8; 7],
)
    ensures
        read_answer(msg_id, unit_type, unit_id, reg, zone, Some(bytes)) == (Saying::ReadResult {
            msg_id,
            unit_type: hex_byte(unit_type.0),
            unit_id: id_digits(unit_id@),
            register: hex_byte(reg.0),
            zone,
            payload: decoded(reg, bytes),
        }),
        read_answer(msg_id, unit_type, unit_id, reg, zone, None) == (Saying::Ack {
            msg_id,
            status: AckStatus::Error,
            reason: Some("register "@ + hex_byte(reg.0) + " has no value"@),
        }),
{
}

/// An acknowledgement names the request, its outcome and the reason.
pub proof fn law_acknowledgements(
    msg_id: Seq<char>,
    status: AckStatus,
    reason: Option<Seq<char>>,
)
    ensures
        ack(msg_id, status, reason) == (Saying::Ack { msg_id, status, reason }),
{
}

/// Powering off clears the power byte and keeps the six others.
pub proof fn law_power_off_clears_one_byte(data: [u8; 7])
    ensures
        powered_off(data)@ == data@.update(0, 0u8),
{
    law_bytes_kept(data[1]);
    law_bytes_kept(data[2]);
    law_bytes_kept(data[5]);
    assert(powered_off(data)@ =~= data@.update(0, 0u8));
}

/// The records that power off: for every air conditioning unit with a status one write
/// of that status to the control box, with the power byte cleared, in the order of the
/// units, and nothing else.
pub proof fn law_power_off_records(
    bank: Map<BankKey, [u8; 7]>,
    records: Seq<CanRecord>,
    id: UnitId,
    i: int,
    j: int,
)
    requires
        powers_off(bank, records),
    ensures
        0 <= i < records.len() ==> records[i].unit_type.0 == 0x07 && records[i].dest
            == Dest::ControlBox && records[i].reg.0 == 0x05 && bank.dom().contains(
            BankKey {
                unit_type: UnitType(0x07),
                unit_id: records[i].unit_id,
                reg: RegId(0x05),
                zone: None,
            },
        ) && records[i].data@ == bank[BankKey {
            unit_type: UnitType(0x07),
            unit_id: records[i].unit_id,
            reg: RegId(0x05),
            zone: None,
        }]@.update(0, 0u8),
        0 <= i < j < records.len() ==> records[i].unit_id@ < records[j].unit_id@,
        bank.dom().contains(
            BankKey { unit_type: UnitType(0x07), unit_id: id, reg: RegId(0x05), zone: None },
        ) ==> exists|k: int| 0 <= k < records.len() && (#[trigger] records[k]).unit_id == id,
{
    if 0 <= i < records.len() {
        let slot = status_slot(records[i].unit_id);
        assert(bank.dom().contains(slot));
        assert(records[i] == off_record(records[i].unit_id, bank[slot]));
        law_power_off_clears_one_byte(bank[slot]);
    }
    assert(status_slot(id) == (BankKey {
        unit_type: UnitType(0x07),
        unit_id: id,
        reg: RegId(0x05),
        zone: None,
    }));
}

/// What all sessions hear: a state of the session as a state of the link, a link error
/// with the word that the link is down, and every other event as it is.
pub proof fn law_sessions_hear(e: EventModel, state: SessionState, text: Seq<char>)
    ensures
        fan_out(EventModel::SessionState(state)).len() == 1,
        fan_out(EventModel::SessionState(state))[0] == (WsEventModel::Status {
            state: match state {
                SessionState::Negotiating => StatusState::Negotiating,
                SessionState::Synced => StatusState::Synced,
                SessionState::Resyncing => StatusState::Resyncing,
                SessionState::LinkDown => StatusState::LinkDown,
            },
            detail: None,
        }),
        fan_out(EventModel::LinkError(text)).len() == 2,
        fan_out(EventModel::LinkError(text))[0] == WsEventModel::Engine(
            EventModel::LinkError(text),
        ),
        fan_out(EventModel::LinkError(text))[1] == (WsEventModel::Status {
            state: StatusState::LinkDown,
            detail: Some(text),
        }),
        !(e is SessionState) && !(e is LinkError) ==> fan_out(e) == seq![WsEventModel::Engine(e)],
{
}

/// What late clients are shown: a dump replaces what is held, changed records go into
/// it where something is held, and no other event touches it. The state of the link
/// follows the session alone.
pub proof fn law_what_is_held(held: Contents, status: StatusState, e: EventModel)
    ensures
        match e {
            EventModel::Snapshot { bank, .. } => held_after(held, e) == Some(bank) && renewing(e),
            EventModel::RegistersChanged { records } => {
                &&& held is None ==> held_after(held, e) is None
                &&& held matches Some(bank) ==> held_after(held, e) == Some(stored(bank, records))
                &&& renewing(e) <==> records.len() > 0
            },
            _ => held_after(held, e) == held && !renewing(e),
        },
        match e {
            EventModel::SessionState(SessionState::Negotiating) => status_after(status, e)
                is Negotiating,
            EventModel::SessionState(SessionState::Synced) => status_after(status, e) is Synced,
            EventModel::SessionState(SessionState::Resyncing) => status_after(status, e)
                is Resyncing,
            EventModel::SessionState(SessionState::LinkDown) => status_after(status, e)
                is LinkDown,
            _ => status_after(status, e) == status,
        },
{
}

/// Of the commands `resync` alone is carried out. The others are refused, under their
/// own id and with the reason.
pub proof fn law_commands(
    bank: Contents,
    hint: Option<UnitId>,
    msg_id: Seq<char>,
    action: Seq<char>,
)
    ensures
        ({
            let d = decide(bank, hint, ClientModel::Command { msg_id, action });
            &&& d is Resync <==> action == "resync"@
            &&& action == "resync"@ ==> d == (Decision::Resync { msg_id })
            &&& action == "flush_unit"@ && action != "resync"@ ==> d == Decision::Answer(
                Saying::Ack {
                    msg_id,
                    status: AckStatus::Error,
                    reason: Some("flush_unit not implemented yet"@),
                },
            )
            &&& action != "resync"@ && action != "flush_unit"@ ==> d == Decision::Answer(
                Saying::Ack {
                    msg_id,
                    status: AckStatus::Error,
                    reason: Some("unknown action: "@ + action),
                },
            )
        }),
{
}

/// A client hears of every changed record, one message each, in order.
pub proof fn law_every_change_is_told(acks: Acks, reads: Reads, records: Seq<CanRecord>)
    ensures
        ({
            let said = event_sayings(
                acks,
                reads,
                WsEventModel::Engine(EventModel::RegistersChanged { records }),
            );
            &&& said.len() == records.len()
            &&& forall|i: int|
                0 <= i < records.len() ==> said[i] == event_of(#[trigger] records[i])
        }),
{
}

/// Once writes are transmitted, each that waits is acknowledged, in order, and none
/// waits any more.
pub proof fn law_every_write_is_acknowledged(acks: Acks, reads: Reads)
    ensures
        ({
            let e = WsEventModel::Engine(EventModel::WriteFlushed);
            let said = event_sayings(acks, reads, e);
            &&& said.len() == acks.len()
            &&& forall|i: int|
                0 <= i < acks.len() ==> said[i] == (Saying::Ack {
                    msg_id: (#[trigger] acks[i]).0,
                    status: AckStatus::Success,
                    reason: None,
                })
            &&& acks_after(acks, e).len() == 0
            &&& reads_after(reads, e) == reads
        }),
{
}

/// Once a register is read, each read that waits for it is answered, in order, with
/// what was found.
pub proof fn law_every_read_is_answered(
    acks: Acks,
    reads: Reads,
    key: BankKey,
    data: Option<[u8; 7]>,
)
    ensures
        ({
            let e = WsEventModel::Engine(
                EventModel::RegisterRead {
                    unit_type: key.unit_type,
                    unit_id: key.unit_id,
                    reg: key.reg,
                    zone: key.zone,
                    data,
                },
            );
            let said = event_sayings(acks, reads, e);
            let ids = reads_of(reads, key);
            &&& said.len() == ids.len()
            &&& forall|i: int|
                0 <= i < ids.len() ==> said[i] == read_answer(
                    #[trigger] ids[i],
                    key.unit_type,
                    key.unit_id,
                    key.reg,
                    key.zone,
                    data,
                )
            &&& acks_after(acks, e) == acks
            &&& reads_after(reads, e) == reads.filter(
                |r: (BankKey, Seq<char>, u64)| r.0 != key,
            )
        }),
{
    law_reads_of_a_register(reads, key);
    assert(key == (BankKey {
        unit_type: key.unit_type,
        unit_id: key.unit_id,
        reg: key.reg,
        zone: key.zone,
    }));
}

/// A dump is shown as it is, a state of the link is passed on, and all other events say
/// nothing. None of them ends a request.
pub proof fn law_other_events(acks: Acks, reads: Reads, e: WsEventModel)
    ensures
        match e {
            WsEventModel::Engine(EventModel::Snapshot { bank, .. }) => event_sayings(
                acks,
                reads,
                e,
            ) == seq![Saying::Snapshot { bank }],
            WsEventModel::Status { state, detail } => event_sayings(acks, reads, e) == seq![
                Saying::Status { state, detail },
            ],
            WsEventModel::Engine(EventModel::SessionState(s)) => event_sayings(acks, reads, e)
                == seq![Saying::Status { state: status_of(s), detail: None }],
            WsEventModel::Engine(EventModel::Negotiated { .. }) => event_sayings(
                acks,
                reads,
                e,
            ).len() == 0,
            WsEventModel::Engine(EventModel::ProtocolWarn(_)) => event_sayings(
                acks,
                reads,
                e,
            ).len() == 0,
            WsEventModel::Engine(EventModel::LinkError(_)) => event_sayings(
                acks,
                reads,
                e,
            ).len() == 0,
            _ => true,
        },
        e != WsEventModel::Engine(EventModel::WriteFlushed) ==> acks_after(acks, e) == acks,
        !(e is Engine && e->Engine_0 is RegisterRead) ==> reads_after(reads, e) == reads,
{
}

/// Requests that have waited too long are refused: first the writes, then the reads,
/// each under its own id and with its own reason.
pub proof fn law_late_requests_are_refused(acks: Acks, reads: Reads, now: u64)
    ensures
        ({
            let said = expired_sayings(acks, reads, now);
            let writes = acks_due(acks, now);
            let late = reads_due(reads, now);
            &&& said.len() == writes.len() + late.len()
            &&& forall|i: int|
                0 <= i < writes.len() ==> said[i] == (Saying::Ack {
                    msg_id: (#[trigger] writes[i]).0,
                    status: AckStatus::Error,
                    reason: Some("write timeout"@),
                })
            &&& forall|i: int|
                0 <= i < late.len() ==> said[writes.len() + i] == (Saying::Ack {
                    msg_id: #[trigger] late[i],
                    status: AckStatus::Error,
                    reason: Some("read timeout"@),
                })
        }),
{
}

} // verus!
