//! What clients are told of records, reads and the state of the link, and the
//! writes that power units off.
use crate::engine::event::SessionState;
use crate::mailbox::convert::{decode_payload, decoded, event_body};
use crate::mailbox::dto::{AckStatus, StatusState};
use crate::mailbox::error::register_text;
use crate::mailbox::message::{ack, error_ack, Saying, ServerMessage};
use crate::registers::bank::{unit_present, zone_bearing, BankKey, RegisterBank};
use crate::registers::enums::{law_bytes_kept, Power};
use crate::registers::ids::{id_digits, RegId, UnitId, UnitType};
use crate::registers::payloads::SystemStatus;
use crate::registers::wire::{CanRecord, Dest};
use crate::text::{hex_byte, push_hex_byte};
use vstd::prelude::*;

verus! {

/// The state that clients are told of a session state.
pub open spec fn status_of(state: SessionState) -> StatusState {
    match state {
        SessionState::Negotiating => StatusState::Negotiating,
        SessionState::Synced => StatusState::Synced,
        SessionState::Resyncing => StatusState::Resyncing,
        SessionState::LinkDown => StatusState::LinkDown,
    }
}

/// The state that clients are told of a session state.
pub fn map_session_state(state: SessionState) -> (r: StatusState)
    ensures
        r == status_of(state),
{
    match state {
        SessionState::Negotiating => StatusState::Negotiating,
        SessionState::Synced => StatusState::Synced,
        SessionState::Resyncing => StatusState::Resyncing,
        SessionState::LinkDown => StatusState::LinkDown,
    }
}

/// What clients are told of a changed record.
pub open spec fn event_of(record: CanRecord) -> Saying {
    Saying::Event {
        unit_type: hex_byte(record.unit_type.0),
        unit_id: id_digits(record.unit_id@),
        register: hex_byte(record.reg.0),
        zone: if zone_bearing(record.reg) {
            Some(record.data[0])
        } else {
            None
        },
        payload: decoded(record.reg, record.data),
    }
}

/// What clients are told of a changed record.
pub fn event_message(record: &CanRecord) -> (m: ServerMessage)
    ensures
        m.says(event_of(*record)),
{
    let (register, zone, payload) = event_body(record);
    ServerMessage::Event {
        unit_type: record.unit_type.to_hex(),
        unit_id: record.unit_id.to_hex(),
        register,
        zone,
        payload,
    }
}

/// The answer to a read: the value, or an error where the register has none.
pub open spec fn read_answer(
    msg_id: Seq<char>,
    unit_type: UnitType,
    unit_id: UnitId,
    reg: RegId,
    zone: Option<u8>,
    data: Option<[u8; 7]>,
) -> Saying {
    match data {
        Some(bytes) => Saying::ReadResult {
            msg_id,
            unit_type: hex_byte(unit_type.0),
            unit_id: id_digits(unit_id@),
            register: hex_byte(reg.0),
            zone,
            payload: decoded(reg, bytes),
        },
        None => ack(
            msg_id,
            AckStatus::Error,
            Some("register "@ + hex_byte(reg.0) + " has no value"@),
        ),
    }
}

/// The answer to a read.
pub fn read_result_message(
    msg_id: String,
    unit_type: UnitType,
    unit_id: UnitId,
    reg: RegId,
    zone: Option<u8>,
    data: Option<[u8; 7]>,
) -> (m: ServerMessage)
    ensures
        m.says(read_answer(msg_id@, unit_type, unit_id, reg, zone, data)),
{
    if let Some(bytes) = data {
        if let Ok(payload) = decode_payload(reg, bytes) {
            let mut register = String::new();
            push_hex_byte(&mut register, reg.get());
            proof {
                assert(register@ =~= hex_byte(reg.0));
            }
            return ServerMessage::ReadResult {
                msg_id,
                unit_type: unit_type.to_hex(),
                unit_id: unit_id.to_hex(),
                register,
                zone,
                payload,
            };
        }
    }
    error_ack(msg_id, register_text("register ", reg.get(), " has no value"))
}

/// The slot that holds the status of an air conditioning unit.
pub open spec fn status_slot(unit_id: UnitId) -> BankKey {
    BankKey { unit_type: UnitType(0x07), unit_id, reg: RegId(0x05), zone: None }
}

/// The status bytes with the power off.
pub open spec fn powered_off(data: [u8; 7]) -> [u8; 7] {
    (SystemStatus { power: Power::Off, ..SystemStatus::of(data) }).bytes()
}

/// The record that powers an air conditioning unit off.
pub open spec fn off_record(unit_id: UnitId, data: [u8; 7]) -> CanRecord {
    CanRecord {
        unit_type: UnitType(0x07),
        dest: Dest::ControlBox,
        unit_id,
        reg: RegId(0x05),
        data: powered_off(data),
    }
}

/// Whether records power off exactly the air conditioning units whose status the
/// mailbox holds, in the order of their ids.
pub open spec fn powers_off(bank: Map<BankKey, [u8; 7]>, records: Seq<CanRecord>) -> bool {
    &&& forall|i: int|
        0 <= i < records.len() ==> bank.dom().contains(
            status_slot((#[trigger] records[i]).unit_id),
        ) && records[i] == off_record(
            records[i].unit_id,
            bank[status_slot(records[i].unit_id)],
        )
    &&& forall|i: int, j: int|
        0 <= i < j < records.len() ==> (#[trigger] records[i]).unit_id@ < (
        #[trigger] records[j]).unit_id@
    &&& forall|id: UnitId| #[trigger]
        bank.dom().contains(status_slot(id)) ==> exists|i: int|
            0 <= i < records.len() && (#[trigger] records[i]).unit_id == id
}

/// The records that power off the air conditioning units of a mailbox. A unit whose
/// status is unknown gets none.
pub fn power_off_records(bank: &RegisterBank) -> (records: Vec<CanRecord>)
    ensures
        powers_off(bank@, records@),
{
    let ids = bank.unit_ids(UnitType::aircon());
    let reg = RegId::new(0x05);
    let mut records: Vec<CanRecord> = Vec::new();
    let mut k: usize = 0;
    while k < ids.len()
        invariant
            k <= ids@.len(),
            reg == RegId(0x05),
            forall|i: int, j: int|
                0 <= i < j < ids@.len() ==> (#[trigger] ids@[i])@ < (#[trigger] ids@[j])@,
            forall|i: int|
                0 <= i < records@.len() ==> bank@.dom().contains(
                    status_slot((#[trigger] records@[i]).unit_id),
                ) && records@[i] == off_record(
                    records@[i].unit_id,
                    bank@[status_slot(records@[i].unit_id)],
                ),
            forall|i: int, j: int|
                0 <= i < j < records@.len() ==> (#[trigger] records@[i]).unit_id@ < (
                #[trigger] records@[j]).unit_id@,
            forall|i: int, j: int|
                0 <= i < records@.len() && k <= j < ids@.len() ==> (
                #[trigger] records@[i]).unit_id@ < (#[trigger] ids@[j])@,
            forall|j: int|
                0 <= j < k && bank@.dom().contains(status_slot(#[trigger] ids@[j])) ==> exists|
                    i: int,
                |
                    0 <= i < records@.len() && (#[trigger] records@[i]).unit_id == ids@[j],
        decreases ids@.len() - k,
    {
        let unit_id = ids[k];
        let ghost before = records@;
        if let Some(data) = bank.get(UnitType::aircon(), unit_id, reg) {
            let mut status = SystemStatus::from(data);
            status.power = Power::Off;
            let record = CanRecord {
                unit_type: UnitType::aircon(),
                dest: Dest::ControlBox,
                unit_id,
                reg,
                data: status.into(),
            };
            records.push(record);
            proof {
                assert(record == off_record(unit_id, data));
            }
        }
        proof {
            assert forall|j: int|
                0 <= j < k + 1 && bank@.dom().contains(
                    status_slot(#[trigger] ids@[j]),
                ) implies exists|i: int|
                0 <= i < records@.len() && (#[trigger] records@[i]).unit_id == ids@[j] by {
                if j < k {
                    let i = choose|i: int|
                        0 <= i < before.len() && (#[trigger] before[i]).unit_id == ids@[j];
                    assert(records@[i] == before[i]);
                } else {
                    assert(records@[records@.len() - 1].unit_id == ids@[j]);
                }
            }
        }
        k = k + 1;
    }
    proof {
        assert forall|id: UnitId| #[trigger]
            bank@.dom().contains(status_slot(id)) implies exists|i: int|
            0 <= i < records@.len() && (#[trigger] records@[i]).unit_id == id by {
            assert(status_slot(id).unit_type == UnitType(0x07));
            assert(unit_present(bank@, UnitType(0x07), id));
            assert(ids@.contains(id));
            let j = choose|j: int| 0 <= j < ids@.len() && ids@[j] == id;
            assert(bank@.dom().contains(status_slot(ids@[j])));
        }
    }
    records
}

/// Powering off changes the power byte and keeps all other bytes of the status.
pub proof fn law_power_off_keeps_the_rest(data: [u8; 7])
    ensures
        powered_off(data)[0] == Power::Off.byte(),
        forall|i: int| 1 <= i < 7 ==> powered_off(data)[i] == #[trigger] data[i],
{
    law_bytes_kept(data[1]);
    law_bytes_kept(data[2]);
    law_bytes_kept(data[5]);
    assert forall|i: int| 1 <= i < 7 implies powered_off(data)[i] == #[trigger] data[i] by {
        assert(i == 1 || i == 2 || i == 3 || i == 4 || i == 5 || i == 6);
    }
}

} // verus!
