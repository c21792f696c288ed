//! Commands into the engine and events out of it.
use crate::registers::bank::{BankKey, RegisterBank};
use crate::registers::ids::{RegId, UnitId, UnitType};
use crate::registers::wire::CanRecord;
use vstd::prelude::*;

verus! {

/// Commands for the engine.
#[derive(Debug, Clone)]
pub enum EngineCmd {
    /// Queue register writes for the next steady-state window.
    WriteRegisters(Vec<CanRecord>),
    /// Queue a flush of the unit and answer with the register once its report
    /// has arrived.
    ReadRegister {
        /// Unit type, also of the flush.
        unit_type: UnitType,
        /// Unit id, also of the flush.
        unit_id: UnitId,
        /// Register to read.
        reg: RegId,
        /// Zone of a zone-bearing register.
        zone: Option<u8>,
    },
    /// Request the mailbox dump again.
    ResyncMailbox,
    /// Stop and close the link.
    Shutdown,
}

/// Lifecycle of the mailbox session.
#[derive(Debug, Clone, Copy, PartialEq, Eq, Structural)]
pub enum SessionState {
    /// Negotiating with the unit.
    Negotiating,
    /// The mailbox is in sync.
    Synced,
    /// The dump is being requested again.
    Resyncing,
    /// The link failed.
    LinkDown,
}

/// Events of the engine.
#[derive(Debug, Clone)]
pub enum EngineEvent {
    /// Negotiation succeeded.
    Negotiated {
        /// Reply of the unit.
        detail: String,
    },
    /// Full mailbox after a dump.
    Snapshot {
        /// Contents of the mailbox.
        bank: RegisterBank,
        /// Digits of every record, absent when there is none.
        can_records: Option<Vec<String>>,
    },
    /// Records of a steady-state report.
    RegistersChanged {
        /// The records, in the order of the report.
        records: Vec<CanRecord>,
    },
    /// Queued writes were transmitted.
    WriteFlushed,
    /// Answer to a read: the value after the flush, if the unit has one.
    RegisterRead {
        /// Unit type of the read.
        unit_type: UnitType,
        /// Unit id of the read.
        unit_id: UnitId,
        /// Register of the read.
        reg: RegId,
        /// Zone of the read.
        zone: Option<u8>,
        /// Value of the register.
        data: Option<[u8; 7]>,
    },
    /// The lifecycle moved on.
    SessionState(SessionState),
    /// The link failed; the engine stops.
    LinkError(String),
    /// Something unexpected arrived; the session goes on.
    ProtocolWarn(String),
}

/// What an event says.
#[verifier::ext_equal]
pub ghost enum EventModel {
    Negotiated { detail: Seq<char> },
    Snapshot { bank: Map<BankKey, [u8; 7]>, can_records: Option<Seq<Seq<char>>> },
    RegistersChanged { records: Seq<CanRecord> },
    WriteFlushed,
    RegisterRead {
        unit_type: UnitType,
        unit_id: UnitId,
        reg: RegId,
        zone: Option<u8>,
        data: Option<[u8; 7]>,
    },
    SessionState(SessionState),
    LinkError(Seq<char>),
    ProtocolWarn(Seq<char>),
}

/// The texts of a list of strings.
pub open spec fn texts(list: Seq<String>) -> Seq<Seq<char>> {
    list.map_values(|s: String| s@)
}

impl View for EngineEvent {
    type V = EventModel;

    open spec fn view(&self) -> EventModel {
        match *self {
            EngineEvent::Negotiated { detail } => EventModel::Negotiated { detail: detail@ },
            EngineEvent::Snapshot { bank, can_records } => EventModel::Snapshot {
                bank: bank@,
                can_records: match can_records {
                    Some(list) => Some(texts(list@)),
                    None => None,
                },
            },
            EngineEvent::RegistersChanged { records } => EventModel::RegistersChanged {
                records: records@,
            },
            EngineEvent::WriteFlushed => EventModel::WriteFlushed,
            EngineEvent::RegisterRead { unit_type, unit_id, reg, zone, data } =>
                EventModel::RegisterRead { unit_type, unit_id, reg, zone, data },
            EngineEvent::SessionState(s) => EventModel::SessionState(s),
            EngineEvent::LinkError(text) => EventModel::LinkError(text@),
            EngineEvent::ProtocolWarn(text) => EventModel::ProtocolWarn(text@),
        }
    }
}

/// What a list of events says.
pub open spec fn events_model(events: Seq<EngineEvent>) -> Seq<EventModel> {
    events.map_values(|e: EngineEvent| e@)
}

} // verus!
