//! Messages between the daemon and its clients.
use crate::mailbox::dto::{AckStatus, StatusState};
use crate::mailbox::snapshot::{listed, units_sound, UnitSnapshot};
use crate::mailbox::value::{Payload, PayloadModel};
use crate::registers::bank::{unit_present, BankKey};
use crate::registers::ids::{UnitId, UnitType};
use crate::text::text_option;
use vstd::prelude::*;

verus! {

/// Messages from the daemon to a client.
#[derive(Debug, Clone, PartialEq, Eq)]
pub enum ServerMessage {
    /// All registers of all known units.
    Snapshot {
        /// The units.
        units: Vec<UnitSnapshot>,
    },
    /// A register changed.
    Event {
        /// Unit type, two digits.
        unit_type: String,
        /// Unit id, five digits.
        unit_id: String,
        /// Register, two digits.
        register: String,
        /// Zone of a zone-bearing register.
        zone: Option<u8>,
        /// Payload.
        payload: Payload,
    },
    /// Answer to a read.
    ReadResult {
        /// Correlation id of the client.
        msg_id: String,
        /// Unit type, two digits.
        unit_type: String,
        /// Unit id, five digits.
        unit_id: String,
        /// Register, two digits.
        register: String,
        /// Zone of a zone-bearing register.
        zone: Option<u8>,
        /// Payload.
        payload: Payload,
    },
    /// Answer to a write or a command.
    Ack {
        /// Correlation id of the client.
        msg_id: String,
        /// Outcome.
        status: AckStatus,
        /// Reason of an error.
        reason: Option<String>,
    },
    /// The state of the link changed.
    Status {
        /// State of the link.
        state: StatusState,
        /// Detail.
        detail: Option<String>,
    },
    /// An error that belongs to no request.
    Error {
        /// Summary.
        message: String,
        /// Detail.
        reason: Option<String>,
    },
}

/// Messages from a client to the daemon.
#[derive(Debug, Clone, PartialEq, Eq)]
pub enum ClientMessage {
    /// Write a register.
    Write {
        /// Correlation id.
        msg_id: String,
        /// Unit type, two digits.
        unit_type: Option<String>,
        /// Unit id, five digits.
        unit_id: Option<String>,
        /// Register, two digits.
        register: String,
        /// Zone of a zone-bearing register.
        zone: Option<u8>,
        /// Payload.
        payload: Payload,
    },
    /// Read a register.
    Read {
        /// Correlation id.
        msg_id: String,
        /// Unit type, two digits.
        unit_type: Option<String>,
        /// Unit id, five digits.
        unit_id: Option<String>,
        /// Register, two digits.
        register: String,
        /// Zone of a zone-bearing register.
        zone: Option<u8>,
    },
    /// A command that is about no register.
    Command {
        /// Correlation id.
        msg_id: String,
        /// Name of the action.
        action: String,
    },
}

/// What a message from the daemon says.
#[verifier::ext_equal]
pub ghost enum Saying {
    Snapshot { bank: Map<BankKey, [u8; 7]> },
    Event {
        unit_type: Seq<char>,
        unit_id: Seq<char>,
        register: Seq<char>,
        zone: Option<u8>,
        payload: PayloadModel,
    },
    ReadResult {
        msg_id: Seq<char>,
        unit_type: Seq<char>,
        unit_id: Seq<char>,
        register: Seq<char>,
        zone: Option<u8>,
        payload: PayloadModel,
    },
    Ack { msg_id: Seq<char>, status: AckStatus, reason: Option<Seq<char>> },
    Status { state: StatusState, detail: Option<Seq<char>> },
    Error { message: Seq<char>, reason: Option<Seq<char>> },
}

/// Whether units show the contents of a mailbox.
pub open spec fn shows(units: Seq<UnitSnapshot>, bank: Map<BankKey, [u8; 7]>) -> bool {
    &&& units_sound(bank, units)
    &&& forall|t: UnitType, id: UnitId| #[trigger]
        listed(units, t, id) <==> unit_present(bank, t, id)
}

impl ServerMessage {
    /// Whether this message says something.
    pub open spec fn says(self, s: Saying) -> bool {
        match self {
            ServerMessage::Snapshot { units } => s matches Saying::Snapshot { bank } && shows(
                units@,
                bank,
            ),
            ServerMessage::Event { unit_type, unit_id, register, zone, payload } => s == (
            Saying::Event {
                unit_type: unit_type@,
                unit_id: unit_id@,
                register: register@,
                zone,
                payload: payload@,
            }),
            ServerMessage::ReadResult { msg_id, unit_type, unit_id, register, zone, payload } => s
                == (Saying::ReadResult {
                msg_id: msg_id@,
                unit_type: unit_type@,
                unit_id: unit_id@,
                register: register@,
                zone,
                payload: payload@,
            }),
            ServerMessage::Ack { msg_id, status, reason } => s == (Saying::Ack {
                msg_id: msg_id@,
                status,
                reason: text_option(reason),
            }),
            ServerMessage::Status { state, detail } => s == (Saying::Status {
                state,
                detail: text_option(detail),
            }),
            ServerMessage::Error { message, reason } => s == (Saying::Error {
                message: message@,
                reason: text_option(reason),
            }),
        }
    }
}

/// Whether messages say a list of things, in order.
pub open spec fn all_say(messages: Seq<ServerMessage>, sayings: Seq<Saying>) -> bool {
    &&& messages.len() == sayings.len()
    &&& forall|i: int| 0 <= i < messages.len() ==> (#[trigger] messages[i]).says(sayings[i])
}

/// One more message says one more thing.
pub proof fn lemma_say_more(
    before: Seq<ServerMessage>,
    sayings: Seq<Saying>,
    message: ServerMessage,
    saying: Saying,
)
    requires
        all_say(before, sayings),
        message.says(saying),
    ensures
        all_say(before.push(message), sayings.push(saying)),
{
    let after = before.push(message);
    assert forall|i: int| 0 <= i < after.len() implies (#[trigger] after[i]).says(
        sayings.push(saying)[i],
    ) by {
        if i < before.len() {
            assert(after[i] == before[i]);
        }
    }
}

/// The acknowledgement of a request.
pub open spec fn ack(msg_id: Seq<char>, status: AckStatus, reason: Option<Seq<char>>) -> Saying {
    Saying::Ack { msg_id, status, reason }
}

/// An acknowledgement that reports success.
pub fn success_ack(msg_id: String) -> (m: ServerMessage)
    ensures
        m.says(ack(msg_id@, AckStatus::Success, None)),
{
    ServerMessage::Ack { msg_id, status: AckStatus::Success, reason: None }
}

/// An acknowledgement that reports an error.
pub fn error_ack(msg_id: String, reason: String) -> (m: ServerMessage)
    ensures
        m.says(ack(msg_id@, AckStatus::Error, Some(reason@))),
{
    ServerMessage::Ack { msg_id, status: AckStatus::Error, reason: Some(reason) }
}

} // verus!
