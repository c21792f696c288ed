//! What values stand for, type by type.
use crate::daemon::address::{contents, payload_outcome, plain};
use crate::daemon::client::{ClientModel, Decision, Request, Waiting, WsEvent, WsEventModel};
use crate::daemon::config::{
    bind_inside, known, known_config, known_layer, known_number, known_text, CliArgs, CliModel,
    Config, ConfigError, ConfigFault, ConfigModel, EnvModel, EnvOverrides, FileConfig,
    FileModel, Layer, LayerModel,
};
use crate::daemon::hub::ws_events_model;
use crate::daemon::pending::{PendingAcks, PendingReads};
use crate::engine::event::{events_model, texts, EngineCmd, EngineEvent, EventModel};
use crate::engine::session::{Model, Session};
use crate::frame::{payloads, sightings, Frame, Met, Scan, ScanReport, Sighting};
use crate::link::{byte_lists, steps_model, AoaStep, StepModel};
use crate::mailbox::codec::outcome;
use crate::mailbox::convert::{ranges_model, verdict, WireRange};
use crate::mailbox::error::{EncodeError, EncodeFault, WriteError, WriteFault};
use crate::mailbox::message::{all_say, ClientMessage, Saying, ServerMessage};
use crate::mailbox::policy::names;
use crate::mailbox::schema::{entries_model, Entry};
use crate::mailbox::snapshot::{
    listed, registers_model, registers_of, zones_model, Content, ContentModel, RegisterSnapshot,
    ZoneSnapshot,
};
use crate::mailbox::value::{
    items_model, members_model, values_model, Field, FieldModel, Member, Nested, NestedModel,
    Payload, PayloadModel,
};
use crate::registers::bank::{BankKey, RegisterBank};
use crate::text::{str_option, text_option};
use vstd::prelude::*;

verus! {

/// What a value of [`EngineEvent`] stands for.
pub proof fn law_view_of_engine_event(x: EngineEvent)
    ensures
        x@ == ({
            match x {
                EngineEvent::Negotiated { detail } => EventModel::Negotiated { detail: detail@ },
                EngineEvent::Snapshot { bank, can_records } => EventModel::Snapshot {
                    bank: bank@,
                    can_records: match can_records {
                        Some(list) => Some(texts(list@)),
                        None => None,
                    },
                },
                EngineEvent::RegistersChanged { records } => EventModel::RegistersChanged {
                    records: records@,
                },
                EngineEvent::WriteFlushed => EventModel::WriteFlushed,
                EngineEvent::RegisterRead { unit_type, unit_id, reg, zone, data } =>
                    EventModel::RegisterRead { unit_type, unit_id, reg, zone, data },
                EngineEvent::SessionState(s) => EventModel::SessionState(s),
                EngineEvent::LinkError(text) => EventModel::LinkError(text@),
                EngineEvent::ProtocolWarn(text) => EventModel::ProtocolWarn(text@),
            }
        }),
{
}

/// What a value of [`Session`] stands for.
pub proof fn law_view_of_session(x: Session)
    ensures
        x@ == ({
            Model {
                state: x.state,
                bank: x.bank@,
                write_queue: x.write_queue@,
                pending_reads: x.pending_reads@,
                ack_armed: x.ack_armed,
                dump_sent: x.dump_sent,
                dump_needs_resend: x.dump_needs_resend,
                dirty_reset_sent: x.dirty_reset_sent,
                reset_nacks: x.reset_nacks,
                write_flushed: x.write_flushed,
                crc_ok: x.crc_ok,
                can_in_use: x.can_in_use,
                shutdown: x.shutdown,
            }
        }),
{
}

/// What a value of [`WsEvent`] stands for.
pub proof fn law_view_of_ws_event(x: WsEvent)
    ensures
        x@ == ({
            match x {
                WsEvent::Engine(e) => WsEventModel::Engine(e@),
                WsEvent::Status { state, detail } => WsEventModel::Status {
                    state,
                    detail: text_option(detail),
                },
            }
        }),
{
}

/// What a value of [`ClientMessage`] stands for.
pub proof fn law_view_of_client_message(x: ClientMessage)
    ensures
        x@ == ({
            match x {
                ClientMessage::Write { msg_id, unit_type, unit_id, register, zone, payload } =>
                    ClientModel::Write {
                    msg_id: msg_id@,
                    unit_type: text_option(unit_type),
                    unit_id: text_option(unit_id),
                    register: register@,
                    zone,
                    payload: payload@,
                },
                ClientMessage::Read { msg_id, unit_type, unit_id, register, zone } =>
                    ClientModel::Read {
                    msg_id: msg_id@,
                    unit_type: text_option(unit_type),
                    unit_id: text_option(unit_id),
                    register: register@,
                    zone,
                },
                ClientMessage::Command { msg_id, action } => ClientModel::Command {
                    msg_id: msg_id@,
                    action: action@,
                },
            }
        }),
{
}

/// What a value of [`ConfigError`] stands for.
pub proof fn law_view_of_config_error(x: ConfigError)
    ensures
        x@ == ({
            ConfigFault {
                text: x.text@,
                cause: match x.cause {
                    Some(s) => Some(s@),
                    None => None,
                },
            }
        }),
{
}

/// What a value of [`Config`] stands for.
pub proof fn law_view_of_config(x: Config)
    ensures
        x@ == ({
            ConfigModel {
                backend: x.backend,
                device: text_option(x.device),
                bind: x.bind@,
                unit_id_hint: x.unit_id_hint,
                log_level: x.log_level@,
                aoa_chunk_size: x.aoa_chunk_size,
                aoa_chunk_delay_ms: x.aoa_chunk_delay_ms,
                tty_baud: x.tty_baud,
                ws_idle_timeout_minutes: x.ws_idle_timeout_minutes,
                ws_idle_retry_seconds: x.ws_idle_retry_seconds,
                keepalive_interval_seconds: x.keepalive_interval_seconds,
                keepalive_pong_timeout_seconds: x.keepalive_pong_timeout_seconds,
                snapshot_timeout_seconds: x.snapshot_timeout_seconds,
            }
        }),
{
}

/// What a value of [`FileConfig`] stands for.
pub proof fn law_view_of_file_config(x: FileConfig)
    ensures
        x@ == ({
            FileModel {
                backend: text_option(x.backend),
                device: text_option(x.device),
                bind: bind_inside(x.bind),
                unit_id_hint: text_option(x.unit_id_hint),
                log_level: text_option(x.log_level),
                aoa_chunk_size: x.aoa_chunk_size,
                aoa_chunk_delay_ms: x.aoa_chunk_delay_ms,
                tty_baud: x.tty_baud,
                ws_idle_timeout_minutes: x.ws_idle_timeout_minutes,
                ws_idle_retry_seconds: x.ws_idle_retry_seconds,
                keepalive_interval_seconds: x.keepalive_interval_seconds,
                keepalive_pong_timeout_seconds: x.keepalive_pong_timeout_seconds,
                snapshot_timeout_seconds: x.snapshot_timeout_seconds,
            }
        }),
{
}

/// What a value of [`EnvOverrides`] stands for.
pub proof fn law_view_of_env_overrides(x: EnvOverrides)
    ensures
        x@ == ({
            EnvModel {
                config: text_option(x.config),
                backend: text_option(x.backend),
                device: text_option(x.device),
                bind: bind_inside(x.bind),
                log_level: text_option(x.log_level),
                unit_id_hint: text_option(x.unit_id_hint),
                aoa_chunk_size: text_option(x.aoa_chunk_size),
                aoa_chunk_delay_ms: text_option(x.aoa_chunk_delay_ms),
                tty_baud: text_option(x.tty_baud),
                ws_idle_timeout_minutes: text_option(x.ws_idle_timeout_minutes),
                ws_idle_retry_seconds: text_option(x.ws_idle_retry_seconds),
                keepalive_interval_seconds: text_option(x.keepalive_interval_seconds),
                keepalive_pong_timeout_seconds: text_option(x.keepalive_pong_timeout_seconds),
                snapshot_timeout_seconds: text_option(x.snapshot_timeout_seconds),
            }
        }),
{
}

/// What a value of [`CliArgs`] stands for.
pub proof fn law_view_of_cli_args(x: CliArgs)
    ensures
        x@ == ({
            CliModel {
                config: text_option(x.config),
                backend: x.backend,
                device: text_option(x.device),
                bind: text_option(x.bind),
                log_level: text_option(x.log_level),
                unit_id_hint: text_option(x.unit_id_hint),
                aoa_chunk_size: x.aoa_chunk_size,
                aoa_chunk_delay_ms: x.aoa_chunk_delay_ms,
                tty_baud: x.tty_baud,
                ws_idle_timeout_minutes: x.ws_idle_timeout_minutes,
                ws_idle_retry_seconds: x.ws_idle_retry_seconds,
                keepalive_interval_seconds: x.keepalive_interval_seconds,
                keepalive_pong_timeout_seconds: x.keepalive_pong_timeout_seconds,
                snapshot_timeout_seconds: x.snapshot_timeout_seconds,
            }
        }),
{
}

/// What a value of [`Layer`] stands for.
pub proof fn law_view_of_layer(x: Layer)
    ensures
        x@ == ({
            LayerModel {
                backend: x.backend,
                device: text_option(x.device),
                bind: text_option(x.bind),
                unit_id_hint: x.unit_id_hint,
                log_level: text_option(x.log_level),
                aoa_chunk_size: x.aoa_chunk_size,
                aoa_chunk_delay_ms: x.aoa_chunk_delay_ms,
                tty_baud: x.tty_baud,
                ws_idle_timeout_minutes: x.ws_idle_timeout_minutes,
                ws_idle_retry_seconds: x.ws_idle_retry_seconds,
                keepalive_interval_seconds: x.keepalive_interval_seconds,
                keepalive_pong_timeout_seconds: x.keepalive_pong_timeout_seconds,
                snapshot_timeout_seconds: x.snapshot_timeout_seconds,
            }
        }),
{
}

/// What a value of [`Nested`] stands for.
pub proof fn law_view_of_nested(x: Nested)
    ensures
        x@ == ({
            match x {
                Nested::Null => NestedModel::Null,
                Nested::Bool(b) => NestedModel::Bool(b),
                Nested::Number(n) => NestedModel::Number(n),
                Nested::Decimal(s) => NestedModel::Decimal(s@),
                Nested::Text(s) => NestedModel::Text(s@),
                Nested::List => NestedModel::List,
                Nested::Object => NestedModel::Object,
            }
        }),
{
}

/// What a value of [`Field`] stands for.
pub proof fn law_view_of_field(x: Field)
    ensures
        x@ == ({
            match x {
                Field::Null => FieldModel::Null,
                Field::Bool(b) => FieldModel::Bool(b),
                Field::Number(n) => FieldModel::Number(n),
                Field::Decimal { number, text } => FieldModel::Decimal { number, text: text@ },
                Field::Text(s) => FieldModel::Text(s@),
                Field::List(items) => FieldModel::List(items_model(items@)),
                Field::Single { key, value } => FieldModel::Single { key: key@, value: value@ },
                Field::Object => FieldModel::Object,
            }
        }),
{
}

/// What a value of [`Payload`] stands for.
pub proof fn law_view_of_payload(x: Payload)
    ensures
        x@ == ({
            match x {
                Payload::Text(s) => PayloadModel::Text(s@),
                Payload::Object(members) => PayloadModel::Object(members_model(members@)),
                Payload::List(values) => PayloadModel::List(values_model(values@)),
                Payload::Null => PayloadModel::Null,
                Payload::Bool(b) => PayloadModel::Bool(b),
                Payload::Number(n) => PayloadModel::Number(n),
                Payload::Decimal(s) => PayloadModel::Decimal(s@),
            }
        }),
{
}

/// What a value of [`Content`] stands for.
pub proof fn law_view_of_content(x: Content)
    ensures
        x@ == ({
            match x {
                Content::Single(payload) => ContentModel::Single(payload@),
                Content::Zones(zones) => ContentModel::Zones(zones_model(zones@)),
            }
        }),
{
}

/// What a value of [`EncodeError`] stands for.
pub proof fn law_view_of_encode_error(x: EncodeError)
    ensures
        x@ == ({
            match x {
                EncodeError::UnknownRegister(s) => EncodeFault::UnknownRegister(s@),
                EncodeError::BadHex(s) => EncodeFault::BadHex(s@),
                EncodeError::BadPayload(s) => EncodeFault::BadPayload(s@),
                EncodeError::BadEnum { field, value } => EncodeFault::BadEnum {
                    field: field@,
                    value: value@,
                },
            }
        }),
{
}

/// What a value of [`WriteError`] stands for.
pub proof fn law_view_of_write_error(x: WriteError)
    ensures
        x@ == ({
            match x {
                WriteError::ReadOnlyRegister { reg } => WriteFault::ReadOnlyRegister { reg },
                WriteError::ReadOnlyField { reg, field } => WriteFault::ReadOnlyField {
                    reg,
                    field: field@,
                },
                WriteError::UnknownField { reg, field } => WriteFault::UnknownField {
                    reg,
                    field: field@,
                },
                WriteError::WriteOnlyRegister { reg } => WriteFault::WriteOnlyRegister { reg },
                WriteError::InternalRegister { reg } => WriteFault::InternalRegister { reg },
                WriteError::UnverifiedRegister { reg } => WriteFault::UnverifiedRegister { reg },
                WriteError::OutOfRange { field, value, max } => WriteFault::OutOfRange {
                    field: field@,
                    value,
                    max,
                },
            }
        }),
{
}

/// What a value of [`Met`] stands for.
pub proof fn law_view_of_met(x: Met)
    ensures
        x@ == ({
            Sighting { payload: x.frame.payload@, intact: x.intact }
        }),
{
}

/// What a value of [`AoaStep`] stands for.
pub proof fn law_view_of_aoa_step(x: AoaStep)
    ensures
        x@ == ({
            match x {
                AoaStep::Write(bytes) => StepModel::Write(bytes@),
                AoaStep::Pause => StepModel::Pause,
            }
        }),
{
}

/// A text that may be there stands for its characters.
pub proof fn law_texts_that_may_be_there(owned: Option<String>, borrowed: Option<&str>)
    ensures
        owned matches Some(s) ==> text_option(owned) == Some(s@),
        owned is None ==> text_option(owned) is None,
        borrowed matches Some(s) ==> str_option(borrowed) == Some(s@),
        borrowed is None ==> str_option(borrowed) is None,
{
}

/// Lists stand for what their items stand for, in order.
pub proof fn law_views_of_lists(
    strings: Seq<String>,
    events: Seq<EngineEvent>,
    heard: Seq<WsEvent>,
    met: Seq<Met>,
    frames: Seq<Frame>,
    pieces: Seq<Vec<u8>>,
    steps: Seq<AoaStep>,
    i: int,
)
    ensures
        texts(strings).len() == strings.len(),
        0 <= i < strings.len() ==> texts(strings)[i] == strings[i]@,
        events_model(events).len() == events.len(),
        0 <= i < events.len() ==> events_model(events)[i] == events[i]@,
        ws_events_model(heard).len() == heard.len(),
        0 <= i < heard.len() ==> ws_events_model(heard)[i] == heard[i]@,
        sightings(met).len() == met.len(),
        0 <= i < met.len() ==> sightings(met)[i].payload == met[i].frame.payload@ && sightings(
            met,
        )[i].intact == met[i].intact,
        payloads(frames).len() == frames.len(),
        0 <= i < frames.len() ==> payloads(frames)[i] == frames[i].payload@,
        byte_lists(pieces).len() == pieces.len(),
        0 <= i < pieces.len() ==> byte_lists(pieces)[i] == pieces[i]@,
        steps_model(steps).len() == steps.len(),
        0 <= i < steps.len() ==> steps_model(steps)[i] == steps[i]@,
{
}

/// Payloads, fields and tables stand for their entries, in order.
pub proof fn law_views_of_payload_lists(
    items: Seq<Nested>,
    members: Seq<Member>,
    values: Seq<Field>,
    list: Seq<&'static str>,
    entries: Seq<Entry>,
    ranges: Seq<WireRange>,
    zones: Seq<ZoneSnapshot>,
    registers: Seq<RegisterSnapshot>,
    i: int,
)
    ensures
        items_model(items).len() == items.len(),
        0 <= i < items.len() ==> items_model(items)[i] == items[i]@,
        members_model(members).len() == members.len(),
        0 <= i < members.len() ==> members_model(members)[i] == (
            members[i].name@,
            members[i].value@,
        ),
        values_model(values).len() == values.len(),
        0 <= i < values.len() ==> values_model(values)[i] == values[i]@,
        names(list).len() == list.len(),
        0 <= i < list.len() ==> names(list)[i] == list[i]@,
        entries_model(entries).len() == entries.len(),
        0 <= i < entries.len() ==> entries_model(entries)[i] == (entries[i].name@, entries[i].kind),
        ranges_model(ranges).len() == ranges.len(),
        0 <= i < ranges.len() ==> ranges_model(ranges)[i] == (
            ranges[i].index as int,
            ranges[i].field@,
            ranges[i].max,
            ranges[i].mask,
        ),
        zones_model(zones).len() == zones.len(),
        0 <= i < zones.len() ==> zones_model(zones)[i] == (zones[i].zone, zones[i].payload@),
        registers_model(registers).len() == registers.len(),
        0 <= i < registers.len() ==> registers_model(registers)[i] == (
            registers[i].reg,
            registers[i].content@,
        ),
{
}

/// Waiting requests stand for their ids and deadlines, in order.
pub proof fn law_views_of_waiting_requests(acks: PendingAcks, reads: PendingReads, i: int)
    ensures
        acks@.len() == acks.list@.len(),
        0 <= i < acks.list@.len() ==> acks@[i] == (
            acks.list@[i].msg_id@,
            acks.list@[i].deadline,
        ),
        reads@.len() == reads.list@.len(),
        0 <= i < reads.list@.len() ==> reads@[i] == (
            reads.list@[i].key,
            reads.list@[i].msg_id@,
            reads.list@[i].deadline,
        ),
{
}

/// Outcomes stand for the value or for what the error says.
pub proof fn law_views_of_outcomes(
    bytes: Result<[u8; 7], EncodeError>,
    check: Result<(), WriteError>,
    reason: Result<u8, String>,
    payload: Result<Payload, String>,
    bank: Option<&RegisterBank>,
)
    ensures
        bytes matches Ok(v) ==> outcome(bytes) == Ok::<[u8; 7], EncodeFault>(v),
        bytes matches Err(e) ==> outcome(bytes) == Err::<[u8; 7], EncodeFault>(e@),
        check is Ok ==> verdict(check) is None,
        check matches Err(e) ==> verdict(check) == Some(e@),
        reason matches Ok(v) ==> plain(reason) == Ok::<u8, Seq<char>>(v),
        reason matches Err(text) ==> plain(reason) == Err::<u8, Seq<char>>(text@),
        payload matches Ok(p) ==> payload_outcome(payload) == Ok::<PayloadModel, Seq<char>>(p@),
        payload matches Err(text) ==> payload_outcome(payload) == Err::<PayloadModel, Seq<char>>(
            text@,
        ),
        bank matches Some(b) ==> contents(bank) == Some(b@),
        bank is None ==> contents(bank) is None,
{
}

/// Outcomes of reading a configuration stand for the value or for what the error says.
pub proof fn law_views_of_configuration_outcomes(
    link: Result<u8, ConfigError>,
    text: Result<Option<String>, ConfigError>,
    number: Result<Option<u64>, ConfigError>,
    layer: Result<Layer, ConfigError>,
    config: Result<Config, ConfigError>,
)
    ensures
        link matches Ok(v) ==> known(link) == Ok::<u8, ConfigFault>(v),
        link matches Err(e) ==> known(link) == Err::<u8, ConfigFault>(e@),
        text matches Ok(t) ==> known_text(text) == Ok::<Option<Seq<char>>, ConfigFault>(
            text_option(t),
        ),
        text matches Err(e) ==> known_text(text) == Err::<Option<Seq<char>>, ConfigFault>(e@),
        number matches Ok(Some(n)) ==> known_number(number) == Ok::<Option<nat>, ConfigFault>(
            Some(n as nat),
        ),
        number matches Ok(None) ==> known_number(number) == Ok::<Option<nat>, ConfigFault>(None),
        number matches Err(e) ==> known_number(number) == Err::<Option<nat>, ConfigFault>(e@),
        layer matches Ok(l) ==> known_layer(layer) == Ok::<LayerModel, ConfigFault>(l@),
        layer matches Err(e) ==> known_layer(layer) == Err::<LayerModel, ConfigFault>(e@),
        config matches Ok(c) ==> known_config(config) == Ok::<ConfigModel, ConfigFault>(c@),
        config matches Err(e) ==> known_config(config) == Err::<ConfigModel, ConfigFault>(e@),
{
}

/// The report of a scan has what was met, in order, and the fault.
pub proof fn law_reports_of_scans(report: ScanReport, s: Scan)
    requires
        report.reports(s),
    ensures
        sightings(report.met@) == s.met,
        report.fault == s.fault,
{
}

/// A message says what its own fields hold, and nothing else.
pub proof fn law_messages_say_what_they_hold(m: ServerMessage, s: Saying)
    requires
        m.says(s),
    ensures
        match m {
            ServerMessage::Snapshot { units } => s matches Saying::Snapshot { bank } && (forall|
                i: int,
                j: int,
            |
                0 <= i < j < units@.len() ==> (#[trigger] units@[i]).unit_type.0 < (
                #[trigger] units@[j]).unit_type.0 || (units@[i].unit_type == units@[j].unit_type
                    && units@[i].unit_id@ < units@[j].unit_id@)) && (forall|i: int|
                0 <= i < units@.len() ==> registers_model((#[trigger] units@[i]).registers@)
                    == registers_of(bank, units@[i].unit_type, units@[i].unit_id, 256)) && (forall|
                k: BankKey,
            | #[trigger]
                bank.dom().contains(k) ==> exists|i: int|
                    0 <= i < units@.len() && (#[trigger] units@[i]).unit_type == k.unit_type
                        && units@[i].unit_id == k.unit_id),
            ServerMessage::Event { unit_type, unit_id, register, zone, payload } => s
                matches Saying::Event {
                    unit_type: t,
                    unit_id: id,
                    register: r,
                    zone: z,
                    payload: p,
                } && t == unit_type@ && id == unit_id@ && r == register@ && z == zone && p
                == payload@,
            ServerMessage::ReadResult { msg_id, unit_type, unit_id, register, zone, payload } => s
                matches Saying::ReadResult {
                    msg_id: m,
                    unit_type: t,
                    unit_id: id,
                    register: r,
                    zone: z,
                    payload: p,
                } && m == msg_id@ && t == unit_type@ && id == unit_id@ && r == register@ && z
                == zone && p == payload@,
            ServerMessage::Ack { msg_id, status, reason } => s matches Saying::Ack {
                msg_id: m,
                status: st,
                reason: r,
            } && m == msg_id@ && st == status && r == text_option(reason),
            ServerMessage::Status { state, detail } => s matches Saying::Status {
                state: st,
                detail: d,
            } && st == state && d == text_option(detail),
            ServerMessage::Error { message, reason } => s matches Saying::Error {
                message: t,
                reason: r,
            } && t == message@ && r == text_option(reason),
        },
{
    if let ServerMessage::Snapshot { units } = m {
        if let Saying::Snapshot { bank } = s {
            assert forall|k: BankKey| #[trigger] bank.dom().contains(k) implies exists|i: int|
                0 <= i < units@.len() && (#[trigger] units@[i]).unit_type == k.unit_type
                    && units@[i].unit_id == k.unit_id by {
                assert(listed(units@, k.unit_type, k.unit_id));
            }
        }
    }
}

/// Messages say things one for one, in order.
pub proof fn law_messages_say_in_order(messages: Seq<ServerMessage>, sayings: Seq<Saying>, i: int)
    requires
        all_say(messages, sayings),
    ensures
        messages.len() == sayings.len(),
        0 <= i < messages.len() ==> messages[i].says(sayings[i]),
{
}

/// A request does what was decided: it answers, or it queues one command and waits for
/// what that command brings, under the id of the client.
pub proof fn law_requests_do_what_was_decided(r: Request, d: Decision)
    requires
        r.follows(d),
    ensures
        match d {
            Decision::Answer(s) => r matches Request::Answer(m) && m.says(s),
            Decision::Write { record, msg_id } => r matches Request::Queue {
                cmd: EngineCmd::WriteRegisters(records),
                waiting: Waiting::Flush { msg_id: id },
            } && records@ == seq![record] && id@ == msg_id,
            Decision::Read { key, msg_id } => r matches Request::Queue {
                cmd: EngineCmd::ReadRegister { unit_type, unit_id, reg, zone },
                waiting: Waiting::Report { key: k, msg_id: id },
            } && unit_type == key.unit_type && unit_id == key.unit_id && reg == key.reg && zone
                == key.zone && k == key && id@ == msg_id,
            Decision::Resync { msg_id } => r matches Request::Queue {
                cmd: EngineCmd::ResyncMailbox,
                waiting: Waiting::Nothing { msg_id: id },
            } && id@ == msg_id,
        },
{
}

} // verus!
