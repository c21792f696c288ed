//! The scripted control box behind the mock link: what it says to what the
//! daemon writes.
use crate::engine::wire::{
    get_can_records, joined_digits, joined_text, law_report_carries_records, transmissible,
    CAN2_IN_USE, DUMP_SET_CAN, GET_SYSTEM_DATA,
};
use crate::registers::decoded::{same_data, zero_data};
use crate::registers::ids::{RegId, UnitId, UnitType};
use crate::registers::wire::{parse_words, records_of, CanRecord, Dest, WireError};
use crate::text::{
    ascii, bytes_of, chars_of, decode_text, lemma_words_cons, same_bytes, starts_with_text, words,
};
use vstd::prelude::*;
use vstd::string::*;
use vstd::utf8::*;

verus! {

/// The unit that the script plays.
#[verifier::allow_in_spec]
pub fn feeder_unit_id() -> UnitId
    returns
        UnitId::of(0xabcde),
{
    match UnitId::try_new(0xabcde) {
        Ok(id) => id,
        Err(_) => UnitId::zero(),
    }
}

/// What the scripted control box does.
#[derive(Debug, Clone, Copy, PartialEq, Eq)]
pub struct FeederSpec {
    /// Whether the unit has a system status.
    pub with_status: bool,
    /// Whether the box falls silent after the dump.
    pub silent_after_dump: bool,
    /// A record that it announces on its own, at the first empty poll.
    pub announcement: Option<CanRecord>,
}

impl Default for FeederSpec {
    fn default() -> (r: FeederSpec)
        ensures
            r == (FeederSpec {
                with_status: true,
                silent_after_dump: false,
                announcement: None,
            }),
    {
        FeederSpec { with_status: true, silent_after_dump: false, announcement: None }
    }
}

impl FeederSpec {
    /// The same without a system status.
    pub fn without_reg05(self) -> (r: FeederSpec)
        ensures
            r == (FeederSpec { with_status: false, ..self }),
    {
        FeederSpec { with_status: false, ..self }
    }

    /// The same, silent after the dump.
    pub fn stop_after_dump(self) -> (r: FeederSpec)
        ensures
            r == (FeederSpec { silent_after_dump: true, ..self }),
    {
        FeederSpec { silent_after_dump: true, ..self }
    }

    /// The same with an announcement of a unit.
    pub fn scripted_reg06(self, unit_type: UnitType, unit_id: UnitId, data: [u8; 7]) -> (r:
        FeederSpec)
        ensures
            r == (FeederSpec {
                announcement: Some(
                    CanRecord { unit_type, dest: Dest::Tablet, unit_id, reg: RegId(0x06), data },
                ),
                ..self
            }),
    {
        FeederSpec {
            announcement: Some(
                CanRecord {
                    unit_type,
                    dest: Dest::Tablet,
                    unit_id,
                    reg: RegId::new(0x06),
                    data,
                },
            ),
            ..self
        }
    }
}

/// A record that the scripted unit reports.
pub open spec fn scripted(unit_type: u8, reg: u8, data: [u8; 7]) -> CanRecord {
    CanRecord {
        unit_type: UnitType(unit_type),
        dest: Dest::Tablet,
        unit_id: UnitId::of(0xabcde),
        reg: RegId(reg),
        data,
    }
}

/// The system status of the scripted unit.
pub open spec fn sample() -> CanRecord {
    scripted(0x07, 0x05, [0x01u8, 0x01u8, 0x03u8, 0x30u8, 0x00u8, 0x01u8, 0x00u8])
}

/// The system status of the scripted unit.
pub fn sample_record() -> (r: CanRecord)
    ensures
        r == sample(),
{
    let data: [u8; 7] = [0x01u8, 0x01u8, 0x03u8, 0x30u8, 0x00u8, 0x01u8, 0x00u8];
    proof {
        assert(data =~= sample().data);
    }
    CanRecord {
        unit_type: UnitType::aircon(),
        dest: Dest::Tablet,
        unit_id: feeder_unit_id(),
        reg: RegId::new(0x05),
        data,
    }
}

/// A register of the scripted unit that has no known meaning.
pub open spec fn unknown() -> CanRecord {
    scripted(0x07, 0x16, [0xdeu8, 0xadu8, 0xbeu8, 0xefu8, 0x01u8, 0x02u8, 0x03u8])
}

/// The announcement of the scripted unit's other half.
pub open spec fn announced() -> CanRecord {
    scripted(0x08, 0x06, zero_data())
}

/// What the units of a type report when they are flushed.
pub open spec fn unit_records(spec: FeederSpec, unit_type: UnitType) -> Seq<CanRecord> {
    if unit_type == UnitType(0x07) {
        if spec.with_status {
            seq![sample(), unknown()]
        } else {
            seq![unknown()]
        }
    } else if unit_type == UnitType(0x08) {
        seq![announced()]
    } else {
        seq![]
    }
}

/// What the units of a type report when they are flushed.
fn flushed_records(spec: &FeederSpec, unit_type: UnitType) -> (out: Vec<CanRecord>)
    ensures
        out@ == unit_records(*spec, unit_type),
{
    let mut out: Vec<CanRecord> = Vec::new();
    if unit_type == UnitType::aircon() {
        if spec.with_status {
            out.push(sample_record());
        }
        let data: [u8; 7] = [0xdeu8, 0xadu8, 0xbeu8, 0xefu8, 0x01u8, 0x02u8, 0x03u8];
        proof {
            assert(data =~= unknown().data);
        }
        out.push(CanRecord { reg: RegId::new(0x16), data, ..sample_record() });
    } else if unit_type == UnitType::new(0x08) {
        let data: [u8; 7] = [0, 0, 0, 0, 0, 0, 0];
        proof {
            assert(data =~= zero_data());
        }
        out.push(
            CanRecord {
                unit_type: UnitType::new(0x08),
                reg: RegId::new(0x06),
                data,
                ..sample_record()
            },
        );
    }
    proof {
        assert(out@ =~= unit_records(*spec, unit_type));
    }
    out
}

/// What the box reports on a record that was written to it: a flush brings the
/// registers of its unit type, a write to a unit comes back, and a write to no
/// unit in particular brings nothing.
pub open spec fn answer_to(spec: FeederSpec, rec: CanRecord) -> Seq<CanRecord> {
    if rec.reg == RegId(0x06) && rec.data == zero_data() {
        unit_records(spec, rec.unit_type)
    } else if rec.unit_id@ == 0 {
        seq![]
    } else {
        seq![CanRecord { dest: Dest::Tablet, ..rec }]
    }
}

/// What the box reports on a list of records.
pub open spec fn answers(spec: FeederSpec, records: Seq<CanRecord>) -> Seq<CanRecord>
    decreases records.len(),
{
    if records.len() == 0 {
        seq![]
    } else {
        answers(spec, records.drop_last()) + answer_to(spec, records.last())
    }
}

/// What the box reports on a list of records.
fn answer_records(spec: &FeederSpec, records: &[CanRecord]) -> (out: Vec<CanRecord>)
    ensures
        out@ == answers(*spec, records@),
{
    let zeros: [u8; 7] = [0, 0, 0, 0, 0, 0, 0];
    let mut out: Vec<CanRecord> = Vec::new();
    let mut i: usize = 0;
    proof {
        assert(zeros =~= zero_data());
        assert(out@ =~= answers(*spec, records@.take(0)));
    }
    while i < records.len()
        invariant
            i <= records@.len(),
            zeros == zero_data(),
            out@ == answers(*spec, records@.take(i as int)),
        decreases records@.len() - i,
    {
        let rec = records[i];
        let ghost before = out@;
        proof {
            assert(records@.take(i + 1).drop_last() =~= records@.take(i as int));
        }
        if rec.reg == RegId::new(0x06) && same_data(&rec.data, &zeros) {
            let mut more = flushed_records(spec, rec.unit_type);
            out.append(&mut more);
        } else if rec.unit_id.get() != 0 {
            out.push(CanRecord { dest: Dest::Tablet, ..rec });
        }
        proof {
            assert(out@ =~= before + answer_to(*spec, rec));
        }
        i = i + 1;
    }
    proof {
        assert(records@.take(i as int) =~= records@);
    }
    out
}

/// The report of records.
pub open spec fn report(records: Seq<CanRecord>) -> Seq<u8> {
    if records.len() == 0 {
        ascii("getCAN 1"@)
    } else {
        ascii("getCAN 1 "@ + joined_digits(records))
    }
}

/// Builds the report of `records`.
pub fn build_report(records: &[CanRecord]) -> (out: Vec<u8>)
    ensures
        out@ == report(records@),
{
    if records.len() == 0 {
        return bytes_of("getCAN 1");
    }
    let mut text = "getCAN 1 ".to_owned();
    let digits = joined_text(records);
    text.append(digits.as_str());
    bytes_of(text.as_str())
}

/// The report of the system status alone.
pub fn get_can_with_sample() -> (out: Vec<u8>)
    ensures
        out@ == report(seq![sample()]),
{
    let mut records: Vec<CanRecord> = Vec::new();
    records.push(sample_record());
    proof {
        assert(records@ =~= seq![sample()]);
    }
    build_report(records.as_slice())
}

/// The records that a payload writes to the box, if that is what it does.
pub open spec fn written_records(payload: Seq<u8>) -> Option<Seq<CanRecord>> {
    if valid_utf8(payload) && "setCAN"@.is_prefix_of(decode_utf8(payload)) {
        match records_of(words(decode_utf8(payload).skip(6))) {
            Ok(records) => Some(records),
            Err(_) => None,
        }
    } else {
        None
    }
}

/// Parses the records that a payload writes to the box.
fn parse_set_can(payload: &[u8]) -> (r: Option<Vec<CanRecord>>)
    ensures
        match r {
            Some(records) => written_records(payload@) == Some(records@),
            None => written_records(payload@) is None,
        },
{
    match decode_text(payload) {
        None => None,
        Some(text) => {
            let head = chars_of("setCAN");
            if !starts_with_text(text.as_slice(), head.as_slice()) {
                return None;
            }
            proof {
                reveal_strlit("setCAN");
            }
            match parse_words(text.as_slice(), 6) {
                Ok(records) => Some(records),
                Err(_) => None,
            }
        },
    }
}

/// The scripted control box.
#[derive(Debug, Clone, Copy)]
pub struct Feeder {
    /// What it does.
    pub spec: FeederSpec,
    /// Whether its announcement was made.
    pub announced: bool,
    /// Whether the dump was requested.
    pub dumped: bool,
}

impl Feeder {
    /// What the box says to a payload. The request for system data is granted,
    /// records that are written are answered by a report, and an
    /// acknowledgement needs no answer.
    pub open spec fn reply(self, payload: Seq<u8>) -> Option<Seq<u8>> {
        if payload == ascii(GET_SYSTEM_DATA@) {
            Some(ascii(CAN2_IN_USE@))
        } else {
            match written_records(payload) {
                None => None,
                Some(records) => if self.announces(payload) {
                    Some(report(seq![self.spec.announcement->0]))
                } else {
                    Some(report(answers(self.spec, records)))
                },
            }
        }
    }

    /// Whether the box makes its announcement in place of an empty report.
    pub open spec fn announces(self, payload: Seq<u8>) -> bool {
        written_records(payload) == Some(Seq::<CanRecord>::empty()) && !self.announced
            && self.spec.announcement is Some
    }

    /// The box after a payload.
    pub open spec fn after(self, payload: Seq<u8>) -> Feeder {
        Feeder {
            spec: self.spec,
            announced: self.announced || (payload != ascii(GET_SYSTEM_DATA@) && self.announces(
                payload,
            )),
            dumped: self.dumped || payload == ascii(DUMP_SET_CAN@),
        }
    }

    /// A box that has said nothing.
    pub fn new(spec: FeederSpec) -> (r: Feeder)
        ensures
            r == (Feeder { spec, announced: false, dumped: false }),
    {
        Feeder { spec, announced: false, dumped: false }
    }

    /// Whether the box has fallen silent.
    pub fn is_finished(&self) -> (r: bool)
        ensures
            r == (self.spec.silent_after_dump && self.dumped),
    {
        self.spec.silent_after_dump && self.dumped
    }

    /// Answers a payload that the daemon wrote.
    pub fn on_written(&mut self, payload: &[u8]) -> (r: Option<Vec<u8>>)
        ensures
            *final(self) == old(self).after(payload@),
            match r {
                Some(bytes) => old(self).reply(payload@) == Some(bytes@),
                None => old(self).reply(payload@) is None,
            },
    {
        let dump = bytes_of(DUMP_SET_CAN);
        if same_bytes(payload, dump.as_slice()) {
            self.dumped = true;
        }
        let request = bytes_of(GET_SYSTEM_DATA);
        if same_bytes(payload, request.as_slice()) {
            return Some(bytes_of(CAN2_IN_USE));
        }
        match parse_set_can(payload) {
            None => None,
            Some(records) => {
                proof {
                    if records.len() == 0 {
                        assert(records@ =~= Seq::<CanRecord>::empty());
                    }
                }
                if records.len() == 0 && !self.announced {
                    if let Some(rec) = self.spec.announcement {
                        self.announced = true;
                        let mut list: Vec<CanRecord> = Vec::new();
                        list.push(rec);
                        proof {
                            assert(list@ =~= seq![rec]);
                        }
                        return Some(build_report(list.as_slice()));
                    }
                }
                let out = answer_records(&self.spec, records.as_slice());
                Some(build_report(out.as_slice()))
            },
        }
    }
}

/// A report of the box is read by the daemon as the records that are in it.
pub proof fn law_reports_are_read(records: Seq<CanRecord>)
    requires
        forall|i: int| 0 <= i < records.len() ==> transmissible(#[trigger] records[i]),
    ensures
        get_can_records(report(records)) == Ok::<Seq<CanRecord>, WireError>(records),
{
    if records.len() > 0 {
        law_report_carries_records(records);
    } else {
        let text = "getCAN 1"@;
        reveal_strlit("getCAN 1");
        reveal_strlit("getCAN");
        assert(is_ascii_chars(text));
        crate::text::lemma_ascii_bytes(text);
        assert(text.subrange(0, 6) =~= "getCAN"@);
        let after = text.skip(6);
        let marker = seq!['1'];
        assert(after =~= seq![' '] + marker);
        lemma_words_cons(marker, marker);
        assert(words(after) == seq![marker]);
        assert(seq![marker].drop_first() =~= Seq::<Seq<char>>::empty());
        assert(records_of(Seq::<Seq<char>>::empty()) == Ok::<Seq<CanRecord>, WireError>(
            Seq::<CanRecord>::empty(),
        ));
        assert(records =~= Seq::<CanRecord>::empty());
    }
}

/// The box invents nothing: it reports registers of the scripted unit, and
/// besides them only what was written to it.
pub proof fn law_feederinvents_nothing(spec: FeederSpec, records: Seq<CanRecord>, i: int)
    requires
        0 <= i < answers(spec, records).len(),
    ensures
        ({
            let said = answers(spec, records)[i];
            ||| said == sample() && spec.with_status
            ||| said == unknown()
            ||| said == announced()
            ||| exists|j: int|
                0 <= j < records.len() && said == (CanRecord {
                    dest: Dest::Tablet,
                    ..#[trigger] records[j]
                })
        }),
    decreases records.len(),
{
    let before = answers(spec, records.drop_last());
    if i < before.len() {
        law_feederinvents_nothing(spec, records.drop_last(), i);
        assert forall|j: int| 0 <= j < records.len() - 1 implies records.drop_last()[j]
            == #[trigger] records[j] by {}
        if exists|j: int|
            0 <= j < records.drop_last().len() && before[i] == (CanRecord {
                dest: Dest::Tablet,
                ..#[trigger] records.drop_last()[j]
            }) {
            let j = choose|j: int|
                0 <= j < records.drop_last().len() && before[i] == (CanRecord {
                    dest: Dest::Tablet,
                    ..#[trigger] records.drop_last()[j]
                });
            assert(records[j] == records.drop_last()[j]);
        }
    } else {
        assert(records[records.len() - 1] == records.last());
    }
}

/// The box answers record by record, in order.
pub proof fn law_feederanswers_in_order(spec: FeederSpec, records: Seq<CanRecord>, rec: CanRecord)
    ensures
        answers(spec, seq![]).len() == 0,
        answers(spec, records.push(rec)) == answers(spec, records) + answer_to(spec, rec),
{
    assert(records.push(rec).drop_last() =~= records);
}

/// What the box answers to one record: to a flush with the records of its units of that
/// type, to a write of a unit with what was written, and to nothing else.
pub proof fn law_feederanswers(spec: FeederSpec, rec: CanRecord)
    ensures
        ({
            let flush = rec.reg.0 == 0x06 && rec.data == [0u8, 0, 0, 0, 0, 0, 0];
            let said = answer_to(spec, rec);
            &&& flush && rec.unit_type.0 == 0x07 && spec.with_status ==> said == seq![
                CanRecord {
                    unit_type: UnitType(0x07),
                    dest: Dest::Tablet,
                    unit_id: UnitId::of(0xabcde),
                    reg: RegId(0x05),
                    data: [0x01u8, 0x01u8, 0x03u8, 0x30u8, 0x00u8, 0x01u8, 0x00u8],
                },
                CanRecord {
                    unit_type: UnitType(0x07),
                    dest: Dest::Tablet,
                    unit_id: UnitId::of(0xabcde),
                    reg: RegId(0x16),
                    data: [0xdeu8, 0xadu8, 0xbeu8, 0xefu8, 0x01u8, 0x02u8, 0x03u8],
                },
            ]
            &&& flush && rec.unit_type.0 == 0x07 && !spec.with_status ==> said == seq![
                CanRecord {
                    unit_type: UnitType(0x07),
                    dest: Dest::Tablet,
                    unit_id: UnitId::of(0xabcde),
                    reg: RegId(0x16),
                    data: [0xdeu8, 0xadu8, 0xbeu8, 0xefu8, 0x01u8, 0x02u8, 0x03u8],
                },
            ]
            &&& flush && rec.unit_type.0 == 0x08 ==> said == seq![
                CanRecord {
                    unit_type: UnitType(0x08),
                    dest: Dest::Tablet,
                    unit_id: UnitId::of(0xabcde),
                    reg: RegId(0x06),
                    data: [0u8, 0, 0, 0, 0, 0, 0],
                },
            ]
            &&& flush && rec.unit_type.0 != 0x07 && rec.unit_type.0 != 0x08 ==> said.len() == 0
            &&& !flush && rec.unit_id@ == 0 ==> said.len() == 0
            &&& !flush && rec.unit_id@ != 0 ==> said == seq![
                CanRecord { dest: Dest::Tablet, ..rec },
            ]
        }),
{
}

/// What the box replies to a payload, and what it remembers of it.
pub proof fn law_feederreplies(feeder: Feeder, payload: Seq<u8>)
    ensures
        feeder.after(payload).spec == feeder.spec,
        feeder.after(payload).dumped <==> feeder.dumped || payload == ascii(DUMP_SET_CAN@),
        payload == ascii(GET_SYSTEM_DATA@) ==> feeder.reply(payload) == Some(ascii(CAN2_IN_USE@))
            && feeder.after(payload).announced == feeder.announced,
        payload != ascii(GET_SYSTEM_DATA@) ==> match written_records(payload) {
            None => feeder.reply(payload) is None && feeder.after(payload).announced
                == feeder.announced,
            Some(records) => if records.len() == 0 && !feeder.announced && feeder.spec.announcement
                is Some {
                feeder.reply(payload) == Some(report(seq![feeder.spec.announcement->0]))
                    && feeder.after(payload).announced
            } else {
                feeder.reply(payload) == Some(report(answers(feeder.spec, records)))
                    && feeder.after(payload).announced == feeder.announced
            },
        },
{
    if let Some(records) = written_records(payload) {
        if records.len() == 0 {
            assert(records =~= Seq::<CanRecord>::empty());
        }
    }
}

} // verus!
