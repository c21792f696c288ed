//! Payloads that the two sides of the bus exchange.
use crate::registers::decoded::zero_data;
use crate::registers::ids::{RegId, UnitId, UnitType, UNIT_ID_MAX};
use crate::registers::wire::{
    law_digits_of_a_record, law_record_round_trip, parse_words, record_digits, records_of,
    CanRecord, Dest, WireError,
};
use crate::text::{
    ascii, bytes_of, chars_of, contains_text, decode_text, has_text, lemma_ascii_bytes,
    lemma_words_cons, same_bytes, starts_with, starts_with_text, words,
};
use vstd::prelude::*;
use vstd::string::*;
use vstd::utf8::{decode_utf8, is_ascii_chars, valid_utf8};

verus! {

/// Ping payload.
pub const PING: &'static str = "Ping";

/// Negotiation request.
pub const GET_SYSTEM_DATA: &'static str = "getSystemData";

/// Empty poll; the trailing space belongs to it.
pub const EMPTY_SET_CAN: &'static str = "setCAN ";

/// Acknowledgement of a `getCAN` that arrived intact.
pub const ACK_CAN: &'static str = "ackCAN 1";

/// Acknowledgement after a frame whose checksum failed: the control box sends
/// the records again.
pub const ACK_CAN_ZERO: &'static str = "ackCAN 0";

/// Mailbox dump request: flush tokens of unit type `08`.
pub const DUMP_SET_CAN: &'static str = "setCAN 0801000000600000000000000 0801000000236000000000000";

/// Flush of register `06` with unit id zero. It makes the control box send the
/// content of all registers again.
pub const DIRTY_RESET_SET_CAN: &'static str = "setCAN 0701000000600000000000000";

/// Part of a successful negotiation reply.
pub const CAN2_IN_USE: &'static str = "CAN2 in use";

/// Start of a register report.
pub const GET_CAN: &'static str = "getCAN";

/// Whether `payload` is exactly the Ping body.
pub fn is_ping(payload: &[u8]) -> (r: bool)
    ensures
        r == (payload@ == ascii(PING@)),
{
    let ping = bytes_of(PING);
    same_bytes(payload, ping.as_slice())
}

/// Whether a payload is a register report.
pub open spec fn get_can(payload: Seq<u8>) -> bool {
    ascii(GET_CAN@).is_prefix_of(payload)
}

/// Whether `payload` is a register report.
pub fn is_get_can(payload: &[u8]) -> (r: bool)
    ensures
        r == get_can(payload@),
{
    let head = bytes_of(GET_CAN);
    starts_with(payload, head.as_slice())
}

/// Whether a payload is a register report that asks for a retry: its byte 7 is
/// the digit zero.
pub open spec fn get_can_nack(payload: Seq<u8>) -> bool {
    get_can(payload) && payload.len() > 7 && payload[7] == 0x30
}

/// Whether `payload` is a register report that asks for a retry.
pub fn is_get_can_nack(payload: &[u8]) -> (r: bool)
    ensures
        r == get_can_nack(payload@),
{
    is_get_can(payload) && payload.len() > 7 && payload[7] == 0x30
}

/// Whether a payload is text that says the second bus is in use.
pub open spec fn can2_in_use(payload: Seq<u8>) -> bool {
    valid_utf8(payload) && has_text(decode_utf8(payload), CAN2_IN_USE@)
}

/// Whether `payload` is text that says the second bus is in use.
pub fn is_can2_in_use(payload: &[u8]) -> (r: bool)
    ensures
        r == can2_in_use(payload@),
{
    match decode_text(payload) {
        Some(text) => {
            let part = chars_of(CAN2_IN_USE);
            contains_text(text.as_slice(), part.as_slice())
        },
        None => false,
    }
}

/// The records of a register report.
pub open spec fn get_can_records(payload: Seq<u8>) -> Result<Seq<CanRecord>, WireError> {
    if !valid_utf8(payload) {
        Err(WireError::Incomplete)
    } else {
        let text = decode_utf8(payload);
        if !GET_CAN@.is_prefix_of(text) {
            Err(WireError::Incomplete)
        } else {
            records_of(words(text.skip(6)))
        }
    }
}

/// Parses the records of a register report.
pub fn parse_get_can(payload: &[u8]) -> (r: Result<Vec<CanRecord>, WireError>)
    ensures
        match r {
            Ok(v) => get_can_records(payload@) == Ok::<Seq<CanRecord>, WireError>(v@),
            Err(e) => get_can_records(payload@) == Err::<Seq<CanRecord>, WireError>(e),
        },
{
    match decode_text(payload) {
        None => Err(WireError::Incomplete),
        Some(text) => {
            let head = chars_of(GET_CAN);
            if !starts_with_text(text.as_slice(), head.as_slice()) {
                return Err(WireError::Incomplete);
            }
            proof {
                reveal_strlit("getCAN");
            }
            parse_words(text.as_slice(), 6)
        },
    }
}

/// The digits of records with a space between them.
pub open spec fn joined_digits(records: Seq<CanRecord>) -> Seq<char>
    decreases records.len(),
{
    if records.len() == 0 {
        seq![]
    } else if records.len() == 1 {
        record_digits(records[0])
    } else {
        record_digits(records[0]) + seq![' '] + joined_digits(records.drop_first())
    }
}

/// The payload that sends records to the control box.
pub open spec fn set_can(records: Seq<CanRecord>) -> Seq<u8> {
    ascii(EMPTY_SET_CAN@ + joined_digits(records))
}

/// One more record at the end.
proof fn lemma_joined_push(records: Seq<CanRecord>, rec: CanRecord)
    ensures
        joined_digits(records.push(rec)) == if records.len() == 0 {
            record_digits(rec)
        } else {
            joined_digits(records) + seq![' '] + record_digits(rec)
        },
    decreases records.len(),
{
    let all = records.push(rec);
    if records.len() == 0 {
    } else {
        assert(all.drop_first() =~= records.drop_first().push(rec));
        lemma_joined_push(records.drop_first(), rec);
        if records.len() == 1 {
            assert(records.drop_first() =~= seq![]);
        } else {
            let d = record_digits(records[0]);
            let s = seq![' '];
            let r = joined_digits(records.drop_first());
            assert(d + s + (r + s + record_digits(rec)) =~= (d + s + r) + s + record_digits(rec));
        }
    }
}

/// The digits of `records` with a space between them.
pub fn joined_text(records: &[CanRecord]) -> (text: String)
    ensures
        text@ == joined_digits(records@),
{
    let mut text = String::new();
    let mut i: usize = 0;
    proof {
        assert(records@.take(0) =~= seq![]);
        assert(text@ =~= joined_digits(records@.take(0)));
    }
    while i < records.len()
        invariant
            i <= records@.len(),
            text@ == joined_digits(records@.take(i as int)),
        decreases records@.len() - i,
    {
        let ghost done = records@.take(i as int);
        if i > 0 {
            text.push(' ');
        }
        let digits = records[i].to_wire();
        text.append(digits.as_str());
        proof {
            assert(records@.take(i + 1) =~= done.push(records@[i as int]));
            lemma_joined_push(done, records@[i as int]);
            if i == 0 {
                assert(done =~= seq![]);
            }
            assert(text@ =~= joined_digits(records@.take(i + 1)));
        }
        i = i + 1;
    }
    proof {
        assert(records@.take(i as int) =~= records@);
    }
    text
}

/// Builds the payload that sends `records` to the control box.
pub fn build_set_can(records: &[CanRecord]) -> (out: Vec<u8>)
    ensures
        out@ == set_can(records@),
{
    let mut text = String::from_str(EMPTY_SET_CAN);
    let digits = joined_text(records);
    text.append(digits.as_str());
    bytes_of(text.as_str())
}

/// The reply to an announcement of a unit: register `07` without content.
pub open spec fn jz18(unit_type: UnitType, unit_id: UnitId) -> CanRecord {
    CanRecord { unit_type, dest: Dest::ControlBox, unit_id, reg: RegId(0x07), data: zero_data() }
}

/// Builds the reply to an announcement of a unit.
pub fn build_jz18(unit_type: UnitType, unit_id: UnitId) -> (r: CanRecord)
    ensures
        r == jz18(unit_type, unit_id),
{
    let data: [u8; 7] = [0, 0, 0, 0, 0, 0, 0];
    proof {
        assert(data =~= zero_data());
    }
    CanRecord { unit_type, dest: Dest::ControlBox, unit_id, reg: RegId::new(0x07), data }
}

/// A record that can be told from its digits.
pub open spec fn transmissible(rec: CanRecord) -> bool {
    rec.unit_id@ <= UNIT_ID_MAX && rec.dest == Dest::of(rec.dest.byte())
}

/// Joined digits are ASCII, and their words are the records.
proof fn lemma_joined(records: Seq<CanRecord>)
    requires
        forall|i: int| 0 <= i < records.len() ==> transmissible(#[trigger] records[i]),
    ensures
        is_ascii_chars(joined_digits(records)),
        records_of(words(joined_digits(records))) == Ok::<Seq<CanRecord>, WireError>(records),
    decreases records.len(),
{
    if records.len() == 0 {
        assert(words(Seq::<char>::empty()) =~= seq![]) by {
            assert(crate::text::trim_start(Seq::<char>::empty()).len() == 0);
        }
        assert(records =~= seq![]);
    } else {
        let rec = records[0];
        let d = record_digits(rec);
        law_record_round_trip(rec);
        assert(is_ascii_chars(d)) by {
            assert(crate::registers::wire::all_hex(d));
            assert forall|i: int| 0 <= i < d.len() implies '\0' <= #[trigger] d[i] <= '\u{7f}' by {
                assert(crate::text::hex_value(d[i]) is Some);
            }
        }
        let rest = records.drop_first();
        assert forall|i: int| 0 <= i < rest.len() implies transmissible(#[trigger] rest[i]) by {
            assert(rest[i] == records[i + 1]);
        }
        lemma_joined(rest);
        lemma_words_cons(d, joined_digits(rest));
        let ws = words(joined_digits(records));
        assert(ws[0] == d);
        assert(d != seq!['1']) by {
            assert(d.len() == 25);
        }
        if records.len() == 1 {
            assert(rest =~= seq![]);
            assert(ws.drop_first() =~= seq![]);
        } else {
            assert(ws.drop_first() =~= words(joined_digits(rest)));
        }
        assert(seq![rec] + rest =~= records);
    }
}

/// Records arrive as they were sent: a report that carries the digits of
/// records, after its marker `1`, is read as those records.
pub proof fn law_report_carries_records(records: Seq<CanRecord>)
    requires
        forall|i: int| 0 <= i < records.len() ==> transmissible(#[trigger] records[i]),
    ensures
        get_can_records(ascii("getCAN 1 "@ + joined_digits(records))) == Ok::<
            Seq<CanRecord>,
            WireError,
        >(records),
{
    reveal_strlit("getCAN 1 ");
    reveal_strlit("getCAN");
    let head = "getCAN 1 "@;
    let body = joined_digits(records);
    let text = head + body;
    lemma_joined(records);
    assert(is_ascii_chars(text)) by {
        assert forall|i: int| 0 <= i < text.len() implies '\0' <= #[trigger] text[i] <= '\u{7f}' by {
            if i >= 9 {
                assert(text[i] == body[i - 9]);
            }
        }
    }
    lemma_ascii_bytes(text);
    assert(text.subrange(0, 6) =~= GET_CAN@);
    let after = text.skip(6);
    let marker = seq!['1'];
    assert(after =~= seq![' '] + (marker + seq![' '] + body));
    lemma_words_cons(marker, marker + seq![' '] + body);
    lemma_words_cons(marker, body);
    let ws = words(after);
    assert(ws[0] == marker);
    assert(ws.drop_first() =~= words(body));
}

/// Where the digits of each record stand among joined digits.
proof fn lemma_joined_places(records: Seq<CanRecord>)
    requires
        forall|i: int| 0 <= i < records.len() ==> (#[trigger] records[i]).unit_id@ <= UNIT_ID_MAX,
    ensures
        records.len() > 0 ==> joined_digits(records).len() == 26 * records.len() - 1,
        records.len() == 0 ==> joined_digits(records).len() == 0,
        forall|i: int|
            0 <= i < records.len() ==> joined_digits(records).subrange(26 * i, 26 * i + 25)
                == record_digits(#[trigger] records[i]),
        forall|i: int|
            1 <= i < records.len() ==> joined_digits(records).subrange(26 * i - 1, 26 * i + 25)
                == seq![' '] + record_digits(#[trigger] records[i]),
    decreases records.len(),
{
    if records.len() > 0 {
        let all = joined_digits(records);
        let rest = records.drop_first();
        let later = joined_digits(rest);
        let d = record_digits(records[0]);
        law_digits_of_a_record(records[0]);
        assert forall|i: int| 0 <= i < rest.len() implies (#[trigger] rest[i]).unit_id@
            <= UNIT_ID_MAX by {
            assert(rest[i] == records[i + 1]);
        }
        lemma_joined_places(rest);
        assert forall|i: int| 0 <= i < records.len() implies all.subrange(26 * i, 26 * i + 25)
            == record_digits(#[trigger] records[i]) by {
            if i == 0 {
                assert(all.subrange(0, 25) =~= d);
            } else {
                assert(rest[i - 1] == records[i]);
                assert(later.subrange(26 * (i - 1), 26 * (i - 1) + 25) == record_digits(
                    rest[i - 1],
                ));
                assert(all.subrange(26 * i, 26 * i + 25) =~= later.subrange(
                    26 * (i - 1),
                    26 * (i - 1) + 25,
                ));
            }
        }
        assert forall|i: int| 1 <= i < records.len() implies all.subrange(26 * i - 1, 26 * i + 25)
            == seq![' '] + record_digits(#[trigger] records[i]) by {
            assert(rest[i - 1] == records[i]);
            let here = all.subrange(26 * i - 1, 26 * i + 25);
            assert(here.skip(1) =~= all.subrange(26 * i, 26 * i + 25));
            assert(here[0] == ' ') by {
                if i > 1 {
                    let before = later.subrange(26 * (i - 1) - 1, 26 * (i - 1) + 25);
                    assert(before == seq![' '] + record_digits(rest[i - 1]));
                    assert(before[0] == later[26 * (i - 1) - 1]);
                    assert(all[26 * i - 1] == later[26 * (i - 1) - 1]);
                }
            }
            assert(here =~= seq![' '] + here.skip(1));
        }
    }
}

/// What the box reads out of a write window is the queue: behind `setCAN ` stand the
/// digits of all the records, in order and with one space between two of them, and read
/// as words they are the records again, however many there are.
pub proof fn law_window_carries_the_queue(records: Seq<CanRecord>)
    requires
        forall|i: int| 0 <= i < records.len() ==> transmissible(#[trigger] records[i]),
    ensures
        valid_utf8(set_can(records)),
        ({
            let text = decode_utf8(set_can(records));
            &&& set_can(records).len() == text.len()
            &&& text.take(7) == seq!['s', 'e', 't', 'C', 'A', 'N', ' ']
            &&& records.len() == 0 ==> text.len() == 7
            &&& records.len() > 0 ==> text.len() == 6 + 26 * records.len()
            &&& forall|i: int|
                0 <= i < records.len() ==> text.subrange(6 + 26 * i, 32 + 26 * i) == seq![' ']
                    + record_digits(#[trigger] records[i])
            &&& records_of(words(text.skip(7))) == Ok::<Seq<CanRecord>, WireError>(records)
        }),
{
    reveal_strlit("setCAN ");
    let head = EMPTY_SET_CAN@;
    let body = joined_digits(records);
    let text = head + body;
    lemma_joined(records);
    lemma_joined_places(records);
    assert(is_ascii_chars(text)) by {
        assert forall|i: int| 0 <= i < text.len() implies '\0' <= #[trigger] text[i] <= '\u{7f}' by {
            if i >= 7 {
                assert(text[i] == body[i - 7]);
            }
        }
    }
    lemma_ascii_bytes(text);
    assert(text.take(7) =~= seq!['s', 'e', 't', 'C', 'A', 'N', ' ']);
    assert(text.skip(7) =~= body);
    assert forall|i: int| 0 <= i < records.len() implies text.subrange(6 + 26 * i, 32 + 26 * i)
        == seq![' '] + record_digits(#[trigger] records[i]) by {
        let here = text.subrange(6 + 26 * i, 32 + 26 * i);
        if i == 0 {
            assert(here.skip(1) =~= body.subrange(0, 25));
            assert(here =~= seq![' '] + here.skip(1));
        } else {
            assert(here =~= body.subrange(26 * i - 1, 26 * i + 25));
        }
    }
}

/// The bytes of a write window: `setCAN`, and for each record of the queue, whatever it
/// holds, a space and its digits, in order, and nothing else.
pub proof fn law_window_has_every_record(records: Seq<CanRecord>, i: int, k: int)
    requires
        forall|j: int| 0 <= j < records.len() ==> (#[trigger] records[j]).unit_id@ <= 0xf_ffff,
        0 <= i < records.len(),
        0 <= k < 25,
    ensures
        set_can(records).len() == 6 + 26 * records.len(),
        set_can(records).take(6) == seq![0x73u8, 0x65u8, 0x74u8, 0x43u8, 0x41u8, 0x4eu8],
        set_can(records)[6 + 26 * i] == 0x20,
        set_can(records)[7 + 26 * i + k] == record_digits(records[i])[k] as u8,
{
    reveal_strlit("setCAN ");
    let body = joined_digits(records);
    let text = EMPTY_SET_CAN@ + body;
    lemma_joined_places(records);
    law_digits_of_a_record(records[i]);
    assert(set_can(records).take(6) =~= seq![0x73u8, 0x65u8, 0x74u8, 0x43u8, 0x41u8, 0x4eu8]);
    let d = body.subrange(26 * i, 26 * i + 25);
    assert(d == record_digits(records[i]));
    assert(d[k] == text[7 + 26 * i + k]);
    if i > 0 {
        let here = body.subrange(26 * i - 1, 26 * i + 25);
        assert(here == seq![' '] + record_digits(records[i]));
        assert(here[0] == text[6 + 26 * i]);
    }
}

} // verus!
