//! Register records as fixed-width hexadecimal text.
use crate::registers::ids::{
    group_unit_id, id_digits, lemma_id_digits, push_id_digits, IdError, RegId, UnitId, UnitType,
    UNIT_ID_MAX,
};
use crate::text::{
    chars_of, hex_byte, hex_char, hex_digit, hex_number, hex_text, hex_value, is_white,
    lemma_hex_byte, lemma_hex_char, lemma_hex_number_bound, lemma_hex_number_digits,
    lemma_hex_text, lower_hex, next_word, pow16, push_hex_byte, read_hex, trim, trim_bounds, words,
};
use vstd::prelude::*;
use vstd::std_specs::convert::FromSpecImpl;
use vstd::utf8::{encode_scalar, encode_utf8, is_ascii_chars, is_ascii_chars_encode_utf8};

verus! {

/// Number of hexadecimal digits of one record.
pub const RECORD_HEX_LEN: usize = 25;

/// Destination byte of a record.
#[derive(Debug, Clone, Copy, PartialEq, Eq, Hash, Structural)]
pub enum Dest {
    /// For the control box (`0x01`).
    ControlBox,
    /// For the tablet (`0x03`).
    Tablet,
    /// Any other byte.
    Unknown(u8),
}

impl Dest {
    /// The destination that a byte means.
    pub open spec fn of(value: u8) -> Dest {
        if value == 0x01 {
            Dest::ControlBox
        } else if value == 0x03 {
            Dest::Tablet
        } else {
            Dest::Unknown(value)
        }
    }

    /// The byte of a destination.
    pub open spec fn byte(self) -> u8 {
        match self {
            Dest::ControlBox => 0x01,
            Dest::Tablet => 0x03,
            Dest::Unknown(v) => v,
        }
    }

    /// Maps a raw destination byte.
    pub fn from_u8(value: u8) -> (r: Dest)
        ensures
            r == Dest::of(value),
    {
        match value {
            0x01 => Dest::ControlBox,
            0x03 => Dest::Tablet,
            other => Dest::Unknown(other),
        }
    }

    /// The raw destination byte.
    pub fn to_u8(self) -> (r: u8)
        ensures
            r == self.byte(),
    {
        match self {
            Dest::ControlBox => 0x01,
            Dest::Tablet => 0x03,
            Dest::Unknown(v) => v,
        }
    }
}

impl FromSpecImpl<u8> for Dest {
    open spec fn obeys_from_spec() -> bool {
        true
    }

    open spec fn from_spec(v: u8) -> Dest {
        Dest::of(v)
    }
}

impl From<u8> for Dest {
    fn from(v: u8) -> (r: Dest) {
        Dest::from_u8(v)
    }
}

impl FromSpecImpl<Dest> for u8 {
    open spec fn obeys_from_spec() -> bool {
        true
    }

    open spec fn from_spec(v: Dest) -> u8 {
        v.byte()
    }
}

impl From<Dest> for u8 {
    fn from(v: Dest) -> (r: u8) {
        v.to_u8()
    }
}

/// One register record: unit type, destination, unit id, register, payload.
#[derive(Debug, Clone, Copy, PartialEq, Eq, Hash)]
pub struct CanRecord {
    /// Top-level unit type.
    pub unit_type: UnitType,
    /// Destination.
    pub dest: Dest,
    /// 20-bit unit identifier.
    pub unit_id: UnitId,
    /// Register identifier.
    pub reg: RegId,
    /// Opaque 7-byte payload.
    pub data: [u8; 7],
}

/// Errors of parsing records.
#[derive(Debug, Clone, Copy, PartialEq, Eq, Structural)]
pub enum WireError {
    /// The text is not exactly one record long.
    Incomplete,
    /// A character is no hexadecimal digit.
    BadHex,
    /// An identifier field is out of its domain.
    InvalidId,
}

impl FromSpecImpl<IdError> for WireError {
    open spec fn obeys_from_spec() -> bool {
        true
    }

    open spec fn from_spec(v: IdError) -> WireError {
        match v {
            IdError::BadHex => WireError::BadHex,
            IdError::OutOfRange => WireError::InvalidId,
        }
    }
}

impl From<IdError> for WireError {
    fn from(v: IdError) -> (r: WireError) {
        match v {
            IdError::BadHex => WireError::BadHex,
            IdError::OutOfRange => WireError::InvalidId,
        }
    }
}

/// The 25 lower-case digits of a record.
pub open spec fn record_digits(rec: CanRecord) -> Seq<char> {
    hex_byte(rec.unit_type.0) + hex_byte(rec.dest.byte()) + id_digits(rec.unit_id@) + hex_byte(
        rec.reg.0,
    ) + hex_text(rec.data@)
}

/// Byte written as the two digits of `t` from position `at`.
pub open spec fn byte_at(t: Seq<char>, at: int) -> u8 {
    (hex_number(t.subrange(at, at + 2))->0) as u8
}

/// Whether every character is a hexadecimal digit.
pub open spec fn all_hex(t: Seq<char>) -> bool {
    forall|i: int| 0 <= i < t.len() ==> hex_value(#[trigger] t[i]) is Some
}

/// The record that 25 hexadecimal digits mean.
#[verifier::opaque]
pub open spec fn record_from_digits(t: Seq<char>) -> CanRecord {
    CanRecord {
        unit_type: UnitType(byte_at(t, 0)),
        dest: Dest::of(byte_at(t, 2)),
        unit_id: UnitId::of(hex_number(t.subrange(4, 9))->0 as u32),
        reg: RegId(byte_at(t, 9)),
        data: [
            byte_at(t, 11),
            byte_at(t, 13),
            byte_at(t, 15),
            byte_at(t, 17),
            byte_at(t, 19),
            byte_at(t, 21),
            byte_at(t, 23),
        ],
    }
}

/// The record of a token: 25 bytes of text, all hexadecimal digits.
pub open spec fn record_of(t: Seq<char>) -> Result<CanRecord, WireError> {
    if encode_utf8(t).len() != 25 {
        Err(WireError::Incomplete)
    } else if !all_hex(t) {
        Err(WireError::BadHex)
    } else {
        Ok(record_from_digits(t))
    }
}

/// The records of a list of words, where the word `1` is skipped and the first
/// bad word decides.
pub open spec fn records_of(ws: Seq<Seq<char>>) -> Result<Seq<CanRecord>, WireError>
    decreases ws.len(),
{
    if ws.len() == 0 {
        Ok(seq![])
    } else if ws[0] == seq!['1'] {
        records_of(ws.drop_first())
    } else {
        match record_of(ws[0]) {
            Err(e) => Err(e),
            Ok(rec) => match records_of(ws.drop_first()) {
                Err(e) => Err(e),
                Ok(more) => Ok(seq![rec] + more),
            },
        }
    }
}

/// A text takes at least one byte for each character.
proof fn lemma_utf8_len(t: Seq<char>)
    ensures
        encode_utf8(t).len() >= t.len(),
    decreases t.len(),
{
    if t.len() > 0 {
        lemma_utf8_len(t.drop_first());
    }
}

/// Hexadecimal digits take one byte each.
proof fn lemma_hex_utf8_len(t: Seq<char>)
    requires
        all_hex(t),
    ensures
        encode_utf8(t).len() == t.len(),
{
    assert(is_ascii_chars(t)) by {
        assert forall|i: int| 0 <= i < t.len() implies '\0' <= #[trigger] t[i] <= '\u{7f}' by {
            assert(hex_value(t[i]) is Some);
        }
    }
    is_ascii_chars_encode_utf8(t);
}

/// Bytes that one character takes in UTF-8.
fn utf8_width(c: char) -> (n: usize)
    ensures
        n == encode_scalar(c as u32).len(),
        1 <= n <= 4,
{
    let v: u32 = c as u32;
    if v <= 0x7f {
        1
    } else if v <= 0x7ff {
        2
    } else if v <= 0xffff {
        3
    } else {
        4
    }
}

fn parse_token(t: &[char]) -> (r: Result<CanRecord, WireError>)
    ensures
        r == record_of(t@),
{
    proof {
        lemma_utf8_len(t@);
    }
    if t.len() > RECORD_HEX_LEN {
        return Err(WireError::Incomplete);
    }
    let mut width: usize = 0;
    let mut i: usize = t.len();
    proof {
        assert(t@.skip(i as int) =~= seq![]);
    }
    while i > 0
        invariant
            i <= t@.len() <= 25,
            width == encode_utf8(t@.skip(i as int)).len(),
            width <= 4 * (t@.len() - i),
        decreases i,
    {
        proof {
            let s = t@.skip(i - 1);
            assert(s[0] == t@[i - 1]);
            assert(s.drop_first() =~= t@.skip(i as int));
        }
        i = i - 1;
        width = width + utf8_width(t[i]);
    }
    proof {
        assert(t@.skip(0) =~= t@);
    }
    if width != RECORD_HEX_LEN {
        return Err(WireError::Incomplete);
    }
    let mut k: usize = 0;
    while k < t.len()
        invariant
            k <= t@.len(),
            forall|j: int| 0 <= j < k ==> hex_value(#[trigger] t@[j]) is Some,
            encode_utf8(t@).len() == 25,
        decreases t@.len() - k,
    {
        if hex_digit(t[k]).is_none() {
            proof {
                assert(hex_value(t@[k as int]) is None);
            }
            return Err(WireError::BadHex);
        }
        k = k + 1;
    }
    proof {
        lemma_hex_utf8_len(t@);
    }
    let unit_type = UnitType::new(hex_pair(t, 0));
    let dest = Dest::from_u8(hex_pair(t, 2));
    let number: u32 = hex_run(t, 4, 9);
    let reg = RegId::new(hex_pair(t, 9));
    let data: [u8; 7] = [
        hex_pair(t, 11),
        hex_pair(t, 13),
        hex_pair(t, 15),
        hex_pair(t, 17),
        hex_pair(t, 19),
        hex_pair(t, 21),
        hex_pair(t, 23),
    ];
    match UnitId::try_new(number) {
        Ok(unit_id) => {
            let rec = CanRecord { unit_type, dest, unit_id, reg, data };
            proof {
                reveal(record_from_digits);
                assert(rec.data =~= record_from_digits(t@).data);
            }
            Ok(rec)
        },
        Err(e) => Err(WireError::from(e)),
    }
}

fn hex_run(t: &[char], from: usize, to: usize) -> (r: u32)
    requires
        all_hex(t@),
        from <= to <= t@.len(),
        to - from <= 5,
    ensures
        hex_number(t@.subrange(from as int, to as int)) == Some(r as nat),
        r < pow16((to - from) as nat),
        r <= UNIT_ID_MAX,
        to - from == 2 ==> r < 256,
{
    let ghost d = t@.subrange(from as int, to as int);
    proof {
        lemma_hex_number_digits(d);
        assert forall|i: int| 0 <= i < d.len() implies hex_value(#[trigger] d[i]) is Some by {
            assert(d[i] == t@[from + i]);
        }
        lemma_hex_number_bound(d);
        reveal_with_fuel(pow16, 6);
    }
    match read_hex(t, from, to) {
        Some(n) => n,
        None => 0,
    }
}

fn hex_pair(t: &[char], at: usize) -> (b: u8)
    requires
        all_hex(t@),
        at + 2 <= t.len(),
    ensures
        b == byte_at(t@, at as int),
{
    let end: usize = at + 2;
    let n: u32 = hex_run(t, at, end);
    n as u8
}

/// The first of `more` after `done`, or the error that it brings.
spec fn joined(
    done: Seq<CanRecord>,
    more: Result<Seq<CanRecord>, WireError>,
) -> Result<Seq<CanRecord>, WireError> {
    match more {
        Ok(rs) => Ok(done + rs),
        Err(e) => Err(e),
    }
}

/// Parses the words of `chars` from `from` on.
pub fn parse_words(chars: &[char], from: usize) -> (r: Result<Vec<CanRecord>, WireError>)
    requires
        from <= chars@.len(),
    ensures
        match r {
            Ok(v) => records_of(words(chars@.skip(from as int))) == Ok::<
                Seq<CanRecord>,
                WireError,
            >(v@),
            Err(e) => records_of(words(chars@.skip(from as int))) == Err::<
                Seq<CanRecord>,
                WireError,
            >(e),
        },
{
    let mut out: Vec<CanRecord> = Vec::new();
    let mut at: usize = from;
    let ghost goal = records_of(words(chars@.skip(from as int)));
    proof {
        match goal {
            Ok(rs) => {
                assert(out@ + rs =~= rs);
            },
            Err(_) => {},
        }
    }
    loop
        invariant
            at <= chars@.len(),
            goal == records_of(words(chars@.skip(from as int))),
            goal == joined(out@, records_of(words(chars@.skip(at as int)))),
        decreases chars@.len() - at,
    {
        let ghost rest = words(chars@.skip(at as int));
        match next_word(chars, at) {
            None => {
                proof {
                    assert(out@ + Seq::<CanRecord>::empty() =~= out@);
                }
                return Ok(out);
            },
            Some((start, end)) => {
                let token = vstd::slice::slice_subrange(chars, start, end);
                proof {
                    assert(rest[0] == token@);
                    assert(rest.drop_first() =~= words(chars@.skip(end as int)));
                }
                let marker = end - start == 1 && chars[start] == '1';
                proof {
                    if marker {
                        assert(token@ =~= seq!['1']);
                    } else if token@ == seq!['1'] {
                        assert(token@.len() == 1);
                        assert(token@[0] == chars@[start as int]);
                    }
                }
                if !marker {
                    match parse_token(token) {
                        Ok(rec) => {
                            proof {
                                match records_of(rest.drop_first()) {
                                    Ok(more) => {
                                        assert(out@ + (seq![rec] + more) =~= out@.push(rec) + more);
                                    },
                                    Err(_) => {},
                                }
                            }
                            out.push(rec);
                        },
                        Err(e) => {
                            return Err(e);
                        },
                    }
                }
                at = end;
            },
        }
    }
}

impl CanRecord {
    /// Encodes the record as 25 lower-case digits.
    pub fn to_wire(&self) -> (text: String)
        ensures
            text@ == record_digits(*self),
    {
        let mut text = String::new();
        push_hex_byte(&mut text, self.unit_type.get());
        push_hex_byte(&mut text, self.dest.to_u8());
        push_id_digits(&mut text, self.unit_id);
        push_hex_byte(&mut text, self.reg.get());
        let ghost head = text@;
        proof {
            assert(head =~= hex_byte(self.unit_type.0) + hex_byte(self.dest.byte()) + id_digits(
                self.unit_id@,
            ) + hex_byte(self.reg.0));
            assert(self.data@.take(0) =~= seq![]);
        }
        let mut i: usize = 0;
        while i < 7
            invariant
                i <= 7,
                text@ == head + hex_text(self.data@.take(i as int)),
            decreases 7 - i,
        {
            push_hex_byte(&mut text, self.data[i]);
            proof {
                let next = self.data@.take(i + 1);
                assert(next.drop_last() =~= self.data@.take(i as int));
                assert(text@ =~= head + hex_text(next));
            }
            i = i + 1;
        }
        proof {
            assert(self.data@.take(7) =~= self.data@);
        }
        text
    }

    /// Parses one record, whitespace around it aside.
    pub fn parse_one(s: &str) -> (r: Result<CanRecord, WireError>)
        ensures
            r == record_of(trim(s@)),
    {
        let chars = chars_of(s);
        let (start, end) = trim_bounds(chars.as_slice());
        parse_token(vstd::slice::slice_subrange(chars.as_slice(), start, end))
    }

    /// Parses the records that stand between whitespace, skipping the word `1`.
    /// The first bad word decides.
    pub fn parse_many(s: &str) -> (r: Result<Vec<CanRecord>, WireError>)
        ensures
            match r {
                Ok(v) => records_of(words(s@)) == Ok::<Seq<CanRecord>, WireError>(v@),
                Err(e) => records_of(words(s@)) == Err::<Seq<CanRecord>, WireError>(e),
            },
    {
        let chars = chars_of(s);
        proof {
            assert(chars@.skip(0) =~= s@);
        }
        parse_words(chars.as_slice(), 0)
    }
}

/// The digits of a record, field by field.
proof fn lemma_record_digits(rec: CanRecord)
    requires
        rec.unit_id@ <= UNIT_ID_MAX,
    ensures
        ({
            let t = record_digits(rec);
            &&& t.len() == 25
            &&& all_hex(t)
            &&& t.subrange(0, 2) == hex_byte(rec.unit_type.0)
            &&& t.subrange(2, 4) == hex_byte(rec.dest.byte())
            &&& t.subrange(4, 9) == id_digits(rec.unit_id@)
            &&& t.subrange(9, 11) == hex_byte(rec.reg.0)
            &&& forall|i: int|
                0 <= i < 7 ==> #[trigger] t.subrange(11 + 2 * i, 13 + 2 * i) == hex_byte(
                    rec.data@[i],
                )
        }),
{
    let t = record_digits(rec);
    let d = hex_text(rec.data@);
    lemma_hex_text(rec.data@);
    assert(t.subrange(0, 2) =~= hex_byte(rec.unit_type.0));
    assert(t.subrange(2, 4) =~= hex_byte(rec.dest.byte()));
    assert(t.subrange(4, 9) =~= id_digits(rec.unit_id@));
    assert(t.subrange(9, 11) =~= hex_byte(rec.reg.0));
    assert forall|i: int| 0 <= i < 7 implies #[trigger] t.subrange(11 + 2 * i, 13 + 2 * i)
        == hex_byte(rec.data@[i]) by {
        assert(t.subrange(11 + 2 * i, 13 + 2 * i) =~= d.subrange(2 * i, 2 * i + 2));
    }
    assert forall|k: int| 0 <= k < t.len() implies hex_value(#[trigger] t[k]) is Some by {
        lemma_byte_digits(rec.unit_type.0);
        lemma_byte_digits(rec.dest.byte());
        lemma_byte_digits(rec.reg.0);
        let v = rec.unit_id@ as int;
        lemma_hex_char(v / 65536 % 16);
        lemma_hex_char(v / 4096 % 16);
        lemma_hex_char(v / 256 % 16);
        lemma_hex_char(v / 16 % 16);
        lemma_hex_char(v % 16);
        if k >= 11 {
            let i = (k - 11) / 2;
            lemma_byte_digits(rec.data@[i]);
            let pair = t.subrange(11 + 2 * i, 13 + 2 * i);
            assert(pair == hex_byte(rec.data@[i]));
            assert(t[k] == pair[k - 11 - 2 * i]);
        }
    }
}

proof fn lemma_byte_digits(b: u8)
    ensures
        hex_byte(b).len() == 2,
        hex_value(hex_byte(b)[0]) is Some,
        hex_value(hex_byte(b)[1]) is Some,
        hex_number(hex_byte(b)) == Some(b as nat),
{
    lemma_hex_byte(b);
    lemma_hex_char(b as int / 16);
    lemma_hex_char(b as int % 16);
}

/// A record reads back from its digits, for every destination that a byte
/// means.
pub proof fn law_record_round_trip(rec: CanRecord)
    requires
        rec.unit_id@ <= UNIT_ID_MAX,
        rec.dest == Dest::of(rec.dest.byte()),
    ensures
        record_of(record_digits(rec)) == Ok::<CanRecord, WireError>(rec),
        record_digits(rec).len() == RECORD_HEX_LEN,
        forall|i: int| 0 <= i < 25 ==> !is_white(#[trigger] record_digits(rec)[i]),
{
    broadcast use group_unit_id;

    let t = record_digits(rec);
    reveal(record_from_digits);
    lemma_record_digits(rec);
    lemma_hex_utf8_len(t);
    lemma_byte_digits(rec.unit_type.0);
    lemma_byte_digits(rec.dest.byte());
    lemma_byte_digits(rec.reg.0);
    lemma_id_digits(rec.unit_id@);
    let back = record_from_digits(t);
    assert forall|i: int| 0 <= i < 7 implies back.data[i] == rec.data[i] by {
        lemma_byte_digits(rec.data@[i]);
        assert(t.subrange(11 + 2 * i, 13 + 2 * i) == hex_byte(rec.data@[i]));
        assert(byte_at(t, 11 + 2 * i) == rec.data@[i]);
    }
    assert(back.data =~= rec.data);
    assert forall|i: int| 0 <= i < 25 implies !is_white(#[trigger] t[i]) by {
        assert(hex_value(t[i]) is Some);
    }
}

/// Two hexadecimal digits, lower-cased, are the digits of the byte they mean.
proof fn lemma_pair_digits(d: Seq<char>)
    requires
        d.len() == 2,
        all_hex(d),
    ensures
        hex_number(d) is Some,
        hex_number(d)->0 < 256,
        hex_byte(hex_number(d)->0 as u8) == lower_hex(d),
{
    let h = hex_value(d[0])->0 as int;
    let l = hex_value(d[1])->0 as int;
    assert(d.drop_last() =~= seq![d[0]]);
    assert(d.drop_last().drop_last() =~= seq![]);
    reveal_with_fuel(hex_number, 3);
    assert(hex_number(d) == Some((h * 16 + l) as nat));
    assert((h * 16 + l) / 16 == h && (h * 16 + l) % 16 == l);
    assert(hex_byte((h * 16 + l) as u8) =~= lower_hex(d));
}

/// Five hexadecimal digits, lower-cased, are the digits of the id they mean.
proof fn lemma_five_digits(d: Seq<char>)
    requires
        d.len() == 5,
        all_hex(d),
    ensures
        hex_number(d) is Some,
        hex_number(d)->0 <= UNIT_ID_MAX,
        id_digits(hex_number(d)->0 as u32) == lower_hex(d),
{
    let v0 = hex_value(d[0])->0 as int;
    let v1 = hex_value(d[1])->0 as int;
    let v2 = hex_value(d[2])->0 as int;
    let v3 = hex_value(d[3])->0 as int;
    let v4 = hex_value(d[4])->0 as int;
    let d4 = d.drop_last();
    let d3 = d4.drop_last();
    let d2 = d3.drop_last();
    let d1 = d2.drop_last();
    assert(d1.drop_last() =~= seq![]);
    assert(hex_number(d1.drop_last()) == Some(0nat));
    assert(d1.last() == d[0] && d2.last() == d[1] && d3.last() == d[2] && d4.last() == d[3]);
    assert(hex_value(d[0]) is Some && hex_value(d[1]) is Some && hex_value(d[2]) is Some
        && hex_value(d[3]) is Some && hex_value(d[4]) is Some);
    assert(hex_number(d1) == Some(v0 as nat));
    assert(hex_number(d2) == Some((v0 * 16 + v1) as nat));
    assert(hex_number(d3) == Some(((v0 * 16 + v1) * 16 + v2) as nat));
    assert(hex_number(d4) == Some((((v0 * 16 + v1) * 16 + v2) * 16 + v3) as nat));
    let n = (((v0 * 16 + v1) * 16 + v2) * 16 + v3) * 16 + v4;
    assert(hex_number(d) == Some(n as nat));
    lemma_five_nibbles(v0, v1, v2, v3, v4);
    let low = lower_hex(d);
    assert(low[0] == hex_char(v0) && low[1] == hex_char(v1) && low[2] == hex_char(v2) && low[3]
        == hex_char(v3) && low[4] == hex_char(v4));
    assert(id_digits(n as u32) =~= low);
}

proof fn lemma_five_nibbles(v0: int, v1: int, v2: int, v3: int, v4: int)
    requires
        0 <= v0 < 16,
        0 <= v1 < 16,
        0 <= v2 < 16,
        0 <= v3 < 16,
        0 <= v4 < 16,
    ensures
        ({
            let n = (((v0 * 16 + v1) * 16 + v2) * 16 + v3) * 16 + v4;
            &&& 0 <= n <= UNIT_ID_MAX
            &&& n / 65536 % 16 == v0
            &&& n / 4096 % 16 == v1
            &&& n / 256 % 16 == v2
            &&& n / 16 % 16 == v3
            &&& n % 16 == v4
        }),
{
    let n = (((v0 * 16 + v1) * 16 + v2) * 16 + v3) * 16 + v4;
    assert(n / 16 == ((v0 * 16 + v1) * 16 + v2) * 16 + v3);
    assert(n / 256 == (v0 * 16 + v1) * 16 + v2);
    assert(n / 4096 == v0 * 16 + v1);
    assert(n / 65536 == v0);
}

/// What a record was read from is its digits, upper case made lower.
pub proof fn law_record_text(t: Seq<char>)
    requires
        record_of(t) is Ok,
    ensures
        record_digits(record_of(t)->Ok_0) == lower_hex(t),
        record_of(t)->Ok_0.unit_id@ <= UNIT_ID_MAX,
{
    broadcast use group_unit_id;

    reveal(record_from_digits);
    let rec = record_from_digits(t);
    let u = record_digits(rec);
    lemma_hex_utf8_len(t);
    assert forall|a: int, b: int| 0 <= a <= b <= 25 implies all_hex(#[trigger] t.subrange(a, b)) by {
        assert forall|i: int| 0 <= i < b - a implies hex_value(
            #[trigger] t.subrange(a, b)[i],
        ) is Some by {
            assert(t.subrange(a, b)[i] == t[a + i]);
        }
    }
    lemma_pair_digits(t.subrange(0, 2));
    lemma_pair_digits(t.subrange(2, 4));
    lemma_five_digits(t.subrange(4, 9));
    lemma_pair_digits(t.subrange(9, 11));
    lemma_record_digits(rec);
    let low = lower_hex(t);
    assert(u.subrange(0, 2) =~= low.subrange(0, 2)) by {
        assert(lower_hex(t.subrange(0, 2)) =~= low.subrange(0, 2));
    }
    assert(u.subrange(2, 4) =~= low.subrange(2, 4)) by {
        assert(lower_hex(t.subrange(2, 4)) =~= low.subrange(2, 4));
    }
    assert(u.subrange(4, 9) =~= low.subrange(4, 9)) by {
        assert(lower_hex(t.subrange(4, 9)) =~= low.subrange(4, 9));
    }
    assert(u.subrange(9, 11) =~= low.subrange(9, 11)) by {
        assert(lower_hex(t.subrange(9, 11)) =~= low.subrange(9, 11));
    }
    assert forall|i: int| 0 <= i < 7 implies #[trigger] u.subrange(11 + 2 * i, 13 + 2 * i)
        == low.subrange(11 + 2 * i, 13 + 2 * i) by {
        let p = t.subrange(11 + 2 * i, 13 + 2 * i);
        lemma_pair_digits(p);
        assert(rec.data@[i] == byte_at(t, 11 + 2 * i));
        assert(lower_hex(p) =~= low.subrange(11 + 2 * i, 13 + 2 * i));
    }
    lemma_same_segments(u, low);
}

proof fn lemma_same_segments(u: Seq<char>, v: Seq<char>)
    requires
        u.len() == 25,
        v.len() == 25,
        u.subrange(0, 2) == v.subrange(0, 2),
        u.subrange(2, 4) == v.subrange(2, 4),
        u.subrange(4, 9) == v.subrange(4, 9),
        u.subrange(9, 11) == v.subrange(9, 11),
        forall|i: int|
            0 <= i < 7 ==> #[trigger] u.subrange(11 + 2 * i, 13 + 2 * i) == v.subrange(
                11 + 2 * i,
                13 + 2 * i,
            ),
    ensures
        u == v,
{
    assert forall|k: int| 0 <= k < 25 implies u[k] == v[k] by {
        if k < 2 {
            assert(u.subrange(0, 2)[k] == u[k]);
            assert(v.subrange(0, 2)[k] == v[k]);
        } else if k < 4 {
            assert(u.subrange(2, 4)[k - 2] == u[k]);
            assert(v.subrange(2, 4)[k - 2] == v[k]);
        } else if k < 9 {
            assert(u.subrange(4, 9)[k - 4] == u[k]);
            assert(v.subrange(4, 9)[k - 4] == v[k]);
        } else if k < 11 {
            assert(u.subrange(9, 11)[k - 9] == u[k]);
            assert(v.subrange(9, 11)[k - 9] == v[k]);
        } else {
            let i = (k - 11) / 2;
            let o = k - 11 - 2 * i;
            assert(0 <= i < 7 && 0 <= o < 2);
            assert(u.subrange(11 + 2 * i, 13 + 2 * i) == v.subrange(11 + 2 * i, 13 + 2 * i));
            assert(u.subrange(11 + 2 * i, 13 + 2 * i)[o] == u[k]);
            assert(v.subrange(11 + 2 * i, 13 + 2 * i)[o] == v[k]);
        }
    }
    assert(u =~= v);
}

/// Where each value of a record stands among its 25 digits: two for the unit type, two
/// for the destination, five for the unit id, two for the register and two for each
/// byte, all lower-case.
pub proof fn law_digits_of_a_record(rec: CanRecord)
    requires
        rec.unit_id@ <= UNIT_ID_MAX,
    ensures
        ({
            let t = record_digits(rec);
            &&& t.len() == 25
            &&& hex_number(t.subrange(0, 2)) == Some(rec.unit_type.0 as nat)
            &&& hex_number(t.subrange(2, 4)) == Some(rec.dest.byte() as nat)
            &&& hex_number(t.subrange(4, 9)) == Some(rec.unit_id@ as nat)
            &&& hex_number(t.subrange(9, 11)) == Some(rec.reg.0 as nat)
            &&& forall|i: int|
                0 <= i < 7 ==> hex_number(#[trigger] t.subrange(11 + 2 * i, 13 + 2 * i)) == Some(
                    rec.data@[i] as nat,
                )
            &&& lower_hex(t) == t
        }),
{
    let t = record_digits(rec);
    lemma_record_digits(rec);
    lemma_hex_byte(rec.unit_type.0);
    lemma_hex_byte(rec.dest.byte());
    lemma_hex_byte(rec.reg.0);
    lemma_id_digits(rec.unit_id@);
    assert forall|i: int| 0 <= i < 7 implies hex_number(
        #[trigger] t.subrange(11 + 2 * i, 13 + 2 * i),
    ) == Some(rec.data@[i] as nat) by {
        lemma_hex_byte(rec.data@[i]);
    }
    assert(lower_hex(t) =~= t) by {
        assert forall|k: int| 0 <= k < t.len() implies lower_hex(t)[k] == t[k] by {
            let v = rec.unit_id@ as int;
            if k < 2 {
                lemma_hex_char(rec.unit_type.0 as int / 16);
                lemma_hex_char(rec.unit_type.0 as int % 16);
                assert(t[k] == t.subrange(0, 2)[k]);
            } else if k < 4 {
                lemma_hex_char(rec.dest.byte() as int / 16);
                lemma_hex_char(rec.dest.byte() as int % 16);
                assert(t[k] == t.subrange(2, 4)[k - 2]);
            } else if k < 9 {
                lemma_hex_char(v / 65536 % 16);
                lemma_hex_char(v / 4096 % 16);
                lemma_hex_char(v / 256 % 16);
                lemma_hex_char(v / 16 % 16);
                lemma_hex_char(v % 16);
                assert(t[k] == t.subrange(4, 9)[k - 4]);
            } else if k < 11 {
                lemma_hex_char(rec.reg.0 as int / 16);
                lemma_hex_char(rec.reg.0 as int % 16);
                assert(t[k] == t.subrange(9, 11)[k - 9]);
            } else {
                let i = (k - 11) / 2;
                lemma_hex_char(rec.data@[i] as int / 16);
                lemma_hex_char(rec.data@[i] as int % 16);
                let pair = t.subrange(11 + 2 * i, 13 + 2 * i);
                assert(pair == hex_byte(rec.data@[i]));
                assert(t[k] == pair[k - 11 - 2 * i]);
            }
        }
    }
}

/// What 25 digits mean: the numbers at the places of the values. A text of another
/// length is incomplete, and one of that length with another character is no record.
pub proof fn law_record_of_digits(t: Seq<char>)
    ensures
        encode_utf8(t).len() != 25 ==> record_of(t) == Err::<CanRecord, WireError>(
            WireError::Incomplete,
        ),
        encode_utf8(t).len() == 25 && (exists|i: int|
            0 <= i < t.len() && hex_value(#[trigger] t[i]) is None) ==> record_of(t) == Err::<
            CanRecord,
            WireError,
        >(WireError::BadHex),
        t.len() == 25 && (forall|i: int|
            0 <= i < t.len() ==> hex_value(#[trigger] t[i]) is Some) ==> (record_of(
            t,
        ) matches Ok(rec) && hex_number(t.subrange(0, 2)) == Some(rec.unit_type.0 as nat)
            && hex_number(t.subrange(2, 4)) == Some(rec.dest.byte() as nat) && rec.dest == Dest::of(
            rec.dest.byte(),
        ) && hex_number(t.subrange(4, 9)) == Some(rec.unit_id@ as nat) && hex_number(
            t.subrange(9, 11),
        ) == Some(rec.reg.0 as nat) && hex_number(t.subrange(11, 13)) == Some(rec.data[0] as nat)
            && hex_number(t.subrange(13, 15)) == Some(rec.data[1] as nat) && hex_number(
            t.subrange(15, 17),
        ) == Some(rec.data[2] as nat) && hex_number(t.subrange(17, 19)) == Some(rec.data[3] as nat)
            && hex_number(t.subrange(19, 21)) == Some(rec.data[4] as nat) && hex_number(
            t.subrange(21, 23),
        ) == Some(rec.data[5] as nat) && hex_number(t.subrange(23, 25)) == Some(
            rec.data[6] as nat,
        )),
{
    broadcast use group_unit_id;

    if t.len() == 25 && all_hex(t) {
        reveal(record_from_digits);
        lemma_hex_utf8_len(t);
        lemma_part(t, 0, 2);
        lemma_part(t, 2, 4);
        lemma_part(t, 4, 9);
        lemma_part(t, 9, 11);
        lemma_part(t, 11, 13);
        lemma_part(t, 13, 15);
        lemma_part(t, 15, 17);
        lemma_part(t, 17, 19);
        lemma_part(t, 19, 21);
        lemma_part(t, 21, 23);
        lemma_part(t, 23, 25);
    }
}

/// A run of digits is a number that fits its place.
proof fn lemma_part(t: Seq<char>, from: int, to: int)
    requires
        all_hex(t),
        0 <= from <= to <= t.len(),
        to - from <= 5,
    ensures
        hex_number(t.subrange(from, to)) is Some,
        to - from == 2 ==> hex_number(t.subrange(from, to))->0 < 256,
        hex_number(t.subrange(from, to))->0 <= UNIT_ID_MAX,
{
    let d = t.subrange(from, to);
    assert forall|i: int| 0 <= i < d.len() implies hex_value(#[trigger] d[i]) is Some by {
        assert(d[i] == t[from + i]);
    }
    lemma_hex_number_digits(d);
    lemma_hex_number_bound(d);
    reveal_with_fuel(pow16, 6);
}

/// The records of words, from the first on: the word `1` is passed over, a bad word
/// decides, and a good one is the first record.
pub proof fn law_records_of_words(word: Seq<char>, rest: Seq<Seq<char>>)
    ensures
        records_of(Seq::empty()) == Ok::<Seq<CanRecord>, WireError>(Seq::empty()),
        word == seq!['1'] ==> records_of(seq![word] + rest) == records_of(rest),
        word != seq!['1'] && record_of(word) is Err ==> records_of(seq![word] + rest) == Err::<
            Seq<CanRecord>,
            WireError,
        >(record_of(word)->Err_0),
        word != seq!['1'] && record_of(word) is Ok && records_of(rest) is Ok ==> records_of(
            seq![word] + rest,
        ) == Ok::<Seq<CanRecord>, WireError>(seq![record_of(word)->Ok_0] + records_of(rest)->Ok_0),
        word != seq!['1'] && record_of(word) is Ok && records_of(rest) is Err ==> records_of(
            seq![word] + rest,
        ) == Err::<Seq<CanRecord>, WireError>(records_of(rest)->Err_0),
{
    let all = seq![word] + rest;
    assert(all.drop_first() =~= rest);
    assert(all[0] == word);
}

} // verus!
