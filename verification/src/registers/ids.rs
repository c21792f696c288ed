//! Typed identifiers of register records.
use crate::text::{
    chars_of, digit_of, hex_byte, hex_char, hex_number, lemma_hex_byte, lemma_hex_push, pow16,
    push_hex_byte, read_hex,
};
use vstd::prelude::*;
use vstd::std_specs::convert::{FromSpecImpl, TryFromSpecImpl};

verus! {

/// Largest 20-bit unit id.
pub const UNIT_ID_MAX: u32 = 0x000F_FFFF;

/// Why an identifier could not be made from a raw value.
#[derive(Debug, Clone, Copy, PartialEq, Eq, Structural)]
pub enum IdError {
    /// The value exceeds the domain (a unit id above 20 bits).
    OutOfRange,
    /// The text has the wrong length or a character that is no hex digit.
    BadHex,
}

/// Value of exactly two hexadecimal digits.
pub open spec fn byte_from_hex(s: Seq<char>) -> Option<u8> {
    match hex_number(s) {
        Some(n) => if s.len() == 2 {
            Some(n as u8)
        } else {
            None
        },
        None => None,
    }
}

/// Parses exactly two hexadecimal digits.
pub fn parse_hex_u8(s: &str) -> (r: Result<u8, IdError>)
    ensures
        match byte_from_hex(s@) {
            Some(b) => r == Ok::<u8, IdError>(b),
            None => r == Err::<u8, IdError>(IdError::BadHex),
        },
{
    let chars = chars_of(s);
    if chars.len() != 2 {
        return Err(IdError::BadHex);
    }
    proof {
        assert(chars@.subrange(0, 2) =~= s@);
        reveal_with_fuel(pow16, 3);
    }
    match read_hex(chars.as_slice(), 0, 2) {
        Some(n) => Ok(n as u8),
        None => Err(IdError::BadHex),
    }
}

/// Top-level unit type byte (air conditioning is `0x07`, lights `0x02`).
#[derive(Debug, Clone, Copy, PartialEq, Eq, Hash, Structural)]
pub struct UnitType(pub u8);

impl UnitType {
    /// Air conditioning unit (`0x07`).
    #[verifier::allow_in_spec]
    pub fn aircon() -> UnitType
        returns
            UnitType(0x07),
    {
        UnitType(0x07)
    }

    /// Wraps a raw unit-type byte.
    pub fn new(value: u8) -> (r: UnitType)
        ensures
            r == UnitType(value),
    {
        UnitType(value)
    }

    /// The raw byte.
    pub fn get(self) -> (r: u8)
        ensures
            r == self.0,
    {
        self.0
    }

    /// Parses exactly two hex digits of either case.
    pub fn from_hex(s: &str) -> (r: Result<UnitType, IdError>)
        ensures
            match byte_from_hex(s@) {
                Some(b) => r == Ok::<UnitType, IdError>(UnitType(b)),
                None => r == Err::<UnitType, IdError>(IdError::BadHex),
            },
    {
        match parse_hex_u8(s) {
            Ok(b) => Ok(UnitType(b)),
            Err(e) => Err(e),
        }
    }

    /// Two lower-case hex digits.
    pub fn to_hex(self) -> (text: String)
        ensures
            text@ == hex_byte(self.0),
    {
        let mut text = String::new();
        push_hex_byte(&mut text, self.0);
        proof {
            assert(text@ =~= hex_byte(self.0));
        }
        text
    }
}

impl FromSpecImpl<u8> for UnitType {
    open spec fn obeys_from_spec() -> bool {
        true
    }

    open spec fn from_spec(v: u8) -> UnitType {
        UnitType(v)
    }
}

impl From<u8> for UnitType {
    fn from(v: u8) -> (r: UnitType) {
        UnitType(v)
    }
}

impl FromSpecImpl<UnitType> for u8 {
    open spec fn obeys_from_spec() -> bool {
        true
    }

    open spec fn from_spec(v: UnitType) -> u8 {
        v.0
    }
}

impl From<UnitType> for u8 {
    fn from(v: UnitType) -> (r: u8) {
        v.0
    }
}

/// Register identifier byte.
#[derive(Debug, Clone, Copy, PartialEq, Eq, Hash, Structural)]
pub struct RegId(pub u8);

impl RegId {
    /// Wraps a raw register byte.
    pub fn new(value: u8) -> (r: RegId)
        ensures
            r == RegId(value),
    {
        RegId(value)
    }

    /// The raw byte.
    pub fn get(self) -> (r: u8)
        ensures
            r == self.0,
    {
        self.0
    }

    /// Parses exactly two hex digits of either case.
    pub fn from_hex(s: &str) -> (r: Result<RegId, IdError>)
        ensures
            match byte_from_hex(s@) {
                Some(b) => r == Ok::<RegId, IdError>(RegId(b)),
                None => r == Err::<RegId, IdError>(IdError::BadHex),
            },
    {
        match parse_hex_u8(s) {
            Ok(b) => Ok(RegId(b)),
            Err(e) => Err(e),
        }
    }

    /// Two lower-case hex digits.
    pub fn to_hex(self) -> (text: String)
        ensures
            text@ == hex_byte(self.0),
    {
        let mut text = String::new();
        push_hex_byte(&mut text, self.0);
        proof {
            assert(text@ =~= hex_byte(self.0));
        }
        text
    }
}

impl FromSpecImpl<u8> for RegId {
    open spec fn obeys_from_spec() -> bool {
        true
    }

    open spec fn from_spec(v: u8) -> RegId {
        RegId(v)
    }
}

impl From<u8> for RegId {
    fn from(v: u8) -> (r: RegId) {
        RegId(v)
    }
}

impl FromSpecImpl<RegId> for u8 {
    open spec fn obeys_from_spec() -> bool {
        true
    }

    open spec fn from_spec(v: RegId) -> u8 {
        v.0
    }
}

impl From<RegId> for u8 {
    fn from(v: RegId) -> (r: u8) {
        v.0
    }
}

/// 20-bit unit identifier.
#[derive(Debug, Clone, Copy, PartialEq, Eq, Hash, Structural)]
pub struct UnitId(u32);

/// Five lower-case hex digits of a 20-bit number.
pub open spec fn id_digits(value: u32) -> Seq<char> {
    seq![
        hex_char(value as int / 65536 % 16),
        hex_char(value as int / 4096 % 16),
        hex_char(value as int / 256 % 16),
        hex_char(value as int / 16 % 16),
        hex_char(value as int % 16),
    ]
}

/// A 20-bit number is made of its five nibbles.
proof fn lemma_nibbles(v: int)
    requires
        0 <= v <= UNIT_ID_MAX,
    ensures
        (((v / 65536 % 16 * 16 + v / 4096 % 16) * 16 + v / 256 % 16) * 16 + v / 16 % 16) * 16 + v
            % 16 == v,
{
    assert(v / 16 == v / 256 * 16 + v / 16 % 16) by {
        assert(v / 16 / 16 == v / 256);
    }
    assert(v / 256 == v / 4096 * 16 + v / 256 % 16) by {
        assert(v / 256 / 16 == v / 4096);
    }
    assert(v / 4096 == v / 65536 * 16 + v / 4096 % 16) by {
        assert(v / 4096 / 16 == v / 65536);
    }
    assert(v / 65536 % 16 == v / 65536);
}

/// The digits of a 20-bit number read back as that number.
pub proof fn lemma_id_digits(value: u32)
    requires
        value <= UNIT_ID_MAX,
    ensures
        hex_number(id_digits(value)) == Some(value as nat),
{
    let v = value as int;
    lemma_nibbles(v);
    lemma_number_of_nibbles(v / 65536 % 16, v / 4096 % 16, v / 256 % 16, v / 16 % 16, v % 16);
    assert(id_digits(value) =~= seq![
        hex_char(v / 65536 % 16),
        hex_char(v / 4096 % 16),
        hex_char(v / 256 % 16),
        hex_char(v / 16 % 16),
        hex_char(v % 16),
    ]);
}

proof fn lemma_number_of_nibbles(a: int, b: int, c: int, d: int, e: int)
    requires
        0 <= a < 16,
        0 <= b < 16,
        0 <= c < 16,
        0 <= d < 16,
        0 <= e < 16,
    ensures
        hex_number(seq![hex_char(a), hex_char(b), hex_char(c), hex_char(d), hex_char(e)]) == Some(
            ((((a * 16 + b) * 16 + c) * 16 + d) * 16 + e) as nat,
        ),
{
    let d0 = Seq::<char>::empty();
    let d1 = d0.push(hex_char(a));
    let d2 = d1.push(hex_char(b));
    let d3 = d2.push(hex_char(c));
    let d4 = d3.push(hex_char(d));
    let d5 = d4.push(hex_char(e));
    lemma_hex_push(d0, a);
    lemma_hex_push(d1, b);
    lemma_hex_push(d2, c);
    lemma_hex_push(d3, d);
    lemma_hex_push(d4, e);
    assert(seq![hex_char(a), hex_char(b), hex_char(c), hex_char(d), hex_char(e)] =~= d5);
}

impl View for UnitId {
    type V = u32;

    closed spec fn view(&self) -> u32 {
        self.0
    }
}

impl UnitId {
    #[verifier::type_invariant]
    spec fn within_20_bits(self) -> bool {
        self.0 <= UNIT_ID_MAX
    }

    /// The id with this number.
    pub closed spec fn of(value: u32) -> UnitId {
        UnitId(value)
    }

    /// An id is its number.
    pub broadcast proof fn lemma_of_view(self)
        ensures
            UnitId::of(#[trigger] self@) == self,
    {
    }

    /// The number of the id with a number.
    pub broadcast proof fn lemma_view_of(value: u32)
        ensures
            (#[trigger] UnitId::of(value))@ == value,
    {
    }

    /// Zero unit id (broadcast addressing).
    #[verifier::allow_in_spec]
    pub fn zero() -> UnitId
        returns
            UnitId::of(0),
    {
        UnitId(0)
    }

    /// Wraps a raw 20-bit unit id.
    pub fn try_new(value: u32) -> (r: Result<UnitId, IdError>)
        ensures
            r == (if value <= UNIT_ID_MAX {
                Ok::<UnitId, IdError>(UnitId::of(value))
            } else {
                Err::<UnitId, IdError>(IdError::OutOfRange)
            }),
    {
        if value > UNIT_ID_MAX {
            Err(IdError::OutOfRange)
        } else {
            Ok(UnitId(value))
        }
    }

    /// The raw 20-bit value.
    pub fn get(self) -> (r: u32)
        ensures
            r == self@,
            r <= UNIT_ID_MAX,
    {
        proof {
            use_type_invariant(self);
        }
        self.0
    }

    /// Parses exactly five hex digits of either case.
    pub fn from_hex(s: &str) -> (r: Result<UnitId, IdError>)
        ensures
            match id_from_hex(s@) {
                Some(id) => r == Ok::<UnitId, IdError>(id),
                None => r == Err::<UnitId, IdError>(IdError::BadHex),
            },
    {
        let chars = chars_of(s);
        if chars.len() != 5 {
            return Err(IdError::BadHex);
        }
        proof {
            assert(chars@.subrange(0, 5) =~= s@);
            reveal_with_fuel(pow16, 6);
        }
        match read_hex(chars.as_slice(), 0, 5) {
            Some(n) => UnitId::try_new(n),
            None => Err(IdError::BadHex),
        }
    }

    /// Five lower-case hex digits.
    pub fn to_hex(self) -> (text: String)
        ensures
            text@ == id_digits(self@),
    {
        let mut text = String::new();
        push_id_digits(&mut text, self);
        proof {
            assert(text@ =~= id_digits(self@));
        }
        text
    }
}

/// What is known of every unit id.
pub broadcast group group_unit_id {
    UnitId::lemma_of_view,
    UnitId::lemma_view_of,
}

/// The unit id of exactly five hexadecimal digits.
pub open spec fn id_from_hex(s: Seq<char>) -> Option<UnitId> {
    match hex_number(s) {
        Some(n) => if s.len() == 5 {
            Some(UnitId::of(n as u32))
        } else {
            None
        },
        None => None,
    }
}

/// Appends the five lower-case digits of `id`.
pub fn push_id_digits(out: &mut String, id: UnitId)
    ensures
        final(out)@ == old(out)@ + id_digits(id@),
{
    let value: u32 = id.get();
    out.push(digit_of((value / 65536 % 16) as u8));
    out.push(digit_of((value / 4096 % 16) as u8));
    out.push(digit_of((value / 256 % 16) as u8));
    out.push(digit_of((value / 16 % 16) as u8));
    out.push(digit_of((value % 16) as u8));
    proof {
        assert(out@ =~= old(out)@ + id_digits(id@));
    }
}

impl TryFromSpecImpl<u32> for UnitId {
    open spec fn obeys_try_from_spec() -> bool {
        true
    }

    open spec fn try_from_spec(v: u32) -> Result<UnitId, IdError> {
        if v <= UNIT_ID_MAX {
            Ok(UnitId::of(v))
        } else {
            Err(IdError::OutOfRange)
        }
    }
}

impl TryFrom<u32> for UnitId {
    type Error = IdError;

    fn try_from(v: u32) -> (r: Result<UnitId, IdError>) {
        UnitId::try_new(v)
    }
}

impl FromSpecImpl<UnitId> for u32 {
    open spec fn obeys_from_spec() -> bool {
        true
    }

    open spec fn from_spec(v: UnitId) -> u32 {
        v@
    }
}

impl From<UnitId> for u32 {
    fn from(v: UnitId) -> (r: u32) {
        v.get()
    }
}

/// A unit id reads back from its digits.
pub proof fn law_unit_id_hex(id: UnitId)
    requires
        id@ <= UNIT_ID_MAX,
    ensures
        id_from_hex(id_digits(id@)) == Some(id),
{
    lemma_id_digits(id@);
}

/// A unit type or register byte reads back from its digits.
pub proof fn law_byte_hex(value: u8)
    ensures
        byte_from_hex(hex_byte(value)) == Some(value),
{
    lemma_hex_byte(value);
}

/// A unit id is its number: it has the number that it was made of, and no two ids have
/// the same.
pub proof fn law_unit_ids_are_numbers(value: u32, a: UnitId, b: UnitId)
    ensures
        UnitId::of(value)@ == value,
        a@ == b@ ==> a == b,
        UNIT_ID_MAX == 0xf_ffff,
{
}

} // verus!
