//! Frames on the control-box link: encoding, decoding and stream scanning.
//!
//! A frame is `<U>{payload}</U={crc:02x}>` with a lower-case CRC-8 of the
//! payload bytes. Frames of one burst are separated by ASCII spaces.
use crate::crc::{crc8, spec_crc8};
use crate::text::{decimal, digit_of, hex_char, hex_digit, hex_value, push_decimal};
use vstd::prelude::*;
use vstd::slice::slice_to_vec;
use vstd::string::*;

verus! {

/// A single protocol frame carrying an opaque payload.
#[derive(Debug, Clone, PartialEq, Eq)]
pub struct Frame {
    /// Raw payload bytes (the CRC covers these alone).
    pub payload: Vec<u8>,
}

/// Errors produced while decoding or scanning frames.
#[derive(Debug, Clone, Copy, PartialEq, Eq, Structural)]
pub enum FrameError {
    /// Input ended before a complete frame was available.
    Incomplete,
    /// The trailer CRC does not match the CRC of the payload.
    InvalidCrc {
        /// CRC value parsed from the frame trailer.
        expected: u8,
        /// CRC computed over the payload bytes.
        actual: u8,
    },
    /// Framing tokens or hex digits are not well-formed.
    Malformed,
}

impl FrameError {
    /// Name and values of the error.
    pub open spec fn text(self) -> Seq<char> {
        match self {
            FrameError::Incomplete => "Incomplete"@,
            FrameError::InvalidCrc { expected, actual } => "InvalidCrc { expected: "@ + decimal(
                expected as nat,
            ) + ", actual: "@ + decimal(actual as nat) + " }"@,
            FrameError::Malformed => "Malformed"@,
        }
    }

    /// Name and values of the error, for a log line.
    pub fn describe(&self) -> (out: String)
        ensures
            out@ == self.text(),
    {
        match *self {
            FrameError::Incomplete => "Incomplete".to_owned(),
            FrameError::InvalidCrc { expected, actual } => {
                let mut out = "InvalidCrc { expected: ".to_owned();
                push_decimal(&mut out, expected as u64);
                out.append(", actual: ");
                push_decimal(&mut out, actual as u64);
                out.append(" }");
                out
            },
            FrameError::Malformed => "Malformed".to_owned(),
        }
    }
}

/// `<U>`, which opens a frame.
pub open spec fn prefix() -> Seq<u8> {
    seq![0x3cu8, 0x55u8, 0x3eu8]
}

/// `</U=`, which ends the payload.
pub open spec fn mid() -> Seq<u8> {
    seq![0x3cu8, 0x2fu8, 0x55u8, 0x3du8]
}

/// The wire bytes of a frame with this payload.
pub open spec fn encoded(payload: Seq<u8>) -> Seq<u8> {
    prefix() + payload + mid() + trailer(spec_crc8(payload))
}

/// Checksum digits and closing bracket.
pub open spec fn trailer(crc: u8) -> Seq<u8> {
    seq![hex_char(crc as int / 16) as u8, hex_char(crc as int % 16) as u8, 0x3eu8]
}

/// Whether `needle` stands in `hay` at position `at`.
pub open spec fn occurs(hay: Seq<u8>, needle: Seq<u8>, at: int) -> bool {
    0 <= at && at + needle.len() <= hay.len() && hay.subrange(at, at + needle.len()) == needle
}

/// First position at or after `from` where `needle` stands in `hay`.
pub open spec fn find_from(hay: Seq<u8>, needle: Seq<u8>, from: int) -> Option<int>
    decreases hay.len() + 1 - from,
{
    if from < 0 || from + needle.len() > hay.len() {
        None
    } else if occurs(hay, needle, from) {
        Some(from)
    } else {
        find_from(hay, needle, from + 1)
    }
}

/// First position where `needle` stands in `hay`.
pub open spec fn find(hay: Seq<u8>, needle: Seq<u8>) -> Option<int> {
    find_from(hay, needle, 0)
}

/// Number of ASCII spaces that `s` starts with.
pub open spec fn leading_spaces(s: Seq<u8>) -> nat
    decreases s.len(),
{
    if s.len() > 0 && s[0] == 0x20 {
        1 + leading_spaces(s.drop_first())
    } else {
        0
    }
}

/// `s` without the spaces that it starts with.
pub open spec fn trimmed(s: Seq<u8>) -> Seq<u8> {
    s.skip(leading_spaces(s) as int)
}

/// What stands at the start of a byte stream.
pub ghost enum Parsed {
    /// The bytes may yet become a frame.
    Incomplete,
    /// The bytes cannot become a frame.
    Malformed,
    /// A complete frame of `len` bytes, whatever its checksum.
    Complete { payload: Seq<u8>, crc: u8, len: nat },
}

/// Reads the frame that `s` starts with (no leading spaces).
pub open spec fn parsed(s: Seq<u8>) -> Parsed {
    if s.len() < 3 {
        Parsed::Incomplete
    } else if s.take(3) != prefix() {
        Parsed::Malformed
    } else {
        match find(s.skip(3), mid()) {
            None => Parsed::Incomplete,
            Some(at) => {
                let tail = s.skip(at + 7);
                if tail.len() < 3 {
                    Parsed::Incomplete
                } else {
                    match (hex_value(tail[0] as char), hex_value(tail[1] as char)) {
                        (Some(high), Some(low)) => if tail[2] == 0x3e {
                            Parsed::Complete {
                                payload: s.subrange(3, at + 3),
                                crc: (high * 16 + low) as u8,
                                len: (at + 10) as nat,
                            }
                        } else {
                            Parsed::Malformed
                        },
                        _ => Parsed::Malformed,
                    }
                }
            },
        }
    }
}

/// The payload and the number of bytes of the frame that `input` starts with,
/// leading spaces included.
pub open spec fn decoded(input: Seq<u8>) -> Result<(Seq<u8>, nat), FrameError> {
    match parsed(trimmed(input)) {
        Parsed::Incomplete => Err(FrameError::Incomplete),
        Parsed::Malformed => Err(FrameError::Malformed),
        Parsed::Complete { payload, crc, len } => if spec_crc8(payload) == crc {
            Ok((payload, leading_spaces(input) + len))
        } else {
            Err(FrameError::InvalidCrc { expected: crc, actual: spec_crc8(payload) })
        },
    }
}

/// Payload of the complete frame that `s` starts with; empty if there is none.
pub open spec fn framed_payload(s: Seq<u8>) -> Seq<u8> {
    match parsed(s) {
        Parsed::Complete { payload, .. } => payload,
        _ => seq![],
    }
}

/// A complete frame in a stream.
pub ghost struct Sighting {
    /// The payload.
    pub payload: Seq<u8>,
    /// Whether the checksum was right.
    pub intact: bool,
}

/// The payloads of the intact frames.
pub open spec fn intact(met: Seq<Sighting>) -> Seq<Seq<u8>>
    decreases met.len(),
{
    if met.len() == 0 {
        seq![]
    } else if met.last().intact {
        intact(met.drop_last()).push(met.last().payload)
    } else {
        intact(met.drop_last())
    }
}

/// The complete frame, if any, that is passed over at a fault.
pub open spec fn passed(b: Seq<u8>, e: FrameError) -> Seq<Sighting> {
    if e is InvalidCrc {
        seq![Sighting { payload: framed_payload(b), intact: false }]
    } else {
        seq![]
    }
}

/// Outcome of scanning a buffer.
pub ghost struct Scan {
    /// The complete frames, in order, whether intact or not.
    pub met: Seq<Sighting>,
    /// Bytes kept for the next chunk.
    pub rest: Seq<u8>,
    /// Fault at which the scan ended because no frame start followed.
    pub fault: Option<FrameError>,
}

impl Scan {
    /// Payloads of the intact frames, in order.
    pub open spec fn frames(self) -> Seq<Seq<u8>> {
        intact(self.met)
    }

    /// The frames, or the fault at which the scan ended where there is none.
    pub open spec fn result(self) -> Result<Seq<Seq<u8>>, FrameError> {
        match self.fault {
            Some(e) => if self.frames().len() == 0 {
                Err(e)
            } else {
                Ok(self.frames())
            },
            None => Ok(self.frames()),
        }
    }
}

/// Scans `buf` after `met` was met.
pub open spec fn scan_from(buf: Seq<u8>, met: Seq<Sighting>) -> Scan
    decreases buf.len(),
{
    let b = trimmed(buf);
    proof {
        lemma_leading_spaces(buf);
        lemma_parsed_bounds(b);
        lemma_find_from(b.skip(1), prefix(), 0);
    }
    if b.len() == 0 {
        Scan { met, rest: seq![], fault: None }
    } else {
        match decoded(b) {
            Ok((payload, len)) => scan_from(
                b.skip(len as int),
                met.push(Sighting { payload, intact: true }),
            ),
            Err(FrameError::Incomplete) => Scan { met, rest: b, fault: None },
            Err(e) => match find(b.skip(1), prefix()) {
                Some(at) => scan_from(b.skip(at + 1), met + passed(b, e)),
                None => Scan {
                    met: met + passed(b, e),
                    rest: b.skip(b.len() - 2),
                    fault: Some(e),
                },
            },
        }
    }
}

/// Scans `buf`: complete frames are taken out, and past a fault the scan goes on
/// at the next `<U>`, or ends and keeps the last two bytes when there is none.
pub open spec fn scan(buf: Seq<u8>) -> Scan {
    scan_from(buf, seq![])
}

/// More of a stream has no fewer intact frames.
proof fn lemma_intact_grows(met: Seq<Sighting>, n: int)
    requires
        0 <= n <= met.len(),
    ensures
        intact(met.take(n)).len() <= intact(met).len(),
    decreases met.len(),
{
    if n < met.len() {
        lemma_intact_grows(met.drop_last(), n);
        assert(met.drop_last().take(n) =~= met.take(n));
    } else {
        assert(met.take(n) =~= met);
    }
}

/// `find` gives the first occurrence.
pub proof fn lemma_find_from(hay: Seq<u8>, needle: Seq<u8>, from: int)
    requires
        0 <= from,
    ensures
        match find_from(hay, needle, from) {
            Some(i) => from <= i && occurs(hay, needle, i) && forall|j: int|
                from <= j < i ==> !occurs(hay, needle, j),
            None => forall|j: int| from <= j ==> !occurs(hay, needle, j),
        },
    decreases hay.len() + 1 - from,
{
    if from + needle.len() > hay.len() {
    } else if occurs(hay, needle, from) {
    } else {
        lemma_find_from(hay, needle, from + 1);
    }
}

/// The first occurrence is what `find` gives.
pub proof fn lemma_find_is(hay: Seq<u8>, needle: Seq<u8>, r: Option<int>)
    requires
        match r {
            Some(i) => occurs(hay, needle, i) && forall|j: int|
                0 <= j < i ==> !occurs(hay, needle, j),
            None => forall|j: int| 0 <= j ==> !occurs(hay, needle, j),
        },
    ensures
        find(hay, needle) == r,
{
    lemma_find_from(hay, needle, 0);
}

/// Trimming stops at the first byte that is no space.
pub proof fn lemma_leading_spaces(s: Seq<u8>)
    ensures
        leading_spaces(s) <= s.len(),
        forall|i: int| 0 <= i < leading_spaces(s) ==> s[i] == 0x20,
        leading_spaces(s) < s.len() ==> s[leading_spaces(s) as int] != 0x20,
        leading_spaces(trimmed(s)) == 0,
        trimmed(trimmed(s)) == trimmed(s),
    decreases s.len(),
{
    if s.len() > 0 && s[0] == 0x20 {
        lemma_leading_spaces(s.drop_first());
        let n = leading_spaces(s);
        assert forall|i: int| 0 <= i < n implies s[i] == 0x20 by {
            if i > 0 {
                assert(s[i] == s.drop_first()[i - 1]);
            }
        }
        if n < s.len() {
            assert(s[n as int] == s.drop_first()[n - 1]);
        }
        assert(trimmed(s) =~= trimmed(s.drop_first()));
    } else {
        assert(trimmed(s) =~= s);
    }
}

/// A count of leading spaces is determined by what it counts.
pub proof fn lemma_leading_spaces_is(s: Seq<u8>, n: nat)
    requires
        n <= s.len(),
        forall|i: int| 0 <= i < n ==> s[i] == 0x20,
        n < s.len() ==> s[n as int] != 0x20,
    ensures
        leading_spaces(s) == n,
{
    lemma_leading_spaces(s);
    let m = leading_spaces(s);
    if m < n {
        assert(s[m as int] == 0x20);
    }
    if n < m {
        assert(s[n as int] == 0x20);
    }
}

/// A complete frame lies within its bytes.
pub proof fn lemma_parsed_bounds(s: Seq<u8>)
    ensures
        parsed(s) matches Parsed::Complete { payload, len, .. } ==> 10 <= len <= s.len()
            && payload.len() + 10 == len,
        !(parsed(s) is Incomplete) ==> s.len() >= 3,
{
    lemma_find_from(s.skip(3), mid(), 0);
}

fn leading_space_count(s: &[u8]) -> (n: usize)
    ensures
        n == leading_spaces(s@),
        n <= s@.len(),
{
    let mut n: usize = 0;
    while n < s.len() && s[n] == 0x20
        invariant
            n <= s@.len(),
            forall|i: int| 0 <= i < n ==> s@[i] == 0x20,
        decreases s@.len() - n,
    {
        n = n + 1;
    }
    proof {
        lemma_leading_spaces_is(s@, n as nat);
    }
    n
}

fn matches_at(hay: &[u8], needle: &[u8], at: usize) -> (r: bool)
    requires
        at + needle@.len() <= hay@.len(),
    ensures
        r == occurs(hay@, needle@, at as int),
{
    let mut k: usize = 0;
    while k < needle.len()
        invariant
            at + needle@.len() <= hay.len(),
            k <= needle@.len(),
            forall|j: int| 0 <= j < k ==> hay@[at + j] == needle@[j],
        decreases needle@.len() - k,
    {
        if hay[at + k] != needle[k] {
            proof {
                assert(hay@.subrange(at as int, at + needle@.len())[k as int] == hay@[at + k]);
            }
            return false;
        }
        k = k + 1;
    }
    proof {
        assert(hay@.subrange(at as int, at + needle@.len()) =~= needle@);
    }
    true
}

/// First position of `needle` in `hay`; an empty needle stands nowhere.
pub fn find_slice(hay: &[u8], needle: &[u8]) -> (r: Option<usize>)
    ensures
        match r {
            Some(i) => needle@.len() > 0 && find(hay@, needle@) == Some(i as int) && i
                + needle@.len() <= hay@.len(),
            None => needle@.len() == 0 || find(hay@, needle@) is None,
        },
{
    if needle.len() == 0 {
        return None;
    }
    let mut i: usize = 0;
    while i < hay.len() && needle.len() <= hay.len() - i
        invariant
            i <= hay@.len(),
            needle@.len() > 0,
            forall|j: int| 0 <= j < i ==> !occurs(hay@, needle@, j),
        decreases hay@.len() - i,
    {
        if matches_at(hay, needle, i) {
            proof {
                lemma_find_is(hay@, needle@, Some(i as int));
            }
            return Some(i);
        }
        i = i + 1;
    }
    proof {
        lemma_find_is(hay@, needle@, None);
    }
    None
}

fn prefix_bytes() -> (p: [u8; 3])
    ensures
        p@ == prefix(),
{
    let p: [u8; 3] = [0x3c, 0x55, 0x3e];
    proof {
        assert(p@ =~= prefix());
    }
    p
}

fn mid_bytes() -> (p: [u8; 4])
    ensures
        p@ == mid(),
{
    let p: [u8; 4] = [0x3c, 0x2f, 0x55, 0x3d];
    proof {
        assert(p@ =~= mid());
    }
    p
}

/// A frame cut out of a byte stream, its checksum not yet compared.
enum Cut {
    Incomplete,
    Malformed,
    Complete { payload: Vec<u8>, crc: u8, len: usize },
}

fn cut_frame(s: &[u8]) -> (r: Cut)
    ensures
        match r {
            Cut::Incomplete => parsed(s@) is Incomplete,
            Cut::Malformed => parsed(s@) is Malformed,
            Cut::Complete { payload, crc, len } => parsed(s@) == (Parsed::Complete {
                payload: payload@,
                crc,
                len: len as nat,
            }) && len <= s@.len(),
        },
{
    if s.len() < 3 {
        return Cut::Incomplete;
    }
    let open = prefix_bytes();
    proof {
        assert(s@.subrange(0, 3) =~= s@.take(3));
    }
    if !matches_at(s, open.as_slice(), 0) {
        return Cut::Malformed;
    }
    let body = vstd::slice::slice_subrange(s, 3, s.len());
    proof {
        assert(body@ =~= s@.skip(3));
    }
    let close = mid_bytes();
    match find_slice(body, close.as_slice()) {
        None => Cut::Incomplete,
        Some(at) => {
            let tail_at: usize = at + 7;
            if s.len() - tail_at < 3 {
                return Cut::Incomplete;
            }
            let high = hex_digit(s[tail_at] as char);
            let low = hex_digit(s[tail_at + 1] as char);
            match (high, low) {
                (Some(h), Some(l)) => {
                    if s[tail_at + 2] != 0x3e {
                        return Cut::Malformed;
                    }
                    let payload = slice_to_vec(vstd::slice::slice_subrange(s, 3, at + 3));
                    Cut::Complete { payload, crc: h * 16 + l, len: at + 10 }
                },
                _ => Cut::Malformed,
            }
        },
    }
}

impl Frame {
    /// Encodes the frame as `<U>{payload}</U={crc:02x}>`.
    pub fn encode(&self) -> (out: Vec<u8>)
        ensures
            out@ == encoded(self.payload@),
    {
        let crc: u8 = crc8(self.payload.as_slice());
        let mut out: Vec<u8> = Vec::new();
        let open = prefix_bytes();
        let close = mid_bytes();
        out.extend_from_slice(open.as_slice());
        out.extend_from_slice(self.payload.as_slice());
        out.extend_from_slice(close.as_slice());
        out.push(digit_of(crc / 16) as u8);
        out.push(digit_of(crc % 16) as u8);
        out.push(0x3e);
        proof {
            assert(out@ =~= encoded(self.payload@));
        }
        out
    }

    /// Parses one frame from the start of `input`, skipping leading spaces.
    /// Returns the frame and the number of bytes it took, spaces included.
    pub fn decode_one(input: &[u8]) -> (r: Result<(Frame, usize), FrameError>)
        ensures
            match r {
                Ok((frame, consumed)) => decoded(input@) == Ok::<(Seq<u8>, nat), FrameError>(
                    (frame.payload@, consumed as nat),
                ) && consumed <= input@.len(),
                Err(e) => decoded(input@) == Err::<(Seq<u8>, nat), FrameError>(e),
            },
    {
        let leading: usize = leading_space_count(input);
        let rest = vstd::slice::slice_subrange(input, leading, input.len());
        proof {
            assert(rest@ =~= trimmed(input@));
        }
        match cut_frame(rest) {
            Cut::Incomplete => Err(FrameError::Incomplete),
            Cut::Malformed => Err(FrameError::Malformed),
            Cut::Complete { payload, crc, len } => {
                let actual: u8 = crc8(payload.as_slice());
                if actual != crc {
                    return Err(FrameError::InvalidCrc { expected: crc, actual });
                }
                Ok((Frame { payload }, leading + len))
            },
        }
    }
}

/// Incremental scanner that reassembles frames across chunks of a stream.
///
/// Bytes that may yet become a frame are kept, without an upper limit.
#[derive(Debug, Clone)]
pub struct FrameScanner {
    buf: Vec<u8>,
}

/// A complete frame in a stream.
#[derive(Debug, Clone, PartialEq, Eq)]
pub struct Met {
    /// The frame.
    pub frame: Frame,
    /// Whether its checksum was right.
    pub intact: bool,
}

impl View for Met {
    type V = Sighting;

    open spec fn view(&self) -> Sighting {
        Sighting { payload: self.frame.payload@, intact: self.intact }
    }
}

/// What was met.
pub open spec fn sightings(met: Seq<Met>) -> Seq<Sighting> {
    met.map_values(|m: Met| m@)
}

/// What one chunk brought.
#[derive(Debug, Clone, PartialEq, Eq)]
pub struct ScanReport {
    /// The complete frames, in order, whether intact or not.
    pub met: Vec<Met>,
    /// Fault at which the scan ended because no frame start followed.
    pub fault: Option<FrameError>,
}

/// Payloads of `frames`.
pub open spec fn payloads(frames: Seq<Frame>) -> Seq<Seq<u8>> {
    frames.map_values(|f: Frame| f.payload@)
}

impl ScanReport {
    /// Whether this reports what `s` says.
    pub open spec fn reports(&self, s: Scan) -> bool {
        sightings(self.met@) == s.met && self.fault == s.fault
    }

    /// The fault that counts: the one at which the scan ended, where no frame is
    /// intact.
    pub fn failure(&self) -> (r: Option<FrameError>)
        ensures
            r == if intact(sightings(self.met@)).len() == 0 {
                self.fault
            } else {
                None
            },
    {
        let ghost all = sightings(self.met@);
        let mut i: usize = 0;
        while i < self.met.len()
            invariant
                i <= self.met@.len(),
                all == sightings(self.met@),
                intact(all.take(i as int)).len() == 0,
            decreases self.met@.len() - i,
        {
            proof {
                assert(all.take(i + 1).drop_last() =~= all.take(i as int));
                assert(all.take(i + 1).last() == self.met@[i as int]@);
            }
            if self.met[i].intact {
                proof {
                    lemma_intact_grows(all, i + 1);
                }
                return None;
            }
            i = i + 1;
        }
        proof {
            assert(all.take(i as int) =~= all);
        }
        self.fault
    }

    /// The intact frames, in order.
    pub fn into_frames(self) -> (frames: Vec<Frame>)
        ensures
            payloads(frames@) == intact(sightings(self.met@)),
    {
        let ghost all = sightings(self.met@);
        let mut rest = self.met;
        let mut frames: Vec<Frame> = Vec::new();
        let ghost mut done: int = 0;
        proof {
            assert(payloads(frames@) =~= intact(all.take(0)));
            assert(all.skip(0) =~= all);
        }
        while rest.len() > 0
            invariant
                0 <= done <= all.len(),
                sightings(rest@) == all.skip(done),
                payloads(frames@) == intact(all.take(done)),
            decreases rest@.len(),
        {
            let ghost left = rest@;
            let ghost found = frames@;
            let met = rest.remove(0);
            proof {
                assert(sightings(left).len() == left.len());
                assert(met@ == sightings(left)[0]);
                assert(met@ == all[done]);
                assert(all.take(done + 1).drop_last() =~= all.take(done));
                assert(all.take(done + 1).last() == met@);
                assert forall|i: int| 0 <= i < rest@.len() implies sightings(rest@)[i] == all.skip(
                    done + 1,
                )[i] by {
                    assert(rest@[i] == left[i + 1]);
                    assert(sightings(left)[i + 1] == all.skip(done)[i + 1]);
                }
                assert(sightings(rest@) =~= all.skip(done + 1));
                done = done + 1;
            }
            if met.intact {
                frames.push(met.frame);
                proof {
                    assert(payloads(frames@) =~= payloads(found).push(met@.payload));
                }
            }
        }
        proof {
            assert(sightings(rest@).len() == 0);
            assert(all.take(done) =~= all);
        }
        frames
    }
}

impl View for FrameScanner {
    type V = Seq<u8>;

    closed spec fn view(&self) -> Seq<u8> {
        self.buf@
    }
}

impl Default for FrameScanner {
    fn default() -> (s: Self)
        ensures
            s@ == Seq::<u8>::empty(),
    {
        FrameScanner::new()
    }
}

impl FrameScanner {
    /// An empty scanner.
    pub fn new() -> (s: FrameScanner)
        ensures
            s@ == Seq::<u8>::empty(),
    {
        FrameScanner { buf: Vec::new() }
    }

    fn drop_front(&mut self, n: usize)
        requires
            n <= old(self)@.len(),
        ensures
            final(self)@ == old(self)@.skip(n as int),
    {
        let rest = self.buf.split_off(n);
        self.buf = rest;
        proof {
            assert(self.buf@ =~= old(self).buf@.skip(n as int));
        }
    }

    /// Appends `chunk` and takes out every complete frame, intact or not.
    pub fn scan(&mut self, chunk: &[u8]) -> (report: ScanReport)
        ensures
            report.reports(scan(old(self)@ + chunk@)),
            final(self)@ == scan(old(self)@ + chunk@).rest,
    {
        self.buf.extend_from_slice(chunk);
        let ghost total = old(self)@ + chunk@;
        proof {
            assert(self.buf@ =~= total);
        }
        let mut report = ScanReport { met: Vec::new(), fault: None };
        let ghost mut met: Seq<Sighting> = seq![];
        proof {
            assert(sightings(report.met@) =~= met);
        }
        loop
            invariant
                total == old(self)@ + chunk@,
                sightings(report.met@) == met,
                report.fault is None,
                scan_from(self@, met) == scan(total),
            decreases self@.len(),
        {
            proof {
                lemma_leading_spaces(self@);
            }
            let leading: usize = leading_space_count(self.buf.as_slice());
            let ghost before = self@;
            if leading == self.buf.len() {
                self.buf.clear();
                proof {
                    assert(self@ =~= scan(total).rest);
                }
                return report;
            }
            self.drop_front(leading);
            let ghost b = self@;
            proof {
                assert(b == trimmed(before));
                assert(trimmed(b) =~= b);
                lemma_parsed_bounds(b);
                lemma_find_from(b.skip(1), prefix(), 0);
            }
            match cut_frame(self.buf.as_slice()) {
                Cut::Incomplete => {
                    return report;
                },
                Cut::Complete { payload, crc, len } => {
                    let actual: u8 = crc8(payload.as_slice());
                    let intact = actual == crc;
                    let one = Met { frame: Frame { payload }, intact };
                    let ghost earlier = met;
                    proof {
                        assert(sightings(report.met@.push(one)) =~= met.push(one@));
                        met = met.push(one@);
                    }
                    report.met.push(one);
                    if intact {
                        self.drop_front(len);
                    } else {
                        let e = FrameError::InvalidCrc { expected: crc, actual };
                        proof {
                            assert(met =~= earlier + passed(b, e));
                        }
                        if self.resync() {
                            report.fault = Some(e);
                            return report;
                        }
                    }
                },
                Cut::Malformed => {
                    proof {
                        assert(met + passed(b, FrameError::Malformed) =~= met);
                    }
                    if self.resync() {
                        report.fault = Some(FrameError::Malformed);
                        return report;
                    }
                },
            }
        }
    }

    /// Moves to the next `<U>` past the first byte, or keeps the last two
    /// bytes and tells that there is none.
    fn resync(&mut self) -> (stopped: bool)
        requires
            old(self)@.len() >= 3,
        ensures
            match find(old(self)@.skip(1), prefix()) {
                Some(at) => !stopped && 0 <= at < old(self)@.len() && final(self)@ == old(
                    self,
                )@.skip(at + 1),
                None => stopped && final(self)@ == old(self)@.skip(old(self)@.len() - 2),
            },
    {
        let open = prefix_bytes();
        let past = vstd::slice::slice_subrange(self.buf.as_slice(), 1, self.buf.len());
        proof {
            assert(past@ =~= self@.skip(1));
        }
        match find_slice(past, open.as_slice()) {
            Some(at) => {
                self.drop_front(at + 1);
                false
            },
            None => {
                let n: usize = self.buf.len() - 2;
                self.drop_front(n);
                true
            },
        }
    }

    /// Appends `chunk` and takes out every intact frame.
    ///
    /// Incomplete data alone is no error. A fault is returned only when no intact
    /// frame was found and no frame start follows the fault.
    pub fn push(&mut self, chunk: &[u8]) -> (r: Result<Vec<Frame>, FrameError>)
        ensures
            final(self)@ == scan(old(self)@ + chunk@).rest,
            match r {
                Ok(frames) => scan(old(self)@ + chunk@).result() == Ok::<
                    Seq<Seq<u8>>,
                    FrameError,
                >(payloads(frames@)),
                Err(e) => scan(old(self)@ + chunk@).result() == Err::<Seq<Seq<u8>>, FrameError>(e),
            },
    {
        let report = self.scan(chunk);
        match report.failure() {
            Some(e) => Err(e),
            None => Ok(report.into_frames()),
        }
    }
}

} // verus!
