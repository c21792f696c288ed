//! Laws of the frame codec and of the stream scanner.
use crate::crc::spec_crc8;
use crate::frame::{
    decoded, encoded, find, intact, leading_spaces, lemma_find_from, lemma_find_is,
    lemma_leading_spaces, lemma_leading_spaces_is, lemma_parsed_bounds, mid, occurs, parsed,
    passed, prefix, scan, scan_from, trailer, trimmed, FrameError, Scan, Sighting,
};
use crate::text::{hex_value, lemma_hex_char};
use vstd::prelude::*;

verus! {

/// Checksum digits read back as the checksum.
proof fn lemma_trailer(crc: u8)
    ensures
        hex_value(trailer(crc)[0] as char) == Some((crc as int / 16) as u8),
        hex_value(trailer(crc)[1] as char) == Some((crc as int % 16) as u8),
        trailer(crc)[2] == 0x3e,
{
    lemma_hex_char(crc as int / 16);
    lemma_hex_char(crc as int % 16);
}

/// The payload of an encoded frame ends at the first end marker.
proof fn lemma_mid_after_payload(payload: Seq<u8>, rest: Seq<u8>)
    requires
        find(payload, mid()) is None,
    ensures
        find(payload + mid() + rest, mid()) == Some(payload.len() as int),
{
    let hay = payload + mid() + rest;
    let n = payload.len() as int;
    lemma_find_from(payload, mid(), 0);
    assert(hay.subrange(n, n + 4) =~= mid());
    assert forall|j: int| 0 <= j < n implies !occurs(hay, mid(), j) by {
        if occurs(hay, mid(), j) {
            if j + 4 <= n {
                assert(payload.subrange(j, j + 4) =~= hay.subrange(j, j + 4));
                assert(occurs(payload, mid(), j));
            } else {
                // The overlap would put `<` at an inner position of the marker.
                let k = n - j;
                assert(hay.subrange(j, j + 4)[k] == hay[n]);
                assert(hay[n] == mid()[0]);
                assert(mid()[k] != 0x3c);
            }
        }
    }
    lemma_find_is(hay, mid(), Some(n));
}

/// Decoding gives back what was encoded, whatever follows and after any
/// number of leading spaces, for every payload without an end marker in it.
pub proof fn law_decode_encoded(spaces: Seq<u8>, payload: Seq<u8>, rest: Seq<u8>)
    requires
        forall|i: int| 0 <= i < spaces.len() ==> spaces[i] == 0x20,
        find(payload, mid()) is None,
    ensures
        decoded(spaces + encoded(payload) + rest) == Ok::<(Seq<u8>, nat), FrameError>(
            (payload, (spaces.len() + payload.len() + 10) as nat),
        ),
        encoded(payload).len() == payload.len() + 10,
{
    let crc = spec_crc8(payload);
    let input = spaces + encoded(payload) + rest;
    let s = encoded(payload) + rest;
    let n = payload.len() as int;
    lemma_leading_spaces_is(input, spaces.len());
    assert(trimmed(input) =~= s);
    assert(s.take(3) =~= prefix());
    let after = payload + mid() + (trailer(crc) + rest);
    assert(s.skip(3) =~= after);
    lemma_mid_after_payload(payload, trailer(crc) + rest);
    let tail = s.skip(n + 7);
    assert(tail =~= trailer(crc) + rest);
    lemma_trailer(crc);
    assert(tail[0] == trailer(crc)[0] && tail[1] == trailer(crc)[1] && tail[2] == trailer(crc)[2]);
    assert(s.subrange(3, n + 3) =~= payload);
}

/// A frame is told from the bytes up to its end: what is decided of a buffer
/// stays decided when more bytes arrive.
proof fn lemma_parsed_extends(s: Seq<u8>, more: Seq<u8>)
    requires
        !(parsed(s) is Incomplete),
    ensures
        parsed(s + more) == parsed(s),
{
    let t = s + more;
    assert(t.take(3) =~= s.take(3));
    if s.take(3) == prefix() {
        lemma_find_from(s.skip(3), mid(), 0);
        let at = find(s.skip(3), mid())->0;
        assert(t.skip(3) =~= s.skip(3) + more);
        assert(t.skip(3).subrange(at, at + 4) =~= s.skip(3).subrange(at, at + 4));
        assert forall|j: int| 0 <= j < at implies !occurs(t.skip(3), mid(), j) by {
            if occurs(t.skip(3), mid(), j) {
                assert(s.skip(3).subrange(j, j + 4) =~= t.skip(3).subrange(j, j + 4));
                assert(occurs(s.skip(3), mid(), j));
            }
        }
        lemma_find_is(t.skip(3), mid(), Some(at));
        assert(t.skip(at + 7) =~= s.skip(at + 7) + more);
        assert(t.subrange(3, at + 3) =~= s.subrange(3, at + 3));
    }
}

/// What is found, kept and faulted does not depend on what was met before.
proof fn lemma_scan_from(buf: Seq<u8>, met: Seq<Sighting>)
    ensures
        scan_from(buf, met) == (Scan { met: met + scan(buf).met, ..scan(buf) }),
    decreases buf.len(),
{
    let b = trimmed(buf);
    lemma_leading_spaces(buf);
    lemma_parsed_bounds(b);
    lemma_find_from(b.skip(1), prefix(), 0);
    let none = Seq::<Sighting>::empty();
    if b.len() == 0 {
        assert(met + none =~= met);
    } else {
        assert(trimmed(b) == b);
        match decoded(b) {
            Ok((payload, len)) => {
                let one = Sighting { payload, intact: true };
                let tail = scan(b.skip(len as int)).met;
                lemma_scan_from(b.skip(len as int), met.push(one));
                lemma_scan_from(b.skip(len as int), none.push(one));
                assert(met.push(one) + tail =~= met + (none.push(one) + tail));
            },
            Err(FrameError::Incomplete) => {
                assert(met + none =~= met);
            },
            Err(e) => {
                let now = passed(b, e);
                assert(none + now =~= now);
                match find(b.skip(1), prefix()) {
                    Some(at) => {
                        let tail = scan(b.skip(at + 1)).met;
                        lemma_scan_from(b.skip(at + 1), met + now);
                        lemma_scan_from(b.skip(at + 1), none + now);
                        assert((met + now) + tail =~= met + (now + tail));
                    },
                    None => {},
                }
            },
        }
    }
}

/// Intact frames of two parts of a stream.
proof fn lemma_intact_add(a: Seq<Sighting>, b: Seq<Sighting>)
    ensures
        intact(a + b) == intact(a) + intact(b),
    decreases b.len(),
{
    if b.len() == 0 {
        assert(a + b =~= a);
        assert(intact(a) + intact(b) =~= intact(a));
    } else {
        lemma_intact_add(a, b.drop_last());
        assert((a + b).drop_last() =~= a + b.drop_last());
        assert((a + b).last() == b.last());
        assert(intact(a) + intact(b.drop_last()).push(b.last().payload) =~= (intact(a) + intact(
            b.drop_last(),
        )).push(b.last().payload));
    }
}

/// One intact frame.
pub open spec fn whole(payload: Seq<u8>) -> Sighting {
    Sighting { payload, intact: true }
}

proof fn lemma_intact_one(payload: Seq<u8>)
    ensures
        intact(seq![whole(payload)]) == seq![payload],
{
    let one = seq![whole(payload)];
    assert(one.drop_last() =~= Seq::<Sighting>::empty());
    reveal_with_fuel(intact, 2);
    assert(intact(one) =~= seq![payload]);
}

/// Leading spaces do not matter to a scan.
proof fn lemma_scan_trimmed(s: Seq<u8>)
    ensures
        scan(s) == scan(trimmed(s)),
{
    lemma_leading_spaces(s);
}

/// Scanning goes to the first frame start; without one there is no frame.
proof fn lemma_scan_hunts(s: Seq<u8>)
    ensures
        match find(s, prefix()) {
            Some(k) => scan(s).met == scan(s.skip(k)).met,
            None => scan(s).met.len() == 0,
        },
{
    let n = leading_spaces(s) as int;
    let b = trimmed(s);
    lemma_leading_spaces(s);
    lemma_find_from(s, prefix(), 0);
    lemma_find_from(b, prefix(), 0);
    lemma_find_from(b.skip(1), prefix(), 0);
    lemma_scan_trimmed(s);
    assert(trimmed(b) == b);
    // Nothing starts inside the spaces.
    assert forall|j: int| 0 <= j < n implies !occurs(s, prefix(), j) by {
        if occurs(s, prefix(), j) {
            assert(s.subrange(j, j + 3)[0] == s[j]);
        }
    }
    if b.len() < 3 {
        assert(parsed(b) is Incomplete);
        match find(s, prefix()) {
            Some(k) => {
                lemma_occurs_shift(s, n, k - n);
            },
            None => {},
        }
    } else if b.take(3) == prefix() {
        assert(b.subrange(0, 3) =~= b.take(3));
        lemma_occurs_shift(s, n, 0);
        lemma_find_is(s, prefix(), Some(n));
    } else {
        assert(parsed(b) is Malformed);
        assert(decoded(b) == Err::<(Seq<u8>, nat), FrameError>(FrameError::Malformed));
        assert(b.subrange(0, 3) =~= b.take(3));
        match find(b.skip(1), prefix()) {
            Some(at) => {
                lemma_occurs_shift(b, 1, at);
                lemma_occurs_shift(s, n, at + 1);
                assert forall|j: int| 0 <= j < at + 1 + n implies !occurs(s, prefix(), j) by {
                    if j >= n && occurs(s, prefix(), j) {
                        lemma_occurs_shift(s, n, j - n);
                        if j > n {
                            lemma_occurs_shift(b, 1, j - n - 1);
                        }
                    }
                }
                lemma_find_is(s, prefix(), Some(at + 1 + n));
                assert(s.skip(at + 1 + n) =~= b.skip(at + 1));
                assert(Seq::<Sighting>::empty() + passed(b, FrameError::Malformed)
                    =~= Seq::<Sighting>::empty());
            },
            None => {
                assert forall|j: int| 0 <= j implies !occurs(s, prefix(), j) by {
                    if j >= n && occurs(s, prefix(), j) {
                        lemma_occurs_shift(s, n, j - n);
                        if j > n {
                            lemma_occurs_shift(b, 1, j - n - 1);
                        }
                    }
                }
                lemma_find_is(s, prefix(), None);
            },
        }
    }
}

/// Occurrences shift with the bytes cut off in front.
proof fn lemma_occurs_shift(s: Seq<u8>, n: int, j: int)
    requires
        0 <= n <= s.len(),
        0 <= j,
    ensures
        occurs(s.skip(n), prefix(), j) <==> occurs(s, prefix(), j + n),
{
    if j + n + 3 <= s.len() {
        assert(s.skip(n).subrange(j, j + 3) =~= s.subrange(j + n, j + n + 3));
    }
}

/// A buffer that is given up for want of a frame start can be cut down to its
/// last two bytes without losing a frame.
proof fn lemma_scan_tail(b: Seq<u8>, more: Seq<u8>, e: FrameError)
    requires
        trimmed(b) == b,
        b.len() >= 3,
        decoded(b) == Err::<(Seq<u8>, nat), FrameError>(e),
        !(e is Incomplete),
        find(b.skip(1), prefix()) is None,
    ensures
        scan(b + more).met == passed(b, e) + scan(b.skip(b.len() - 2) + more).met,
{
    let s = b + more;
    let n = b.len() as int;
    let t = b.skip(n - 2) + more;
    lemma_leading_spaces(b);
    lemma_leading_spaces_is(s, 0);
    assert(trimmed(s) =~= s);
    lemma_parsed_extends(b, more);
    assert(decoded(s) == decoded(b));
    assert(passed(s, e) == passed(b, e));
    assert(Seq::<Sighting>::empty() + passed(b, e) =~= passed(b, e));
    lemma_find_from(b.skip(1), prefix(), 0);
    lemma_find_from(s.skip(1), prefix(), 0);
    lemma_find_from(t, prefix(), 0);
    lemma_scan_hunts(t);
    assert(t =~= s.skip(n - 2));
    assert forall|j: int| 1 <= j < n - 2 implies !occurs(s, prefix(), j) by {
        if occurs(s, prefix(), j) {
            assert(b.skip(1).subrange(j - 1, j + 2) =~= s.subrange(j, j + 3));
            assert(occurs(b.skip(1), prefix(), j - 1));
        }
    }
    match find(t, prefix()) {
        Some(k) => {
            lemma_occurs_shift(s, n - 2, k);
            lemma_occurs_shift(s, 1, k + n - 3);
            assert forall|j: int| 0 <= j < k + n - 3 implies !occurs(s.skip(1), prefix(), j) by {
                if occurs(s.skip(1), prefix(), j) {
                    lemma_occurs_shift(s, 1, j);
                    if j + 1 >= n - 2 {
                        lemma_occurs_shift(s, n - 2, j + 1 - (n - 2));
                    }
                }
            }
            lemma_find_is(s.skip(1), prefix(), Some(k + n - 3));
            lemma_scan_from(s.skip(k + n - 2), passed(b, e));
            assert(t.skip(k) =~= s.skip(k + n - 2));
        },
        None => {
            assert forall|j: int| 0 <= j implies !occurs(s.skip(1), prefix(), j) by {
                if occurs(s.skip(1), prefix(), j) {
                    lemma_occurs_shift(s, 1, j);
                    if j + 1 >= n - 2 {
                        lemma_occurs_shift(s, n - 2, j + 1 - (n - 2));
                    }
                }
            }
            lemma_find_is(s.skip(1), prefix(), None);
            assert(passed(b, e) + scan(t).met =~= passed(b, e));
        },
    }
}

/// Which frames come out of a stream does not depend on how the stream is cut
/// into chunks: scanning `first` and then what it kept followed by `second`
/// finds the frames of the two together, in order.
#[verifier::spinoff_prover]
#[verifier::rlimit(40)]
pub proof fn law_scan_chunks(first: Seq<u8>, second: Seq<u8>)
    ensures
        scan(first + second).met == scan(first).met + scan(scan(first).rest + second).met,
        scan(first + second).frames() == scan(first).frames() + scan(
            scan(first).rest + second,
        ).frames(),
    decreases first.len(),
{
    let x = first + second;
    let b = trimmed(first);
    let n = leading_spaces(first);
    let none = Seq::<Sighting>::empty();
    lemma_intact_add(scan(first).met, scan(scan(first).rest + second).met);
    lemma_leading_spaces(first);
    lemma_leading_spaces(x);
    lemma_leading_spaces(second);
    lemma_parsed_bounds(b);
    lemma_find_from(b.skip(1), prefix(), 0);
    lemma_scan_trimmed(x);
    assert(none + scan(b + second).met =~= scan(b + second).met);
    if b.len() == 0 {
        assert(scan(first).met == none);
        lemma_leading_spaces_is(x, n + leading_spaces(second));
        assert(trimmed(x) =~= trimmed(second));
        lemma_scan_trimmed(second);
        assert(Seq::<u8>::empty() + second =~= second);
        assert(none + scan(second).met =~= scan(second).met);
    } else {
        lemma_leading_spaces_is(x, n);
        assert(trimmed(x) =~= b + second);
        assert(trimmed(b) == b);
        match decoded(b) {
            Ok((payload, len)) => {
                let c = b.skip(len as int);
                lemma_parsed_extends(b, second);
                assert(decoded(b + second) == decoded(b)) by {
                    lemma_leading_spaces_is(b + second, 0);
                    assert(trimmed(b + second) =~= b + second);
                }
                assert((b + second).skip(len as int) =~= c + second);
                lemma_scan_from(c + second, none.push(whole(payload)));
                lemma_scan_from(c, none.push(whole(payload)));
                law_scan_chunks(c, second);
                let tail = scan(scan(c).rest + second).met;
                let one = none.push(whole(payload));
                assert(one + (scan(c).met + tail) =~= (one + scan(c).met) + tail);
            },
            Err(FrameError::Incomplete) => {
                assert(scan(first).met == none);
            },
            Err(e) => {
                lemma_parsed_extends(b, second);
                assert(decoded(b + second) == decoded(b)) by {
                    lemma_leading_spaces_is(b + second, 0);
                    assert(trimmed(b + second) =~= b + second);
                }
                match find(b.skip(1), prefix()) {
                    Some(at) => {
                        let c = b.skip(at + 1);
                        let s1 = (b + second).skip(1);
                        lemma_find_from(s1, prefix(), 0);
                        assert(s1.subrange(at, at + 3) =~= b.skip(1).subrange(at, at + 3));
                        assert forall|j: int| 0 <= j < at implies !occurs(s1, prefix(), j) by {
                            if occurs(s1, prefix(), j) {
                                assert(b.skip(1).subrange(j, j + 3) =~= s1.subrange(j, j + 3));
                                assert(occurs(b.skip(1), prefix(), j));
                            }
                        }
                        lemma_find_is(s1, prefix(), Some(at));
                        assert((b + second).skip(at + 1) =~= c + second);
                        let now = passed(b, e);
                        let tail = scan(scan(c).rest + second).met;
                        assert(passed(b + second, e) == now);
                        assert(none + now =~= now);
                        lemma_scan_from(c + second, now);
                        lemma_scan_from(c, now);
                        law_scan_chunks(c, second);
                        assert(now + (scan(c).met + tail) =~= (now + scan(c).met) + tail);
                    },
                    None => {
                        lemma_scan_tail(b, second, e);
                        assert(none + passed(b, e) =~= passed(b, e));
                        assert(scan(first).met == passed(b, e));
                    },
                }
            },
        }
    }
}

/// A frame is found behind any noise that holds no frame start.
pub proof fn law_scan_past_noise(noise: Seq<u8>, payload: Seq<u8>)
    requires
        find(noise, prefix()) is None,
        find(payload, mid()) is None,
    ensures
        scan(noise + encoded(payload)).met == seq![whole(payload)],
        scan(noise + encoded(payload)).frames() == seq![payload],
{
    let s = noise + encoded(payload);
    let n = noise.len() as int;
    lemma_find_from(noise, prefix(), 0);
    assert(s.subrange(n, n + 3) =~= prefix());
    assert forall|j: int| 0 <= j < n implies !occurs(s, prefix(), j) by {
        if occurs(s, prefix(), j) {
            if j + 3 <= n {
                assert(noise.subrange(j, j + 3) =~= s.subrange(j, j + 3));
                assert(occurs(noise, prefix(), j));
            } else {
                // The overlap would put `<` at an inner position of the start.
                let k = n - j;
                assert(s.subrange(j, j + 3)[k] == s[n]);
                assert(s[n] == prefix()[0]);
                assert(prefix()[k] != 0x3c);
            }
        }
    }
    lemma_find_is(s, prefix(), Some(n));
    lemma_scan_hunts(s);
    assert(s.skip(n) =~= encoded(payload));
    law_scan_encoded(payload);
}

/// A frame is found behind a faulty one: bytes that are no intact frame, with no
/// other frame start in them, do not hide the next frame.
pub proof fn law_scan_past_fault(faulty: Seq<u8>, payload: Seq<u8>, e: FrameError)
    requires
        decoded(faulty) == Err::<(Seq<u8>, nat), FrameError>(e),
        !(e is Incomplete),
        leading_spaces(faulty) == 0,
        find(faulty.skip(1), prefix()) is None,
        find(payload, mid()) is None,
    ensures
        scan(faulty + encoded(payload)).met == passed(faulty, e) + seq![whole(payload)],
        scan(faulty + encoded(payload)).frames() == seq![payload],
{
    lemma_leading_spaces(faulty);
    assert(trimmed(faulty) =~= faulty);
    lemma_parsed_bounds(faulty);
    lemma_scan_tail(faulty, encoded(payload), e);
    let tail = faulty.skip(faulty.len() - 2);
    lemma_find_from(tail, prefix(), 0);
    assert(find(tail, prefix()) is None);
    law_scan_past_noise(tail, payload);
    lemma_intact_add(passed(faulty, e), seq![whole(payload)]);
    lemma_intact_one(payload);
    assert(passed(faulty, e).len() > 0 ==> passed(faulty, e).drop_last()
        =~= Seq::<Sighting>::empty());
    reveal_with_fuel(intact, 2);
    assert(intact(passed(faulty, e)) =~= Seq::<Seq<u8>>::empty());
    assert(Seq::<Seq<u8>>::empty() + seq![payload] =~= seq![payload]);
}

/// An encoded frame that is pushed whole is the only frame, nothing is kept and
/// no fault is met.
pub proof fn law_scan_encoded(payload: Seq<u8>)
    requires
        find(payload, mid()) is None,
    ensures
        scan(encoded(payload)).met == seq![whole(payload)],
        scan(encoded(payload)).frames() == seq![payload],
        scan(encoded(payload)).rest == Seq::<u8>::empty(),
        scan(encoded(payload)).fault is None,
{
    let s = encoded(payload);
    law_decode_encoded(seq![], payload, seq![]);
    assert(Seq::<u8>::empty() + s + Seq::<u8>::empty() =~= s);
    lemma_leading_spaces_is(s, 0);
    assert(trimmed(s) =~= s);
    assert(s.skip(s.len() as int) =~= seq![]);
    let rest = s.skip(s.len() as int);
    lemma_leading_spaces(rest);
    assert(Seq::<Sighting>::empty().push(whole(payload)) =~= seq![whole(payload)]);
    lemma_intact_one(payload);
    reveal_with_fuel(scan_from, 3);
}

/// A burst: frames one behind the other, each after a number of spaces.
pub open spec fn burst(frames: Seq<(Seq<u8>, Seq<u8>)>) -> Seq<u8>
    decreases frames.len(),
{
    if frames.len() == 0 {
        seq![]
    } else {
        frames[0].0 + encoded(frames[0].1) + burst(frames.drop_first())
    }
}

/// The payloads of a burst.
pub open spec fn contents(frames: Seq<(Seq<u8>, Seq<u8>)>) -> Seq<Seq<u8>> {
    frames.map_values(|f: (Seq<u8>, Seq<u8>)| f.1)
}

/// Whether bytes are all spaces.
pub open spec fn blank(s: Seq<u8>) -> bool {
    forall|i: int| 0 <= i < s.len() ==> #[trigger] s[i] == 0x20
}

/// Whether a burst can be told apart: spaces stand between its frames, and no payload
/// holds an end marker.
pub open spec fn clean(frames: Seq<(Seq<u8>, Seq<u8>)>) -> bool {
    forall|i: int|
        0 <= i < frames.len() ==> blank((#[trigger] frames[i]).0) && find(frames[i].1, mid())
            is None
}

proof fn lemma_clean_later(frames: Seq<(Seq<u8>, Seq<u8>)>)
    requires
        clean(frames),
        frames.len() > 0,
    ensures
        clean(frames.drop_first()),
        contents(frames) == seq![frames[0].1] + contents(frames.drop_first()),
{
    let later = frames.drop_first();
    assert forall|i: int| 0 <= i < later.len() implies blank((#[trigger] later[i]).0) && find(
        later[i].1,
        mid(),
    ) is None by {
        assert(later[i] == frames[i + 1]);
    }
    assert(contents(frames) =~= seq![frames[0].1] + contents(later));
}

/// What is left of a clean stream after its first `n` bytes were scanned: the bytes
/// that were kept and those that follow are again a burst and spaces.
proof fn lemma_clean_prefix(
    frames: Seq<(Seq<u8>, Seq<u8>)>,
    spaces: Seq<u8>,
    n: int,
) -> (left: (Seq<(Seq<u8>, Seq<u8>)>, Seq<u8>))
    requires
        clean(frames),
        blank(spaces),
        0 <= n <= (burst(frames) + spaces).len(),
    ensures
        clean(left.0),
        blank(left.1),
        ({
            let stream = burst(frames) + spaces;
            let s = scan(stream.take(n));
            &&& s.fault is None
            &&& s.rest + stream.skip(n) == burst(left.0) + left.1
            &&& s.frames() + contents(left.0) == contents(frames)
            &&& n == stream.len() ==> left.0.len() == 0 && s.rest.len() == 0
        }),
    decreases frames.len(),
{
    let stream = burst(frames) + spaces;
    let p = stream.take(n);
    let none = Seq::<Sighting>::empty();
    assert(intact(none) =~= Seq::<Seq<u8>>::empty());
    if frames.len() == 0 {
        assert(stream =~= spaces);
        assert(blank(p)) by {
            assert forall|i: int| 0 <= i < p.len() implies #[trigger] p[i] == 0x20 by {
                assert(p[i] == spaces[i]);
            }
        }
        lemma_leading_spaces_is(p, p.len());
        assert(trimmed(p) =~= Seq::<u8>::empty());
        let later = stream.skip(n);
        assert forall|i: int| 0 <= i < later.len() implies #[trigger] later[i] == 0x20 by {
            assert(later[i] == spaces[i + n]);
        }
        assert(scan(p).rest + later =~= burst(frames) + later);
        assert(Seq::<Seq<u8>>::empty() + contents(frames) =~= contents(frames));
        (frames, later)
    } else {
        let (gap, payload) = frames[0];
        let later = frames.drop_first();
        let rest = burst(later) + spaces;
        let one = encoded(payload);
        let g = gap.len() as int;
        lemma_clean_later(frames);
        assert(blank(gap));
        assert(stream =~= gap + one + rest);
        law_decode_encoded(Seq::empty(), payload, Seq::empty());
        if n <= g {
            assert forall|i: int| 0 <= i < p.len() implies #[trigger] p[i] == 0x20 by {
                assert(p[i] == gap[i]);
            }
            lemma_leading_spaces_is(p, p.len());
            assert(trimmed(p) =~= Seq::<u8>::empty());
            let left = frames.update(0, (gap.skip(n), payload));
            assert forall|i: int| 0 <= i < left.len() implies blank((#[trigger] left[i]).0) && find(
                left[i].1,
                mid(),
            ) is None by {
                if i == 0 {
                    assert forall|j: int| 0 <= j < gap.skip(n).len() implies #[trigger] gap.skip(
                        n,
                    )[j] == 0x20 by {
                        assert(gap.skip(n)[j] == gap[j + n]);
                    }
                } else {
                    assert(left[i] == frames[i]);
                }
            }
            assert(left.drop_first() =~= later);
            assert(scan(p).rest + stream.skip(n) =~= burst(left) + spaces);
            assert(contents(left) =~= contents(frames));
            assert(Seq::<Seq<u8>>::empty() + contents(left) =~= contents(frames));
            (left, spaces)
        } else if n < g + one.len() {
            let b = p.skip(g);
            assert(b =~= one.take(n - g));
            lemma_leading_spaces_is(p, g as nat);
            assert(trimmed(p) =~= b);
            lemma_part_incomplete(payload, n - g);
            assert(trimmed(b) =~= b) by {
                lemma_leading_spaces_is(b, 0);
            }
            assert(decoded(b) == Err::<(Seq<u8>, nat), FrameError>(FrameError::Incomplete));
            let left = frames.update(0, (Seq::<u8>::empty(), payload));
            assert forall|i: int| 0 <= i < left.len() implies blank((#[trigger] left[i]).0) && find(
                left[i].1,
                mid(),
            ) is None by {
                if i > 0 {
                    assert(left[i] == frames[i]);
                }
            }
            assert(left.drop_first() =~= later);
            assert(scan(p).rest == b);
            assert(b + stream.skip(n) =~= burst(left) + spaces);
            assert(contents(left) =~= contents(frames));
            assert(Seq::<Seq<u8>>::empty() + contents(left) =~= contents(frames));
            (left, spaces)
        } else {
            let k = n - g - one.len();
            let q = rest.take(k);
            let b = one + q;
            assert(p =~= gap + b);
            assert(b[0] == prefix()[0]);
            lemma_leading_spaces_is(p, g as nat);
            assert(trimmed(p) =~= b);
            law_decode_encoded(Seq::empty(), payload, q);
            assert(Seq::<u8>::empty() + one + q =~= b);
            assert(b.skip(one.len() as int) =~= q);
            let left = lemma_clean_prefix(later, spaces, k);
            lemma_scan_from(q, none.push(whole(payload)));
            lemma_intact_add(none.push(whole(payload)), scan(q).met);
            assert(none.push(whole(payload)) =~= seq![whole(payload)]);
            lemma_intact_one(payload);
            assert(stream.skip(n) =~= rest.skip(k));
            assert((seq![payload] + scan(q).frames()) + contents(left.0) =~= seq![payload] + (
            scan(q).frames() + contents(left.0)));
            left
        }
    }
}

/// The beginning of a frame is not yet a frame.
proof fn lemma_part_incomplete(payload: Seq<u8>, n: int)
    requires
        find(payload, mid()) is None,
        0 <= n < encoded(payload).len(),
    ensures
        parsed(encoded(payload).take(n)) is Incomplete,
{
    let one = encoded(payload);
    let b = one.take(n);
    let m = payload.len() as int;
    if n >= 3 {
        assert(b.take(3) =~= prefix());
        let hay = payload + mid() + trailer(spec_crc8(payload));
        assert(one.skip(3) =~= hay);
        lemma_mid_after_payload(payload, trailer(spec_crc8(payload)));
        lemma_find_from(hay, mid(), 0);
        let part = b.skip(3);
        lemma_find_from(part, mid(), 0);
        if let Some(at) = find(part, mid()) {
            assert(hay.subrange(at, at + 4) =~= part.subrange(at, at + 4));
            assert(occurs(hay, mid(), at));
            assert(at >= m);
        }
    }
}

/// Every frame of a burst is found, in order, and nothing is left over, however
/// many spaces stand between and behind them.
pub proof fn law_scan_burst(frames: Seq<(Seq<u8>, Seq<u8>)>, spaces: Seq<u8>)
    requires
        clean(frames),
        blank(spaces),
    ensures
        scan(burst(frames) + spaces).frames() == contents(frames),
        scan(burst(frames) + spaces).rest == Seq::<u8>::empty(),
        scan(burst(frames) + spaces).fault is None,
{
    let stream = burst(frames) + spaces;
    let left = lemma_clean_prefix(frames, spaces, stream.len() as int);
    assert(stream.take(stream.len() as int) =~= stream);
    assert(contents(left.0) =~= Seq::<Seq<u8>>::empty());
    assert(scan(stream).frames() + contents(left.0) =~= scan(stream).frames());
    assert(scan(stream).rest =~= Seq::<u8>::empty());
}

/// Chunks one behind the other.
pub open spec fn joined(chunks: Seq<Seq<u8>>) -> Seq<u8>
    decreases chunks.len(),
{
    if chunks.len() == 0 {
        seq![]
    } else {
        chunks[0] + joined(chunks.drop_first())
    }
}

/// What a scanner that holds `kept` finds in each of a list of chunks.
pub open spec fn scans(kept: Seq<u8>, chunks: Seq<Seq<u8>>) -> Seq<Scan>
    decreases chunks.len(),
{
    if chunks.len() == 0 {
        seq![]
    } else {
        let s = scan(kept + chunks[0]);
        seq![s] + scans(s.rest, chunks.drop_first())
    }
}

/// The frames of a list of scans, one behind the other.
pub open spec fn all_frames(list: Seq<Scan>) -> Seq<Seq<u8>>
    decreases list.len(),
{
    if list.len() == 0 {
        seq![]
    } else {
        list[0].frames() + all_frames(list.drop_first())
    }
}

/// What a scan keeps holds no complete frame.
proof fn lemma_rest_is_spent(s: Seq<u8>)
    ensures
        scan(scan(s).rest).met.len() == 0,
{
    law_scan_chunks(s, Seq::empty());
    assert(s + Seq::<u8>::empty() =~= s);
    assert(scan(s).rest + Seq::<u8>::empty() =~= scan(s).rest);
}

proof fn lemma_scans_from(kept: Seq<u8>, chunks: Seq<Seq<u8>>)
    requires
        scan(kept).met.len() == 0,
    ensures
        all_frames(scans(kept, chunks)) == scan(kept + joined(chunks)).frames(),
    decreases chunks.len(),
{
    if chunks.len() == 0 {
        assert(kept + joined(chunks) =~= kept);
    } else {
        let s = scan(kept + chunks[0]);
        let later = chunks.drop_first();
        lemma_rest_is_spent(kept + chunks[0]);
        lemma_scans_from(s.rest, later);
        law_scan_chunks(kept + chunks[0], joined(later));
        assert(kept + joined(chunks) =~= (kept + chunks[0]) + joined(later));
        let list = scans(kept, chunks);
        assert(list.drop_first() =~= scans(s.rest, later));
    }
}

/// Which frames come out of a stream does not depend on how it is cut, into however
/// many chunks: what the pushes find, one after the other, are the frames of the whole.
pub proof fn law_scan_all_chunks(chunks: Seq<Seq<u8>>)
    ensures
        all_frames(scans(Seq::empty(), chunks)) == scan(joined(chunks)).frames(),
{
    let none = Seq::<u8>::empty();
    assert(trimmed(none) =~= none);
    lemma_scans_from(none, chunks);
    assert(none + joined(chunks) =~= joined(chunks));
}

proof fn lemma_clean_scans(
    frames: Seq<(Seq<u8>, Seq<u8>)>,
    spaces: Seq<u8>,
    kept: Seq<u8>,
    chunks: Seq<Seq<u8>>,
)
    requires
        clean(frames),
        blank(spaces),
        kept + joined(chunks) == burst(frames) + spaces,
    ensures
        forall|i: int|
            0 <= i < chunks.len() ==> (#[trigger] scans(kept, chunks)[i]).fault is None,
        scans(kept, chunks).len() == chunks.len(),
    decreases chunks.len(),
{
    if chunks.len() > 0 {
        let stream = burst(frames) + spaces;
        let now = kept + chunks[0];
        let later = chunks.drop_first();
        let n = now.len() as int;
        assert(stream =~= now + joined(later));
        assert(stream.take(n) =~= now);
        assert(stream.skip(n) =~= joined(later));
        let left = lemma_clean_prefix(frames, spaces, n);
        lemma_clean_scans(left.0, left.1, scan(now).rest, later);
        let list = scans(kept, chunks);
        assert forall|i: int| 0 <= i < chunks.len() implies (#[trigger] list[i]).fault is None by {
            if i > 0 {
                assert(list[i] == scans(scan(now).rest, later)[i - 1]);
            }
        }
    }
}

/// A clean stream is read without a fault, however it is cut: of frames whose
/// payloads hold no end marker, with any number of spaces before, between and behind
/// them, every push succeeds, and the pushes together give each frame once, in order.
pub proof fn law_clean_stream(
    frames: Seq<(Seq<u8>, Seq<u8>)>,
    spaces: Seq<u8>,
    chunks: Seq<Seq<u8>>,
)
    requires
        clean(frames),
        blank(spaces),
        joined(chunks) == burst(frames) + spaces,
    ensures
        ({
            let list = scans(Seq::empty(), chunks);
            &&& list.len() == chunks.len()
            &&& forall|i: int|
                0 <= i < list.len() ==> (#[trigger] list[i]).result() == Ok::<
                    Seq<Seq<u8>>,
                    FrameError,
                >(list[i].frames())
            &&& all_frames(list) == contents(frames)
        }),
{
    let none = Seq::<u8>::empty();
    assert(none + joined(chunks) =~= joined(chunks));
    lemma_clean_scans(frames, spaces, none, chunks);
    law_scan_all_chunks(chunks);
    law_scan_burst(frames, spaces);
    let list = scans(none, chunks);
    assert forall|i: int| 0 <= i < list.len() implies (#[trigger] list[i]).result() == Ok::<
        Seq<Seq<u8>>,
        FrameError,
    >(list[i].frames()) by {
        assert(list[i].fault is None);
    }
}

/// Noise before the beginning of a frame is no fault: as long as a frame start
/// follows, a push without a complete frame succeeds with none.
pub proof fn law_noise_before_a_start(noise: Seq<u8>, part: Seq<u8>)
    requires
        find(noise, prefix()) is None,
        part.len() >= 3,
        part.take(3) == prefix(),
        parsed(part) is Incomplete,
    ensures
        scan(noise + part).result() == Ok::<Seq<Seq<u8>>, FrameError>(seq![]),
        scan(noise + part).rest == part,
{
    let s = noise + part;
    let n = noise.len() as int;
    let b = trimmed(s);
    lemma_find_from(noise, prefix(), 0);
    lemma_leading_spaces(s);
    assert(part[0] == part.take(3)[0]);
    assert(s[n] == part[0]);
    let g = leading_spaces(s) as int;
    assert(g <= n);
    assert(s.subrange(n, n + 3) =~= part.take(3));
    assert forall|j: int| 0 <= j < n implies !occurs(s, prefix(), j) by {
        if occurs(s, prefix(), j) {
            if j + 3 <= n {
                assert(noise.subrange(j, j + 3) =~= s.subrange(j, j + 3));
                assert(occurs(noise, prefix(), j));
            } else {
                let k = n - j;
                assert(s.subrange(j, j + 3)[k] == s[n]);
                assert(s[n] == prefix()[0]);
                assert(prefix()[k] != 0x3c);
            }
        }
    }
    lemma_leading_spaces_is(part, 0);
    assert(trimmed(part) =~= part);
    let none = Seq::<Sighting>::empty();
    assert(scan(part) == (Scan { met: none, rest: part, fault: None }));
    assert(intact(none) =~= Seq::<Seq<u8>>::empty());
    if g == n {
        assert(b =~= part);
    } else {
        assert(b.take(3) =~= s.subrange(g, g + 3));
        assert(!occurs(s, prefix(), g));
        assert(parsed(b) is Malformed);
        assert(trimmed(b) == b);
        assert(decoded(b) == Err::<(Seq<u8>, nat), FrameError>(FrameError::Malformed));
        let at = n - g - 1;
        lemma_occurs_shift(s, g + 1, at);
        assert(b.skip(1) =~= s.skip(g + 1));
        assert forall|j: int| 0 <= j < at implies !occurs(b.skip(1), prefix(), j) by {
            lemma_occurs_shift(s, g + 1, j);
        }
        lemma_find_is(b.skip(1), prefix(), Some(at));
        assert(b.skip(at + 1) =~= part);
        assert(none + passed(b, FrameError::Malformed) =~= none);
    }
}

/// The bytes of a frame: `<U>`, the payload as it is, `</U=`, two lower-case digits whose
/// value is the checksum of the payload, and `>`, for every payload.
pub proof fn law_frame_layout(payload: Seq<u8>)
    ensures
        ({
            let e = encoded(payload);
            let n = payload.len() as int;
            &&& e.len() == n + 10
            &&& e[0] == 0x3c && e[1] == 0x55 && e[2] == 0x3e
            &&& e.subrange(3, n + 3) == payload
            &&& e[n + 3] == 0x3c && e[n + 4] == 0x2f && e[n + 5] == 0x55 && e[n + 6] == 0x3d
            &&& hex_value(e[n + 7] as char) is Some && hex_value(e[n + 8] as char) is Some
            &&& 16 * hex_value(e[n + 7] as char)->0 + hex_value(e[n + 8] as char)->0 == spec_crc8(
                payload,
            )
            &&& !(0x41 <= e[n + 7] <= 0x46) && !(0x41 <= e[n + 8] <= 0x46)
            &&& e[n + 9] == 0x3e
        }),
{
    let e = encoded(payload);
    let n = payload.len() as int;
    let crc = spec_crc8(payload);
    lemma_trailer(crc);
    assert(e.subrange(3, n + 3) =~= payload);
    assert(e[n + 7] == trailer(crc)[0]);
    assert(e[n + 8] == trailer(crc)[1]);
    let h = crc as int / 16;
    let l = crc as int % 16;
    lemma_hex_char(h);
    lemma_hex_char(l);
}

/// A frame is accepted exactly when the two digits behind its payload have the value of
/// the payload's checksum. With other digits it is refused with both values, with no
/// digits or no closing bracket it is malformed. What follows does not matter.
pub proof fn law_checksum_decides(payload: Seq<u8>, high: u8, low: u8, end: u8, rest: Seq<u8>)
    requires
        find(payload, mid()) is None,
    ensures
        ({
            let input = prefix() + payload + mid() + seq![high, low, end] + rest;
            match (hex_value(high as char), hex_value(low as char)) {
                (Some(h), Some(l)) => if end != 0x3e {
                    decoded(input) == Err::<(Seq<u8>, nat), FrameError>(FrameError::Malformed)
                } else if 16 * h + l == spec_crc8(payload) {
                    decoded(input) == Ok::<(Seq<u8>, nat), FrameError>(
                        (payload, (payload.len() + 10) as nat),
                    )
                } else {
                    decoded(input) == Err::<(Seq<u8>, nat), FrameError>(
                        FrameError::InvalidCrc {
                            expected: (16 * h + l) as u8,
                            actual: spec_crc8(payload),
                        },
                    )
                },
                _ => decoded(input) == Err::<(Seq<u8>, nat), FrameError>(FrameError::Malformed),
            }
        }),
{
    let tail = seq![high, low, end] + rest;
    let input = prefix() + payload + mid() + seq![high, low, end] + rest;
    lemma_leading_spaces_is(input, 0);
    assert(trimmed(input) =~= input);
    assert(input.take(3) =~= prefix());
    assert(input.skip(3) =~= payload + mid() + tail);
    lemma_mid_after_payload(payload, tail);
    let at = payload.len() as int;
    assert(input.skip(at + 7) =~= tail);
    assert(input.subrange(3, at + 3) =~= payload);
}

/// Spaces in front of a frame are passed over and count among the bytes that it takes.
pub proof fn law_spaces_in_front(n: nat, input: Seq<u8>)
    requires
        input.len() > 0,
        input[0] != 0x20,
    ensures
        ({
            let spaced = Seq::new(n, |i: int| 0x20u8) + input;
            match decoded(input) {
                Ok((payload, len)) => decoded(spaced) == Ok::<(Seq<u8>, nat), FrameError>(
                    (payload, n + len),
                ),
                Err(e) => decoded(spaced) == Err::<(Seq<u8>, nat), FrameError>(e),
            }
        }),
{
    let spaced = Seq::new(n, |i: int| 0x20u8) + input;
    lemma_leading_spaces_is(spaced, n);
    lemma_leading_spaces_is(input, 0);
    assert(trimmed(spaced) =~= input);
    assert(trimmed(input) =~= input);
}

/// Bytes that do not begin with `<U>` are no frame; fewer than three bytes, or a start
/// without an end marker, may yet become one.
pub proof fn law_what_is_no_frame(input: Seq<u8>)
    requires
        input.len() > 0 ==> input[0] != 0x20,
    ensures
        input.len() < 3 ==> decoded(input) == Err::<(Seq<u8>, nat), FrameError>(
            FrameError::Incomplete,
        ),
        input.len() >= 3 && !(input[0] == 0x3c && input[1] == 0x55 && input[2] == 0x3e)
            ==> decoded(input) == Err::<(Seq<u8>, nat), FrameError>(FrameError::Malformed),
        input.len() >= 3 && input[0] == 0x3c && input[1] == 0x55 && input[2] == 0x3e && (
        forall|i: int|
            3 <= i <= input.len() - 4 ==> !(#[trigger] input[i] == 0x3c && input[i + 1] == 0x2f
                && input[i + 2] == 0x55 && input[i + 3] == 0x3d)) ==> decoded(input) == Err::<
            (Seq<u8>, nat),
            FrameError,
        >(FrameError::Incomplete),
{
    lemma_leading_spaces_is(input, 0);
    assert(trimmed(input) =~= input);
    if input.len() >= 3 {
        let head = input.take(3);
        assert(head[0] == input[0] && head[1] == input[1] && head[2] == input[2]);
        if input[0] == 0x3c && input[1] == 0x55 && input[2] == 0x3e {
            assert(head =~= prefix());
            let body = input.skip(3);
            lemma_find_from(body, mid(), 0);
            match find(body, mid()) {
                Some(at) => {
                    let here = body.subrange(at, at + 4);
                    assert(here == mid());
                    assert(here[0] == input[at + 3] && here[1] == input[at + 4] && here[2]
                        == input[at + 5] && here[3] == input[at + 6]);
                },
                None => {},
            }
        } else {
            assert(prefix()[0] == 0x3c && prefix()[1] == 0x55 && prefix()[2] == 0x3e);
        }
    }
}

/// A search gives the first place where all bytes agree, and none only where there is
/// no such place.
pub proof fn law_find_is_the_first(hay: Seq<u8>, needle: Seq<u8>)
    ensures
        match find(hay, needle) {
            Some(at) => {
                &&& 0 <= at <= hay.len() - needle.len()
                &&& hay.subrange(at, at + needle.len()) == needle
                &&& forall|j: int|
                    0 <= j < at ==> #[trigger] hay.subrange(j, j + needle.len()) != needle
            },
            None => forall|j: int|
                0 <= j <= hay.len() - needle.len() ==> #[trigger] hay.subrange(
                    j,
                    j + needle.len(),
                ) != needle,
        },
{
    lemma_find_from(hay, needle, 0);
    assert forall|j: int|
        0 <= j && j <= hay.len() - needle.len() && !occurs(hay, needle, j) implies
        #[trigger] hay.subrange(j, j + needle.len()) != needle by {}
    match find(hay, needle) {
        Some(at) => {
            assert(occurs(hay, needle, at));
        },
        None => {},
    }
}

/// A scan goes frame by frame: a frame is taken and the scan goes on behind it, and what
/// may yet become a frame is kept for the next chunk.
pub proof fn law_scan_goes_on(buf: Seq<u8>, n: nat)
    requires
        n <= buf.len(),
        forall|i: int| 0 <= i < n ==> buf[i] == 0x20,
        n < buf.len() ==> buf[n as int] != 0x20,
    ensures
        decoded(buf) matches Ok(taken) ==> {
            let later = scan(buf.skip(taken.1 as int));
            &&& scan(buf).met == seq![Sighting { payload: taken.0, intact: true }] + later.met
            &&& scan(buf).rest == later.rest
            &&& scan(buf).fault == later.fault
        },
        decoded(buf) == Err::<(Seq<u8>, nat), FrameError>(FrameError::Incomplete) ==> {
            &&& scan(buf).met.len() == 0
            &&& scan(buf).rest == buf.skip(n as int)
            &&& scan(buf).fault is None
        },
{
    let b = trimmed(buf);
    lemma_leading_spaces(buf);
    lemma_leading_spaces_is(buf, n);
    lemma_parsed_bounds(b);
    assert(trimmed(b) == b);
    assert(leading_spaces(b) == 0);
    if let Ok((payload, len)) = decoded(buf) {
        let own = (len - n) as int;
        assert(decoded(b) == Ok::<(Seq<u8>, nat), FrameError>((payload, own as nat)));
        assert(b.skip(own) =~= buf.skip(len as int));
        let first = Seq::<Sighting>::empty().push(Sighting { payload, intact: true });
        assert(first =~= seq![Sighting { payload, intact: true }]);
        assert(b.len() > 0);
        assert(scan(buf) == scan_from(b.skip(own), first));
        lemma_scan_from(b.skip(own), first);
    } else if decoded(buf) == Err::<(Seq<u8>, nat), FrameError>(FrameError::Incomplete) {
        assert(decoded(b) == decoded(buf));
        if b.len() == 0 {
            assert(buf.skip(n as int) =~= Seq::<u8>::empty());
        }
    }
}

/// What is no frame is passed over, up to the next frame start. A frame with a wrong
/// checksum is met, not taken. Without another start the last two bytes are kept, and
/// the fault is told.
pub proof fn law_scan_passes_over(buf: Seq<u8>, n: nat, e: FrameError)
    requires
        n <= buf.len(),
        forall|i: int| 0 <= i < n ==> buf[i] == 0x20,
        n < buf.len() ==> buf[n as int] != 0x20,
        decoded(buf) == Err::<(Seq<u8>, nat), FrameError>(e),
        !(e is Incomplete),
    ensures
        ({
            let b = buf.skip(n as int);
            let met = if e is InvalidCrc {
                seq![
                    Sighting {
                        payload: b.subrange(
                            3,
                            3 + find(b.skip(3), seq![0x3cu8, 0x2fu8, 0x55u8, 0x3du8])->0,
                        ),
                        intact: false,
                    },
                ]
            } else {
                Seq::<Sighting>::empty()
            };
            match find(b.skip(1), seq![0x3cu8, 0x55u8, 0x3eu8]) {
                Some(at) => {
                    let later = scan(b.skip(at + 1));
                    &&& scan(buf).met == met + later.met
                    &&& scan(buf).rest == later.rest
                    &&& scan(buf).fault == later.fault
                },
                None => {
                    &&& scan(buf).met == met
                    &&& scan(buf).rest == b.skip(b.len() - 2)
                    &&& scan(buf).fault == Some(e)
                },
            }
        }),
{
    let b = trimmed(buf);
    lemma_leading_spaces(buf);
    lemma_leading_spaces_is(buf, n);
    lemma_parsed_bounds(b);
    assert(trimmed(b) == b);
    assert(decoded(b) == decoded(buf));
    assert(prefix() =~= seq![0x3cu8, 0x55u8, 0x3eu8]);
    assert(mid() =~= seq![0x3cu8, 0x2fu8, 0x55u8, 0x3du8]);
    let none = Seq::<Sighting>::empty();
    assert(none + passed(b, e) =~= passed(b, e));
    if e is InvalidCrc {
        let at = find(b.skip(3), mid())->0;
        assert(b.subrange(3, at + 3) =~= b.subrange(3, 3 + at));
    }
    if let Some(at) = find(b.skip(1), prefix()) {
        lemma_scan_from(b.skip(at + 1), none + passed(b, e));
    }
}

/// The frames of a scan are the intact ones that were met, in order. A fault is told
/// where there are none.
pub proof fn law_frames_of_a_scan(s: Scan)
    ensures
        s.frames() == s.met.filter(|m: Sighting| m.intact).map_values(|m: Sighting| m.payload),
        s.fault is None || s.frames().len() > 0 ==> s.result() == Ok::<Seq<Seq<u8>>, FrameError>(
            s.frames(),
        ),
        s.fault matches Some(e) ==> s.frames().len() == 0 ==> s.result() == Err::<
            Seq<Seq<u8>>,
            FrameError,
        >(e),
{
    lemma_intact_filters(s.met);
}

proof fn lemma_intact_filters(met: Seq<Sighting>)
    ensures
        intact(met) == met.filter(|m: Sighting| m.intact).map_values(|m: Sighting| m.payload),
    decreases met.len(),
{
    reveal(Seq::filter);
    if met.len() > 0 {
        lemma_intact_filters(met.drop_last());
    }
    assert(intact(met) =~= met.filter(|m: Sighting| m.intact).map_values(
        |m: Sighting| m.payload,
    ));
}

} // verus!
