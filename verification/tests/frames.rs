use cb_daemon::crc::crc8;
use cb_daemon::frame::{find_slice, Frame, FrameError, FrameScanner};

#[test]
fn golden_ping() {
    assert_eq!(crc8(b"Ping"), 0xdb);
}

#[test]
fn golden_set_can() {
    assert_eq!(crc8(b"setCAN "), 0xb2);
}

#[test]
fn golden_ack_can() {
    assert_eq!(crc8(b"ackCAN 1"), 0xaa);
}

#[test]
fn golden_get_system_data() {
    assert_eq!(crc8(b"getSystemData"), 0x15);
}

fn round_trip(payload: &[u8]) {
    let frame = Frame {
        payload: payload.to_vec(),
    };
    let encoded = frame.encode();
    let (decoded, consumed) = Frame::decode_one(&encoded).expect("decode");
    assert_eq!(consumed, encoded.len());
    assert_eq!(decoded.payload, payload);
}

#[test]
fn round_trip_ping() {
    round_trip(b"Ping");
}

#[test]
fn round_trip_set_can() {
    round_trip(b"setCAN ");
}

#[test]
fn round_trip_ack_can() {
    round_trip(b"ackCAN 1");
}

#[test]
fn encode_ping_golden_wire() {
    let frame = Frame {
        payload: b"Ping".to_vec(),
    };
    assert_eq!(frame.encode(), b"<U>Ping</U=db>");
}

#[test]
fn decode_skips_leading_spaces() {
    let input = b"  <U>Ping</U=db>";
    let (frame, consumed) = Frame::decode_one(input).unwrap();
    assert_eq!(frame.payload, b"Ping");
    assert_eq!(consumed, input.len());
}

#[test]
fn scanner_splits_multiple_frames() {
    let mut scanner = FrameScanner::new();
    let burst = b"<U>Ping</U=db> <U>setCAN </U=b2> <U>ackCAN 1</U=aa>";
    let frames = scanner.push(burst).unwrap();
    assert_eq!(frames.len(), 3);
    assert_eq!(frames[0].payload, b"Ping");
    assert_eq!(frames[1].payload, b"setCAN ");
    assert_eq!(frames[2].payload, b"ackCAN 1");
    assert!(scanner.push(&[]).unwrap().is_empty());
}

#[test]
fn scanner_handles_partial_chunks() {
    let mut scanner = FrameScanner::new();
    let full = b"<U>Ping</U=db>";
    let mid = full.len() / 2;

    let first = scanner.push(&full[..mid]).unwrap();
    assert!(first.is_empty());

    let second = scanner.push(&full[mid..]).unwrap();
    assert_eq!(second.len(), 1);
    assert_eq!(second[0].payload, b"Ping");
}

#[test]
fn decode_incomplete() {
    let partial = b"<U>Ping</U=";
    assert_eq!(Frame::decode_one(partial), Err(FrameError::Incomplete));
    assert_eq!(Frame::decode_one(b""), Err(FrameError::Incomplete));
    assert_eq!(Frame::decode_one(b"   "), Err(FrameError::Incomplete));
}

#[test]
fn scanner_incomplete_returns_empty() {
    let mut scanner = FrameScanner::new();
    let out = scanner.push(b"<U>Pi").unwrap();
    assert!(out.is_empty());
}

#[test]
fn bad_crc_invalid() {
    let bad = b"<U>Ping</U=00>";
    match Frame::decode_one(bad) {
        Err(FrameError::InvalidCrc { expected, actual }) => {
            assert_eq!(expected, 0x00);
            assert_eq!(actual, 0xdb);
        }
        other => panic!("expected InvalidCrc, got {other:?}"),
    }
}

#[test]
fn malformed_prefix() {
    assert_eq!(
        Frame::decode_one(b"Ping</U=db>"),
        Err(FrameError::Malformed)
    );
    assert_eq!(
        Frame::decode_one(b"<X>Ping</U=db>"),
        Err(FrameError::Malformed)
    );
}

#[test]
fn scanner_resyncs_past_leading_garbage_to_ping() {
    let mut scanner = FrameScanner::new();
    let noise = b"\x00\xe1\x00\x00\x08\x01\x00\x00";
    let ping = b"<U>Ping</U=db>";
    let mut burst = noise.to_vec();
    burst.extend_from_slice(ping);
    let frames = scanner.push(&burst).expect("resync should yield ping");
    assert_eq!(frames.len(), 1);
    assert_eq!(frames[0].payload, b"Ping");
}

#[test]
fn scanner_resyncs_past_bad_crc_to_next_frame() {
    let mut scanner = FrameScanner::new();
    let burst = b"<U>Ping</U=00><U>Ping</U=db>";
    let frames = scanner.push(burst).expect("bad crc should not wedge");
    assert_eq!(frames.len(), 1);
    assert_eq!(frames[0].payload, b"Ping");
}

#[test]
fn scanner_reassembles_large_getcan_in_aoa_chunks() {
    let mut records = String::from("getCAN 1");
    for i in 0..16 {
        records.push(' ');
        records.push_str(&format!("070311111050101033{i:02x}00100"));
    }
    let frame = Frame {
        payload: records.as_bytes().to_vec(),
    };
    let encoded = frame.encode();
    assert!(encoded.len() > 200, "encoded len {}", encoded.len());

    let mut scanner = FrameScanner::new();
    let chunk = 63usize;
    let mut got = Vec::new();
    for start in (0..encoded.len()).step_by(chunk) {
        let end = (start + chunk).min(encoded.len());
        let frames = scanner
            .push(&encoded[start..end])
            .expect("chunked large getCAN must not Malformed");
        got.extend(frames);
    }
    assert_eq!(got.len(), 1);
    assert_eq!(got[0].payload, records.as_bytes());
}

#[test]
fn scanner_noise_only_returns_malformed_once() {
    let mut scanner = FrameScanner::new();
    let err = scanner
        .push(b"\x00\xe1\x00\x00")
        .expect_err("noise with no <U> should surface");
    assert_eq!(err, FrameError::Malformed);
    assert!(scanner.push(&[]).unwrap().is_empty());
}

#[test]
fn scanner_yields_every_frame_of_a_burst() {
    let payloads: [&[u8]; 4] = [b"Ping", b"ackCAN 1", b"", b"getSystemData"];
    let mut burst = Vec::new();
    for payload in payloads {
        let frame = Frame {
            payload: payload.to_vec(),
        };
        burst.extend(frame.encode());
    }
    let mut scanner = FrameScanner::new();
    let frames = scanner.push(&burst).unwrap();
    let got: Vec<&[u8]> = frames.iter().map(|f| f.payload.as_slice()).collect();
    assert_eq!(got, payloads);
}

#[test]
fn noise_before_the_start_of_a_frame_is_no_error() {
    let mut scanner = FrameScanner::new();
    assert_eq!(scanner.push(b"xx<U>Pi"), Ok(vec![]));
    let frames = scanner.push(b"ng</U=db>").unwrap();
    assert_eq!(frames.len(), 1);
    assert_eq!(frames[0].payload, b"Ping");
}

#[test]
fn a_damaged_frame_before_the_start_of_another_is_no_error() {
    let mut scanner = FrameScanner::new();
    let report = scanner.scan(b"<U>Ping</U=00><U>Pi");
    assert_eq!(report.fault, None);
    assert_eq!(report.met.len(), 1);
    assert!(!report.met[0].intact);
    assert_eq!(report.met[0].frame.payload, b"Ping");
    let mut scanner = FrameScanner::new();
    assert_eq!(scanner.push(b"<U>Ping</U=00><U>Pi"), Ok(vec![]));
}

#[test]
fn noise_without_the_start_of_a_frame_is_an_error() {
    let mut scanner = FrameScanner::new();
    assert_eq!(scanner.push(b"xxxx"), Err(FrameError::Malformed));
    assert_eq!(
        scanner.push(b"<U>Ping</U=00>"),
        Err(FrameError::InvalidCrc {
            expected: 0x00,
            actual: 0xdb,
        })
    );
    let frames = scanner.push(b"<U>Ping</U=db>xxxx").unwrap();
    assert_eq!(frames.len(), 1, "a frame hides the fault behind it");
}

#[test]
fn frames_are_met_in_order_intact_or_not() {
    let mut scanner = FrameScanner::new();
    let report = scanner.scan(b"<U>Ping</U=db><U>setCAN </U=00> <U>ackCAN 1</U=aa>");
    let met: Vec<(&[u8], bool)> = report
        .met
        .iter()
        .map(|m| (m.frame.payload.as_slice(), m.intact))
        .collect();
    let expected: [(&[u8], bool); 3] = [(b"Ping", true), (b"setCAN ", false), (b"ackCAN 1", true)];
    assert_eq!(met, expected);
    assert_eq!(report.failure(), None);
}

#[test]
fn a_clean_stream_is_read_without_an_error_however_it_is_cut() {
    let stream = b"  <U>Ping</U=db><U>setCAN </U=b2>   <U>ackCAN 1</U=aa> ";
    let expected: [&[u8]; 3] = [b"Ping", b"setCAN ", b"ackCAN 1"];
    for first in 0..=stream.len() {
        for second in first..=stream.len() {
            let mut scanner = FrameScanner::new();
            let mut got = Vec::new();
            for chunk in [&stream[..first], &stream[first..second], &stream[second..]] {
                got.extend(scanner.push(chunk).expect("clean stream"));
            }
            let got: Vec<&[u8]> = got.iter().map(|f| f.payload.as_slice()).collect();
            assert_eq!(got, expected, "cut at {first} and {second}");
        }
    }
}

#[test]
fn an_empty_needle_stands_nowhere() {
    assert_eq!(find_slice(b"abc", b""), None);
    assert_eq!(find_slice(b"", b""), None);
    assert_eq!(find_slice(b"abcbc", b"bc"), Some(1));
    assert_eq!(find_slice(b"ab", b"abc"), None);
}
