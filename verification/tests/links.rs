use cb_daemon::link::{
    control_modes, input_modes, split_chunks, write_steps, AoaOpenOptions, AoaStep, LineBits,
    LinkClosed, MockLink, Outgoing, OutgoingStep, TtyOpenOptions, AOA_CONFIG_PACKET, AOA_INTER_CHUNK_DELAY_MS,
    AOA_MAX_CHUNK, TTY_BAUD,
};
use rustix::fs::{open, Mode, OFlags};
use rustix::termios::{tcgetattr, ControlModes, InputModes};

/// Accessory that keeps what is written to it and can refuse writes.
#[derive(Default)]
struct FakeAccessory {
    written: Vec<Vec<u8>>,
    sleeps: usize,
    fail_write_after: Option<usize>,
}

impl FakeAccessory {
    fn write(&mut self, bytes: &[u8]) -> Result<(), String> {
        if let Some(limit) = self.fail_write_after {
            if self.written.len() >= limit {
                return Err("injected write failure".to_owned());
            }
        }
        self.written.push(bytes.to_vec());
        Ok(())
    }

    fn open(fail_write_after: Option<usize>) -> Self {
        let mut fake = Self {
            fail_write_after,
            ..Self::default()
        };
        fake.write(&AOA_CONFIG_PACKET).expect("config packet");
        fake
    }

    fn write_all(&mut self, data: &[u8], opts: AoaOpenOptions) -> Result<(), String> {
        for step in write_steps(data, opts.max_chunk) {
            match step {
                AoaStep::Write(bytes) => self.write(&bytes)?,
                AoaStep::Pause => self.sleeps += 1,
            }
        }
        Ok(())
    }
}

fn written_by_default(payload: &[u8]) -> FakeAccessory {
    let mut fake = FakeAccessory::open(None);
    fake.write_all(payload, AoaOpenOptions::default()).expect("write");
    fake
}

#[test]
fn config_written_exactly_once_before_payload() {
    let mut fake = FakeAccessory::open(None);
    assert_eq!(fake.written, vec![AOA_CONFIG_PACKET.to_vec()]);

    fake.write_all(&[0xAA, 0xBB], AoaOpenOptions::default()).expect("payload");
    assert_eq!(fake.written.len(), 2);
    assert_eq!(fake.written[0], AOA_CONFIG_PACKET.to_vec());
    assert_eq!(fake.written[1], vec![0xAA, 0xBB]);
    assert_eq!(
        fake.written
            .iter()
            .filter(|c| c.as_slice() == AOA_CONFIG_PACKET)
            .count(),
        1
    );
}

#[test]
fn chunk_exactly_max_is_single_write_no_sleep() {
    let payload = vec![0x42u8; AOA_MAX_CHUNK];
    let fake = written_by_default(&payload);
    assert_eq!(fake.written.len(), 2);
    assert_eq!(fake.written[1], payload);
    assert_eq!(fake.sleeps, 0);
}

#[test]
fn chunk_64_splits_with_one_sleep() {
    let payload = vec![0x7Eu8; 64];
    let fake = written_by_default(&payload);
    assert_eq!(fake.written.len(), 3);
    assert_eq!(fake.written[1].len(), 63);
    assert_eq!(fake.written[2].len(), 1);
    assert_eq!(&fake.written[1][..], &payload[..63]);
    assert_eq!(fake.written[2][0], payload[63]);
    assert_eq!(fake.sleeps, 1);
}

#[test]
fn chunk_126_two_full_chunks_one_sleep() {
    let fake = written_by_default(&[0x11u8; 126]);
    assert_eq!(fake.written.len(), 3);
    assert_eq!(fake.written[1].len(), 63);
    assert_eq!(fake.written[2].len(), 63);
    assert_eq!(fake.sleeps, 1);
}

#[test]
fn empty_write_ok_no_sleep_no_extra_write() {
    let fake = written_by_default(&[]);
    assert_eq!(fake.written.len(), 1);
    assert_eq!(fake.sleeps, 0);
}

#[test]
fn delay_count_matches_saturating_sub_one() {
    let fake = written_by_default(&[0xFFu8; 190]);
    let payload_chunks = fake.written.len() - 1;
    assert_eq!(payload_chunks, 4);
    assert_eq!(fake.sleeps, payload_chunks.saturating_sub(1));
}

#[test]
fn write_error_stops_further_writes_and_sleeps() {
    let mut fake = FakeAccessory::open(Some(2));
    let err = fake
        .write_all(&[0x55u8; 126], AoaOpenOptions::default())
        .expect_err("injected fail");
    assert_eq!(err, "injected write failure");
    assert_eq!(fake.written.len(), 2);
    assert_eq!(fake.written[0], AOA_CONFIG_PACKET.to_vec());
    assert_eq!(fake.written[1].len(), 63);
    assert_eq!(fake.sleeps, 1);
}

#[test]
fn write_error_on_first_payload_chunk_no_sleep() {
    let mut fake = FakeAccessory::open(Some(1));
    assert!(fake
        .write_all(&[0x55u8; 126], AoaOpenOptions::default())
        .is_err());
    assert_eq!(fake.written.len(), 1);
    assert_eq!(fake.sleeps, 0);
}

#[test]
fn custom_max_chunk_splits_and_sleeps() {
    let opts = AoaOpenOptions {
        max_chunk: 10,
        inter_chunk_delay_ms: 5,
    };
    let mut fake = FakeAccessory::open(None);
    let payload = vec![0xABu8; 25];
    fake.write_all(&payload, opts).expect("write");
    assert_eq!(fake.written.len(), 4);
    assert_eq!(fake.written[1].len(), 10);
    assert_eq!(fake.written[2].len(), 10);
    assert_eq!(fake.written[3].len(), 5);
    assert_eq!(&fake.written[1][..], &payload[..10]);
    assert_eq!(&fake.written[2][..], &payload[10..20]);
    assert_eq!(&fake.written[3][..], &payload[20..]);
    assert_eq!(fake.sleeps, 2);
    assert_eq!(opts.inter_chunk_delay_ms, 5);
    assert_ne!(opts.inter_chunk_delay_ms, AOA_INTER_CHUNK_DELAY_MS);
}

#[test]
fn custom_max_chunk_exact_boundary_no_sleep() {
    let opts = AoaOpenOptions {
        max_chunk: 16,
        inter_chunk_delay_ms: 0,
    };
    let mut fake = FakeAccessory::open(None);
    let payload = vec![0xCDu8; 16];
    fake.write_all(&payload, opts).expect("write");
    assert_eq!(fake.written.len(), 2);
    assert_eq!(fake.written[1], payload);
    assert_eq!(fake.sleeps, 0);
}

#[test]
fn aoa_open_options_default_matches_constants() {
    let opts = AoaOpenOptions::default();
    assert_eq!(opts.max_chunk, AOA_MAX_CHUNK);
    assert_eq!(opts.inter_chunk_delay_ms, AOA_INTER_CHUNK_DELAY_MS);
}

#[test]
fn tty_open_options_default_is_the_bus_speed() {
    assert_eq!(TtyOpenOptions::default().baud, TTY_BAUD);
    assert_eq!(TTY_BAUD, 57_600);
}

#[test]
fn chunks_are_the_data_again() {
    let data: Vec<u8> = (0u8..=255).collect();
    for size in [0, 1, 2, 63, 64, 255, 256, 1_000, usize::MAX] {
        let pieces = split_chunks(&data, size);
        assert_eq!(pieces.concat(), data, "{size}");
        let limit = size.max(1);
        assert!(pieces.iter().all(|p| !p.is_empty() && p.len() <= limit));
        assert!(pieces.iter().rev().skip(1).all(|p| p.len() == limit));
    }
}

#[test]
fn write_all_captures_via_written_and_take_written() {
    let mut link = MockLink::new();
    link.write_all(b"hello").expect("write");
    assert_eq!(link.written(), b"hello");
    link.write_all(b" world").expect("write");
    assert_eq!(link.written(), b"hello world");
    let taken = link.take_written();
    assert_eq!(taken, b"hello world");
    assert_eq!(link.written(), b"");
}

#[test]
fn scripted_inbound_partial_reads() {
    let mut link = MockLink::with_inbound(b"abcdef".to_vec());
    assert_eq!(link.read(3).expect("read"), b"abc");
    assert_eq!(link.read(3).expect("read"), b"def");
    assert_eq!(link.read(3).expect("read"), b"");

    link.push_inbound(b"xy");
    assert_eq!(link.read(1).expect("read"), b"x");
    assert_eq!(link.read(1).expect("read"), b"y");
}

#[test]
fn lib_empty_inbound_returns_ok_zero() {
    let mut link = MockLink::new();
    assert_eq!(link.read(8).expect("read").len(), 0);
}

#[test]
fn io_after_close_errors() {
    let mut link = MockLink::with_inbound(b"data".to_vec());
    link.write_all(b"out").expect("write before close");
    link.close();
    link.close();
    assert_eq!(link.read(4).expect_err("read after close"), LinkClosed);
    assert_eq!(
        link.write_all(b"more").expect_err("write after close"),
        LinkClosed
    );
}

#[test]
fn serial_line_is_set_to_eight_data_bits() {
    let bits = LineBits {
        size: 0x30,
        eight: 0x30,
        parity: 0x100,
        two_stops: 0x40,
        line_flow: 0x8000_0000,
        receiver: 0x80,
        local: 0x800,
        character_flow: 0x1c00,
    };
    assert_eq!(control_modes(0x8000_0150, &bits), 0x8b0);
    assert_eq!(control_modes(0x1001, &bits), 0x18b1);
    assert_eq!(control_modes(u32::MAX, &bits), 0x7fff_febf);
    assert_eq!(input_modes(0x1d01, &bits), 0x101);
    assert_eq!(input_modes(0, &bits), 0);
}

#[test]
fn apply_tty_settings_57600_8n1_raw_on_ptmx() {
    let Ok(fd) = open(
        "/dev/ptmx",
        OFlags::RDWR | OFlags::NOCTTY | OFlags::CLOEXEC,
        Mode::empty(),
    ) else {
        return;
    };
    let mut termios = tcgetattr(&fd).expect("tcgetattr");
    let bits = LineBits {
        size: ControlModes::CSIZE.bits(),
        eight: ControlModes::CS8.bits(),
        parity: ControlModes::PARENB.bits(),
        two_stops: ControlModes::CSTOPB.bits(),
        line_flow: ControlModes::CRTSCTS.bits(),
        receiver: ControlModes::CREAD.bits(),
        local: ControlModes::CLOCAL.bits(),
        character_flow: (InputModes::IXON | InputModes::IXOFF | InputModes::IXANY).bits(),
    };
    termios.make_raw();
    termios
        .set_speed(TtyOpenOptions::default().baud)
        .expect("apply");
    termios.control_modes =
        ControlModes::from_bits_retain(control_modes(termios.control_modes.bits(), &bits));
    termios.input_modes =
        InputModes::from_bits_retain(input_modes(termios.input_modes.bits(), &bits));

    assert_eq!(termios.input_speed(), TTY_BAUD);
    assert_eq!(termios.output_speed(), TTY_BAUD);
    assert!(termios.control_modes.contains(ControlModes::CS8));
    assert!(termios.control_modes.contains(ControlModes::CREAD));
    assert!(termios.control_modes.contains(ControlModes::CLOCAL));
    assert!(!termios.control_modes.contains(ControlModes::PARENB));
    assert!(!termios.control_modes.contains(ControlModes::CSTOPB));
    assert!(!termios.input_modes.contains(InputModes::IXON));
    assert!(!termios.input_modes.contains(InputModes::IXOFF));
}

#[test]
fn outgoing_bytes_leave_in_parts() {
    let mut out = Outgoing::new(b"abcdef");
    assert_eq!(out.step(), OutgoingStep::Write);
    assert_eq!(out.rest(), b"abcdef");
    assert_eq!(out.on_written(2), OutgoingStep::Write);
    assert_eq!(out.rest(), b"cdef");
    assert_eq!(out.on_written(0), OutgoingStep::Stalled);
    assert_eq!(out.rest(), b"cdef");
    assert_eq!(out.on_written(4), OutgoingStep::Done);
    assert_eq!(out.rest(), b"");
}

#[test]
fn nothing_to_write_is_done_at_once() {
    let out = Outgoing::new(b"");
    assert_eq!(out.step(), OutgoingStep::Done);
}
