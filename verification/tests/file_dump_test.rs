use concertina::bin2syx::SyxEncoder;
use concertina::midi_tools::file_dump::{FileDumpAction, FileDumpReceiver};
use concertina::midi_tools::messages::sysex::SysEx;

const SOURCE_ID: u8 = 0;
const DEVICE_ID: u8 = 1;
const FILE_TYPE: &str = "BIN ";

/// A file and a message output that record what happens to them, and a driver that performs
/// the receiver's actions on them the way the firmware does.
struct Harness {
    receiver: FileDumpReceiver,
    sent: Vec<SysEx>,
    opened: usize,
    closed: usize,
    written: Vec<Vec<u8>>,
    open_ok: bool,
    write_ok: bool,
}

impl Harness {
    fn new() -> Self {
        Harness {
            receiver: FileDumpReceiver::new(DEVICE_ID, FILE_TYPE),
            sent: Vec::new(),
            opened: 0,
            closed: 0,
            written: Vec::new(),
            open_ok: true,
            write_ok: true,
        }
    }

    fn process(&mut self, sysex: SysEx) {
        match self.receiver.process(sysex) {
            FileDumpAction::Ignore => {}
            FileDumpAction::Send(m) => self.sent.push(m),
            FileDumpAction::Open { wait, source_id } => {
                self.sent.push(wait);
                self.opened += 1;
                let answer = self.receiver.opened(source_id, self.open_ok);
                self.sent.push(answer);
            }
            FileDumpAction::Write { wait, packet } => {
                self.sent.push(wait);
                self.written.push(packet.data().to_vec());
                let answer = self.receiver.written(self.write_ok);
                self.sent.push(answer);
            }
            FileDumpAction::Close => self.closed += 1,
        }
    }
}

#[test]
fn receiver_ignores_header_with_wrong_device_ids() {
    let mut h = Harness::new();
    h.process(SysEx::file_dump_header(0x00, SOURCE_ID, 0, FILE_TYPE));
    h.process(SysEx::file_dump_header(0x33, SOURCE_ID, 0, FILE_TYPE));
    h.process(SysEx::file_dump_header(0x7E, SOURCE_ID, 0, FILE_TYPE));
    assert_eq!(h.opened, 0);
    assert!(h.sent.is_empty());
}

#[test]
fn receiver_cancels_header_with_wrong_file_type() {
    let mut h = Harness::new();
    h.process(SysEx::file_dump_header(DEVICE_ID, SOURCE_ID, 0, "TEXT"));
    h.process(SysEx::file_dump_header(DEVICE_ID, SOURCE_ID, 0, "MIDI"));
    h.process(SysEx::file_dump_header(DEVICE_ID, SOURCE_ID, 0, "BINN"));
    assert_eq!(h.opened, 0);
    assert_eq!(h.sent, vec![SysEx::cancel(SOURCE_ID, 0); 3]);
}

#[test]
fn receiver_requests_wait_before_open_and_acks() {
    let mut h = Harness::new();
    h.process(SysEx::file_dump_header(DEVICE_ID, SOURCE_ID, 0, FILE_TYPE));
    assert_eq!(h.opened, 1);
    assert_eq!(h.sent, vec![SysEx::wait(SOURCE_ID, 0), SysEx::ack(SOURCE_ID, 0)]);
    assert!(h.receiver.active());
}

#[test]
fn receiver_cancels_on_open_error() {
    let mut h = Harness::new();
    h.open_ok = false;
    h.process(SysEx::file_dump_header(DEVICE_ID, SOURCE_ID, 0, FILE_TYPE));
    assert_eq!(h.sent, vec![SysEx::wait(SOURCE_ID, 0), SysEx::cancel(SOURCE_ID, 0)]);
    assert!(!h.receiver.active());
}

#[test]
fn receiver_ignores_eof_before_header() {
    let mut h = Harness::new();
    h.process(SysEx::eof(DEVICE_ID, 0));
    assert_eq!(h.closed, 0);
    assert!(h.sent.is_empty());
}

#[test]
fn receiver_closes_file_on_eof_with_any_packet_num() {
    let mut h = Harness::new();
    h.process(SysEx::file_dump_header(DEVICE_ID, SOURCE_ID, 0, FILE_TYPE));
    h.process(SysEx::eof(DEVICE_ID, 0x55));
    assert_eq!(h.closed, 1);
    assert!(!h.receiver.active());
}

#[test]
fn receiver_ignores_eof_with_wrong_device_id() {
    let mut h = Harness::new();
    h.process(SysEx::file_dump_header(DEVICE_ID, SOURCE_ID, 0, FILE_TYPE));
    h.process(SysEx::eof(0x33, 0));
    assert_eq!(h.closed, 0);
    assert!(h.receiver.active());
}

#[test]
fn receiver_writes_and_acks_valid_packets_in_order() {
    let mut h = Harness::new();
    h.process(SysEx::file_dump_header(DEVICE_ID, SOURCE_ID, 0, FILE_TYPE));
    h.sent.clear();
    h.process(SysEx::file_dump_packet(DEVICE_ID, 0, &[1, 2, 3]));
    h.process(SysEx::file_dump_packet(SysEx_ALL_CALL(), 1, &[4, 5]));
    assert_eq!(h.written, vec![vec![1, 2, 3], vec![4, 5]]);
    assert_eq!(
        h.sent,
        vec![SysEx::wait(SOURCE_ID, 0), SysEx::ack(SOURCE_ID, 0), SysEx::wait(SOURCE_ID, 1), SysEx::ack(SOURCE_ID, 1)]
    );
}

#[allow(non_snake_case)]
fn SysEx_ALL_CALL() -> u8 {
    concertina::midi_tools::messages::sysex::ALL_CALL_DEVICE_ID
}

#[test]
fn receiver_naks_on_bad_checksum_and_accepts_a_retry() {
    let mut h = Harness::new();
    h.process(SysEx::file_dump_header(DEVICE_ID, SOURCE_ID, 0, FILE_TYPE));
    h.sent.clear();
    let mut bytes = Vec::new();
    SysEx::file_dump_packet(DEVICE_ID, 0, &[1, 2, 3]).write(&mut bytes);
    let last = bytes.len() - 2;
    bytes[last] ^= 0x01;
    let corrupt = SysEx::read(&mut bytes).unwrap();
    h.process(corrupt);
    assert_eq!(h.sent, vec![SysEx::nak(SOURCE_ID, 0)]);
    h.process(SysEx::file_dump_packet(DEVICE_ID, 0, &[1, 2, 3]));
    assert_eq!(h.written, vec![vec![1, 2, 3]]);
}

#[test]
fn receiver_cancels_on_out_of_order_packet_and_ignores_later_packets() {
    let mut h = Harness::new();
    h.process(SysEx::file_dump_header(DEVICE_ID, SOURCE_ID, 0, FILE_TYPE));
    h.sent.clear();
    h.process(SysEx::file_dump_packet(DEVICE_ID, 1, &[1]));
    assert_eq!(h.sent, vec![SysEx::cancel(SOURCE_ID, 0)]);
    h.process(SysEx::file_dump_packet(DEVICE_ID, 0, &[1]));
    assert!(h.written.is_empty());
    assert!(!h.receiver.active());
}

#[test]
fn receiver_cancels_on_write_error() {
    let mut h = Harness::new();
    h.process(SysEx::file_dump_header(DEVICE_ID, SOURCE_ID, 0, FILE_TYPE));
    h.sent.clear();
    h.write_ok = false;
    h.process(SysEx::file_dump_packet(DEVICE_ID, 0, &[9]));
    assert_eq!(h.sent, vec![SysEx::wait(SOURCE_ID, 0), SysEx::cancel(SOURCE_ID, 0)]);
    assert!(!h.receiver.active());
}

#[test]
fn receiver_packet_numbers_wrap_at_128() {
    let mut h = Harness::new();
    h.process(SysEx::file_dump_header(DEVICE_ID, SOURCE_ID, 0, FILE_TYPE));
    for n in 0..128u32 {
        h.process(SysEx::file_dump_packet(DEVICE_ID, n as u8, &[n as u8]));
    }
    h.process(SysEx::file_dump_packet(DEVICE_ID, 0, &[0xAA]));
    assert_eq!(h.written.len(), 129);
    assert!(h.receiver.active());
}

#[test]
fn receiver_reopens_file_on_new_header() {
    let mut h = Harness::new();
    h.process(SysEx::file_dump_header(DEVICE_ID, SOURCE_ID, 0, FILE_TYPE));
    h.process(SysEx::file_dump_packet(DEVICE_ID, 0, &[1]));
    h.process(SysEx::file_dump_header(DEVICE_ID, 5, 0, FILE_TYPE));
    assert_eq!(h.opened, 2);
    h.sent.clear();
    h.process(SysEx::file_dump_packet(DEVICE_ID, 0, &[2]));
    assert_eq!(h.sent, vec![SysEx::wait(5, 0), SysEx::ack(5, 0)]);
}

#[test]
fn receiver_takes_a_whole_dump_made_by_the_encoder() {
    let image: Vec<u8> = (0..1000u32).map(|i| (i % 251) as u8).collect();
    let mut h = Harness::new();
    let mut stream = Vec::new();
    SyxEncoder::header(image.len() as u32).write(&mut stream);
    let mut encoder = SyxEncoder::new();
    for chunk in image.chunks(112) {
        encoder.packet(chunk).write(&mut stream);
    }
    encoder.eof().write(&mut stream);
    while let Some(message) = SysEx::read(&mut stream) {
        h.process(message);
    }
    assert_eq!(h.opened, 1);
    assert_eq!(h.closed, 1);
    assert_eq!(h.written.concat(), image);
    assert!(h.sent.iter().all(|m| !matches!(m, SysEx::Cancel(_) | SysEx::Nak(_))));
}
