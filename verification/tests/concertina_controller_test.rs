use concertina::bin2syx::SyxEncoder;
use concertina::concertina_controller::{Awaiting, FirmwareAction, FirmwareTask};
use concertina::midi_tools::messages::sysex::SysEx;
use concertina::midi_tools::usb::EventPacket;

const PAGE: usize = 128;

fn image(n: usize) -> Vec<u8> {
    (0..n).map(|i| (i * 3 + 1) as u8).collect()
}

fn send(task: &mut FirmwareTask, m: SysEx) -> FirmwareAction {
    task.handle(m)
}

#[test]
fn firmware_task_acks_header_and_collects_pages() {
    let data = image(224);
    let mut task = FirmwareTask::new(4096, PAGE);
    assert_eq!(send(&mut task, SysEx::file_dump_header(1, 9, 224, "BIN ")), FirmwareAction::Send(SysEx::ack(9, 0)));
    assert_eq!(send(&mut task, SysEx::file_dump_packet(1, 0, &data[..112])), FirmwareAction::Send(SysEx::ack(9, 0)));
    match send(&mut task, SysEx::file_dump_packet(1, 1, &data[112..])) {
        FirmwareAction::WritePage { offset, page } => {
            assert_eq!(offset, 0);
            assert_eq!(page, data[..PAGE].to_vec());
        }
        other => panic!("unexpected {:?}", other),
    }
    assert_eq!(task.page_written(true), FirmwareAction::Send(SysEx::ack(9, 1)));
    match send(&mut task, SysEx::eof(1, 2)) {
        FirmwareAction::WriteLastPage { offset, page } => {
            assert_eq!(offset, PAGE);
            let mut expected = data[PAGE..].to_vec();
            expected.resize(PAGE, 0);
            assert_eq!(page, expected);
        }
        other => panic!("unexpected {:?}", other),
    }
    assert_eq!(task.last_page_written(true), FirmwareAction::Finish);
}

#[test]
fn firmware_task_ignores_other_devices_and_messages_before_header() {
    let mut task = FirmwareTask::new(4096, PAGE);
    assert_eq!(send(&mut task, SysEx::file_dump_header(2, 9, 10, "BIN ")), FirmwareAction::Ignore);
    assert_eq!(send(&mut task, SysEx::file_dump_packet(1, 0, &[1, 2])), FirmwareAction::Ignore);
    assert_eq!(send(&mut task, SysEx::eof(1, 0)), FirmwareAction::Ignore);
    assert_eq!(send(&mut task, SysEx::file_dump_header(0x7F, 9, 10, "BIN ")), FirmwareAction::Send(SysEx::ack(9, 0)));
}

#[test]
fn firmware_task_cancels_wrong_type_and_oversize_images() {
    let mut task = FirmwareTask::new(1000, PAGE);
    assert_eq!(send(&mut task, SysEx::file_dump_header(1, 4, 10, "TEXT")), FirmwareAction::Send(SysEx::cancel(4, 0)));
    assert_eq!(send(&mut task, SysEx::file_dump_header(1, 4, 1001, "BIN ")), FirmwareAction::Send(SysEx::cancel(4, 0)));
    assert_eq!(send(&mut task, SysEx::file_dump_header(1, 4, 1000, "BIN ")), FirmwareAction::Send(SysEx::ack(4, 0)));
}

#[test]
fn firmware_task_naks_bad_checksum_and_cancels_out_of_order() {
    let mut task = FirmwareTask::new(4096, PAGE);
    send(&mut task, SysEx::file_dump_header(1, 9, 10, "BIN "));
    let mut bytes = Vec::new();
    SysEx::file_dump_packet(1, 0, &[1, 2, 3]).write(&mut bytes);
    let last = bytes.len() - 2;
    bytes[last] ^= 0x01;
    let corrupt = SysEx::read(&mut bytes).unwrap();
    assert_eq!(send(&mut task, corrupt), FirmwareAction::Send(SysEx::nak(9, 0)));
    assert_eq!(send(&mut task, SysEx::file_dump_packet(1, 5, &[1])), FirmwareAction::Send(SysEx::cancel(9, 5)));
    assert_eq!(send(&mut task, SysEx::file_dump_packet(1, 0, &[1])), FirmwareAction::Ignore);
}

#[test]
fn firmware_task_cancels_on_failed_page_write() {
    let data = image(224);
    let mut task = FirmwareTask::new(4096, PAGE);
    send(&mut task, SysEx::file_dump_header(1, 9, 224, "BIN "));
    send(&mut task, SysEx::file_dump_packet(1, 0, &data[..112]));
    assert!(matches!(send(&mut task, SysEx::file_dump_packet(1, 1, &data[112..])), FirmwareAction::WritePage { .. }));
    assert_eq!(task.page_written(false), FirmwareAction::Send(SysEx::cancel(9, 1)));
    assert_eq!(send(&mut task, SysEx::file_dump_packet(1, 2, &[1])), FirmwareAction::Ignore);
}

#[test]
fn firmware_task_cancels_when_image_outgrows_flash() {
    let data = image(224);
    let mut task = FirmwareTask::new(100, PAGE);
    send(&mut task, SysEx::file_dump_header(1, 9, 100, "BIN "));
    send(&mut task, SysEx::file_dump_packet(1, 0, &data[..112]));
    assert_eq!(send(&mut task, SysEx::file_dump_packet(1, 1, &data[112..])), FirmwareAction::Send(SysEx::cancel(9, 1)));
}

#[test]
fn firmware_task_finishes_at_once_when_nothing_is_pending() {
    let mut task = FirmwareTask::new(4096, PAGE);
    send(&mut task, SysEx::file_dump_header(1, 9, 0, "BIN "));
    assert_eq!(send(&mut task, SysEx::eof(1, 0)), FirmwareAction::Finish);
}

#[test]
fn firmware_task_packet_numbers_wrap_after_7f() {
    let mut task = FirmwareTask::new(1 << 20, 256);
    send(&mut task, SysEx::file_dump_header(1, 9, 0, "BIN "));
    for n in 0..128u32 {
        let action = send(&mut task, SysEx::file_dump_packet(1, n as u8, &[0x55]));
        let answer = match action {
            FirmwareAction::Send(m) => m,
            FirmwareAction::WritePage { .. } => match task.page_written(true) {
                FirmwareAction::Send(m) => m,
                other => panic!("unexpected {:?}", other),
            },
            other => panic!("unexpected {:?}", other),
        };
        assert_eq!(answer, SysEx::ack(9, n as u8));
    }
    assert_eq!(send(&mut task, SysEx::file_dump_packet(1, 0, &[0x55])), FirmwareAction::Send(SysEx::ack(9, 0)));
}

#[test]
fn firmware_task_acks_packet_7f() {
    let mut task = FirmwareTask::new(1 << 20, 1 << 16);
    send(&mut task, SysEx::file_dump_header(1, 9, 0, "BIN "));
    for n in 0..0x7Fu32 {
        assert_eq!(send(&mut task, SysEx::file_dump_packet(1, n as u8, &[1])), FirmwareAction::Send(SysEx::ack(9, n as u8)));
    }
    assert_eq!(send(&mut task, SysEx::file_dump_packet(1, 0x7F, &[1])), FirmwareAction::Send(SysEx::ack(9, 0x7F)));
    assert_eq!(send(&mut task, SysEx::file_dump_packet(1, 0, &[1])), FirmwareAction::Send(SysEx::ack(9, 0)));
}

#[test]
fn firmware_task_reads_messages_from_usb_payloads() {
    let mut task = FirmwareTask::new(4096, PAGE);
    let mut encoder = EventPacket::encode_sysex(0, &SysEx::file_dump_header(1, 9, 10, "BIN "));
    let mut found = None;
    while let Some(p) = encoder.next() {
        task.buffer_midi(p.payload());
        if let Some(m) = task.read_message() {
            found = Some(m);
        }
    }
    assert_eq!(found, Some(SysEx::file_dump_header(1, 9, 10, "BIN ")));
    let _ = Awaiting::Message;
}

#[test]
fn firmware_task_takes_whole_packaged_dump() {
    let data: Vec<u8> = (0..20000u32).map(|i| (i % 251) as u8).collect();
    let mut task = FirmwareTask::new(1 << 20, 128);
    let mut encoder = SyxEncoder::new();
    let mut flash: Vec<u8> = Vec::new();
    let run = |task: &mut FirmwareTask, m: SysEx, flash: &mut Vec<u8>| -> FirmwareAction {
        match task.handle(m) {
            FirmwareAction::WritePage { offset, page } => {
                assert_eq!(offset, flash.len());
                flash.extend_from_slice(&page);
                task.page_written(true)
            },
            FirmwareAction::WriteLastPage { offset, page } => {
                assert_eq!(offset, flash.len());
                flash.extend_from_slice(&page);
                task.last_page_written(true)
            },
            other => other,
        }
    };
    assert_eq!(
        run(&mut task, SyxEncoder::header(data.len() as u32), &mut flash),
        FirmwareAction::Send(SysEx::ack(0, 0))
    );
    for (n, chunk) in data.chunks(112).enumerate() {
        let packet = encoder.packet(chunk);
        assert_eq!(run(&mut task, packet, &mut flash), FirmwareAction::Send(SysEx::ack(0, (n % 128) as u8)));
    }
    assert_eq!(run(&mut task, encoder.eof(), &mut flash), FirmwareAction::Finish);
    assert_eq!(&flash[..data.len()], &data[..]);
    assert!(flash[data.len()..].iter().all(|b| *b == 0));
}
