use concertina::midi_tools::messages::sysex::{FileDumpPacketData, SysEx};

#[test]
fn system_exclusive_message_test_sysex_read_returns_none_if_no_data() {
    let mut data = Vec::<u8>::new();
    let result = SysEx::read(&mut data);
    assert_eq!(result, None);
}

#[test]
fn system_exclusive_message_test_sysex_read_returns_none_if_no_sysex_data() {
    let mut data = vec![0x90, 0x3c, 0x7f, 0x80, 0x3c, 0x7f];
    let result = SysEx::read(&mut data);
    assert_eq!(result, None);
}

#[test]
fn system_exclusive_message_test_sysex_read_discards_bytes_if_no_sysex_data() {
    let mut data = vec![0x90, 0x3c, 0x7f, 0x80, 0x3c, 0x7f];
    let _ = SysEx::read(&mut data);
    assert_eq!(data, Vec::<u8>::new());
}

#[test]
fn system_exclusive_message_test_sysex_read_returns_none_if_sysex_data_is_incomplete() {
    let mut data = vec![0xf0, 0x7e, 0x03, 0x7f];
    let result = SysEx::read(&mut data);
    assert_eq!(result, None);
}

#[test]
fn system_exclusive_message_test_sysex_read_does_not_consume_incomplete_sysex_data() {
    let mut data = vec![0xf0, 0x7e];
    let _ = SysEx::read(&mut data);
    assert_eq!(data, vec![0xf0, 0x7e]);

    let mut data = vec![0xf0, 0x7e, 0x03, 0x7f];
    let _ = SysEx::read(&mut data);
    assert_eq!(data, vec![0xf0, 0x7e, 0x03, 0x7f]);
}

#[test]
fn system_exclusive_message_test_sysex_read_consumes_sysex_message() {
    let mut data = vec![0xf0, 0x7e, 0x03, 0x7f, 0x3b, 0xf7];
    let _ = SysEx::read(&mut data);
    assert_eq!(data, Vec::<u8>::new());
}

#[test]
fn system_exclusive_message_test_sysex_read_consumes_only_one_message() {
    let mut data = vec![0xf0, 0x7e, 0x03, 0x7f, 0x3b, 0xf7, 0xf0, 0x7e, 0x03, 0x7f, 0x3c, 0xf7];
    let _ = SysEx::read(&mut data);
    assert_eq!(data, vec![0xf0, 0x7e, 0x03, 0x7f, 0x3c, 0xf7]);
}

#[test]
fn system_exclusive_message_test_sysex_read_identifies_ack_message() {
    let mut data = vec![0xf0, 0x7e, 0x03, 0x7f, 0x3b, 0xf7];
    let result = SysEx::read(&mut data);
    assert!(matches!(result, Some(SysEx::Ack(_))));
}

#[test]
fn system_exclusive_message_test_sysex_reads_message_after_ignored_data() {
    let mut data = vec![0x90, 0x3c, 0x7f, 0xf0, 0x7e, 0x03, 0x7f, 0x3b, 0xf7];
    let result = SysEx::read(&mut data);
    assert!(matches!(result, Some(SysEx::Ack(_))));
    assert_eq!(data, Vec::<u8>::new());
}

#[test]
fn sysex_reads_message_after_incomplete_message() {
    let mut data = vec![0xf0, 0x7e, 0x03, 0x7f, 0xf0, 0x7e, 0x03, 0x7f, 0x3b, 0xf7];
    let result = SysEx::read(&mut data);
    assert!(matches!(result, Some(SysEx::Ack(_))));
    assert_eq!(data, Vec::<u8>::new());
}

#[test]
fn system_exclusive_message_test_sysex_ignores_non_universal_messages() {
    let mut data = vec![0xf0, 0x55, 0x03, 0x7f, 0x3b, 0xf7];
    let result = SysEx::read(&mut data);
    assert!(matches!(result, None));
    assert_eq!(data, Vec::<u8>::new());

    let mut data = vec![0xf0, 0x00, 0x10, 0x56, 0x03, 0x7f, 0x3b, 0xf7];
    let result = SysEx::read(&mut data);
    assert!(matches!(result, None));
    assert_eq!(data, Vec::<u8>::new());
}

#[test]
fn sysex_reads_message_after_non_universal_message() {
    let mut data = vec![0xf0, 0x55, 0x03, 0x7f, 0x3b, 0xf7, 0xf0, 0x7e, 0x03, 0x7f, 0x3b, 0xf7];
    let result = SysEx::read(&mut data);
    assert!(matches!(result, Some(SysEx::Ack(_))));
    assert_eq!(data, Vec::<u8>::new());
}

#[test]
fn system_exclusive_message_test_sysex_read_parses_ack_data() {
    let mut data = vec![0xf0, 0x7e, 0x03, 0x7f, 0x3b, 0xf7];
    let result = SysEx::read(&mut data);
    let expected = Some(SysEx::ack(0x03, 0x3b));
    assert_eq!(result, expected);
}

#[test]
fn system_exclusive_message_test_sysex_read_identifies_nak_message() {
    let mut data = vec![0xf0, 0x7e, 0x03, 0x7e, 0x3b, 0xf7];
    let result = SysEx::read(&mut data);
    assert!(matches!(result, Some(SysEx::Nak(_))));
}

#[test]
fn system_exclusive_message_test_sysex_read_parses_nak_data() {
    let mut data = vec![0xf0, 0x7e, 0x03, 0x7e, 0x3b, 0xf7];
    let result = SysEx::read(&mut data);
    let expected = Some(SysEx::nak(0x03, 0x3b));
    assert_eq!(result, expected);
}

#[test]
fn system_exclusive_message_test_sysex_read_ignores_system_real_time_messages() {
    let mut data = vec![0xf0, 0xf8, 0x7e, 0xfa, 0x03, 0xfb, 0xfc, 0x7f, 0xfe, 0xff, 0x3b, 0xf7];
    let result = SysEx::read(&mut data);
    let expected = Some(SysEx::ack(0x03, 0x3b));
    assert_eq!(result, expected);
    assert_eq!(data, Vec::<u8>::new());
}

#[test]
fn system_exclusive_message_test_sysex_read_discards_unrecognized_messages() {
    let mut data = vec![0xf0, 0x7e, 0x03, 0x33, 0x3b, 0xf7];
    let result = SysEx::read(&mut data);
    assert_eq!(result, None);
    assert_eq!(data, Vec::<u8>::new());
}

#[test]
fn sysex_reads_message_unrecognized_message() {
    let mut data = vec![0xf0, 0x7e, 0x03, 0x33, 0x3b, 0xf7, 0xf0, 0x7e, 0x03, 0x7f, 0x3b, 0xf7];
    let result = SysEx::read(&mut data);
    assert!(matches!(result, Some(SysEx::Ack(_))));
    assert_eq!(data, Vec::<u8>::new());
}

#[test]
fn sysex_read_identifies_wait_message() {
    let mut data = vec![0xf0, 0x7e, 0x03, 0x7c, 0x3b, 0xf7];
    let result = SysEx::read(&mut data);
    assert!(matches!(result, Some(SysEx::Wait(_))));
}

#[test]
fn sysex_read_parses_wait_data() {
    let mut data = vec![0xf0, 0x7e, 0x03, 0x7c, 0x3b, 0xf7];
    let result = SysEx::read(&mut data);
    let expected = Some(SysEx::wait(0x03, 0x3b));
    assert_eq!(result, expected);
}

#[test]
fn sysex_read_identifies_cancel_message() {
    let mut data = vec![0xf0, 0x7e, 0x03, 0x7d, 0x3b, 0xf7];
    let result = SysEx::read(&mut data);
    assert!(matches!(result, Some(SysEx::Cancel(_))));
}

#[test]
fn sysex_read_parses_cancel_data() {
    let mut data = vec![0xf0, 0x7e, 0x03, 0x7d, 0x3b, 0xf7];
    let result = SysEx::read(&mut data);
    let expected = Some(SysEx::cancel(0x03, 0x3b));
    assert_eq!(result, expected);
}

#[test]
fn sysex_read_identifies_eof_message() {
    let mut data = vec![0xf0, 0x7e, 0x03, 0x7b, 0x3b, 0xf7];
    let result = SysEx::read(&mut data);
    assert!(matches!(result, Some(SysEx::Eof(_))));
}

#[test]
fn sysex_read_parses_eof_data() {
    let mut data = vec![0xf0, 0x7e, 0x03, 0x7b, 0x3b, 0xf7];
    let result = SysEx::read(&mut data);
    let expected = Some(SysEx::eof(0x03, 0x3b));
    assert_eq!(result, expected);
}

#[test]
fn sysex_read_identifies_file_dump_header_message() {
    let mut data = vec![0xf0, 0x7e, 0x03, 0x07, 0x01, 0x00, 0x42, 0x49, 0x4e, 0x20, 0x1e, 0x64, 0x77, 0x32, 0x66, 0x69, 0x6c, 0x65, 0x2e, 0x62, 0x69, 0x6e, 0xf7];
    let result = SysEx::read(&mut data);
    assert!(matches!(result, Some(SysEx::FileDumpHeader(_))));
}

#[test]
fn sysex_read_parses_file_dump_header_data() {
    let mut data = vec![0xf0, 0x7e, 0x03, 0x07, 0x01, 0x01, 0x42, 0x49, 0x4e, 0x20, 0x1e, 0x24, 0x77, 0x32, 0x66, 0x69, 0x6c, 0x65, 0x2e, 0x62, 0x69, 0x6e, 0xf7];
    let result = SysEx::read(&mut data);
    let expected = Some(SysEx::file_dump_header(3, 1, 0x65DD21E, "BIN "));
    assert_eq!(result, expected);
}

#[test]
fn sysex_read_consumes_all_file_dump_header_data() {
    let mut data = vec![0xf0, 0x7e, 0x03, 0x07, 0x01, 0x01, 0x42, 0x49, 0x4e, 0x20, 0x1e, 0x24, 0x77, 0x32, 0x66, 0x69, 0x6c, 0x65, 0x2e, 0x62, 0x69, 0x6e, 0xf7, 0xf0, 0x7e];
    let _ = SysEx::read(&mut data);
    assert_eq!(data, vec![0xf0, 0x7e]);
}

#[test]
fn system_exclusive_message_test_file_dump_header_data_file_type_as_str() {
    let data = SysEx::file_dump_header(0, 0, 0, "BIN ");
    if let SysEx::FileDumpHeader(d) = data {
        assert_eq!(d.raw_file_type.to_vec(), vec![0x42, 0x49, 0x4e, 0x20]);
        assert_eq!(d.file_type(), "BIN ");
    }
}

#[test]
fn sysex_read_identifies_file_dump_packet_message() {
    let mut data = vec![0xf0, 0x7e, 0x03, 0x07, 0x02, 0x71, 0x0f, 0x00, 0x01, 0x20, 0x03, 0x40, 0x05, 0x60, 0x07, 0x55, 0x00, 0x09, 0x20, 0x0b, 0x40, 0x0d, 0x60, 0x5c, 0xf7];
    let result = SysEx::read(&mut data);
    assert!(matches!(result, Some(SysEx::FileDumpPacket(_))));
}

#[test]
fn sysex_read_parses_file_dump_packet_data() {
    let mut data = vec![0xf0, 0x7e, 0x03, 0x07, 0x02, 0x71, 0x0f, 0x00, 0x01, 0x20, 0x03, 0x40, 0x05, 0x60, 0x07, 0x55, 0x00, 0x09, 0x20, 0x0b, 0x40, 0x0d, 0x60, 0x5c, 0xf7];
    let result = SysEx::read(&mut data);

    let expected = Some(SysEx::file_dump_packet(
        3,
        113,
        &[0x01, 0x20, 0x03, 0x40, 0x05, 0x60, 0x07, 0x80, 0x09, 0xa0, 0x0b, 0xc0, 0x0d, 0xe0],
    ));
    assert_eq!(result, expected);
}

#[test]
fn sysex_read_parses_max_length_file_dump_packet() {
    let mut data = vec![0xf0, 0x7e, 0x03, 0x07, 0x02, 0x71, 0x7f, 0x00, 0x01, 0x20, 0x03, 0x40, 0x05, 0x60, 0x07, 0x55, 0x00, 0x09, 0x20, 0x0b, 0x40, 0x0d, 0x60, 0x00, 0x01, 0x20, 0x03, 0x40, 0x05, 0x60, 0x07, 0x55, 0x00, 0x09, 0x20, 0x0b, 0x40, 0x0d, 0x60, 0x00, 0x01, 0x20, 0x03, 0x40, 0x05, 0x60, 0x07, 0x55, 0x00, 0x09, 0x20, 0x0b, 0x40, 0x0d, 0x60, 0x00, 0x01, 0x20, 0x03, 0x40, 0x05, 0x60, 0x07, 0x55, 0x00, 0x09, 0x20, 0x0b, 0x40, 0x0d, 0x60, 0x00, 0x01, 0x20, 0x03, 0x40, 0x05, 0x60, 0x07, 0x55, 0x00, 0x09, 0x20, 0x0b, 0x40, 0x0d, 0x60, 0x00, 0x01, 0x20, 0x03, 0x40, 0x05, 0x60, 0x07, 0x55, 0x00, 0x09, 0x20, 0x0b, 0x40, 0x0d, 0x60, 0x00, 0x01, 0x20, 0x03, 0x40, 0x05, 0x60, 0x07, 0x55, 0x00, 0x09, 0x20, 0x0b, 0x40, 0x0d, 0x60, 0x00, 0x01, 0x20, 0x03, 0x40, 0x05, 0x60, 0x07, 0x55, 0x00, 0x09, 0x20, 0x0b, 0x40, 0x0d, 0x60, 0x76, 0xf7];
    let result = SysEx::read(&mut data);

    let expected = Some(SysEx::file_dump_packet(
        3,
        113,
        &[0x01, 0x20, 0x03, 0x40, 0x05, 0x60, 0x07, 0x80, 0x09, 0xa0, 0x0b, 0xc0, 0x0d, 0xe0, 0x01, 0x20, 0x03, 0x40, 0x05, 0x60, 0x07, 0x80, 0x09, 0xa0, 0x0b, 0xc0, 0x0d, 0xe0, 0x01, 0x20, 0x03, 0x40, 0x05, 0x60, 0x07, 0x80, 0x09, 0xa0, 0x0b, 0xc0, 0x0d, 0xe0, 0x01, 0x20, 0x03, 0x40, 0x05, 0x60, 0x07, 0x80, 0x09, 0xa0, 0x0b, 0xc0, 0x0d, 0xe0, 0x01, 0x20, 0x03, 0x40, 0x05, 0x60, 0x07, 0x80, 0x09, 0xa0, 0x0b, 0xc0, 0x0d, 0xe0, 0x01, 0x20, 0x03, 0x40, 0x05, 0x60, 0x07, 0x80, 0x09, 0xa0, 0x0b, 0xc0, 0x0d, 0xe0, 0x01, 0x20, 0x03, 0x40, 0x05, 0x60, 0x07, 0x80, 0x09, 0xa0, 0x0b, 0xc0, 0x0d, 0xe0, 0x01, 0x20, 0x03, 0x40, 0x05, 0x60, 0x07, 0x80, 0x09, 0xa0, 0x0b, 0xc0, 0x0d, 0xe0],
    ));
    assert_eq!(result, expected);
}

#[test]
fn sysex_read_rejects_byte_count_over_127() {
    let mut data = vec![0xf0, 0x7e, 0x03, 0x07, 0x02, 0x71, 0x9f, 0x00, 0x01, 0x20, 0x03, 0x40, 0x05, 0x60, 0x07, 0x55, 0x00, 0x09, 0x20, 0x0b, 0x40, 0x0d, 0x60, 0x00, 0x01, 0x20, 0x03, 0x40, 0x05, 0x60, 0x07, 0x55, 0x00, 0x09, 0x20, 0x0b, 0x40, 0x0d, 0x60, 0x00, 0x01, 0x20, 0x03, 0x40, 0x05, 0x60, 0x07, 0x55, 0x00, 0x09, 0x20, 0x0b, 0x40, 0x0d, 0x60, 0x00, 0x01, 0x20, 0x03, 0x40, 0x05, 0x60, 0x07, 0x55, 0x00, 0x09, 0x20, 0x0b, 0x40, 0x0d, 0x60, 0x00, 0x01, 0x20, 0x03, 0x40, 0x05, 0x60, 0x07, 0x55, 0x00, 0x09, 0x20, 0x0b, 0x40, 0x0d, 0x60, 0x00, 0x01, 0x20, 0x03, 0x40, 0x05, 0x60, 0x07, 0x55, 0x00, 0x09, 0x20, 0x0b, 0x40, 0x0d, 0x60, 0x00, 0x01, 0x20, 0x03, 0x40, 0x05, 0x60, 0x07, 0x55, 0x00, 0x09, 0x20, 0x0b, 0x40, 0x0d, 0x60, 0x00, 0x01, 0x20, 0x03, 0x40, 0x05, 0x60, 0x07, 0x55, 0x00, 0x09, 0x20, 0x0b, 0x40, 0x0d, 0x60, 0x00, 0x01, 0x20, 0x03, 0x40, 0x05, 0x60, 0x07, 0x55, 0x00, 0x09, 0x20, 0x0b, 0x40, 0x0d, 0x60, 0x00, 0x01, 0x20, 0x03, 0x40, 0x05, 0x60, 0x07, 0x55, 0x00, 0x09, 0x20, 0x0b, 0x40, 0x0d, 0x60, 0x76, 0xf7];
    let result = SysEx::read(&mut data);
    assert_eq!(result, None);
    assert_eq!(data, Vec::<u8>::new());
}

#[test]
fn sysex_read_parses_odd_length_file_dump_packet() {
    let mut data = vec![0xf0, 0x7e, 0x03, 0x07, 0x02, 0x71, 0x03, 0x00, 0x01, 0x20, 0x03, 0x28, 0xf7];
    let result = SysEx::read(&mut data);

    let expected = Some(SysEx::file_dump_packet(3, 113, &[0x01, 0x20, 0x03]));
    assert_eq!(result, expected);
}

#[test]
fn sysex_read_detects_file_dump_packet_checksum_validity() {
    let mut data = vec![0xf0, 0x7e, 0x03, 0x07, 0x02, 0x71, 0x03, 0x00, 0x01, 0x20, 0x03, 0x28, 0xf7];
    let result = SysEx::read(&mut data).unwrap();
    assert!(matches!(
        result,
        SysEx::FileDumpPacket(FileDumpPacketData {
            checksum_ok: true,
            ..
        })
    ));

    let mut data = vec![0xf0, 0x7e, 0x03, 0x07, 0x02, 0x71, 0x03, 0x00, 0x01, 0x20, 0x03, 0x29, 0xf7];
    let result = SysEx::read(&mut data).unwrap();
    assert!(matches!(
        result,
        SysEx::FileDumpPacket(FileDumpPacketData {
            checksum_ok: false,
            ..
        })
    ));
}

#[test]
fn sysex_ack_constructor() {
    let value = SysEx::ack(1, 14);

    assert!(matches!(value, SysEx::Ack(_)));
    if let SysEx::Ack(d) = value {
        assert_eq!(d.device_id, 1);
        assert_eq!(d.packet_num, 14);
    }
}

#[test]
fn sysex_nak_constructor() {
    let value = SysEx::nak(1, 14);

    assert!(matches!(value, SysEx::Nak(_)));
    if let SysEx::Nak(d) = value {
        assert_eq!(d.device_id, 1);
        assert_eq!(d.packet_num, 14);
    }
}

#[test]
fn sysex_wait_constructor() {
    let value = SysEx::wait(1, 14);

    assert!(matches!(value, SysEx::Wait(_)));
    if let SysEx::Wait(d) = value {
        assert_eq!(d.device_id, 1);
        assert_eq!(d.packet_num, 14);
    }
}

#[test]
fn sysex_cancel_constructor() {
    let value = SysEx::cancel(1, 14);

    assert!(matches!(value, SysEx::Cancel(_)));
    if let SysEx::Cancel(d) = value {
        assert_eq!(d.device_id, 1);
        assert_eq!(d.packet_num, 14);
    }
}

#[test]
fn sysex_eof_constructor() {
    let value = SysEx::eof(1, 14);

    assert!(matches!(value, SysEx::Eof(_)));
    if let SysEx::Eof(d) = value {
        assert_eq!(d.device_id, 1);
        assert_eq!(d.packet_num, 14);
    }
}

#[test]
fn sysex_identity_request_constructor() {
    let value = SysEx::identity_request(1);

    assert!(matches!(value, SysEx::IdentityRequest(_)));
    if let SysEx::IdentityRequest(d) = value {
        assert_eq!(d.device_id, 1);
    }
}

#[test]
fn sysex_identity_reply_constructor() {
    let value = SysEx::identity_reply(3, 0x7F, 0x1253, 0x2430, &[1, 9, 8, 5]);

    assert!(matches!(value, SysEx::IdentityReply(_)));
    if let SysEx::IdentityReply(d) = value {
        assert_eq!(d.device_id, 3);
        assert_eq!(d.manufacturer_id, 0x7F);
        assert_eq!(d.device_family_code, 0x1253);
        assert_eq!(d.device_family_member_code, 0x2430);
        assert_eq!(d.software_rev, [1, 9, 8, 5]);
    }
}

#[test]
fn sysex_file_dump_header_constructor() {
    let value = SysEx::file_dump_header(2, 1, 1_382_550, "TEXT");

    assert!(matches!(value, SysEx::FileDumpHeader(_)));
    if let SysEx::FileDumpHeader(d) = value {
        assert_eq!(d.device_id, 2);
        assert_eq!(d.source_id, 1);
        assert_eq!(d.length, 1_382_550);
        assert_eq!(d.raw_file_type.to_vec(), vec![0x54, 0x45, 0x58, 0x54]);
    }
}

#[test]
fn sysex_file_dump_packet_constructor() {
    let value = SysEx::file_dump_packet(2, 110, &[0x7f, 0x00, 0xff, 0x56]);
    let mut data = [0; 112];
    data[..4].copy_from_slice(&[0x7f, 0x00, 0xff, 0x56]);

    assert!(matches!(value, SysEx::FileDumpPacket(_)));
    if let SysEx::FileDumpPacket(d) = value {
        assert_eq!(d.device_id, 2);
        assert_eq!(d.packet_num, 110);
        assert_eq!(d.checksum_ok, true);
        assert_eq!(d.data, data);
        assert_eq!(d.data_size, 4);
    }
}

#[test]
fn sysex_write_ack() {
    let mut output = Vec::<u8>::new();
    let message = SysEx::ack(5, 31);
    message.write(&mut output);
    assert_eq!(output, vec![0xf0, 0x7e, 0x05, 0x7f, 0x1f, 0xf7]);
    assert_eq!(Some(message), SysEx::read(&mut output));
}

#[test]
fn sysex_write_nak() {
    let mut output = Vec::<u8>::new();
    let message = SysEx::nak(5, 31);
    message.write(&mut output);
    assert_eq!(output, vec![0xf0, 0x7e, 0x05, 0x7e, 0x1f, 0xf7]);
    assert_eq!(Some(message), SysEx::read(&mut output));
}

#[test]
fn sysex_write_wait() {
    let mut output = Vec::<u8>::new();
    let message = SysEx::wait(5, 31);
    message.write(&mut output);
    assert_eq!(output, vec![0xf0, 0x7e, 0x05, 0x7c, 0x1f, 0xf7]);
    assert_eq!(Some(message), SysEx::read(&mut output));
}

#[test]
fn sysex_write_cancel() {
    let mut output = Vec::<u8>::new();
    let message = SysEx::cancel(5, 31);
    message.write(&mut output);
    assert_eq!(output, vec![0xf0, 0x7e, 0x05, 0x7d, 0x1f, 0xf7]);
    assert_eq!(Some(message), SysEx::read(&mut output));
}

#[test]
fn sysex_write_eof() {
    let mut output = Vec::<u8>::new();
    let message = SysEx::eof(5, 31);
    message.write(&mut output);
    assert_eq!(output, vec![0xf0, 0x7e, 0x05, 0x7b, 0x1f, 0xf7]);
    assert_eq!(Some(message), SysEx::read(&mut output));
}

#[test]
fn sysex_write_file_dump_header() {
    let mut output = Vec::<u8>::new();
    const DEVICE_ID: u8 = 3;
    const SOURCE_ID: u8 = 4;
    const LENGTH: u32 = 0x03FA;
    let message = SysEx::file_dump_header(DEVICE_ID, SOURCE_ID, LENGTH, "TYPE");
    message.write(&mut output);
    assert_eq!(
        output,
        vec![0xf0, 0x7e, 0x03, 0x07, 0x01, 0x04, 0x54, 0x59, 0x50, 0x45, 0x7a, 0x07, 0x00, 0x00, 0xf7]
    );
    assert_eq!(Some(message), SysEx::read(&mut output));
}

#[test]
fn sysex_write_file_dump_packet_with_payload_divisible_by_7_bytes() {
    let mut output = Vec::<u8>::new();
    const DEVICE_ID: u8 = 3;
    const PACKET_NUM: u8 = 0x3A;
    let payload = vec![0x20, 0x03, 0x40, 0x0c, 0xd0, 0x0e, 0xf0];
    let message = SysEx::file_dump_packet(DEVICE_ID, PACKET_NUM, &payload);
    message.write(&mut output);
    assert_eq!(
        output,
        vec![0xf0, 0x7e, 0x03, 0x07, 0x02, 0x3a, 0x07, 0x05, 0x20, 0x03, 0x40, 0x0c, 0x50, 0x0e, 0x70, 0x01, 0xf7]
    );
    assert_eq!(Some(message), SysEx::read(&mut output));
}

#[test]
fn sysex_write_file_dump_packet_with_payload_not_divisible_by_7_bytes() {
    let mut output = Vec::<u8>::new();
    const DEVICE_ID: u8 = 3;
    const PACKET_NUM: u8 = 0x3A;
    let payload = vec![0x20, 0x03, 0x40, 0x0c, 0xd0, 0x0e, 0xf0, 0xf0, 0x80, 0x77];
    let message = SysEx::file_dump_packet(DEVICE_ID, PACKET_NUM, &payload);
    message.write(&mut output);
    assert_eq!(
        output,
        vec![0xf0, 0x7e, 0x03, 0x07, 0x02, 0x3a, 0x0b, 0x05, 0x20, 0x03, 0x40, 0x0c, 0x50, 0x0e, 0x70, 0x60, 0x70, 0x00, 0x77, 0x6a, 0xf7]
    );
    assert_eq!(Some(message), SysEx::read(&mut output));
}

#[test]
fn sysex_identity_reply_accepts_seven_bit_revision() {
    let value = SysEx::identity_reply(3, 0x7F, 0x1253, 0x2430, &[1, 9, 8, 0x7F]);
    assert!(matches!(value, SysEx::IdentityReply(_)));
    if let SysEx::IdentityReply(d) = value {
        assert_eq!(d.software_rev, [1, 9, 8, 0x7F]);
    }
}

#[test]
fn sysex_file_dump_packet_data_reads_back_payload() {
    let value = SysEx::file_dump_packet(2, 110, &[0x7f, 0x00, 0xff, 0x56]);
    if let SysEx::FileDumpPacket(d) = value {
        assert_eq!(d.data(), &[0x7f, 0x00, 0xff, 0x56]);
        assert_eq!(d.data().len(), d.data_size);
    } else {
        panic!("not a packet");
    }
}

#[test]
fn sysex_file_dump_header_file_type_reads_back_text() {
    let value = SysEx::file_dump_header(0, 0, 0, "a~Z\u{7f}");
    if let SysEx::FileDumpHeader(d) = value {
        assert_eq!(d.file_type(), "a~Z\u{7f}");
    } else {
        panic!("not a header");
    }
}
