use concertina::midi_tools::messages::sysex::SysEx;

#[test]
fn messages_test_sysex_read_returns_none_if_no_data() {
    let mut data = Vec::<u8>::new();
    let result = SysEx::read(&mut data);
    assert_eq!(result, None);
}

#[test]
fn messages_test_sysex_read_returns_none_if_no_sysex_data() {
    let mut data = vec![0x90, 0x3c, 0x7f, 0x80, 0x3c, 0x7f];
    let result = SysEx::read(&mut data);
    assert_eq!(result, None);
}

#[test]
fn messages_test_sysex_read_discards_bytes_if_no_sysex_data() {
    let mut data = vec![0x90, 0x3c, 0x7f, 0x80, 0x3c, 0x7f];
    let _ = SysEx::read(&mut data);
    assert_eq!(data, Vec::<u8>::new());
}

#[test]
fn messages_test_sysex_read_returns_none_if_sysex_data_is_incomplete() {
    let mut data = vec![0xf0, 0x7e, 0x03, 0x7f];
    let result = SysEx::read(&mut data);
    assert_eq!(result, None);
}

#[test]
fn messages_test_sysex_read_does_not_consume_incomplete_sysex_data() {
    let mut data = vec![0xf0, 0x7e];
    let _ = SysEx::read(&mut data);
    assert_eq!(data, vec![0xf0, 0x7e]);

    let mut data = vec![0xf0, 0x7e, 0x03, 0x7f];
    let _ = SysEx::read(&mut data);
    assert_eq!(data, vec![0xf0, 0x7e, 0x03, 0x7f]);
}

#[test]
fn messages_test_sysex_read_consumes_sysex_message() {
    let mut data = vec![0xf0, 0x7e, 0x03, 0x7f, 0x3b];
    let _ = SysEx::read(&mut data);
    assert_eq!(data, Vec::<u8>::new());
}

#[test]
fn messages_test_sysex_read_consumes_only_one_message() {
    let mut data = vec![0xf0, 0x7e, 0x03, 0x7f, 0x3b, 0xf0, 0x7e, 0x03, 0x7f, 0x3c];
    let _ = SysEx::read(&mut data);
    assert_eq!(data, vec![0xf0, 0x7e, 0x03, 0x7f, 0x3c]);
}

#[test]
fn messages_test_sysex_read_identifies_ack_message() {
    let mut data = vec![0xf0, 0x7e, 0x03, 0x7f, 0x3b];
    let result = SysEx::read(&mut data);
    assert!(matches!(result, Some(SysEx::Ack(_))));
}

#[test]
fn messages_test_sysex_reads_message_after_ignored_data() {
    let mut data = vec![0x90, 0x3c, 0x7f, 0xf0, 0x7e, 0x03, 0x7f, 0x3b];
    let result = SysEx::read(&mut data);
    assert!(matches!(result, Some(SysEx::Ack(_))));
    assert_eq!(data, Vec::<u8>::new());
}

#[test]
fn messages_test_sysex_ignores_non_universal_messages() {
    let mut data = vec![0xf0, 0x55, 0x03, 0x7f, 0x3b];
    let result = SysEx::read(&mut data);
    assert!(matches!(result, None));
    assert_eq!(data, Vec::<u8>::new());

    let mut data = vec![0xf0, 0x00, 0x10, 0x56, 0x03, 0x7f, 0x3b];
    let result = SysEx::read(&mut data);
    assert!(matches!(result, None));
    assert_eq!(data, Vec::<u8>::new());
}

#[test]
fn messages_test_sysex_read_parses_ack_data() {
    let mut data = vec![0xf0, 0x7e, 0x03, 0x7f, 0x3b];
    let result = SysEx::read(&mut data);
    let expected = Some(SysEx::ack(0x03, 0x3b));
    assert_eq!(result, expected);
}

#[test]
fn messages_test_sysex_read_identifies_nak_message() {
    let mut data = vec![0xf0, 0x7e, 0x03, 0x7e, 0x3b];
    let result = SysEx::read(&mut data);
    assert!(matches!(result, Some(SysEx::Nak(_))));
}

#[test]
fn messages_test_sysex_read_parses_nak_data() {
    let mut data = vec![0xf0, 0x7e, 0x03, 0x7e, 0x3b];
    let result = SysEx::read(&mut data);
    let expected = Some(SysEx::nak(0x03, 0x3b));
    assert_eq!(result, expected);
}

#[test]
fn messages_test_sysex_read_ignores_system_real_time_messages() {
    let mut data = vec![0xf0, 0xf8, 0x7e, 0xfa, 0x03, 0xfb, 0xfc, 0x7f, 0xfe, 0xff, 0x3b];
    let result = SysEx::read(&mut data);
    let expected = Some(SysEx::ack(0x03, 0x3b));
    assert_eq!(result, expected);
    assert_eq!(data, Vec::<u8>::new());
}

#[test]
fn messages_test_sysex_read_discards_unrecognized_messages() {
    let mut data = vec![0xf0, 0x7e, 0x03, 0x33, 0x3b];
    let result = SysEx::read(&mut data);
    assert_eq!(result, None);
    assert_eq!(data, Vec::<u8>::new());
}
