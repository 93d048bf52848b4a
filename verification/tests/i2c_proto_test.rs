use concertina::i2c_proto::{
    command_message, decode_buttons, decode_version, decode_write_status, encode_buttons,
    parse_command, version_message, write_packet_message, write_status_message, Command,
    Controller, ControllerError, Device, DeviceError, WriteStatus, GET_VERSION, GET_WRITE_STATUS,
    WRITE_BEGIN, WRITE_END,
};
use concertina::version::FirmwareVersion;

fn received(bytes: &[u8]) -> [u8; 255] {
    let mut buffer = [0u8; 255];
    buffer[..bytes.len()].copy_from_slice(bytes);
    buffer
}

#[test]
fn controller_and_device_hold_their_transport() {
    let controller = Controller::new(7u32);
    assert_eq!(controller.io, 7);
    let device = Device::new("bus");
    assert_eq!(device.io, "bus");
}

#[test]
fn command_messages_are_code_and_complement() {
    assert_eq!(command_message(GET_VERSION), [0x00, 0xFF]);
    assert_eq!(command_message(GET_WRITE_STATUS), [0x01, 0xFE]);
    assert_eq!(command_message(WRITE_BEGIN), [0x02, 0xFD]);
    assert_eq!(command_message(WRITE_END), [0x04, 0xFB]);
}

#[test]
fn get_buttons_parses_response() {
    assert_eq!(decode_buttons([0x12, 0x34]), 0x1234);
}

#[test]
fn send_buttons_encodes_payload() {
    assert_eq!(encode_buttons(0x1234), [0x12, 0x34]);
    assert_eq!(decode_buttons(encode_buttons(0xBEEF)), 0xBEEF);
}

#[test]
fn get_version_parses_response() {
    let version = decode_version::<u8>([1, 2, 3, 0, 6]).unwrap();
    assert_eq!(version, FirmwareVersion { major: 1, minor: 2, patch: 3, prerelease: None });
}

#[test]
fn get_version_produces_generic_prerelease() {
    let version = decode_version::<u8>([1, 2, 3, 1, 7]).unwrap();
    assert_eq!(version, FirmwareVersion { major: 1, minor: 2, patch: 3, prerelease: Some("*") });
}

#[test]
fn get_version_reports_bad_checksum() {
    let error = decode_version::<u8>([1, 2, 3, 1, 6]).unwrap_err();
    assert!(matches!(error, ControllerError::CorruptMessage));
}

#[test]
fn get_write_status_parses_responses() {
    assert_eq!(decode_write_status::<u8>([0x00, 0xFF]), Ok(WriteStatus::Ready));
    assert_eq!(decode_write_status::<u8>([0x01, 0xFE]), Ok(WriteStatus::Busy));
    assert_eq!(decode_write_status::<u8>([0x02, 0xFD]), Ok(WriteStatus::Cancel));
    assert_eq!(decode_write_status::<u8>([0x09, 0xF6]), Ok(WriteStatus::Cancel));
}

#[test]
fn get_write_status_reports_bad_checksum() {
    assert_eq!(decode_write_status::<u8>([0x00, 0x00]), Err(ControllerError::CorruptMessage));
}

#[test]
fn communication_errors_convert() {
    assert_eq!(ControllerError::from(5u8), ControllerError::Communication(5u8));
    assert!(matches!(DeviceError::from(5u8), DeviceError::Communication(5)));
}

#[test]
fn write_packet_message_has_command_data_and_checksum() {
    let message = write_packet_message(&[1, 2, 3, 4]);
    assert_eq!(message, vec![0x03, 0xFC, 1, 2, 3, 4, 10]);
    assert_eq!(message.len(), 7);
}

#[test]
fn write_packet_checksum_wraps() {
    let message = write_packet_message(&[0xFF, 0x02]);
    assert_eq!(message, vec![0x03, 0xFC, 0xFF, 0x02, 0x01]);
}

#[test]
fn send_version_encodes_release_payload() {
    let version = FirmwareVersion { major: 1, minor: 2, patch: 3, prerelease: None };
    assert_eq!(version_message(&version), [1, 2, 3, 0, 6]);
}

#[test]
fn send_version_encodes_prerelease_payload_and_checksum() {
    let version = FirmwareVersion { major: 1, minor: 2, patch: 3, prerelease: Some("arbitrary") };
    assert_eq!(version_message(&version), [1, 2, 3, b'*', 48]);
}

#[test]
fn send_write_status_encodes_statuses() {
    assert_eq!(write_status_message(WriteStatus::Ready), [0x00, 0xFF]);
    assert_eq!(write_status_message(WriteStatus::Busy), [0x01, 0xFE]);
    assert_eq!(write_status_message(WriteStatus::Cancel), [0x02, 0xFD]);
}

#[test]
fn receive_command_reports_messages_that_are_too_short() {
    let result = parse_command::<u8>(&received(&[0x00]), 1);
    assert!(matches!(result, Err(DeviceError::ShortMessage(1))));
}

#[test]
fn receive_command_reports_messages_that_are_too_long() {
    let result = parse_command::<u8>(&received(&[]), 10_000);
    assert!(matches!(result, Err(DeviceError::LongMessage(10_000))));
}

#[test]
fn receive_command_reports_corrupt_command() {
    let result = parse_command::<u8>(&received(&[0x02, 0xFE]), 2);
    assert!(matches!(result, Err(DeviceError::CorruptCommand)));
}

#[test]
fn receive_command_reports_unknown_command() {
    let result = parse_command::<u8>(&received(&[0x33, 0xCC]), 2);
    assert!(matches!(result, Err(DeviceError::UnknownCommand(0x33))));
}

#[test]
fn receive_command_parses_simple_commands() {
    assert_eq!(parse_command::<u8>(&received(&[0x00, 0xFF]), 2).unwrap(), Command::GetVersion);
    assert_eq!(parse_command::<u8>(&received(&[0x01, 0xFE]), 2).unwrap(), Command::GetWriteStatus);
    assert_eq!(parse_command::<u8>(&received(&[0x02, 0xFD]), 2).unwrap(), Command::WriteBegin);
    assert_eq!(parse_command::<u8>(&received(&[0x04, 0xFB]), 2).unwrap(), Command::WriteEnd);
}

#[test]
fn receive_command_parses_write_packet() {
    let command = parse_command::<u8>(&received(&[0x03, 0xFC, 0x12, 0x34, 0x46]), 5).unwrap();
    assert!(matches!(command, Command::WritePacket { data: _, length: _ }));
    if let Command::WritePacket { data, length } = command {
        assert!(data.starts_with(&[0x12, 0x34]));
        assert!(data[2..].iter().all(|b| *b == 0));
        assert_eq!(length, 2);
    }
}

#[test]
fn receive_command_reports_write_packet_that_is_empty() {
    let result = parse_command::<u8>(&received(&[0x03, 0xFC, 0x00]), 3);
    assert!(matches!(result, Err(DeviceError::EmptyPacket)));
}

#[test]
fn receive_command_reports_write_packet_with_bad_checksum() {
    let result = parse_command::<u8>(&received(&[0x03, 0xFC, 0x67, 0x68]), 4);
    assert!(matches!(result, Err(DeviceError::CorruptMessage)));
}

#[test]
fn write_packet_round_trip() {
    let data: Vec<u8> = (0..252u32).map(|i| (i * 7) as u8).collect();
    let message = write_packet_message(&data);
    let command = parse_command::<u8>(&received(&message), message.len()).unwrap();
    if let Command::WritePacket { data: got, length } = command {
        assert_eq!(length, 252);
        assert_eq!(got.to_vec(), data);
    } else {
        panic!("not a write packet");
    }
}

#[test]
fn version_round_trip_keeps_numbers_and_prerelease_presence() {
    let version = FirmwareVersion { major: 200, minor: 100, patch: 250, prerelease: Some("beta") };
    let decoded = decode_version::<u8>(version_message(&version)).unwrap();
    assert_eq!(decoded, FirmwareVersion { major: 200, minor: 100, patch: 250, prerelease: Some("*") });
}
