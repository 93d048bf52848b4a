use concertina::midi::{Message, Note};
use concertina::midi_tools::messages::sysex::SysEx;
use concertina::midi_tools::usb;
use concertina::sysex_reader::incoming_packets;

#[test]
fn cin_u8_conversions_are_consistent() {
    for i in 0..16u8 {
        let cin = usb::Cin::from_code(i);
        assert_eq!(i, cin as u8);
    }
}

#[test]
fn event_packet_parse_gets_no_packets_from_empty_buffer() {
    let buffer: [u8; 0] = [];
    let packets = usb::EventPacket::parse(&buffer);
    assert_eq!(packets.len(), 0);
}

#[test]
fn event_packet_parse_gets_one_packet_per_four_bytes() {
    let buffer: Vec<u8> = vec![0x09, 0x90, 0x3c, 0x7f, 0x08, 0x80, 0x3c, 0x7f, 0x19, 0x90, 0x48, 0x7f, 0x18, 0x80, 0x48, 0x7f];
    let packets = usb::EventPacket::parse(&buffer);
    assert_eq!(packets.len(), 4);
}

#[test]
fn event_packet_extracts_cable_number() {
    let buffer: Vec<u8> = vec![0x80, 0x12, 0x34, 0x56, 0x91, 0x12, 0x34, 0x56, 0xa2, 0xf3, 0x34, 0x00, 0xb3, 0xf2, 0x34, 0x56, 0xc4, 0xf0, 0x7e, 0x01, 0xd5, 0x12, 0x00, 0x00, 0xe6, 0x12, 0x34, 0x00, 0xf7, 0x12, 0x34, 0x56, 0x08, 0x82, 0x34, 0x56, 0x19, 0x92, 0x34, 0x56, 0x2a, 0xa2, 0x34, 0x56, 0x3b, 0xb2, 0x34, 0x56, 0x4c, 0xc2, 0x34, 0x00, 0x5d, 0xd2, 0x34, 0x00, 0x6e, 0xe2, 0x34, 0x56, 0x7f, 0x12, 0x00, 0x00];
    let mut packets = usb::EventPacket::parse(&buffer).into_iter();
    assert_eq!(packets.next().unwrap().cable(), 0x8);
    assert_eq!(packets.next().unwrap().cable(), 0x9);
    assert_eq!(packets.next().unwrap().cable(), 0xa);
    assert_eq!(packets.next().unwrap().cable(), 0xb);
    assert_eq!(packets.next().unwrap().cable(), 0xc);
    assert_eq!(packets.next().unwrap().cable(), 0xd);
    assert_eq!(packets.next().unwrap().cable(), 0xe);
    assert_eq!(packets.next().unwrap().cable(), 0xf);
    assert_eq!(packets.next().unwrap().cable(), 0x0);
    assert_eq!(packets.next().unwrap().cable(), 0x1);
    assert_eq!(packets.next().unwrap().cable(), 0x2);
    assert_eq!(packets.next().unwrap().cable(), 0x3);
    assert_eq!(packets.next().unwrap().cable(), 0x4);
    assert_eq!(packets.next().unwrap().cable(), 0x5);
    assert_eq!(packets.next().unwrap().cable(), 0x6);
    assert_eq!(packets.next().unwrap().cable(), 0x7);
}

#[test]
fn event_packet_extracts_cin() {
    let buffer: Vec<u8> = vec![0x08, 0x82, 0x34, 0x56, 0x19, 0x92, 0x34, 0x56, 0x2a, 0xa2, 0x34, 0x56, 0x3b, 0xb2, 0x34, 0x56, 0x4c, 0xc2, 0x34, 0x00, 0x5d, 0xd2, 0x34, 0x00, 0x6e, 0xe2, 0x34, 0x56, 0x7f, 0x12, 0x00, 0x00, 0x80, 0x12, 0x34, 0x56, 0x91, 0x12, 0x34, 0x56, 0xa2, 0xf3, 0x34, 0x00, 0xb3, 0xf2, 0x34, 0x56, 0xc4, 0xf0, 0x7e, 0x01, 0xd5, 0x12, 0x00, 0x00, 0xe6, 0x12, 0x34, 0x00, 0xf7, 0x12, 0x34, 0x56];
    let mut packets = usb::EventPacket::parse(&buffer).into_iter();
    assert_eq!(packets.next().unwrap().cin(), usb::Cin::NoteOff);
    assert_eq!(packets.next().unwrap().cin(), usb::Cin::NoteOn);
    assert_eq!(packets.next().unwrap().cin(), usb::Cin::PolyKeyPress);
    assert_eq!(packets.next().unwrap().cin(), usb::Cin::ControlChange);
    assert_eq!(packets.next().unwrap().cin(), usb::Cin::ProgramChange);
    assert_eq!(packets.next().unwrap().cin(), usb::Cin::ChannelPressure);
    assert_eq!(packets.next().unwrap().cin(), usb::Cin::PitchBendChange);
    assert_eq!(packets.next().unwrap().cin(), usb::Cin::SingleByte);
    assert_eq!(packets.next().unwrap().cin(), usb::Cin::Misc);
    assert_eq!(packets.next().unwrap().cin(), usb::Cin::CableEvent);
    assert_eq!(packets.next().unwrap().cin(), usb::Cin::SysCommon2Byte);
    assert_eq!(packets.next().unwrap().cin(), usb::Cin::SysCommon3Byte);
    assert_eq!(packets.next().unwrap().cin(), usb::Cin::SysEx);
    assert_eq!(packets.next().unwrap().cin(), usb::Cin::Sys1Byte);
    assert_eq!(packets.next().unwrap().cin(), usb::Cin::SysExEnd2Byte);
    assert_eq!(packets.next().unwrap().cin(), usb::Cin::SysExEnd3Byte);
}

#[test]
fn event_packet_extracts_payload() {
    let buffer: Vec<u8> = vec![0x08, 0x82, 0x34, 0x56, 0x19, 0x92, 0x34, 0x56, 0x2a, 0xa2, 0x34, 0x56, 0x3b, 0xb2, 0x34, 0x56, 0x4c, 0xc2, 0x34, 0x00, 0x5d, 0xd2, 0x34, 0x00, 0x6e, 0xe2, 0x34, 0x56, 0x7f, 0x12, 0x00, 0x00, 0x80, 0x12, 0x34, 0x56, 0x91, 0x12, 0x34, 0x56, 0xa2, 0xf3, 0x34, 0x00, 0xb3, 0xf2, 0x34, 0x56, 0xc4, 0xf0, 0x7e, 0x01, 0xd5, 0x12, 0x00, 0x00, 0xe6, 0x12, 0x34, 0x00, 0xf7, 0x12, 0x34, 0x56];
    let mut packets = usb::EventPacket::parse(&buffer).into_iter();
    assert_eq!(packets.next().unwrap().payload(), &[0x82, 0x34, 0x56][..]);
    assert_eq!(packets.next().unwrap().payload(), &[0x92, 0x34, 0x56][..]);
    assert_eq!(packets.next().unwrap().payload(), &[0xa2, 0x34, 0x56][..]);
    assert_eq!(packets.next().unwrap().payload(), &[0xb2, 0x34, 0x56][..]);
    assert_eq!(packets.next().unwrap().payload(), &[0xc2, 0x34][..]);
    assert_eq!(packets.next().unwrap().payload(), &[0xd2, 0x34][..]);
    assert_eq!(packets.next().unwrap().payload(), &[0xe2, 0x34, 0x56][..]);
    assert_eq!(packets.next().unwrap().payload(), &[0x12][..]);
    assert_eq!(packets.next().unwrap().payload(), &[0x12, 0x34, 0x56][..]);
    assert_eq!(packets.next().unwrap().payload(), &[0x12, 0x34, 0x56][..]);
    assert_eq!(packets.next().unwrap().payload(), &[0xf3, 0x34][..]);
    assert_eq!(packets.next().unwrap().payload(), &[0xf2, 0x34, 0x56][..]);
    assert_eq!(packets.next().unwrap().payload(), &[0xf0, 0x7e, 0x01][..]);
    assert_eq!(packets.next().unwrap().payload(), &[0x12][..]);
    assert_eq!(packets.next().unwrap().payload(), &[0x12, 0x34][..]);
    assert_eq!(packets.next().unwrap().payload(), &[0x12, 0x34, 0x56][..]);
}

#[test]
fn event_packet_encode_sysex_splits_ack_into_packets() {
    let mut encoder = usb::EventPacket::encode_sysex(0, &SysEx::ack(5, 31));
    assert_eq!(encoder.next().unwrap().raw, [0x04, 0xf0, 0x7e, 0x05]);
    assert_eq!(encoder.next().unwrap().raw, [0x06, 0x7f, 0x1f, 0x00]);
    assert_eq!(encoder.next().unwrap().raw, [0x05, 0xf7, 0x00, 0x00]);
    assert!(encoder.next().is_none());
}

#[test]
fn event_packet_encode_sysex_puts_cable_in_high_nibble() {
    let mut encoder = usb::EventPacket::encode_sysex(3, &SysEx::cancel(1, 2));
    let first = encoder.next().unwrap();
    assert_eq!(first.raw, [0x34, 0xf0, 0x7e, 0x01]);
    assert_eq!(first.cable(), 3);
}

#[test]
fn sysex_payloads_read_back_the_message() {
    let message = SysEx::file_dump_packet(3, 0x3a, &[0x20, 0x03, 0x40, 0x0c, 0xd0, 0x0e, 0xf0, 0xf0, 0x80, 0x77]);
    let mut encoder = usb::EventPacket::encode_sysex(0, &message);
    let mut bytes = Vec::new();
    while let Some(p) = encoder.next() {
        bytes.extend_from_slice(p.payload());
    }
    assert_eq!(SysEx::read(&mut bytes), Some(message));
}

#[test]
fn incoming_packets_keeps_sysex_packets_on_the_cable() {
    let buffer: Vec<u8> = vec![
        0x09, 0x90, 0x3c, 0x7f, // note on: dropped
        0x04, 0xf0, 0x7e, 0x05, // sysex on cable 0: kept
        0x14, 0xf0, 0x7e, 0x05, // sysex on cable 1: dropped
        0x06, 0x7f, 0x1f, 0x00, // sysex end on cable 0: kept
        0x05, 0xf7, // short tail: dropped
    ];
    let packets = incoming_packets(&buffer, 0);
    assert_eq!(packets.len(), 2);
    assert_eq!(packets[0].raw, [0x04, 0xf0, 0x7e, 0x05]);
    assert_eq!(packets[1].raw, [0x06, 0x7f, 0x1f, 0x00]);
}

#[test]
fn midi_encode_note_on_is_one_packet() {
    let mut encoder = concertina::midi::usb::EventPacket::encode(0, &Message::note_on(0, Note::C4, 127));
    assert_eq!(encoder.next().unwrap().raw, [0x09, 0x90, 0x3c, 0x7f]);
    assert!(encoder.next().is_none());
}

#[test]
fn event_packet_encode_sysex_packets_carry_whole_message() {
    let data: Vec<u8> = (0..112u32).map(|i| (i * 7 + 3) as u8).collect();
    let message = SysEx::file_dump_packet(1, 0x7F, &data);
    let mut bytes = Vec::new();
    message.write(&mut bytes);
    let mut encoder = usb::EventPacket::encode_sysex(2, &message);
    let packets = encoder.collect_packets();
    assert!(encoder.next().is_none());
    let mut carried = Vec::new();
    for p in &packets {
        assert_eq!(p.cable(), 2);
        assert!(matches!(
            p.cin(),
            usb::Cin::SysEx | usb::Cin::Sys1Byte | usb::Cin::SysExEnd2Byte | usb::Cin::SysExEnd3Byte
        ));
        carried.extend_from_slice(p.payload());
    }
    assert_eq!(carried, bytes);
    assert_eq!(SysEx::read(&mut carried), Some(message));
}
