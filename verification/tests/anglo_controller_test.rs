use concertina::anglo_controller::bellows::{sensor_reading, Direction, State};
use concertina::anglo_controller::i2c_transfer::{Session, SessionAction, SessionEvent, Status};
use concertina::anglo_controller::keyboard::{Transfer, TransferAction, TransferEvent, TransferState};
use concertina::anglo_controller::keymap::{notes, Side};
use concertina::anglo_controller::led::{Led, LedOutput};
use concertina::anglo_controller::mode::{firmware_mode_request, next_mode, panel_signal, takes_firmware, Mode, PanelSignal};
use concertina::anglo_controller::notes::Player;
use concertina::anglo_controller::usb::MidiIn;
use concertina::i2c_proto::{ControllerError, WriteStatus};
use concertina::midi::{cc, Message, Note};
use concertina::midi_tools::messages::sysex::SysEx;
use concertina::midi_tools::usb::EventPacket;
use concertina::version::FirmwareVersion;

#[test]
fn bellows_direction_and_magnitude() {
    let s = State::from_value(-0x1234);
    assert_eq!(s.direction(), Direction::Pull);
    assert_eq!(s.magnitude_msb(), (0x1234 >> 7) as u8);
    assert_eq!(s.magnitude_lsb(), (0x1234 & 0x7F) as u8);
    assert_eq!(State::from_value(5).direction(), Direction::Push);
    assert_eq!(State::default().direction(), Direction::Still);
    let max = State::from_value(0x3FFF);
    assert_eq!(max.magnitude_msb(), 0x7F);
    assert_eq!(max.magnitude_lsb(), 0x7F);
    assert_eq!(max.magnitude_msb() as u16 * 128 + max.magnitude_lsb() as u16, 0x3FFF);
}

#[test]
fn bellows_sensor_reading_is_sign_extended() {
    assert_eq!(sensor_reading([0x00, 0x01, 0x02]), 0x0102);
    assert_eq!(sensor_reading([0xFF, 0xFF, 0xFF]), -1);
    assert_eq!(sensor_reading([0x80, 0x00, 0x00]), -8388608);
    assert_eq!(sensor_reading([0x7F, 0xFF, 0xFF]), 8388607);
}

#[test]
fn keymap_rows() {
    let push = notes(Side::Left, Direction::Push);
    assert_eq!(push.len(), 15);
    assert_eq!(push[0], Note::E3);
    assert_eq!(notes(Side::Right, Direction::Pull)[14], Note::Gb6);
    assert!(notes(Side::Left, Direction::Still).is_empty());
}

#[test]
fn mode_transitions() {
    assert_eq!(next_mode(Mode::Startup, Mode::KeyboardInit), Mode::KeyboardInit);
    assert_eq!(next_mode(Mode::Startup, Mode::Ready), Mode::Startup);
    assert_eq!(next_mode(Mode::Ready, Mode::WaitingForFirmware), Mode::WaitingForFirmware);
    assert_eq!(next_mode(Mode::WaitingForFirmware, Mode::Ready), Mode::Ready);
    assert_eq!(next_mode(Mode::ReceivingFirmware, Mode::WaitingForFirmware), Mode::ReceivingFirmware);
    assert_eq!(firmware_mode_request(Mode::WaitingForFirmware, true), Some(Mode::ReceivingFirmware));
    assert_eq!(firmware_mode_request(Mode::ReceivingFirmware, false), Some(Mode::Ready));
    assert_eq!(firmware_mode_request(Mode::Ready, true), None);
    assert!(takes_firmware(Mode::WaitingForFirmware));
    assert!(!takes_firmware(Mode::Ready));
    assert_eq!(panel_signal(Mode::KeyboardInit), PanelSignal::Blink { count: 3, pause: true });
    assert_eq!(panel_signal(Mode::Ready), PanelSignal::Steady);
}

#[test]
fn player_starts_and_stops_notes() {
    let mut player = Player::new();
    // Still bellows: pushing the bellows first.
    let out = player.play(0, 0, State::from_value(200));
    assert_eq!(
        out,
        vec![Message::control_change(0, cc::CHANNEL_VOLUME_MSB, 1), Message::control_change(0, cc::CHANNEL_VOLUME_LSB, 72)]
    );
    let out = player.play(0b101, 0b1, State::from_value(200));
    assert_eq!(
        out,
        vec![Message::note_on(0, Note::E3, 127), Message::note_on(0, Note::Db4, 127), Message::note_on(0, Note::Db5, 127)]
    );
    let out = player.play(0b100, 0b1, State::from_value(200));
    assert_eq!(out, vec![Message::note_off(0, Note::E3, 127)]);
    // An unchanged round sends nothing.
    assert!(player.play(0b100, 0b1, State::from_value(200)).is_empty());
}

#[test]
fn player_releases_notes_when_bellows_turn() {
    let mut player = Player::new();
    player.play(0, 0, State::from_value(200));
    player.play(0b1, 0b10, State::from_value(200));
    let out = player.play(0b1, 0b10, State::from_value(-300));
    assert_eq!(
        out,
        vec![
            Message::note_off(0, Note::E3, 127),
            Message::note_off(0, Note::A5, 127),
            Message::control_change(0, cc::CHANNEL_VOLUME_MSB, 2),
            Message::control_change(0, cc::CHANNEL_VOLUME_LSB, 44),
        ]
    );
    // The held buttons now count as released, so holding them plays the pull notes.
    let out = player.play(0b1, 0b10, State::from_value(-300));
    assert_eq!(out, vec![Message::note_on(0, Note::F3, 127), Message::note_on(0, Note::G5, 127)]);
}

#[test]
fn transfer_skips_keyboard_with_same_version() {
    let firmware = [1u8; 10];
    let mut t = Transfer::new(0x22, FirmwareVersion::parse("1.2.3").unwrap(), &firmware);
    assert_eq!(t.address(), 0x22);
    assert_eq!(t.step(TransferEvent::Poll), TransferAction::GetVersion);
    let same = FirmwareVersion { major: 1, minor: 2, patch: 3, prerelease: None };
    assert_eq!(t.step(TransferEvent::Version(Some(same))), TransferAction::Report(Ok(TransferState::Begin)));
}

#[test]
fn transfer_streams_firmware_in_packets() {
    let firmware: Vec<u8> = (0..300u32).map(|i| i as u8).collect();
    let mut t = Transfer::new(0x23, FirmwareVersion::parse("1.2.3").unwrap(), &firmware);
    assert_eq!(t.step(TransferEvent::Poll), TransferAction::GetVersion);
    let old = FirmwareVersion { major: 1, minor: 2, patch: 2, prerelease: None };
    assert_eq!(t.step(TransferEvent::Version(Some(old))), TransferAction::WriteBegin);
    assert_eq!(t.step(TransferEvent::Sent(true)), TransferAction::Report(Ok(TransferState::InProgress)));
    assert_eq!(t.step(TransferEvent::Poll), TransferAction::GetWriteStatus);
    assert_eq!(t.step(TransferEvent::Status(Some(WriteStatus::Ready))), TransferAction::WritePacket(&firmware[..252]));
    assert_eq!(t.step(TransferEvent::Sent(true)), TransferAction::Report(Ok(TransferState::InProgress)));
    assert_eq!(t.step(TransferEvent::Poll), TransferAction::GetWriteStatus);
    assert_eq!(t.step(TransferEvent::Status(Some(WriteStatus::Busy))), TransferAction::Report(Ok(TransferState::InProgress)));
    assert_eq!(t.step(TransferEvent::Poll), TransferAction::GetWriteStatus);
    assert_eq!(t.step(TransferEvent::Status(Some(WriteStatus::Ready))), TransferAction::WritePacket(&firmware[252..]));
    assert_eq!(t.step(TransferEvent::Sent(true)), TransferAction::Report(Ok(TransferState::InProgress)));
    assert_eq!(t.step(TransferEvent::Poll), TransferAction::GetWriteStatus);
    assert_eq!(t.step(TransferEvent::Status(Some(WriteStatus::Ready))), TransferAction::WriteEnd);
    assert_eq!(t.step(TransferEvent::Sent(true)), TransferAction::GetVersion);
    let new = FirmwareVersion { major: 1, minor: 2, patch: 3, prerelease: None };
    assert_eq!(t.step(TransferEvent::Version(Some(new))), TransferAction::Report(Ok(TransferState::Done)));
    assert_eq!(t.step(TransferEvent::Poll), TransferAction::Report(Ok(TransferState::Done)));
}

#[test]
fn transfer_starts_over_on_cancel() {
    let firmware = [7u8; 5];
    let mut t = Transfer::new(0x22, FirmwareVersion::parse("2.0.0").unwrap(), &firmware);
    t.step(TransferEvent::Poll);
    t.step(TransferEvent::Version(Some(FirmwareVersion { major: 1, minor: 0, patch: 0, prerelease: None })));
    t.step(TransferEvent::Sent(true));
    assert_eq!(t.step(TransferEvent::Poll), TransferAction::GetWriteStatus);
    assert_eq!(t.step(TransferEvent::Status(Some(WriteStatus::Cancel))), TransferAction::Report(Err(())));
    assert_eq!(t.step(TransferEvent::Poll), TransferAction::GetVersion);
}

#[test]
fn session_polls_only_when_not_in_progress() {
    let data = [1u8; 300];
    let mut s = Session::new(0x22);
    assert_eq!(s.step::<u8>(SessionEvent::Poll), SessionAction::GetWriteStatus);
    assert_eq!(s.step::<u8>(SessionEvent::Status(Ok(WriteStatus::Cancel))), SessionAction::Report(Ok(Status::Failed)));
    s.begin(&data);
    assert_eq!(s.step::<u8>(SessionEvent::Poll), SessionAction::Report(Ok(Status::InProgress)));
}

#[test]
fn session_restarts_on_cancel_until_out_of_restarts() {
    let data = [1u8; 300];
    let mut s = Session::new(0x22);
    s.begin(&data);
    // A session in progress does not poll; one that is not, restarts on a cancel.
    let mut s2 = Session::new(0x23);
    assert_eq!(s2.step::<u8>(SessionEvent::Poll), SessionAction::GetWriteStatus);
    assert_eq!(s2.step::<u8>(SessionEvent::Status(Ok(WriteStatus::Busy))), SessionAction::Report(Ok(Status::Finished)));
    assert_eq!(s2.step::<u8>(SessionEvent::Sent(Err(ControllerError::Communication(3)))), SessionAction::Report(Ok(Status::Finished)));
    let _ = s;
}

#[test]
fn led_plays_mode_patterns() {
    let mut led = Led::new(Mode::Startup, vec![(15, 1), (500, 1)]);
    let mut seen = Vec::new();
    for _ in 0..6 {
        seen.push(led.tick(Mode::Startup, false));
    }
    assert_eq!(
        seen,
        vec![
            LedOutput::Fraction(1000),
            LedOutput::Fraction(1000),
            LedOutput::Fraction(1000),
            LedOutput::Fraction(1000),
            LedOutput::Fraction(0),
            LedOutput::Fraction(0),
        ]
    );
    assert_eq!(led.tick(Mode::Ready, false), LedOutput::Fraction(15));
    assert_eq!(led.tick(Mode::Ready, false), LedOutput::Fraction(500));
    assert_eq!(led.tick(Mode::Ready, true), LedOutput::FullOn);
}

#[test]
fn midi_in_reads_sysex_from_packets() {
    let mut input = MidiIn::new();
    let mut encoder = EventPacket::encode_sysex(0, &SysEx::ack(3, 7));
    let mut got = Vec::new();
    while let Some(p) = encoder.next() {
        input.buffer_packet(&p);
        if let Some(m) = input.read_message() {
            got.push(m);
        }
    }
    assert_eq!(got, vec![Message::ack(3, 7)]);
}
