use concertina::midi::channel_voice_message::ChannelVoiceMessage;
use concertina::midi::Note;

#[test]
fn channel_voice_message_test_midi_note_on_constructor() {
    let value = ChannelVoiceMessage::note_on(2, Note::Ab4, 64);

    assert!(matches!(value, ChannelVoiceMessage::NoteOn(_)));
    if let ChannelVoiceMessage::NoteOn(d) = value {
        assert_eq!(d.channel, 2);
        assert_eq!(d.note, Note::Ab4);
        assert_eq!(d.velocity, 64);
    }
}

#[test]
fn channel_voice_message_test_midi_note_off_constructor() {
    let value = ChannelVoiceMessage::note_off(2, Note::Ab4, 64);

    assert!(matches!(value, ChannelVoiceMessage::NoteOff(_)));
    if let ChannelVoiceMessage::NoteOff(d) = value {
        assert_eq!(d.channel, 2);
        assert_eq!(d.note, Note::Ab4);
        assert_eq!(d.velocity, 64);
    }
}

#[test]
fn channel_voice_message_test_midi_control_change_constructor() {
    let value = ChannelVoiceMessage::control_change(2, 31, 64);

    assert!(matches!(value, ChannelVoiceMessage::ControlChange(_)));
    if let ChannelVoiceMessage::ControlChange(d) = value {
        assert_eq!(d.channel, 2);
        assert_eq!(d.control, 31);
        assert_eq!(d.value, 64);
    }
}

#[test]
fn channel_voice_message_test_midi_write_note_on() {
    let mut output = Vec::new();
    let message = ChannelVoiceMessage::note_on(1, Note::C4, 64);
    message.write(&mut output);
    assert_eq!(output, vec![0x91, 0x3c, 0x40]);
    assert!(output.len() <= ChannelVoiceMessage::MAX_LENGTH);
}

#[test]
fn channel_voice_message_test_midi_write_note_off() {
    let mut output = Vec::new();
    let message = ChannelVoiceMessage::note_off(1, Note::C4, 64);
    message.write(&mut output);
    assert_eq!(output, vec![0x81, 0x3c, 0x40]);
}

#[test]
fn channel_voice_message_test_midi_write_control_change() {
    let mut output = Vec::new();
    let message = ChannelVoiceMessage::control_change(1, 7, 32);
    message.write(&mut output);
    assert_eq!(output, vec![0xB1, 0x07, 0x20]);
}
