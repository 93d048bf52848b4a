use concertina::midi_tools::messages::midi::{Channel, Midi, Note};

#[test]
fn messages_midi_test_midi_note_on_constructor() {
    let value = Midi::note_on(Channel::Ch3, Note::Ab4, 64);

    assert!(matches!(value, Midi::NoteOn(_)));
    if let Midi::NoteOn(d) = value {
        assert_eq!(d.channel, Channel::Ch3);
        assert_eq!(d.note, Note::Ab4);
        assert_eq!(d.velocity, 64);
    }
}

#[test]
fn messages_midi_test_midi_note_off_constructor() {
    let value = Midi::note_off(Channel::Ch3, Note::Ab4, 64);

    assert!(matches!(value, Midi::NoteOff(_)));
    if let Midi::NoteOff(d) = value {
        assert_eq!(d.channel, Channel::Ch3);
        assert_eq!(d.note, Note::Ab4);
        assert_eq!(d.velocity, 64);
    }
}

#[test]
fn messages_midi_test_midi_control_change_constructor() {
    let value = Midi::control_change(Channel::Ch3, 31, 64);

    assert!(matches!(value, Midi::ControlChange(_)));
    if let Midi::ControlChange(d) = value {
        assert_eq!(d.channel, Channel::Ch3);
        assert_eq!(d.control, 31);
        assert_eq!(d.value, 64);
    }
}

#[test]
fn messages_midi_test_midi_write_note_on() {
    let mut output = Vec::new();
    let message = Midi::note_on(Channel::Ch2, Note::C4, 64);
    message.write(&mut output);
    assert_eq!(output, vec![0x91, 0x3c, 0x40]);
}

#[test]
fn messages_midi_test_midi_write_note_off() {
    let mut output = Vec::new();
    let message = Midi::note_off(Channel::Ch2, Note::C4, 64);
    message.write(&mut output);
    assert_eq!(output, vec![0x81, 0x3c, 0x40]);
}

#[test]
fn messages_midi_test_midi_write_control_change() {
    let mut output = Vec::new();
    let message = Midi::control_change(Channel::Ch2, 7, 32);
    message.write(&mut output);
    assert_eq!(output, vec![0xB1, 0x07, 0x20]);
}

#[test]
fn note_numbers_follow_the_chromatic_scale() {
    assert_eq!(Note::C4.number(), 60);
    assert_eq!(Note::A4.number(), 69);
    assert_eq!(Note::Db4.number(), 61);
    assert_eq!(Note::C_.number(), 0);
}
