//! MIDI channel voice messages with the channel as a plain number: the messages that play
//! notes and move controllers.
use vstd::prelude::*;
use crate::midi::{ControlData, NoteData};
use crate::midi::Note;

verus! {

/// A channel voice message.
#[derive(Debug, PartialEq, Eq, Clone, Copy)]
pub enum ChannelVoiceMessage {
    NoteOn(NoteData),
    NoteOff(NoteData),
    ControlChange(ControlData),
}

impl ChannelVoiceMessage {
    /// The length of the longest encoding.
    pub const MAX_LENGTH: usize = 3;

    /// Starts a note. The channel must fit in four bits and the velocity in seven.
    pub fn note_on(channel: u8, note: Note, velocity: u8) -> (r: Self)
        requires
            channel <= 0x0F,
            velocity <= 0x7F,
        ensures
            r == ChannelVoiceMessage::NoteOn(NoteData { channel, note, velocity }),
    {
        ChannelVoiceMessage::NoteOn(NoteData { channel, note, velocity })
    }

    /// Stops a note. The channel must fit in four bits and the velocity in seven.
    pub fn note_off(channel: u8, note: Note, velocity: u8) -> (r: Self)
        requires
            channel <= 0x0F,
            velocity <= 0x7F,
        ensures
            r == ChannelVoiceMessage::NoteOff(NoteData { channel, note, velocity }),
    {
        ChannelVoiceMessage::NoteOff(NoteData { channel, note, velocity })
    }

    /// Moves a controller. The channel must fit in four bits, the control number and its value
    /// in seven.
    pub fn control_change(channel: u8, control: u8, value: u8) -> (r: Self)
        requires
            channel <= 0x0F,
            control <= 0x7F,
            value <= 0x7F,
        ensures
            r == ChannelVoiceMessage::ControlChange(ControlData { channel, control, value }),
    {
        ChannelVoiceMessage::ControlChange(ControlData { channel, control, value })
    }

    /// The bytes of this message: a status byte with the channel in its low nibble, then two
    /// data bytes.
    pub open spec fn encoding(self) -> Seq<u8> {
        match self {
            ChannelVoiceMessage::NoteOn(d) => seq![0x90u8 | d.channel, d.note.spec_number(), d.velocity],
            ChannelVoiceMessage::NoteOff(d) => seq![0x80u8 | d.channel, d.note.spec_number(), d.velocity],
            ChannelVoiceMessage::ControlChange(d) => seq![0xB0u8 | d.channel, d.control, d.value],
        }
    }

    /// Appends the encoding of this message to `writer`.
    pub fn write(&self, writer: &mut Vec<u8>)
        ensures
            final(writer)@ == old(writer)@ + self.encoding(),
    {
        match self {
            ChannelVoiceMessage::NoteOn(d) => {
                writer.push(0x90 | d.channel);
                writer.push(d.note.number());
                writer.push(d.velocity);
            },
            ChannelVoiceMessage::NoteOff(d) => {
                writer.push(0x80 | d.channel);
                writer.push(d.note.number());
                writer.push(d.velocity);
            },
            ChannelVoiceMessage::ControlChange(d) => {
                writer.push(0xB0 | d.channel);
                writer.push(d.control);
                writer.push(d.value);
            },
        }
        assert(writer@ =~= old(writer)@ + self.encoding());
    }
}

} // verus!
