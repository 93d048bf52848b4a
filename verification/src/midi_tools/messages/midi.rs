//! MIDI channel voice messages: note on, note off and control change.
use vstd::prelude::*;
use crate::midi_tools::usb::lemma_status_nibbles;

pub mod cc;

verus! {

/// A MIDI channel, `Ch1` to `Ch16`; it is sent as its number less one.
#[derive(Clone, Copy, Debug, PartialEq, Eq)]
pub enum Channel {
    Ch1,
    Ch2,
    Ch3,
    Ch4,
    Ch5,
    Ch6,
    Ch7,
    Ch8,
    Ch9,
    Ch10,
    Ch11,
    Ch12,
    Ch13,
    Ch14,
    Ch15,
    Ch16,
}

/// A MIDI note, from `C_` (note number 0) to `G9` (note number 127). The octave after the letter
/// counts from `_`, the octave below 0.
#[derive(Clone, Copy, Debug, PartialEq, Eq)]
#[allow(non_camel_case_types)]
pub enum Note {
    C_, Db_, D_, Eb_, E_, F_, Gb_, G_, Ab_, A_, Bb_, B_,
    C0, Db0, D0, Eb0, E0, F0, Gb0, G0, Ab0, A0, Bb0, B0,
    C1, Db1, D1, Eb1, E1, F1, Gb1, G1, Ab1, A1, Bb1, B1,
    C2, Db2, D2, Eb2, E2, F2, Gb2, G2, Ab2, A2, Bb2, B2,
    C3, Db3, D3, Eb3, E3, F3, Gb3, G3, Ab3, A3, Bb3, B3,
    C4, Db4, D4, Eb4, E4, F4, Gb4, G4, Ab4, A4, Bb4, B4,
    C5, Db5, D5, Eb5, E5, F5, Gb5, G5, Ab5, A5, Bb5, B5,
    C6, Db6, D6, Eb6, E6, F6, Gb6, G6, Ab6, A6, Bb6, B6,
    C7, Db7, D7, Eb7, E7, F7, Gb7, G7, Ab7, A7, Bb7, B7,
    C8, Db8, D8, Eb8, E8, F8, Gb8, G8, Ab8, A8, Bb8, B8,
    C9, Db9, D9, Eb9, E9, F9, Gb9, G9,
}

impl Channel {
    /// The number this channel is sent as: 0 for `Ch1` up to 15 for `Ch16`.
    pub open spec fn spec_number(self) -> u8 {
        match self {
            Channel::Ch1 => 0,
            Channel::Ch2 => 1,
            Channel::Ch3 => 2,
            Channel::Ch4 => 3,
            Channel::Ch5 => 4,
            Channel::Ch6 => 5,
            Channel::Ch7 => 6,
            Channel::Ch8 => 7,
            Channel::Ch9 => 8,
            Channel::Ch10 => 9,
            Channel::Ch11 => 10,
            Channel::Ch12 => 11,
            Channel::Ch13 => 12,
            Channel::Ch14 => 13,
            Channel::Ch15 => 14,
            Channel::Ch16 => 15,
        }
    }

    /// The number this channel is sent as.
    pub fn number(self) -> (r: u8)
        ensures
            r == self.spec_number(),
            r < 16,
    {
        match self {
            Channel::Ch1 => 0,
            Channel::Ch2 => 1,
            Channel::Ch3 => 2,
            Channel::Ch4 => 3,
            Channel::Ch5 => 4,
            Channel::Ch6 => 5,
            Channel::Ch7 => 6,
            Channel::Ch8 => 7,
            Channel::Ch9 => 8,
            Channel::Ch10 => 9,
            Channel::Ch11 => 10,
            Channel::Ch12 => 11,
            Channel::Ch13 => 12,
            Channel::Ch14 => 13,
            Channel::Ch15 => 14,
            Channel::Ch16 => 15,
        }
    }
}

impl Note {
    /// The MIDI note number of this note.
    pub open spec fn spec_number(self) -> u8 {
        match self {
            Note::C_ => 0,
            Note::Db_ => 1,
            Note::D_ => 2,
            Note::Eb_ => 3,
            Note::E_ => 4,
            Note::F_ => 5,
            Note::Gb_ => 6,
            Note::G_ => 7,
            Note::Ab_ => 8,
            Note::A_ => 9,
            Note::Bb_ => 10,
            Note::B_ => 11,
            Note::C0 => 12,
            Note::Db0 => 13,
            Note::D0 => 14,
            Note::Eb0 => 15,
            Note::E0 => 16,
            Note::F0 => 17,
            Note::Gb0 => 18,
            Note::G0 => 19,
            Note::Ab0 => 20,
            Note::A0 => 21,
            Note::Bb0 => 22,
            Note::B0 => 23,
            Note::C1 => 24,
            Note::Db1 => 25,
            Note::D1 => 26,
            Note::Eb1 => 27,
            Note::E1 => 28,
            Note::F1 => 29,
            Note::Gb1 => 30,
            Note::G1 => 31,
            Note::Ab1 => 32,
            Note::A1 => 33,
            Note::Bb1 => 34,
            Note::B1 => 35,
            Note::C2 => 36,
            Note::Db2 => 37,
            Note::D2 => 38,
            Note::Eb2 => 39,
            Note::E2 => 40,
            Note::F2 => 41,
            Note::Gb2 => 42,
            Note::G2 => 43,
            Note::Ab2 => 44,
            Note::A2 => 45,
            Note::Bb2 => 46,
            Note::B2 => 47,
            Note::C3 => 48,
            Note::Db3 => 49,
            Note::D3 => 50,
            Note::Eb3 => 51,
            Note::E3 => 52,
            Note::F3 => 53,
            Note::Gb3 => 54,
            Note::G3 => 55,
            Note::Ab3 => 56,
            Note::A3 => 57,
            Note::Bb3 => 58,
            Note::B3 => 59,
            Note::C4 => 60,
            Note::Db4 => 61,
            Note::D4 => 62,
            Note::Eb4 => 63,
            Note::E4 => 64,
            Note::F4 => 65,
            Note::Gb4 => 66,
            Note::G4 => 67,
            Note::Ab4 => 68,
            Note::A4 => 69,
            Note::Bb4 => 70,
            Note::B4 => 71,
            Note::C5 => 72,
            Note::Db5 => 73,
            Note::D5 => 74,
            Note::Eb5 => 75,
            Note::E5 => 76,
            Note::F5 => 77,
            Note::Gb5 => 78,
            Note::G5 => 79,
            Note::Ab5 => 80,
            Note::A5 => 81,
            Note::Bb5 => 82,
            Note::B5 => 83,
            Note::C6 => 84,
            Note::Db6 => 85,
            Note::D6 => 86,
            Note::Eb6 => 87,
            Note::E6 => 88,
            Note::F6 => 89,
            Note::Gb6 => 90,
            Note::G6 => 91,
            Note::Ab6 => 92,
            Note::A6 => 93,
            Note::Bb6 => 94,
            Note::B6 => 95,
            Note::C7 => 96,
            Note::Db7 => 97,
            Note::D7 => 98,
            Note::Eb7 => 99,
            Note::E7 => 100,
            Note::F7 => 101,
            Note::Gb7 => 102,
            Note::G7 => 103,
            Note::Ab7 => 104,
            Note::A7 => 105,
            Note::Bb7 => 106,
            Note::B7 => 107,
            Note::C8 => 108,
            Note::Db8 => 109,
            Note::D8 => 110,
            Note::Eb8 => 111,
            Note::E8 => 112,
            Note::F8 => 113,
            Note::Gb8 => 114,
            Note::G8 => 115,
            Note::Ab8 => 116,
            Note::A8 => 117,
            Note::Bb8 => 118,
            Note::B8 => 119,
            Note::C9 => 120,
            Note::Db9 => 121,
            Note::D9 => 122,
            Note::Eb9 => 123,
            Note::E9 => 124,
            Note::F9 => 125,
            Note::Gb9 => 126,
            Note::G9 => 127,
        }
    }

    /// The MIDI note number of this note.
    pub fn number(self) -> (r: u8)
        ensures
            r == self.spec_number(),
            r < 128,
    {
        match self {
            Note::C_ => 0,
            Note::Db_ => 1,
            Note::D_ => 2,
            Note::Eb_ => 3,
            Note::E_ => 4,
            Note::F_ => 5,
            Note::Gb_ => 6,
            Note::G_ => 7,
            Note::Ab_ => 8,
            Note::A_ => 9,
            Note::Bb_ => 10,
            Note::B_ => 11,
            Note::C0 => 12,
            Note::Db0 => 13,
            Note::D0 => 14,
            Note::Eb0 => 15,
            Note::E0 => 16,
            Note::F0 => 17,
            Note::Gb0 => 18,
            Note::G0 => 19,
            Note::Ab0 => 20,
            Note::A0 => 21,
            Note::Bb0 => 22,
            Note::B0 => 23,
            Note::C1 => 24,
            Note::Db1 => 25,
            Note::D1 => 26,
            Note::Eb1 => 27,
            Note::E1 => 28,
            Note::F1 => 29,
            Note::Gb1 => 30,
            Note::G1 => 31,
            Note::Ab1 => 32,
            Note::A1 => 33,
            Note::Bb1 => 34,
            Note::B1 => 35,
            Note::C2 => 36,
            Note::Db2 => 37,
            Note::D2 => 38,
            Note::Eb2 => 39,
            Note::E2 => 40,
            Note::F2 => 41,
            Note::Gb2 => 42,
            Note::G2 => 43,
            Note::Ab2 => 44,
            Note::A2 => 45,
            Note::Bb2 => 46,
            Note::B2 => 47,
            Note::C3 => 48,
            Note::Db3 => 49,
            Note::D3 => 50,
            Note::Eb3 => 51,
            Note::E3 => 52,
            Note::F3 => 53,
            Note::Gb3 => 54,
            Note::G3 => 55,
            Note::Ab3 => 56,
            Note::A3 => 57,
            Note::Bb3 => 58,
            Note::B3 => 59,
            Note::C4 => 60,
            Note::Db4 => 61,
            Note::D4 => 62,
            Note::Eb4 => 63,
            Note::E4 => 64,
            Note::F4 => 65,
            Note::Gb4 => 66,
            Note::G4 => 67,
            Note::Ab4 => 68,
            Note::A4 => 69,
            Note::Bb4 => 70,
            Note::B4 => 71,
            Note::C5 => 72,
            Note::Db5 => 73,
            Note::D5 => 74,
            Note::Eb5 => 75,
            Note::E5 => 76,
            Note::F5 => 77,
            Note::Gb5 => 78,
            Note::G5 => 79,
            Note::Ab5 => 80,
            Note::A5 => 81,
            Note::Bb5 => 82,
            Note::B5 => 83,
            Note::C6 => 84,
            Note::Db6 => 85,
            Note::D6 => 86,
            Note::Eb6 => 87,
            Note::E6 => 88,
            Note::F6 => 89,
            Note::Gb6 => 90,
            Note::G6 => 91,
            Note::Ab6 => 92,
            Note::A6 => 93,
            Note::Bb6 => 94,
            Note::B6 => 95,
            Note::C7 => 96,
            Note::Db7 => 97,
            Note::D7 => 98,
            Note::Eb7 => 99,
            Note::E7 => 100,
            Note::F7 => 101,
            Note::Gb7 => 102,
            Note::G7 => 103,
            Note::Ab7 => 104,
            Note::A7 => 105,
            Note::Bb7 => 106,
            Note::B7 => 107,
            Note::C8 => 108,
            Note::Db8 => 109,
            Note::D8 => 110,
            Note::Eb8 => 111,
            Note::E8 => 112,
            Note::F8 => 113,
            Note::Gb8 => 114,
            Note::G8 => 115,
            Note::Ab8 => 116,
            Note::A8 => 117,
            Note::Bb8 => 118,
            Note::B8 => 119,
            Note::C9 => 120,
            Note::Db9 => 121,
            Note::D9 => 122,
            Note::Eb9 => 123,
            Note::E9 => 124,
            Note::F9 => 125,
            Note::Gb9 => 126,
            Note::G9 => 127,
        }
    }
}


#[derive(Debug, PartialEq, Eq, Clone, Copy)]
#[non_exhaustive]
/// The fields of a note message.
pub struct NoteData {
    pub channel: Channel,
    pub note: Note,
    pub velocity: u8,
}

#[derive(Debug, PartialEq, Eq, Clone, Copy)]
#[non_exhaustive]
/// The fields of a control change.
pub struct ControlData {
    pub channel: Channel,
    pub control: u8,
    pub value: u8,
}

#[derive(Debug, PartialEq, Eq, Clone, Copy)]
/// A channel voice message.
pub enum Midi {
    NoteOn(NoteData),
    NoteOff(NoteData),
    ControlChange(ControlData),
}

impl Midi {
    /// Every channel voice message is three bytes long.
    pub const MAX_LENGTH: usize = 3;

    /// The velocity must fit in seven bits.
    pub fn note_on(channel: Channel, note: Note, velocity: u8) -> (r: Self)
        requires
            velocity <= 0x7F,
        ensures
            r == Midi::NoteOn(NoteData { channel, note, velocity }),
    {
        Midi::NoteOn(NoteData { channel, note, velocity })
    }

    /// The velocity must fit in seven bits.
    pub fn note_off(channel: Channel, note: Note, velocity: u8) -> (r: Self)
        requires
            velocity <= 0x7F,
        ensures
            r == Midi::NoteOff(NoteData { channel, note, velocity }),
    {
        Midi::NoteOff(NoteData { channel, note, velocity })
    }

    /// The control number and its value must fit in seven bits.
    pub fn control_change(channel: Channel, control: u8, value: u8) -> (r: Self)
        requires
            control <= 0x7F,
            value <= 0x7F,
        ensures
            r == Midi::ControlChange(ControlData { channel, control, value }),
    {
        Midi::ControlChange(ControlData { channel, control, value })
    }

    /// The three bytes of this message: the status byte with the channel in its low nibble,
    /// then the two data bytes.
    pub open spec fn encoding(self) -> Seq<u8> {
        match self {
            Midi::NoteOn(d) => seq![0x90u8 | d.channel.spec_number(), d.note.spec_number(), d.velocity],
            Midi::NoteOff(d) => seq![0x80u8 | d.channel.spec_number(), d.note.spec_number(), d.velocity],
            Midi::ControlChange(d) => seq![0xB0u8 | d.channel.spec_number(), d.control, d.value],
        }
    }

    /// Appends the encoding of this message to `writer`.
    pub fn write(&self, writer: &mut Vec<u8>)
        ensures
            final(writer)@ == old(writer)@ + self.encoding(),
    {
        match self {
            Midi::NoteOn(d) => {
                writer.push(0x90 | d.channel.number());
                writer.push(d.note.number());
                writer.push(d.velocity);
            },
            Midi::NoteOff(d) => {
                writer.push(0x80 | d.channel.number());
                writer.push(d.note.number());
                writer.push(d.velocity);
            },
            Midi::ControlChange(d) => {
                writer.push(0xB0 | d.channel.number());
                writer.push(d.control);
                writer.push(d.value);
            },
        }
        assert(writer@ =~= old(writer)@ + self.encoding());
    }
}

/// The note a semitone above, by the notes' names: the next letter or flat, and `C` of the next
/// octave after `B`. `G9` has none.
pub open spec fn semitone_above(note: Note) -> Option<Note> {
    match note {
        Note::C_ => Some(Note::Db_),
        Note::Db_ => Some(Note::D_),
        Note::D_ => Some(Note::Eb_),
        Note::Eb_ => Some(Note::E_),
        Note::E_ => Some(Note::F_),
        Note::F_ => Some(Note::Gb_),
        Note::Gb_ => Some(Note::G_),
        Note::G_ => Some(Note::Ab_),
        Note::Ab_ => Some(Note::A_),
        Note::A_ => Some(Note::Bb_),
        Note::Bb_ => Some(Note::B_),
        Note::B_ => Some(Note::C0),
        Note::C0 => Some(Note::Db0),
        Note::Db0 => Some(Note::D0),
        Note::D0 => Some(Note::Eb0),
        Note::Eb0 => Some(Note::E0),
        Note::E0 => Some(Note::F0),
        Note::F0 => Some(Note::Gb0),
        Note::Gb0 => Some(Note::G0),
        Note::G0 => Some(Note::Ab0),
        Note::Ab0 => Some(Note::A0),
        Note::A0 => Some(Note::Bb0),
        Note::Bb0 => Some(Note::B0),
        Note::B0 => Some(Note::C1),
        Note::C1 => Some(Note::Db1),
        Note::Db1 => Some(Note::D1),
        Note::D1 => Some(Note::Eb1),
        Note::Eb1 => Some(Note::E1),
        Note::E1 => Some(Note::F1),
        Note::F1 => Some(Note::Gb1),
        Note::Gb1 => Some(Note::G1),
        Note::G1 => Some(Note::Ab1),
        Note::Ab1 => Some(Note::A1),
        Note::A1 => Some(Note::Bb1),
        Note::Bb1 => Some(Note::B1),
        Note::B1 => Some(Note::C2),
        Note::C2 => Some(Note::Db2),
        Note::Db2 => Some(Note::D2),
        Note::D2 => Some(Note::Eb2),
        Note::Eb2 => Some(Note::E2),
        Note::E2 => Some(Note::F2),
        Note::F2 => Some(Note::Gb2),
        Note::Gb2 => Some(Note::G2),
        Note::G2 => Some(Note::Ab2),
        Note::Ab2 => Some(Note::A2),
        Note::A2 => Some(Note::Bb2),
        Note::Bb2 => Some(Note::B2),
        Note::B2 => Some(Note::C3),
        Note::C3 => Some(Note::Db3),
        Note::Db3 => Some(Note::D3),
        Note::D3 => Some(Note::Eb3),
        Note::Eb3 => Some(Note::E3),
        Note::E3 => Some(Note::F3),
        Note::F3 => Some(Note::Gb3),
        Note::Gb3 => Some(Note::G3),
        Note::G3 => Some(Note::Ab3),
        Note::Ab3 => Some(Note::A3),
        Note::A3 => Some(Note::Bb3),
        Note::Bb3 => Some(Note::B3),
        Note::B3 => Some(Note::C4),
        Note::C4 => Some(Note::Db4),
        Note::Db4 => Some(Note::D4),
        Note::D4 => Some(Note::Eb4),
        Note::Eb4 => Some(Note::E4),
        Note::E4 => Some(Note::F4),
        Note::F4 => Some(Note::Gb4),
        Note::Gb4 => Some(Note::G4),
        Note::G4 => Some(Note::Ab4),
        Note::Ab4 => Some(Note::A4),
        Note::A4 => Some(Note::Bb4),
        Note::Bb4 => Some(Note::B4),
        Note::B4 => Some(Note::C5),
        Note::C5 => Some(Note::Db5),
        Note::Db5 => Some(Note::D5),
        Note::D5 => Some(Note::Eb5),
        Note::Eb5 => Some(Note::E5),
        Note::E5 => Some(Note::F5),
        Note::F5 => Some(Note::Gb5),
        Note::Gb5 => Some(Note::G5),
        Note::G5 => Some(Note::Ab5),
        Note::Ab5 => Some(Note::A5),
        Note::A5 => Some(Note::Bb5),
        Note::Bb5 => Some(Note::B5),
        Note::B5 => Some(Note::C6),
        Note::C6 => Some(Note::Db6),
        Note::Db6 => Some(Note::D6),
        Note::D6 => Some(Note::Eb6),
        Note::Eb6 => Some(Note::E6),
        Note::E6 => Some(Note::F6),
        Note::F6 => Some(Note::Gb6),
        Note::Gb6 => Some(Note::G6),
        Note::G6 => Some(Note::Ab6),
        Note::Ab6 => Some(Note::A6),
        Note::A6 => Some(Note::Bb6),
        Note::Bb6 => Some(Note::B6),
        Note::B6 => Some(Note::C7),
        Note::C7 => Some(Note::Db7),
        Note::Db7 => Some(Note::D7),
        Note::D7 => Some(Note::Eb7),
        Note::Eb7 => Some(Note::E7),
        Note::E7 => Some(Note::F7),
        Note::F7 => Some(Note::Gb7),
        Note::Gb7 => Some(Note::G7),
        Note::G7 => Some(Note::Ab7),
        Note::Ab7 => Some(Note::A7),
        Note::A7 => Some(Note::Bb7),
        Note::Bb7 => Some(Note::B7),
        Note::B7 => Some(Note::C8),
        Note::C8 => Some(Note::Db8),
        Note::Db8 => Some(Note::D8),
        Note::D8 => Some(Note::Eb8),
        Note::Eb8 => Some(Note::E8),
        Note::E8 => Some(Note::F8),
        Note::F8 => Some(Note::Gb8),
        Note::Gb8 => Some(Note::G8),
        Note::G8 => Some(Note::Ab8),
        Note::Ab8 => Some(Note::A8),
        Note::A8 => Some(Note::Bb8),
        Note::Bb8 => Some(Note::B8),
        Note::B8 => Some(Note::C9),
        Note::C9 => Some(Note::Db9),
        Note::Db9 => Some(Note::D9),
        Note::D9 => Some(Note::Eb9),
        Note::Eb9 => Some(Note::E9),
        Note::E9 => Some(Note::F9),
        Note::F9 => Some(Note::Gb9),
        Note::Gb9 => Some(Note::G9),
        Note::G9 => None,
    }
}

/// The channel after, by the channels' names. `Ch16` has none.
pub open spec fn channel_after(channel: Channel) -> Option<Channel> {
    match channel {
        Channel::Ch1 => Some(Channel::Ch2),
        Channel::Ch2 => Some(Channel::Ch3),
        Channel::Ch3 => Some(Channel::Ch4),
        Channel::Ch4 => Some(Channel::Ch5),
        Channel::Ch5 => Some(Channel::Ch6),
        Channel::Ch6 => Some(Channel::Ch7),
        Channel::Ch7 => Some(Channel::Ch8),
        Channel::Ch8 => Some(Channel::Ch9),
        Channel::Ch9 => Some(Channel::Ch10),
        Channel::Ch10 => Some(Channel::Ch11),
        Channel::Ch11 => Some(Channel::Ch12),
        Channel::Ch12 => Some(Channel::Ch13),
        Channel::Ch13 => Some(Channel::Ch14),
        Channel::Ch14 => Some(Channel::Ch15),
        Channel::Ch15 => Some(Channel::Ch16),
        Channel::Ch16 => None,
    }
}

/// A note's number counts semitones from `C_`: `C_` is 0, the note a semitone above any note
/// is one more, and the highest note, `G9`, is 127. So `C4` is 60 and `G4` is 67.
pub proof fn lemma_note_numbers_count_semitones(note: Note)
    ensures
        Note::C_.spec_number() == 0,
        Note::G9.spec_number() == 127,
        semitone_above(note) matches Some(higher) ==> higher.spec_number() == note.spec_number() + 1,
        semitone_above(note) is None <==> note == Note::G9,
{
}

/// A channel is sent as its place in order: `Ch1` as 0, the next channel as one more, and
/// `Ch16` as 15.
pub proof fn lemma_channel_numbers_count_up(channel: Channel)
    ensures
        Channel::Ch1.spec_number() == 0,
        Channel::Ch16.spec_number() == 15,
        channel_after(channel) matches Some(next) ==> next.spec_number() == channel.spec_number() + 1,
        channel_after(channel) is None <==> channel == Channel::Ch16,
{
}

/// A channel voice message is written as three bytes: a status byte with its top bit set, the
/// message's kind in its upper half (9 for note on, 8 for note off, 0xB for control change) and
/// the channel's number in its lower half, then the note's number and the velocity, or the
/// control and its value.
pub proof fn lemma_midi_bytes(m: Midi)
    ensures
        m.encoding().len() == 3,
        m matches Midi::NoteOn(d) ==> m.encoding()[0] >> 4u8 == 9 && m.encoding()[0] & 0x0Fu8
            == d.channel.spec_number() && m.encoding()[1] == d.note.spec_number() && m.encoding()[2]
            == d.velocity,
        m matches Midi::NoteOff(d) ==> m.encoding()[0] >> 4u8 == 8 && m.encoding()[0] & 0x0Fu8
            == d.channel.spec_number() && m.encoding()[1] == d.note.spec_number() && m.encoding()[2]
            == d.velocity,
        m matches Midi::ControlChange(d) ==> m.encoding()[0] >> 4u8 == 0xB && m.encoding()[0]
            & 0x0Fu8 == d.channel.spec_number() && m.encoding()[1] == d.control && m.encoding()[2]
            == d.value,
{
    let c = match m {
        Midi::NoteOn(d) => d.channel.spec_number(),
        Midi::NoteOff(d) => d.channel.spec_number(),
        Midi::ControlChange(d) => d.channel.spec_number(),
    };
    lemma_channel_numbers_count_up(Channel::Ch1);
    assert(c < 16);
    lemma_status_nibbles(c);
}

} // verus!
