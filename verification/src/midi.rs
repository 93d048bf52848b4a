//! MIDI messages as the instrument's controller exchanges them over USB: channel voice
//! messages on a numbered channel, and the universal system exclusive messages of the file dump
//! protocol.
use vstd::prelude::*;
use crate::midi_tools::usb::lemma_status_nibbles;
use vstd::string::StringSliceAdditionalSpecFns;
pub use crate::midi_tools::messages::midi::cc;
pub use crate::midi_tools::messages::midi::Note;
pub use crate::midi_tools::messages::sysex::{
    FileDumpHeaderData, FileDumpPacketData, HandshakeData, IdentityReplyData,
    IdentityRequestData, ALL_CALL_DEVICE_ID,
};
use crate::midi_tools::messages::sysex::{pad_packet_data, read_spec, SysEx};
use crate::midi_tools::messages::sysex_laws::lemma_write_then_read;

pub mod usb;
pub mod channel_voice_message;

verus! {

#[derive(Debug, PartialEq, Eq, Clone, Copy)]
#[non_exhaustive]
/// The fields of a note message: the channel (0 to 15), the note and the velocity.
pub struct NoteData {
    pub channel: u8,
    pub note: Note,
    pub velocity: u8,
}

#[derive(Debug, PartialEq, Eq, Clone, Copy)]
#[non_exhaustive]
/// The fields of a control change: the channel (0 to 15), the controller and its value.
pub struct ControlData {
    pub channel: u8,
    pub control: u8,
    pub value: u8,
}

#[derive(Debug, PartialEq, Eq, Clone, Copy)]
/// A MIDI message the instrument sends or receives: a channel voice message or a universal
/// system exclusive message.
pub enum Message {
    NoteOn(NoteData),
    NoteOff(NoteData),
    ControlChange(ControlData),
    Ack(HandshakeData),
    Nak(HandshakeData),
    Wait(HandshakeData),
    Cancel(HandshakeData),
    Eof(HandshakeData),
    IdentityRequest(IdentityRequestData),
    IdentityReply(IdentityReplyData),
    FileDumpHeader(FileDumpHeaderData),
    FileDumpPacket(FileDumpPacketData),
}

impl Message {
    /// The longest encoding of a message: a file dump packet with a full payload.
    pub const MAX_LENGTH: usize = 137;

    /// The message that carries the given system exclusive message.
    pub open spec fn from_sysex(x: SysEx) -> Message {
        match x {
            SysEx::Ack(d) => Message::Ack(d),
            SysEx::Nak(d) => Message::Nak(d),
            SysEx::Wait(d) => Message::Wait(d),
            SysEx::Cancel(d) => Message::Cancel(d),
            SysEx::Eof(d) => Message::Eof(d),
            SysEx::IdentityRequest(d) => Message::IdentityRequest(d),
            SysEx::IdentityReply(d) => Message::IdentityReply(d),
            SysEx::FileDumpHeader(d) => Message::FileDumpHeader(d),
            SysEx::FileDumpPacket(d) => Message::FileDumpPacket(d),
        }
    }

    /// The system exclusive message this message carries, if it is one.
    pub open spec fn sysex(self) -> Option<SysEx> {
        match self {
            Message::Ack(d) => Some(SysEx::Ack(d)),
            Message::Nak(d) => Some(SysEx::Nak(d)),
            Message::Wait(d) => Some(SysEx::Wait(d)),
            Message::Cancel(d) => Some(SysEx::Cancel(d)),
            Message::Eof(d) => Some(SysEx::Eof(d)),
            Message::IdentityRequest(d) => Some(SysEx::IdentityRequest(d)),
            Message::IdentityReply(d) => Some(SysEx::IdentityReply(d)),
            Message::FileDumpHeader(d) => Some(SysEx::FileDumpHeader(d)),
            Message::FileDumpPacket(d) => Some(SysEx::FileDumpPacket(d)),
            _ => None,
        }
    }

    /// The message that carries a system exclusive message.
    pub(crate) fn wrap(x: SysEx) -> (r: Message)
        ensures
            r == Message::from_sysex(x),
    {
        match x {
            SysEx::Ack(d) => Message::Ack(d),
            SysEx::Nak(d) => Message::Nak(d),
            SysEx::Wait(d) => Message::Wait(d),
            SysEx::Cancel(d) => Message::Cancel(d),
            SysEx::Eof(d) => Message::Eof(d),
            SysEx::IdentityRequest(d) => Message::IdentityRequest(d),
            SysEx::IdentityReply(d) => Message::IdentityReply(d),
            SysEx::FileDumpHeader(d) => Message::FileDumpHeader(d),
            SysEx::FileDumpPacket(d) => Message::FileDumpPacket(d),
        }
    }

    /// The channel must fit in four bits and the velocity in seven.
    pub fn note_on(channel: u8, note: Note, velocity: u8) -> (r: Self)
        requires
            channel <= 0x0F,
            velocity <= 0x7F,
        ensures
            r == Message::NoteOn(NoteData { channel, note, velocity }),
    {
        Message::NoteOn(NoteData { channel, note, velocity })
    }

    /// The channel must fit in four bits and the velocity in seven.
    pub fn note_off(channel: u8, note: Note, velocity: u8) -> (r: Self)
        requires
            channel <= 0x0F,
            velocity <= 0x7F,
        ensures
            r == Message::NoteOff(NoteData { channel, note, velocity }),
    {
        Message::NoteOff(NoteData { channel, note, velocity })
    }

    /// The channel must fit in four bits, the control number and its value in seven.
    pub fn control_change(channel: u8, control: u8, value: u8) -> (r: Self)
        requires
            channel <= 0x0F,
            control <= 0x7F,
            value <= 0x7F,
        ensures
            r == Message::ControlChange(ControlData { channel, control, value }),
    {
        Message::ControlChange(ControlData { channel, control, value })
    }

    /// Acknowledges a packet. Both numbers must fit in seven bits.
    pub fn ack(device_id: u8, packet_num: u8) -> (r: Self)
        requires
            device_id <= 0x7F,
            packet_num <= 0x7F,
        ensures
            r == Message::Ack(HandshakeData { device_id, packet_num }),
    {
        Message::wrap(SysEx::ack(device_id, packet_num))
    }

    /// Asks for a packet again. Both numbers must fit in seven bits.
    pub fn nak(device_id: u8, packet_num: u8) -> (r: Self)
        requires
            device_id <= 0x7F,
            packet_num <= 0x7F,
        ensures
            r == Message::Nak(HandshakeData { device_id, packet_num }),
    {
        Message::wrap(SysEx::nak(device_id, packet_num))
    }

    /// Asks the sender to wait. Both numbers must fit in seven bits.
    pub fn wait(device_id: u8, packet_num: u8) -> (r: Self)
        requires
            device_id <= 0x7F,
            packet_num <= 0x7F,
        ensures
            r == Message::Wait(HandshakeData { device_id, packet_num }),
    {
        Message::wrap(SysEx::wait(device_id, packet_num))
    }

    /// Cancels a transfer. Both numbers must fit in seven bits.
    pub fn cancel(device_id: u8, packet_num: u8) -> (r: Self)
        requires
            device_id <= 0x7F,
            packet_num <= 0x7F,
        ensures
            r == Message::Cancel(HandshakeData { device_id, packet_num }),
    {
        Message::wrap(SysEx::cancel(device_id, packet_num))
    }

    /// Ends a file. Both numbers must fit in seven bits.
    pub fn eof(device_id: u8, packet_num: u8) -> (r: Self)
        requires
            device_id <= 0x7F,
            packet_num <= 0x7F,
        ensures
            r == Message::Eof(HandshakeData { device_id, packet_num }),
    {
        Message::wrap(SysEx::eof(device_id, packet_num))
    }

    /// Asks a device who it is. The device ID must fit in seven bits.
    pub fn identity_request(device_id: u8) -> (r: Self)
        requires
            device_id <= 0x7F,
        ensures
            r == Message::IdentityRequest(IdentityRequestData { device_id }),
    {
        Message::wrap(SysEx::identity_request(device_id))
    }

    /// The software revision must be exactly four bytes, each of seven bits.
    pub fn identity_reply(
        device_id: u8,
        manufacturer_id: u8,
        device_family_code: u16,
        device_family_member_code: u16,
        software_rev: &[u8],
    ) -> (r: Self)
        requires
            device_id <= 0x7F,
            manufacturer_id <= 0x7F,
            device_family_code <= 0x3FFF,
            device_family_member_code <= 0x3FFF,
            software_rev@.len() == 4,
            forall|i: int| 0 <= i < 4 ==> #[trigger] software_rev@[i] <= 0x7F,
        ensures
            r matches Message::IdentityReply(d) && d.device_id == device_id && d.manufacturer_id
                == manufacturer_id && d.device_family_code == device_family_code
                && d.device_family_member_code == device_family_member_code && d.software_rev@
                == software_rev@,
    {
        Message::wrap(
            SysEx::identity_reply(
                device_id,
                manufacturer_id,
                device_family_code,
                device_family_member_code,
                software_rev,
            ),
        )
    }

    /// The file type must be exactly four bytes, each of seven bits.
    pub fn file_dump_header(device_id: u8, source_id: u8, length: u32, file_type: &str) -> (r: Self)
        requires
            device_id <= 0x7F,
            source_id <= 0x7F,
            length <= 0x0FFF_FFFF,
            file_type.spec_bytes().len() == 4,
            forall|i: int| 0 <= i < 4 ==> #[trigger] file_type.spec_bytes()[i] <= 0x7F,
        ensures
            r matches Message::FileDumpHeader(d) && d.device_id == device_id && d.source_id
                == source_id && d.length == length && d.raw_file_type@ == file_type.spec_bytes(),
    {
        Message::wrap(SysEx::file_dump_header(device_id, source_id, length, file_type))
    }

    /// The payload may hold up to 112 bytes; the rest of the packet's buffer is zero.
    pub fn file_dump_packet(device_id: u8, packet_num: u8, data: &[u8]) -> (r: Self)
        requires
            device_id <= 0x7F,
            packet_num <= 0x7F,
            data@.len() <= 112,
        ensures
            r matches Message::FileDumpPacket(d) && d.device_id == device_id && d.packet_num
                == packet_num && d.checksum_ok && d.data_size == data@.len() && d.data@
                == pad_packet_data(data@),
    {
        Message::wrap(SysEx::file_dump_packet(device_id, packet_num, data))
    }

    /// The bytes of this message: a status byte with the channel in its low nibble and two
    /// data bytes for a channel voice message, the system exclusive encoding otherwise.
    pub open spec fn encoding(self) -> Seq<u8> {
        match self {
            Message::NoteOn(d) => seq![0x90u8 | d.channel, d.note.spec_number(), d.velocity],
            Message::NoteOff(d) => seq![0x80u8 | d.channel, d.note.spec_number(), d.velocity],
            Message::ControlChange(d) => seq![0xB0u8 | d.channel, d.control, d.value],
            _ => self.sysex().unwrap().encoding(),
        }
    }

    /// A message that [`Message::write`] accepts: a file dump packet carries between 1 and
    /// 112 payload bytes.
    pub open spec fn writable(self) -> bool {
        self matches Message::FileDumpPacket(d) ==> 1 <= d.data_size <= 112
    }

    fn as_sysex(&self) -> (r: Option<SysEx>)
        ensures
            r == self.sysex(),
    {
        match *self {
            Message::Ack(d) => Some(SysEx::Ack(d)),
            Message::Nak(d) => Some(SysEx::Nak(d)),
            Message::Wait(d) => Some(SysEx::Wait(d)),
            Message::Cancel(d) => Some(SysEx::Cancel(d)),
            Message::Eof(d) => Some(SysEx::Eof(d)),
            Message::IdentityRequest(d) => Some(SysEx::IdentityRequest(d)),
            Message::IdentityReply(d) => Some(SysEx::IdentityReply(d)),
            Message::FileDumpHeader(d) => Some(SysEx::FileDumpHeader(d)),
            Message::FileDumpPacket(d) => Some(SysEx::FileDumpPacket(d)),
            _ => None,
        }
    }

    /// Appends the encoding of this message to `writer`.
    pub fn write(&self, writer: &mut Vec<u8>)
        requires
            self.writable(),
        ensures
            final(writer)@ == old(writer)@ + self.encoding(),
    {
        match self {
            Message::NoteOn(d) => {
                writer.push(0x90 | d.channel);
                writer.push(d.note.number());
                writer.push(d.velocity);
                assert(writer@ =~= old(writer)@ + self.encoding());
            },
            Message::NoteOff(d) => {
                writer.push(0x80 | d.channel);
                writer.push(d.note.number());
                writer.push(d.velocity);
                assert(writer@ =~= old(writer)@ + self.encoding());
            },
            Message::ControlChange(d) => {
                writer.push(0xB0 | d.channel);
                writer.push(d.control);
                writer.push(d.value);
                assert(writer@ =~= old(writer)@ + self.encoding());
            },
            _ => {
                match self.as_sysex() {
                    Some(x) => x.write(writer),
                    None => {},
                }
            },
        }
    }

    /// Reads the first recognized system exclusive message from the front of `buffer`,
    /// removing the bytes it consumed, as [`SysEx::read`] does.
    pub fn read_sysex(buffer: &mut Vec<u8>) -> (r: Option<Message>)
        ensures
            r == (match read_spec(old(buffer)@).1 {
                Some(x) => Some(Message::from_sysex(x)),
                None => None,
            }),
            final(buffer)@ == old(buffer)@.subrange(read_spec(old(buffer)@).0, old(buffer)@.len() as int),
    {
        match SysEx::read(buffer) {
            Some(x) => Some(Message::wrap(x)),
            None => None,
        }
    }
}

/// Whatever follows it, a system exclusive message that was written is read back whole by
/// [`Message::read_sysex`], which consumes exactly its bytes. Identity messages are not
/// written, so they are left out.
pub proof fn lemma_message_write_then_read(m: Message, rest: Seq<u8>)
    requires
        m.sysex() matches Some(x) && x.well_formed() && !(x is IdentityRequest) && !(
        x is IdentityReply),
    ensures
        read_spec(m.encoding() + rest).0 == m.encoding().len(),
        (match read_spec(m.encoding() + rest).1 {
            Some(x) => Some(Message::from_sysex(x)),
            None => None,
        }) == Some(m),
{
    let x = m.sysex().unwrap();
    lemma_write_then_read(x, rest);
}

/// A channel voice message on a channel that fits in four bits is written as three bytes: a
/// status byte with its top bit set, the message's kind in its upper half (9 for note on, 8 for
/// note off, 0xB for control change) and the channel in its lower half, then the note's number
/// and the velocity, or the control and its value.
pub proof fn lemma_channel_voice_bytes(m: Message)
    requires
        m matches Message::NoteOn(d) ==> d.channel <= 0x0F,
        m matches Message::NoteOff(d) ==> d.channel <= 0x0F,
        m matches Message::ControlChange(d) ==> d.channel <= 0x0F,
    ensures
        m matches Message::NoteOn(d) ==> m.encoding().len() == 3 && m.encoding()[0] >> 4u8 == 9
            && m.encoding()[0] & 0x0Fu8 == d.channel && m.encoding()[1] == d.note.spec_number()
            && m.encoding()[2] == d.velocity,
        m matches Message::NoteOff(d) ==> m.encoding().len() == 3 && m.encoding()[0] >> 4u8 == 8
            && m.encoding()[0] & 0x0Fu8 == d.channel && m.encoding()[1] == d.note.spec_number()
            && m.encoding()[2] == d.velocity,
        m matches Message::ControlChange(d) ==> m.encoding().len() == 3 && m.encoding()[0] >> 4u8
            == 0xB && m.encoding()[0] & 0x0Fu8 == d.channel && m.encoding()[1] == d.control
            && m.encoding()[2] == d.value,
{
    match m {
        Message::NoteOn(d) => lemma_status_nibbles(d.channel),
        Message::NoteOff(d) => lemma_status_nibbles(d.channel),
        Message::ControlChange(d) => lemma_status_nibbles(d.channel),
        _ => {},
    }
}

} // verus!
