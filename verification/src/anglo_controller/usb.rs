//! The controller's USB-MIDI input: the system exclusive messages that arrive in event packets
//! on its cable, read from the bytes they carry.
use vstd::prelude::*;
use crate::midi::Message;
use crate::midi_tools::messages::sysex::read_front_spec;
use crate::midi_tools::usb::{event_payload, EventPacket};
use crate::ring::keep_last;
use crate::sysex_reader::SysExReader;

verus! {

/// The USB-MIDI cable the controller talks on.
pub const USB_MIDI_CABLE: u8 = 0;

/// The MIDI bytes received over USB and not yet read.
pub struct MidiIn {
    reader: SysExReader,
}

impl MidiIn {
    /// The bytes waiting, oldest first.
    pub closed spec fn view(&self) -> Seq<u8> {
        self.reader@
    }

    /// Nothing received yet.
    pub fn new() -> (r: Self)
        ensures
            r@ == Seq::<u8>::empty(),
    {
        MidiIn { reader: SysExReader::new() }
    }

    /// The bytes the next read looks at first: a prefix of the bytes waiting.
    pub closed spec fn front(&self) -> Seq<u8> {
        self.reader.front()
    }

    /// Buffers the MIDI bytes an event packet carries; the buffer keeps its last 512 bytes.
    pub fn buffer_packet(&mut self, packet: &EventPacket)
        ensures
            final(self)@ == keep_last(old(self)@ + event_payload(packet.raw@), 512),
    {
        self.reader.push(packet.payload())
    }

    /// Reads the next message from the buffered bytes, if a complete one is there, as
    /// [`SysExReader::read`] does.
    pub fn read_message(&mut self) -> (r: Option<Message>)
        ensures
            ({
                let (n, m) = read_front_spec(old(self)@, old(self).front());
                &&& r == (match m {
                    Some(x) => Some(Message::from_sysex(x)),
                    None => None,
                })
                &&& final(self)@ == old(self)@.subrange(n, old(self)@.len() as int)
            }),
    {
        match self.reader.read() {
            Some(m) => Some(Message::wrap(m)),
            None => None,
        }
    }
}

} // verus!
