//! Packaging a firmware image as a MIDI file dump: a header with the image's size and the file
//! type `BIN `, the image in packets of up to 112 bytes numbered from 0 and wrapping around at
//! 128, and an end of file that carries the number after the last packet's.
use vstd::prelude::*;
use vstd::string::StringSliceAdditionalSpecFns;
use crate::midi_tools::messages::sysex::{pad_packet_data, HandshakeData, SysEx};
use crate::midi_tools::file_dump::{process_spec, FileDumpAction};

verus! {

/// The device the dump is addressed to.
pub const DEVICE_ID: u8 = 1;

/// The device the dump says it comes from.
pub const SOURCE_ID: u8 = 0;

/// The most image bytes a packet carries.
pub const PACKET_DATA_SIZE: usize = 112;

/// The packet number after `n`.
pub open spec fn next_packet_num(n: u8) -> u8 {
    ((n + 1) % 0x80) as u8
}

/// The packets and end of a dump, numbered on from where they stand.
pub struct SyxEncoder {
    packet_num: u8,
}

impl SyxEncoder {
    /// The number the next packet or the end of file carries.
    pub closed spec fn packet_num(&self) -> u8 {
        self.packet_num
    }

    /// What an encoder keeps true: packet numbers fit in seven bits.
    pub closed spec fn wf(&self) -> bool {
        self.packet_num <= 0x7F
    }

    /// An encoder whose first packet is number 0.
    pub fn new() -> (r: Self)
        ensures
            r.wf(),
            r.packet_num() == 0,
    {
        SyxEncoder { packet_num: 0 }
    }

    /// The header of a dump of an image of `file_size` bytes.
    pub fn header(file_size: u32) -> (r: SysEx)
        requires
            file_size <= 0x0FFF_FFFF,
        ensures
            r matches SysEx::FileDumpHeader(d) && d.device_id == DEVICE_ID && d.source_id == SOURCE_ID
                && d.length == file_size && d.raw_file_type@ == seq![0x42u8, 0x49u8, 0x4Eu8, 0x20u8],
    {
        let file_type = "BIN ";
        proof {
            reveal_strlit("BIN ");
            assert(vstd::string::is_ascii(file_type));
            vstd::string::is_ascii_spec_bytes(file_type);
            assert(file_type.spec_bytes() =~= seq![0x42u8, 0x49u8, 0x4Eu8, 0x20u8]);
        }
        SysEx::file_dump_header(DEVICE_ID, SOURCE_ID, file_size, file_type)
    }

    /// The next packet, carrying `data`; the packet after it gets the next number.
    pub fn packet(&mut self, data: &[u8]) -> (r: SysEx)
        requires
            old(self).wf(),
            data@.len() <= PACKET_DATA_SIZE,
        ensures
            final(self).wf(),
            final(self).packet_num() == next_packet_num(old(self).packet_num()),
            r matches SysEx::FileDumpPacket(d) && d.device_id == DEVICE_ID && d.packet_num
                == old(self).packet_num() && d.checksum_ok && d.data_size == data@.len() && d.data@
                == pad_packet_data(data@),
    {
        let r = SysEx::file_dump_packet(DEVICE_ID, self.packet_num, data);
        self.packet_num = (self.packet_num + 1) % 0x80;
        r
    }

    /// The end of file, carrying the number the next packet would have.
    pub fn eof(&self) -> (r: SysEx)
        requires
            self.wf(),
        ensures
            r == SysEx::Eof(HandshakeData { device_id: DEVICE_ID, packet_num: self.packet_num() }),
    {
        SysEx::eof(DEVICE_ID, self.packet_num)
    }
}

/// The file type of a firmware image.
pub open spec fn bin_file_type() -> Seq<u8> {
    seq![0x42u8, 0x49u8, 0x4Eu8, 0x20u8]
}

/// A dump made here is taken whole by a file dump receiver for device 1 and the file type
/// `BIN `, whatever it was doing: the header has the file opened for the sender.
pub proof fn lemma_header_opens(header: SysEx, progress: Option<(u8, u8)>)
    requires
        header matches SysEx::FileDumpHeader(d) && d.device_id == DEVICE_ID && d.source_id
            == SOURCE_ID && d.raw_file_type@ == bin_file_type(),
    ensures
        process_spec(DEVICE_ID, bin_file_type(), progress, header) == (
            progress,
            FileDumpAction::Open {
                wait: SysEx::Wait(HandshakeData { device_id: SOURCE_ID, packet_num: 0 }),
                source_id: SOURCE_ID,
            },
        ),
{
}

/// Each packet of a dump made here, numbered as the receiver expects it, is written, and
/// afterwards the receiver expects the number the encoder gives the next packet.
pub proof fn lemma_packet_written(packet: SysEx, n: u8)
    requires
        n <= 0x7F,
        packet matches SysEx::FileDumpPacket(d) && d.device_id == DEVICE_ID && d.packet_num == n
            && d.checksum_ok,
    ensures
        process_spec(DEVICE_ID, bin_file_type(), Some((SOURCE_ID, n)), packet) == (
            Some((SOURCE_ID, n)),
            FileDumpAction::Write {
                wait: SysEx::Wait(HandshakeData { device_id: SOURCE_ID, packet_num: n }),
                packet: packet->FileDumpPacket_0,
            },
        ),
        ((n + 1) % 0x80) as u8 == next_packet_num(n),
{
}

/// The end of a dump made here closes the file whatever number it carries.
pub proof fn lemma_eof_closes(n: u8, m: u8)
    ensures
        process_spec(
            DEVICE_ID,
            bin_file_type(),
            Some((SOURCE_ID, n)),
            SysEx::Eof(HandshakeData { device_id: DEVICE_ID, packet_num: m }),
        ) == (None::<(u8, u8)>, FileDumpAction::Close),
{
}

} // verus!
