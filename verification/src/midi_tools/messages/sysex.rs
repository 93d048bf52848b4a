//! Universal non-real-time system exclusive messages: the handshake messages and the file dump
//! messages of the MIDI file dump protocol, with their byte encoding and decoding.
use vstd::prelude::*;
use vstd::string::StringSliceAdditionalSpecFns;
use vstd::utf8::*;
use crate::bytes::{find_byte, find_from};

verus! {

/// The device ID that addresses every device.
pub const ALL_CALL_DEVICE_ID: u8 = 0x7F;

/// Starts a system exclusive message.
pub const SYSEX_START: u8 = 0xF0;
/// Ends a system exclusive message.
pub const SYSEX_END: u8 = 0xF7;
/// The ID of universal non-real-time messages.
pub const UNIVERSAL_NON_REAL_TIME: u8 = 0x7E;
/// Sub-ID of an acknowledgement.
pub const SUB_ID_ACK: u8 = 0x7F;
/// Sub-ID of a request to send a packet again.
pub const SUB_ID_NAK: u8 = 0x7E;
/// Sub-ID of a request to wait.
pub const SUB_ID_WAIT: u8 = 0x7C;
/// Sub-ID of a cancel.
pub const SUB_ID_CANCEL: u8 = 0x7D;
/// Sub-ID of an end of file.
pub const SUB_ID_EOF: u8 = 0x7B;
/// Sub-ID of file dump messages.
pub const SUB_ID_FILE_DUMP: u8 = 0x07;
/// Second sub-ID of a file dump header.
pub const SUB_ID_FILE_DUMP_HEADER: u8 = 0x01;
/// Second sub-ID of a file dump data packet.
pub const SUB_ID_FILE_DUMP_PACKET: u8 = 0x02;

/// The largest number of payload bytes a file dump packet carries.
pub const PACKET_DATA_CAPACITY: usize = 112;

#[derive(Debug, PartialEq, Eq, Clone, Copy)]
#[non_exhaustive]
/// The fields of a handshake: the device addressed and the packet number.
pub struct HandshakeData {
    pub device_id: u8,
    pub packet_num: u8,
}

#[derive(Debug, PartialEq, Eq, Clone, Copy)]
#[non_exhaustive]
/// The fields of an identity request.
pub struct IdentityRequestData {
    pub device_id: u8,
}

#[derive(Debug, PartialEq, Eq, Clone, Copy)]
#[non_exhaustive]
/// The fields of an identity reply.
pub struct IdentityReplyData {
    pub device_id: u8,
    pub manufacturer_id: u8,
    pub device_family_code: u16,
    pub device_family_member_code: u16,
    pub software_rev: [u8; 4],
}

#[derive(Debug, PartialEq, Eq, Clone, Copy)]
#[non_exhaustive]
/// The fields of a file dump header: the device addressed, the sender, the file's length
/// and its four-byte type.
pub struct FileDumpHeaderData {
    pub device_id: u8,
    pub source_id: u8,
    pub length: u32,
    pub raw_file_type: [u8; 4],
}

#[derive(Debug, PartialEq, Eq, Clone, Copy)]
#[non_exhaustive]
/// The fields of a file dump packet: the device addressed, the packet number, whether its
/// checksum matched, and up to 112 payload bytes with their count.
pub struct FileDumpPacketData {
    pub device_id: u8,
    pub packet_num: u8,
    pub checksum_ok: bool,
    pub data: [u8; 112],
    pub data_size: usize,
}

#[derive(Debug, PartialEq, Eq, Clone, Copy)]
/// A universal system exclusive message of the handshake, identity and file dump kinds.
pub enum SysEx {
    Ack(HandshakeData),
    Nak(HandshakeData),
    Wait(HandshakeData),
    Cancel(HandshakeData),
    Eof(HandshakeData),
    IdentityRequest(IdentityRequestData),
    IdentityReply(IdentityReplyData),
    FileDumpHeader(FileDumpHeaderData),
    FileDumpPacket(FileDumpPacketData),
}

/// A data byte of a MIDI stream: its top bit is clear.
pub open spec fn is_data_byte(b: u8) -> bool {
    b < 0x80
}

/// A system real-time byte, which may stand anywhere in a MIDI stream, even inside a system
/// exclusive message.
pub open spec fn is_real_time_byte(b: u8) -> bool {
    b >= 0xF8
}

/// Every byte of `s` is a data byte.
pub open spec fn all_data(s: Seq<u8>) -> bool {
    forall|i: int| 0 <= i < s.len() ==> is_data_byte(#[trigger] s[i])
}

/// `s` followed by zeros up to the capacity of a file dump packet.
pub open spec fn pad_packet_data(s: Seq<u8>) -> Seq<u8> {
    s + Seq::new((112 - s.len()) as nat, |i: int| 0u8)
}

/// The payload of a file dump packet: the first `data_size` bytes of its buffer.
pub open spec fn packet_payload(d: FileDumpPacketData) -> Seq<u8> {
    d.data@.subrange(0, d.data_size as int)
}

fn is_data(x: &u8) -> (r: bool)
    ensures
        r == is_data_byte(*x),
{
    let b = *x;
    assert((b & 0x80) == 0 <==> b < 0x80) by (bit_vector);
    (b & 0x80) == 0
}

fn is_sys_rt(x: &u8) -> (r: bool)
    ensures
        r == is_real_time_byte(*x),
{
    let b = *x;
    assert((b & 0xF8) == 0xF8 <==> b >= 0xF8) by (bit_vector);
    (b & 0xF8) == 0xF8
}

impl SysEx {
    /// The longest encoding of a message: a file dump packet with a full payload.
    pub const MAX_LENGTH: usize = 137;

    /// Acknowledges a packet. Both numbers must fit in seven bits.
    pub fn ack(device_id: u8, packet_num: u8) -> (r: Self)
        requires
            device_id <= 0x7F,
            packet_num <= 0x7F,
        ensures
            r == SysEx::Ack(HandshakeData { device_id, packet_num }),
    {
        SysEx::Ack(HandshakeData { device_id, packet_num })
    }

    /// Asks for a packet again. Both numbers must fit in seven bits.
    pub fn nak(device_id: u8, packet_num: u8) -> (r: Self)
        requires
            device_id <= 0x7F,
            packet_num <= 0x7F,
        ensures
            r == SysEx::Nak(HandshakeData { device_id, packet_num }),
    {
        SysEx::Nak(HandshakeData { device_id, packet_num })
    }

    /// Asks the sender to wait. Both numbers must fit in seven bits.
    pub fn wait(device_id: u8, packet_num: u8) -> (r: Self)
        requires
            device_id <= 0x7F,
            packet_num <= 0x7F,
        ensures
            r == SysEx::Wait(HandshakeData { device_id, packet_num }),
    {
        SysEx::Wait(HandshakeData { device_id, packet_num })
    }

    /// Cancels a transfer. Both numbers must fit in seven bits.
    pub fn cancel(device_id: u8, packet_num: u8) -> (r: Self)
        requires
            device_id <= 0x7F,
            packet_num <= 0x7F,
        ensures
            r == SysEx::Cancel(HandshakeData { device_id, packet_num }),
    {
        SysEx::Cancel(HandshakeData { device_id, packet_num })
    }

    /// Ends a file. Both numbers must fit in seven bits.
    pub fn eof(device_id: u8, packet_num: u8) -> (r: Self)
        requires
            device_id <= 0x7F,
            packet_num <= 0x7F,
        ensures
            r == SysEx::Eof(HandshakeData { device_id, packet_num }),
    {
        SysEx::Eof(HandshakeData { device_id, packet_num })
    }

    /// Asks a device who it is. The device ID must fit in seven bits.
    pub fn identity_request(device_id: u8) -> (r: Self)
        requires
            device_id <= 0x7F,
        ensures
            r == SysEx::IdentityRequest(IdentityRequestData { device_id }),
    {
        SysEx::IdentityRequest(IdentityRequestData { device_id })
    }

    /// The software revision must be exactly four bytes, each of seven bits.
    pub fn identity_reply(
        device_id: u8,
        manufacturer_id: u8,
        device_family_code: u16,
        device_family_member_code: u16,
        software_rev: &[u8],
    ) -> (r: Self)
        requires
            device_id <= 0x7F,
            manufacturer_id <= 0x7F,
            device_family_code <= 0x3FFF,
            device_family_member_code <= 0x3FFF,
            software_rev@.len() == 4,
            forall|i: int| 0 <= i < 4 ==> #[trigger] software_rev@[i] <= 0x7F,
        ensures
            r matches SysEx::IdentityReply(d) && d.device_id == device_id && d.manufacturer_id
                == manufacturer_id && d.device_family_code == device_family_code
                && d.device_family_member_code == device_family_member_code && d.software_rev@
                == software_rev@,
    {
        let rev = [software_rev[0], software_rev[1], software_rev[2], software_rev[3]];
        assert(rev@ =~= software_rev@);
        SysEx::IdentityReply(
            IdentityReplyData {
                device_id,
                manufacturer_id,
                device_family_code,
                device_family_member_code,
                software_rev: rev,
            },
        )
    }

    /// The file type must be exactly four bytes, each of seven bits.
    pub fn file_dump_header(device_id: u8, source_id: u8, length: u32, file_type: &str) -> (r: Self)
        requires
            device_id <= 0x7F,
            source_id <= 0x7F,
            length <= 0x0FFF_FFFF,
            file_type.spec_bytes().len() == 4,
            forall|i: int| 0 <= i < 4 ==> #[trigger] file_type.spec_bytes()[i] <= 0x7F,
        ensures
            r matches SysEx::FileDumpHeader(d) && d.device_id == device_id && d.source_id
                == source_id && d.length == length && d.raw_file_type@ == file_type.spec_bytes(),
    {
        let b = file_type.as_bytes();
        let raw_file_type = [b[0], b[1], b[2], b[3]];
        assert(raw_file_type@ =~= b@);
        SysEx::FileDumpHeader(FileDumpHeaderData { device_id, source_id, length, raw_file_type })
    }

    /// The payload may hold up to 112 bytes; the rest of the packet's buffer is zero.
    pub fn file_dump_packet(device_id: u8, packet_num: u8, data: &[u8]) -> (r: Self)
        requires
            device_id <= 0x7F,
            packet_num <= 0x7F,
            data@.len() <= 112,
        ensures
            r matches SysEx::FileDumpPacket(d) && d.device_id == device_id && d.packet_num
                == packet_num && d.checksum_ok && d.data_size == data@.len() && d.data@
                == pad_packet_data(data@),
    {
        let mut data_array = [0u8; 112];
        let mut i: usize = 0;
        while i < data.len()
            invariant
                i <= data@.len() <= 112,
                forall|j: int| 0 <= j < i ==> data_array@[j] == data@[j],
                forall|j: int| i <= j < 112 ==> data_array@[j] == 0,
            decreases data.len() - i,
        {
            data_array[i] = data[i];
            i += 1;
        }
        assert(data_array@ =~= pad_packet_data(data@));
        SysEx::FileDumpPacket(
            FileDumpPacketData {
                device_id,
                packet_num,
                checksum_ok: true,
                data: data_array,
                data_size: data.len(),
            },
        )
    }
}

/// Bytes that are all below `0x80` form valid UTF-8: each is a character of its own.
pub proof fn lemma_ascii_is_utf8(s: Seq<u8>)
    requires
        all_data(s),
    ensures
        valid_utf8(s),
    decreases s.len(),
{
    if s.len() > 0 {
        assert(valid_first_scalar(s));
        assert(length_of_first_scalar(s) == 1);
        let p = pop_first_scalar(s);
        assert(all_data(p)) by {
            assert forall|i: int| 0 <= i < p.len() implies is_data_byte(#[trigger] p[i]) by {
                assert(p[i] == s[i + 1]);
            }
        }
        lemma_ascii_is_utf8(p);
    }
}

/// `core::str::from_utf8`: the text whose UTF-8 encoding is `bytes`, when they are valid UTF-8.
#[verifier::external_body]
fn str_from_utf8(bytes: &[u8]) -> (r: Option<&str>)
    ensures
        r is Some <==> valid_utf8(bytes@),
        r matches Some(s) ==> s.spec_bytes() == bytes@,
{
    core::str::from_utf8(bytes).ok()
}

impl FileDumpHeaderData {
    /// The file type as text. The four file type bytes must be valid UTF-8, which they are
    /// whenever the header was built by [`SysEx::file_dump_header`] or read from a stream.
    pub fn file_type(&self) -> (r: &str)
        requires
            valid_utf8(self.raw_file_type@),
        ensures
            r.spec_bytes() == self.raw_file_type@,
    {
        match str_from_utf8(self.raw_file_type.as_slice()) {
            Some(s) => s,
            None => {
                assert(false);
                ""
            },
        }
    }
}

/// A header built from a four-byte, seven-bit text has a file type that reads as text, and
/// [`FileDumpHeaderData::file_type`] gives back exactly that text's bytes.
pub proof fn lemma_file_type_reads_back(h: FileDumpHeaderData, t: Seq<u8>)
    requires
        t.len() == 4,
        forall|i: int| 0 <= i < 4 ==> #[trigger] t[i] <= 0x7F,
        h.raw_file_type@ == t,
    ensures
        valid_utf8(h.raw_file_type@),
{
    assert(all_data(t)) by {
        assert forall|i: int| 0 <= i < t.len() implies is_data_byte(#[trigger] t[i]) by {
            assert(t[i] <= 0x7F);
        }
    }
    lemma_ascii_is_utf8(t);
}

/// The payload of a packet built from `x` is `x` again, without the zero padding: what
/// [`SysEx::file_dump_packet`] puts in, [`FileDumpPacketData::data`] gives back.
pub proof fn lemma_packet_data_reads_back(d: FileDumpPacketData, x: Seq<u8>)
    requires
        x.len() <= 112,
        d.data_size == x.len(),
        d.data@ == pad_packet_data(x),
    ensures
        packet_payload(d) == x,
        packet_payload(d).len() == d.data_size,
{
    assert(packet_payload(d) =~= x);
}

impl FileDumpPacketData {
    /// The payload: the first `data_size` bytes of the buffer.
    pub fn data(&self) -> (r: &[u8])
        requires
            self.data_size <= 112,
        ensures
            r@ == packet_payload(*self),
    {
        &self.data[0..self.data_size]
    }
}


/* Encoding */

/// The six bytes of a handshake message with the given sub-ID.
pub open spec fn handshake_bytes(sub_id: u8, d: HandshakeData) -> Seq<u8> {
    seq![SYSEX_START, UNIVERSAL_NON_REAL_TIME, d.device_id, sub_id, d.packet_num, SYSEX_END]
}

/// The file length as four 7-bit groups, least significant first.
pub open spec fn length_bytes(length: u32) -> Seq<u8> {
    seq![
        (length & 0x7F) as u8,
        ((length >> 7u32) & 0x7F) as u8,
        ((length >> 14u32) & 0x7F) as u8,
        ((length >> 21u32) & 0x7F) as u8,
    ]
}

/// The fifteen bytes of a file dump header.
pub open spec fn header_bytes(d: FileDumpHeaderData) -> Seq<u8> {
    seq![
        SYSEX_START,
        UNIVERSAL_NON_REAL_TIME,
        d.device_id,
        SUB_ID_FILE_DUMP,
        SUB_ID_FILE_DUMP_HEADER,
        d.source_id,
    ] + d.raw_file_type@ + length_bytes(d.length) + seq![SYSEX_END]
}

/// The byte that carries the top bits of a group of up to seven payload bytes: the top bit of
/// the `i`-th byte goes to bit `6 - i`.
pub open spec fn group_high_bits(chunk: Seq<u8>) -> u8
    decreases chunk.len(),
{
    if chunk.len() == 0 {
        0
    } else {
        group_high_bits(chunk.drop_last()) | ((chunk.last() & 0x80) >> (chunk.len() as u8))
    }
}

/// The low seven bits of each byte.
pub open spec fn low_bits(chunk: Seq<u8>) -> Seq<u8> {
    Seq::new(chunk.len(), |i: int| chunk[i] & 0x7F)
}

/// One group of up to seven payload bytes as sent: the byte of top bits, then the low bits.
pub open spec fn encode_group(chunk: Seq<u8>) -> Seq<u8> {
    seq![group_high_bits(chunk)] + low_bits(chunk)
}

/// The size of the next group of payload bytes.
pub open spec fn group_len(n: int) -> int {
    if n < 7 {
        n
    } else {
        7
    }
}

/// A payload as sent in a file dump packet: groups of seven bytes, each led by a byte of top
/// bits, the last group possibly shorter.
pub open spec fn encode_groups(data: Seq<u8>) -> Seq<u8>
    decreases data.len(),
{
    if data.len() == 0 {
        Seq::empty()
    } else {
        encode_group(data.subrange(0, group_len(data.len() as int))) + encode_groups(
            data.subrange(group_len(data.len() as int), data.len() as int),
        )
    }
}

/// The exclusive-or of all bytes.
pub open spec fn xor_all(s: Seq<u8>) -> u8
    decreases s.len(),
{
    if s.len() == 0 {
        0
    } else {
        xor_all(s.drop_last()) ^ s.last()
    }
}

/// The byte count field of a file dump packet with `n` payload bytes: the number of encoded
/// payload bytes, minus one.
pub open spec fn packet_byte_count(n: int) -> u8 {
    (n + (n + 6) / 7 - 1) as u8
}

/// The packet bytes that the checksum covers: from the sysex ID to the end of the payload.
pub open spec fn packet_checked_bytes(d: FileDumpPacketData) -> Seq<u8> {
    seq![
        UNIVERSAL_NON_REAL_TIME,
        d.device_id,
        SUB_ID_FILE_DUMP,
        SUB_ID_FILE_DUMP_PACKET,
        d.packet_num,
        packet_byte_count(d.data_size as int),
    ] + encode_groups(packet_payload(d))
}

/// The bytes of a file dump packet.
pub open spec fn packet_bytes(d: FileDumpPacketData) -> Seq<u8> {
    seq![SYSEX_START] + packet_checked_bytes(d) + seq![xor_all(packet_checked_bytes(d)), SYSEX_END]
}

impl SysEx {
    /// The bytes that [`SysEx::write`] emits for this message. Identity messages are not
    /// encoded: they emit nothing.
    pub open spec fn encoding(self) -> Seq<u8> {
        match self {
            SysEx::Ack(d) => handshake_bytes(SUB_ID_ACK, d),
            SysEx::Nak(d) => handshake_bytes(SUB_ID_NAK, d),
            SysEx::Wait(d) => handshake_bytes(SUB_ID_WAIT, d),
            SysEx::Cancel(d) => handshake_bytes(SUB_ID_CANCEL, d),
            SysEx::Eof(d) => handshake_bytes(SUB_ID_EOF, d),
            SysEx::IdentityRequest(_) => Seq::empty(),
            SysEx::IdentityReply(_) => Seq::empty(),
            SysEx::FileDumpHeader(d) => header_bytes(d),
            SysEx::FileDumpPacket(d) => packet_bytes(d),
        }
    }

    /// A message as the constructors build it: every ID and number fits in seven bits, file
    /// types are seven-bit text and lengths fit in 28 bits, and a file dump packet carries
    /// between 1 and 112 payload bytes, zeros after them, and a good checksum.
    pub open spec fn well_formed(self) -> bool {
        match self {
            SysEx::Ack(d) => d.device_id <= 0x7F && d.packet_num <= 0x7F,
            SysEx::Nak(d) => d.device_id <= 0x7F && d.packet_num <= 0x7F,
            SysEx::Wait(d) => d.device_id <= 0x7F && d.packet_num <= 0x7F,
            SysEx::Cancel(d) => d.device_id <= 0x7F && d.packet_num <= 0x7F,
            SysEx::Eof(d) => d.device_id <= 0x7F && d.packet_num <= 0x7F,
            SysEx::IdentityRequest(d) => d.device_id <= 0x7F,
            SysEx::IdentityReply(d) => d.device_id <= 0x7F && d.manufacturer_id <= 0x7F
                && d.device_family_code <= 0x3FFF && d.device_family_member_code <= 0x3FFF
                && all_data(d.software_rev@),
            SysEx::FileDumpHeader(d) => d.device_id <= 0x7F && d.source_id <= 0x7F && d.length
                <= 0x0FFF_FFFF && all_data(d.raw_file_type@),
            SysEx::FileDumpPacket(d) => d.device_id <= 0x7F && d.packet_num <= 0x7F && 1
                <= d.data_size <= 112 && d.data@ == pad_packet_data(packet_payload(d))
                && d.checksum_ok,
        }
    }

    /// A message that [`SysEx::write`] accepts: a file dump packet carries between 1 and 112
    /// payload bytes.
    pub open spec fn writable(self) -> bool {
        self matches SysEx::FileDumpPacket(d) ==> 1 <= d.data_size <= 112
    }
}

fn write_handshake(sub_id: u8, data: &HandshakeData, writer: &mut Vec<u8>)
    ensures
        final(writer)@ == old(writer)@ + handshake_bytes(sub_id, *data),
{
    writer.push(SYSEX_START);
    writer.push(UNIVERSAL_NON_REAL_TIME);
    writer.push(data.device_id);
    writer.push(sub_id);
    writer.push(data.packet_num);
    writer.push(SYSEX_END);
    assert(writer@ =~= old(writer)@ + handshake_bytes(sub_id, *data));
}

fn write_ack(data: &HandshakeData, writer: &mut Vec<u8>)
    ensures
        final(writer)@ == old(writer)@ + handshake_bytes(SUB_ID_ACK, *data),
{
    write_handshake(SUB_ID_ACK, data, writer)
}

fn write_nak(data: &HandshakeData, writer: &mut Vec<u8>)
    ensures
        final(writer)@ == old(writer)@ + handshake_bytes(SUB_ID_NAK, *data),
{
    write_handshake(SUB_ID_NAK, data, writer)
}

fn write_wait(data: &HandshakeData, writer: &mut Vec<u8>)
    ensures
        final(writer)@ == old(writer)@ + handshake_bytes(SUB_ID_WAIT, *data),
{
    write_handshake(SUB_ID_WAIT, data, writer)
}

fn write_cancel(data: &HandshakeData, writer: &mut Vec<u8>)
    ensures
        final(writer)@ == old(writer)@ + handshake_bytes(SUB_ID_CANCEL, *data),
{
    write_handshake(SUB_ID_CANCEL, data, writer)
}

fn write_eof(data: &HandshakeData, writer: &mut Vec<u8>)
    ensures
        final(writer)@ == old(writer)@ + handshake_bytes(SUB_ID_EOF, *data),
{
    write_handshake(SUB_ID_EOF, data, writer)
}

fn write_file_dump_header(data: &FileDumpHeaderData, writer: &mut Vec<u8>)
    ensures
        final(writer)@ == old(writer)@ + header_bytes(*data),
{
    writer.push(SYSEX_START);
    writer.push(UNIVERSAL_NON_REAL_TIME);
    writer.push(data.device_id);
    writer.push(SUB_ID_FILE_DUMP);
    writer.push(SUB_ID_FILE_DUMP_HEADER);
    writer.push(data.source_id);
    writer.push(data.raw_file_type[0]);
    writer.push(data.raw_file_type[1]);
    writer.push(data.raw_file_type[2]);
    writer.push(data.raw_file_type[3]);
    writer.push((data.length & 0x7F) as u8);
    writer.push(((data.length >> 7) & 0x7F) as u8);
    writer.push(((data.length >> 14) & 0x7F) as u8);
    writer.push(((data.length >> 21) & 0x7F) as u8);
    writer.push(SYSEX_END);
    assert(writer@ =~= old(writer)@ + header_bytes(*data));
}

/// Appends one byte and folds it into the running checksum.
fn push_checked(writer: &mut Vec<u8>, checksum: &mut u8, b: u8, start: Ghost<int>)
    requires
        0 <= start@ <= old(writer)@.len(),
        *old(checksum) == xor_all(old(writer)@.subrange(start@, old(writer)@.len() as int)),
    ensures
        final(writer)@ == old(writer)@.push(b),
        *final(checksum) == xor_all(final(writer)@.subrange(start@, final(writer)@.len() as int)),
{
    writer.push(b);
    *checksum = *checksum ^ b;
    assert(writer@.subrange(start@, writer@.len() as int).drop_last() =~= old(writer)@.subrange(
        start@,
        old(writer)@.len() as int,
    ));
}

/// Appends one group of up to seven payload bytes, folding every byte into the checksum.
fn write_group(chunk: &[u8], writer: &mut Vec<u8>, checksum: &mut u8, start: Ghost<int>)
    requires
        1 <= chunk@.len() <= 7,
        0 <= start@ <= old(writer)@.len(),
        *old(checksum) == xor_all(old(writer)@.subrange(start@, old(writer)@.len() as int)),
    ensures
        final(writer)@ == old(writer)@ + encode_group(chunk@),
        *final(checksum) == xor_all(final(writer)@.subrange(start@, final(writer)@.len() as int)),
{
    let n = chunk.len();
    let mut high: u8 = 0;
    let mut i: usize = 0;
    while i < n
        invariant
            n == chunk@.len() <= 7,
            i <= n,
            high == group_high_bits(chunk@.subrange(0, i as int)),
        decreases n - i,
    {
        let b = chunk[i];
        assert(chunk@.subrange(0, i + 1).drop_last() =~= chunk@.subrange(0, i as int));
        high = high | ((b & 0x80) >> ((i + 1) as u8));
        i += 1;
    }
    assert(chunk@.subrange(0, i as int) =~= chunk@);
    let ghost before = writer@;
    push_checked(writer, checksum, high, start);
    let mut j: usize = 0;
    while j < n
        invariant
            n == chunk@.len() <= 7,
            j <= n,
            0 <= start@ <= before.len(),
            writer@ == before + seq![high] + low_bits(chunk@.subrange(0, j as int)),
            *checksum == xor_all(writer@.subrange(start@, writer@.len() as int)),
        decreases n - j,
    {
        let b = chunk[j];
        push_checked(writer, checksum, b & 0x7F, start);
        assert(low_bits(chunk@.subrange(0, j + 1)) =~= low_bits(chunk@.subrange(0, j as int)).push(
            b & 0x7F,
        ));
        j += 1;
    }
    assert(chunk@.subrange(0, j as int) =~= chunk@);
    assert(writer@ =~= before + encode_group(chunk@));
}

#[verifier::spinoff_prover]
#[verifier::rlimit(60)]
fn write_file_dump_packet(data: &FileDumpPacketData, writer: &mut Vec<u8>)
    requires
        1 <= data.data_size <= 112,
    ensures
        final(writer)@ == old(writer)@ + packet_bytes(*data),
{
    let unencoded = data.data();
    let len = unencoded.len();
    let byte_count = (len + ((len + 6) / 7) - 1) as u8;
    let ghost base = old(writer)@.len() as int;
    writer.push(SYSEX_START);
    let mut checksum: u8 = 0;
    assert(writer@.subrange(base + 1, writer@.len() as int) =~= Seq::<u8>::empty());
    push_checked(writer, &mut checksum, UNIVERSAL_NON_REAL_TIME, Ghost(base + 1));
    push_checked(writer, &mut checksum, data.device_id, Ghost(base + 1));
    push_checked(writer, &mut checksum, SUB_ID_FILE_DUMP, Ghost(base + 1));
    push_checked(writer, &mut checksum, SUB_ID_FILE_DUMP_PACKET, Ghost(base + 1));
    push_checked(writer, &mut checksum, data.packet_num, Ghost(base + 1));
    push_checked(writer, &mut checksum, byte_count, Ghost(base + 1));
    let ghost prelude = writer@.subrange(base + 1, writer@.len() as int);
    assert(prelude =~= seq![
        UNIVERSAL_NON_REAL_TIME,
        data.device_id,
        SUB_ID_FILE_DUMP,
        SUB_ID_FILE_DUMP_PACKET,
        data.packet_num,
        packet_byte_count(data.data_size as int),
    ]);
    let ghost head = writer@;
    assert(head.subrange(0, base + 1) =~= old(writer)@.push(SYSEX_START));
    let ghost payload = unencoded@;
    assert(writer@.subrange(base + 7, writer@.len() as int) =~= Seq::<u8>::empty());
    assert(payload.subrange(0, len as int) =~= payload);
    let mut start: usize = 0;
    while start < len
        invariant
            len == payload.len(),
            1 <= len <= 112,
            unencoded@ == payload,
            start <= len,
            head.len() == base + 7,
            base >= 0,
            writer@.len() >= base + 7,
            writer@.subrange(0, base + 7) == head,
            encode_groups(payload) == writer@.subrange(base + 7, writer@.len() as int)
                + encode_groups(payload.subrange(start as int, len as int)),
            checksum == xor_all(writer@.subrange(base + 1, writer@.len() as int)),
        decreases len - start,
    {
        let end = if len - start < 7 {
            len
        } else {
            start + 7
        };
        let ghost rest = payload.subrange(start as int, len as int);
        assert(rest.subrange(0, group_len(rest.len() as int)) =~= payload.subrange(
            start as int,
            end as int,
        ));
        assert(rest.subrange(group_len(rest.len() as int), rest.len() as int) =~= payload.subrange(
            end as int,
            len as int,
        ));
        let ghost before = writer@;
        write_group(&unencoded[start..end], writer, &mut checksum, Ghost(base + 1));
        assert(writer@.subrange(base + 7, writer@.len() as int) =~= before.subrange(
            base + 7,
            before.len() as int,
        ) + encode_group(payload.subrange(start as int, end as int)));
        assert(writer@.subrange(0, base + 7) =~= before.subrange(0, base + 7));
        start = end;
    }
    assert(payload.subrange(len as int, len as int) =~= Seq::<u8>::empty());
    let ghost checked = writer@.subrange(base + 1, writer@.len() as int);
    assert(checked =~= prelude + encode_groups(payload));
    assert(writer@ =~= old(writer)@.push(SYSEX_START) + checked);
    writer.push(checksum);
    writer.push(SYSEX_END);
    assert(writer@ =~= old(writer)@ + packet_bytes(*data));
}

impl SysEx {
    /// Appends the encoding of this message to `writer`.
    pub fn write(&self, writer: &mut Vec<u8>)
        requires
            self.writable(),
        ensures
            final(writer)@ == old(writer)@ + self.encoding(),
    {
        match self {
            SysEx::Ack(data) => write_ack(data, writer),
            SysEx::Nak(data) => write_nak(data, writer),
            SysEx::Wait(data) => write_wait(data, writer),
            SysEx::Cancel(data) => write_cancel(data, writer),
            SysEx::Eof(data) => write_eof(data, writer),
            SysEx::IdentityRequest(_) => {
                assert(writer@ =~= old(writer)@ + self.encoding());
            },
            SysEx::IdentityReply(_) => {
                assert(writer@ =~= old(writer)@ + self.encoding());
            },
            SysEx::FileDumpHeader(data) => write_file_dump_header(data, writer),
            SysEx::FileDumpPacket(data) => write_file_dump_packet(data, writer),
        }
    }
}


/* Decoding */

/// The array whose elements are `s`.
pub open spec fn array_with_view<const N: usize>(s: Seq<u8>) -> [u8; N] {
    choose|a: [u8; N]| a@ == s
}

/// The file length from its four 7-bit groups, least significant first.
pub open spec fn decode_length(b: Seq<u8>) -> u32 {
    (b[0] as u32) | ((b[1] as u32) << 7u32) | ((b[2] as u32) << 14u32) | ((b[3] as u32) << 21u32)
}

/// One group of an encoded payload: a byte of top bits, then up to seven bytes of low bits.
pub open spec fn decode_group(g: Seq<u8>) -> Seq<u8> {
    Seq::new(
        (g.len() - 1) as nat,
        |k: int| g[k + 1] | (((g[0] << ((k + 1) as u8)) as u8) & 0x80),
    )
}

/// The size of the next group of an encoded payload.
pub open spec fn encoded_group_len(n: int) -> int {
    if n < 8 {
        n
    } else {
        8
    }
}

/// An encoded payload decoded group by group.
pub open spec fn decode_groups(enc: Seq<u8>) -> Seq<u8>
    decreases enc.len(),
{
    if enc.len() == 0 {
        Seq::empty()
    } else {
        decode_group(enc.subrange(0, encoded_group_len(enc.len() as int))) + decode_groups(
            enc.subrange(encoded_group_len(enc.len() as int), enc.len() as int),
        )
    }
}

/// A handshake message with the given sub-ID, read from a message whose real-time bytes were
/// removed.
pub open spec fn parse_handshake_spec(m: Seq<u8>, sub_id: u8) -> Option<HandshakeData> {
    if m.len() >= 5 && m[0] == SYSEX_START && m[1] == UNIVERSAL_NON_REAL_TIME && m[3] == sub_id
        && (m.len() == 5 || m[5] == SYSEX_END) {
        Some(HandshakeData { device_id: m[2], packet_num: m[4] })
    } else {
        None
    }
}

/// A file dump header: fourteen bytes of header, then anything up to an end of exclusive.
pub open spec fn parse_header_spec(m: Seq<u8>) -> Option<FileDumpHeaderData> {
    if m.len() >= 14 && m[0] == SYSEX_START && m[1] == UNIVERSAL_NON_REAL_TIME && m[3]
        == SUB_ID_FILE_DUMP && m[4] == SUB_ID_FILE_DUMP_HEADER && find_from(m, SYSEX_END, 14) is Some {
        Some(
            FileDumpHeaderData {
                device_id: m[2],
                source_id: m[5],
                length: decode_length(m.subrange(10, 14)),
                raw_file_type: array_with_view(m.subrange(6, 10)),
            },
        )
    } else {
        None
    }
}

/// The checksum a file dump packet should carry, from the fields the packet was read with.
pub open spec fn expected_checksum(device_id: u8, packet_num: u8, byte_count: u8, enc: Seq<u8>) -> u8 {
    0x7B ^ device_id ^ packet_num ^ byte_count ^ xor_all(enc)
}

/// A file dump packet: seven bytes of header whose last is the byte count `n`, `n + 1` encoded
/// payload bytes, the checksum, and an end of exclusive.
pub open spec fn parse_packet_spec(m: Seq<u8>) -> Option<FileDumpPacketData> {
    if m.len() >= 7 && m[0] == SYSEX_START && m[1] == UNIVERSAL_NON_REAL_TIME && m[3]
        == SUB_ID_FILE_DUMP && m[4] == SUB_ID_FILE_DUMP_PACKET && m.len() >= 10 + m[6] && m[9
        + m[6]] == SYSEX_END {
        let enc = m.subrange(7, 8 + m[6]);
        let decoded = decode_groups(enc);
        Some(
            FileDumpPacketData {
                device_id: m[2],
                packet_num: m[5],
                checksum_ok: m[8 + m[6]] == expected_checksum(m[2], m[5], m[6], enc),
                data: array_with_view(pad_packet_data(decoded)),
                data_size: decoded.len() as usize,
            },
        )
    } else {
        None
    }
}

/// A message whose real-time bytes were removed, told apart by its sub-IDs.
pub open spec fn parse_message_spec(m: Seq<u8>) -> Option<SysEx> {
    if m.len() > 3 && m[3] == SUB_ID_ACK {
        match parse_handshake_spec(m, SUB_ID_ACK) {
            Some(d) => Some(SysEx::Ack(d)),
            None => None,
        }
    } else if m.len() > 3 && m[3] == SUB_ID_NAK {
        match parse_handshake_spec(m, SUB_ID_NAK) {
            Some(d) => Some(SysEx::Nak(d)),
            None => None,
        }
    } else if m.len() > 3 && m[3] == SUB_ID_WAIT {
        match parse_handshake_spec(m, SUB_ID_WAIT) {
            Some(d) => Some(SysEx::Wait(d)),
            None => None,
        }
    } else if m.len() > 3 && m[3] == SUB_ID_CANCEL {
        match parse_handshake_spec(m, SUB_ID_CANCEL) {
            Some(d) => Some(SysEx::Cancel(d)),
            None => None,
        }
    } else if m.len() > 3 && m[3] == SUB_ID_EOF {
        match parse_handshake_spec(m, SUB_ID_EOF) {
            Some(d) => Some(SysEx::Eof(d)),
            None => None,
        }
    } else if m.len() > 4 && m[3] == SUB_ID_FILE_DUMP && m[4] == SUB_ID_FILE_DUMP_HEADER {
        match parse_header_spec(m) {
            Some(d) => Some(SysEx::FileDumpHeader(d)),
            None => None,
        }
    } else if m.len() > 4 && m[3] == SUB_ID_FILE_DUMP && m[4] == SUB_ID_FILE_DUMP_PACKET {
        match parse_packet_spec(m) {
            Some(d) => Some(SysEx::FileDumpPacket(d)),
            None => None,
        }
    } else {
        None
    }
}

/// The shape of a message cut from a stream: the start byte, data bytes, and possibly one
/// closing byte.
pub open spec fn message_shape(m: Seq<u8>) -> bool {
    forall|i: int| 1 <= i < m.len() - 1 ==> is_data_byte(#[trigger] m[i])
}

/// An array is the array with its own contents.
pub proof fn lemma_array_with_view<const N: usize>(a: [u8; N], s: Seq<u8>)
    requires
        a@ == s,
    ensures
        array_with_view::<N>(s) == a,
{
    broadcast use vstd::array::group_array_axioms;

    let b = array_with_view::<N>(s);
    assert(b@ == s);
    assert(b@ =~= a@);
}

/// An encoded payload of `n` bytes decodes to `n` bytes less one per group.
pub proof fn lemma_decode_groups_len(enc: Seq<u8>)
    ensures
        decode_groups(enc).len() == enc.len() - (enc.len() + 7) / 8,
    decreases enc.len(),
{
    if enc.len() > 0 {
        let n = encoded_group_len(enc.len() as int);
        lemma_decode_groups_len(enc.subrange(n, enc.len() as int));
    }
}

fn parse_handshake(m: &[u8], sub_id: u8) -> (r: Option<HandshakeData>)
    ensures
        r == parse_handshake_spec(m@, sub_id),
{
    if m.len() < 5 || m[0] != SYSEX_START || m[1] != UNIVERSAL_NON_REAL_TIME || m[3] != sub_id
        || (m.len() > 5 && m[5] != SYSEX_END) {
        return None;
    }
    Some(HandshakeData { device_id: m[2], packet_num: m[4] })
}

fn parse_ack(m: &[u8]) -> (r: Option<SysEx>)
    ensures
        r == (match parse_handshake_spec(m@, SUB_ID_ACK) {
            Some(d) => Some(SysEx::Ack(d)),
            None => None,
        }),
{
    match parse_handshake(m, SUB_ID_ACK) {
        Some(d) => Some(SysEx::Ack(d)),
        None => None,
    }
}

fn parse_nak(m: &[u8]) -> (r: Option<SysEx>)
    ensures
        r == (match parse_handshake_spec(m@, SUB_ID_NAK) {
            Some(d) => Some(SysEx::Nak(d)),
            None => None,
        }),
{
    match parse_handshake(m, SUB_ID_NAK) {
        Some(d) => Some(SysEx::Nak(d)),
        None => None,
    }
}

fn parse_wait(m: &[u8]) -> (r: Option<SysEx>)
    ensures
        r == (match parse_handshake_spec(m@, SUB_ID_WAIT) {
            Some(d) => Some(SysEx::Wait(d)),
            None => None,
        }),
{
    match parse_handshake(m, SUB_ID_WAIT) {
        Some(d) => Some(SysEx::Wait(d)),
        None => None,
    }
}

fn parse_cancel(m: &[u8]) -> (r: Option<SysEx>)
    ensures
        r == (match parse_handshake_spec(m@, SUB_ID_CANCEL) {
            Some(d) => Some(SysEx::Cancel(d)),
            None => None,
        }),
{
    match parse_handshake(m, SUB_ID_CANCEL) {
        Some(d) => Some(SysEx::Cancel(d)),
        None => None,
    }
}

fn parse_eof(m: &[u8]) -> (r: Option<SysEx>)
    ensures
        r == (match parse_handshake_spec(m@, SUB_ID_EOF) {
            Some(d) => Some(SysEx::Eof(d)),
            None => None,
        }),
{
    match parse_handshake(m, SUB_ID_EOF) {
        Some(d) => Some(SysEx::Eof(d)),
        None => None,
    }
}

fn parse_file_dump_header(m: &[u8]) -> (r: Option<SysEx>)
    ensures
        r == (match parse_header_spec(m@) {
            Some(d) => Some(SysEx::FileDumpHeader(d)),
            None => None,
        }),
{
    if m.len() < 14 || m[0] != SYSEX_START || m[1] != UNIVERSAL_NON_REAL_TIME || m[3]
        != SUB_ID_FILE_DUMP || m[4] != SUB_ID_FILE_DUMP_HEADER {
        return None;
    }
    if find_byte(m, SYSEX_END, 14).is_none() {
        return None;
    }
    let raw_file_type = [m[6], m[7], m[8], m[9]];
    let mut length: u32 = 0;
    length = length | m[10] as u32;
    length = length | ((m[11] as u32) << 7);
    length = length | ((m[12] as u32) << 14);
    length = length | ((m[13] as u32) << 21);
    let b0 = m[10];
    let b1 = m[11];
    let b2 = m[12];
    let b3 = m[13];
    assert(((((0u32 | (b0 as u32)) | ((b1 as u32) << 7u32)) | ((b2 as u32) << 14u32)) | ((b3 as u32)
        << 21u32)) == (b0 as u32) | ((b1 as u32) << 7u32) | ((b2 as u32) << 14u32) | ((b3 as u32)
        << 21u32)) by (bit_vector);
    proof {
        assert(raw_file_type@ =~= m@.subrange(6, 10));
        lemma_array_with_view(raw_file_type, m@.subrange(6, 10));
    }
    Some(
        SysEx::FileDumpHeader(
            FileDumpHeaderData { device_id: m[2], source_id: m[5], length, raw_file_type },
        ),
    )
}


/// The exclusive-or of a concatenation is the exclusive-or of the parts.
pub proof fn lemma_xor_all_concat(a: Seq<u8>, b: Seq<u8>)
    ensures
        xor_all(a + b) == xor_all(a) ^ xor_all(b),
    decreases b.len(),
{
    if b.len() == 0 {
        assert(a + b =~= a);
        let x = xor_all(a);
        assert(x ^ 0 == x) by (bit_vector);
    } else {
        lemma_xor_all_concat(a, b.drop_last());
        assert((a + b).drop_last() =~= a + b.drop_last());
        let x = xor_all(a);
        let y = xor_all(b.drop_last());
        let z = b.last();
        assert((x ^ y) ^ z == x ^ (y ^ z)) by (bit_vector);
    }
}

/// Decodes one group of an encoded payload into `data` at `at`, folding every byte of the group
/// into the checksum.
fn decode_group_into(g: &[u8], data: &mut [u8; 112], at: usize, checksum: &mut u8)
    requires
        1 <= g@.len() <= 8,
        at + g@.len() - 1 <= 112,
    ensures
        final(data)@ == old(data)@.subrange(0, at as int) + decode_group(g@) + old(data)@.subrange(
            at + g@.len() - 1,
            112,
        ),
        *final(checksum) == *old(checksum) ^ xor_all(g@),
{
    let n = g.len();
    let high = g[0];
    let ghost c0 = *checksum;
    assert(g@.subrange(0, 1).drop_last() =~= Seq::<u8>::empty());
    *checksum = *checksum ^ high;
    assert(0u8 ^ high == high) by (bit_vector);
    assert(xor_all(g@.subrange(0, 1).drop_last()) == 0);
    assert(g@.subrange(0, 1).last() == high);
    assert(xor_all(g@.subrange(0, 1)) == high);
    assert(high << 0u8 == high) by (bit_vector);
    let mut h = high;
    let mut k: usize = 1;
    while k < n
        invariant
            n == g@.len() <= 8,
            1 <= k <= n,
            at + n - 1 <= 112,
            high == g@[0],
            h == (high << ((k - 1) as u8)),
            data@.len() == 112,
            data@.subrange(0, at as int) == old(data)@.subrange(0, at as int),
            data@.subrange(at + k - 1, 112) == old(data)@.subrange(at + k - 1, 112),
            data@.subrange(at as int, at + k - 1) == decode_group(g@).subrange(0, k - 1),
            *checksum == c0 ^ xor_all(g@.subrange(0, k as int)),
        decreases n - k,
    {
        let t = (k - 1) as u8;
        assert((high << t) << 1u8 == high << ((t + 1) as u8)) by (bit_vector)
            requires
                t < 7,
        ;
        h = h << 1;
        let v = g[k] | (h & 0x80);
        let ghost before = data@;
        data[at + k - 1] = v;
        let ghost xk = xor_all(g@.subrange(0, k as int));
        assert(g@.subrange(0, k + 1).drop_last() =~= g@.subrange(0, k as int));
        let b = g[k];
        assert((c0 ^ xk) ^ b == c0 ^ (xk ^ b)) by (bit_vector);
        *checksum = *checksum ^ b;
        assert(data@.subrange(0, at as int) =~= before.subrange(0, at as int));
        assert(data@.subrange(at + k, 112) =~= before.subrange(at + k, 112));
        assert(before.subrange(at + k, 112) =~= before.subrange(at + k - 1, 112).subrange(1, 113 - at - k));
        assert(old(data)@.subrange(at + k, 112) =~= old(data)@.subrange(at + k - 1, 112).subrange(1, 113 - at - k));
        assert(data@.subrange(at as int, at + k) =~= decode_group(g@).subrange(0, k as int));
        k += 1;
    }
    assert(g@.subrange(0, k as int) =~= g@);
    assert(decode_group(g@).subrange(0, k - 1) =~= decode_group(g@));
    assert(data@ =~= data@.subrange(0, at as int) + data@.subrange(at as int, at + k - 1)
        + data@.subrange(at + k - 1, 112));
}

fn parse_file_dump_packet(m: &[u8]) -> (r: Option<SysEx>)
    requires
        message_shape(m@),
    ensures
        r == (match parse_packet_spec(m@) {
            Some(d) => Some(SysEx::FileDumpPacket(d)),
            None => None,
        }),
{
    if m.len() < 7 || m[0] != SYSEX_START || m[1] != UNIVERSAL_NON_REAL_TIME || m[3]
        != SUB_ID_FILE_DUMP || m[4] != SUB_ID_FILE_DUMP_PACKET {
        return None;
    }
    let encoded_size = m[6];
    let es = encoded_size as usize;
    if m.len() < 10 + es || m[9 + es] != SYSEX_END {
        return None;
    }
    assert(is_data_byte(m@[6]));
    let device_id = m[2];
    let packet_num = m[5];
    let enc = &m[7..8 + es];
    let n = enc.len();
    let ghost e = enc@;
    proof {
        lemma_decode_groups_len(e);
        assert(e.subrange(0, 0) =~= Seq::<u8>::empty());
        assert(e.subrange(0, n as int) =~= e);
    }
    let ghost base = 0x7Bu8 ^ device_id ^ packet_num ^ encoded_size;
    let mut checksum: u8 = 0x7B ^ device_id ^ packet_num ^ encoded_size;
    assert(base ^ 0u8 == base) by (bit_vector);
    let mut data = [0u8; 112];
    let mut data_size: usize = 0;
    let mut pos: usize = 0;
    assert(data@.subrange(0, 0) + decode_groups(e.subrange(0, n as int)) =~= decode_groups(e));
    while pos < n
        invariant
            n == e.len() <= 128,
            enc@ == e,
            decode_groups(e).len() <= 112,
            pos <= n,
            data_size <= 112,
            data@.subrange(0, data_size as int) + decode_groups(e.subrange(pos as int, n as int))
                == decode_groups(e),
            forall|j: int| data_size <= j < 112 ==> data@[j] == 0,
            checksum == base ^ xor_all(e.subrange(0, pos as int)),
        decreases n - pos,
    {
        let gend = if n - pos < 8 {
            n
        } else {
            pos + 8
        };
        let ghost rest = e.subrange(pos as int, n as int);
        let ghost g = e.subrange(pos as int, gend as int);
        assert(rest.subrange(0, encoded_group_len(rest.len() as int)) =~= g);
        assert(rest.subrange(encoded_group_len(rest.len() as int), rest.len() as int)
            =~= e.subrange(gend as int, n as int));
        assert(decode_groups(rest) == decode_group(g) + decode_groups(e.subrange(gend as int, n as int)));
        let ghost old_data = data@;
        let ghost old_checksum = checksum;
        decode_group_into(&enc[pos..gend], &mut data, data_size, &mut checksum);
        proof {
            lemma_xor_all_concat(e.subrange(0, pos as int), g);
            assert(e.subrange(0, pos as int) + g =~= e.subrange(0, gend as int));
            let x = xor_all(e.subrange(0, pos as int));
            let y = xor_all(g);
            assert((base ^ x) ^ y == base ^ (x ^ y)) by (bit_vector);
            assert(data@.subrange(0, data_size + g.len() - 1) =~= old_data.subrange(0, data_size as int)
                + decode_group(g));
        }
        data_size = data_size + (gend - pos - 1);
        pos = gend;
    }
    assert(e.subrange(n as int, n as int) =~= Seq::<u8>::empty());
    let ghost decoded = decode_groups(e);
    assert(data@.subrange(0, data_size as int) =~= decoded);
    assert(data@ =~= pad_packet_data(decoded));
    proof {
        lemma_array_with_view(data, pad_packet_data(decoded));
    }
    let checksum_ok = m[8 + es] == checksum;
    Some(
        SysEx::FileDumpPacket(
            FileDumpPacketData { device_id, packet_num, checksum_ok, data, data_size },
        ),
    )
}


/* Reading from a stream */

/// The first index at or after `from` of a byte that ends a system exclusive message: one that
/// is neither a data byte nor a real-time byte.
pub open spec fn find_terminator(s: Seq<u8>, from: int) -> Option<int>
    decreases s.len() - from,
{
    if from < 0 || from >= s.len() {
        None
    } else if !is_data_byte(s[from]) && !is_real_time_byte(s[from]) {
        Some(from)
    } else {
        find_terminator(s, from + 1)
    }
}

/// `s` without its real-time bytes.
pub open spec fn drop_real_time(s: Seq<u8>) -> Seq<u8>
    decreases s.len(),
{
    if s.len() == 0 {
        Seq::empty()
    } else if is_real_time_byte(s.last()) {
        drop_real_time(s.drop_last())
    } else {
        drop_real_time(s.drop_last()).push(s.last())
    }
}

/// Whether the sub-IDs of a message are ones no message here has: a first sub-ID other than
/// those of the handshakes and file dumps, or a file dump sub-ID followed by one other than a
/// header's or a packet's. A message cut short before its sub-IDs is not unrecognized.
pub open spec fn unrecognized(m: Seq<u8>) -> bool {
    (m.len() > 3 && m[3] != SUB_ID_ACK && m[3] != SUB_ID_NAK && m[3] != SUB_ID_WAIT && m[3]
        != SUB_ID_CANCEL && m[3] != SUB_ID_EOF && m[3] != SUB_ID_FILE_DUMP) || (m.len() > 4 && m[3]
        == SUB_ID_FILE_DUMP && m[4] != SUB_ID_FILE_DUMP_HEADER && m[4] != SUB_ID_FILE_DUMP_PACKET)
}

/// What one look at the buffered bytes decides.
#[derive(Debug, PartialEq, Eq)]
pub enum ReadOutcome {
    /// Drop the consumed bytes and look again.
    Continue,
    /// Drop the consumed bytes and stop: no complete message is buffered.
    Stop,
    /// Drop the consumed bytes: they held this message.
    Found(SysEx),
}

/// One look at the buffered bytes: how many of them to consume, and what to do next. Bytes
/// before a start of exclusive are skipped; a message is cut at its first byte that is neither
/// data nor real-time, which is taken along when it is an end of exclusive; messages that are
/// not universal non-real-time, or that are not recognized, are skipped; an incomplete message
/// is left in the buffer.
pub open spec fn read_step_spec(buf: Seq<u8>) -> (int, ReadOutcome) {
    match find_from(buf, SYSEX_START, 0) {
        None => (buf.len() as int, ReadOutcome::Stop),
        Some(i) => if i > 0 {
            (i, ReadOutcome::Continue)
        } else {
            match find_terminator(buf, 1) {
                None => {
                    let m = drop_real_time(buf);
                    if m.len() > 1 && m[1] != UNIVERSAL_NON_REAL_TIME {
                        (buf.len() as int, ReadOutcome::Continue)
                    } else {
                        match parse_message_spec(m) {
                            Some(x) => (buf.len() as int, ReadOutcome::Found(x)),
                            None => if unrecognized(m) {
                                (buf.len() as int, ReadOutcome::Continue)
                            } else {
                                (0, ReadOutcome::Stop)
                            },
                        }
                    }
                },
                Some(de) => {
                    let end = if buf[de] == SYSEX_END {
                        de + 1
                    } else {
                        de
                    };
                    let m = drop_real_time(buf.subrange(0, end));
                    if m.len() > 1 && m[1] != UNIVERSAL_NON_REAL_TIME {
                        (end, ReadOutcome::Continue)
                    } else {
                        match parse_message_spec(m) {
                            Some(x) => (end, ReadOutcome::Found(x)),
                            None => (end, ReadOutcome::Continue),
                        }
                    }
                },
            }
        },
    }
}

/// Reading the first recognized message from buffered bytes: how many bytes are consumed, and
/// the message, if one is found.
pub open spec fn read_spec(buf: Seq<u8>) -> (int, Option<SysEx>)
    decreases buf.len(),
{
    let step = read_step_spec(buf);
    match step.1 {
        ReadOutcome::Stop => (step.0, None),
        ReadOutcome::Found(x) => (step.0, Some(x)),
        ReadOutcome::Continue => if 0 < step.0 <= buf.len() {
            let rest = read_spec(buf.subrange(step.0, buf.len() as int));
            (step.0 + rest.0, rest.1)
        } else {
            (step.0, None)
        },
    }
}

/// Reading the first recognized message from a reader that hands out its buffered bytes `buf`
/// one slice at a time, as a ring buffer does: each look sees only `front`, the first slice;
/// once bytes are consumed, the next first slice is as long as `front` or as long as what is
/// left, whichever is less. Returns how many bytes are consumed and the message, if one is
/// found.
pub open spec fn read_front_spec(buf: Seq<u8>, front: Seq<u8>) -> (int, Option<SysEx>)
    decreases buf.len(),
{
    let step = read_step_spec(front);
    match step.1 {
        ReadOutcome::Stop => (step.0, None),
        ReadOutcome::Found(x) => (step.0, Some(x)),
        ReadOutcome::Continue => if 0 < step.0 <= buf.len() {
            let rest = buf.subrange(step.0, buf.len() as int);
            let next = rest.take(vstd::math::min(rest.len() as int, front.len() as int));
            let more = read_front_spec(rest, next);
            (step.0 + more.0, more.1)
        } else {
            (step.0, None)
        },
    }
}

/// When the first slice holds every buffered byte, reading slice by slice is reading the
/// buffered bytes at once.
pub proof fn lemma_read_whole_front(buf: Seq<u8>)
    ensures
        read_front_spec(buf, buf) == read_spec(buf),
    decreases buf.len(),
{
    let step = read_step_spec(buf);
    if step.1 is Continue && 0 < step.0 <= buf.len() {
        let rest = buf.subrange(step.0, buf.len() as int);
        assert(rest.take(vstd::math::min(rest.len() as int, buf.len() as int)) =~= rest);
        lemma_read_whole_front(rest);
    }
}

proof fn lemma_find_terminator(s: Seq<u8>, from: int)
    requires
        0 <= from,
    ensures
        match find_terminator(s, from) {
            None => forall|j: int|
                from <= j < s.len() ==> is_data_byte(s[j]) || is_real_time_byte(s[j]),
            Some(i) => from <= i < s.len() && !is_data_byte(s[i]) && !is_real_time_byte(s[i])
                && forall|j: int| from <= j < i ==> is_data_byte(s[j]) || is_real_time_byte(s[j]),
        },
    decreases s.len() - from,
{
    if from < s.len() && (is_data_byte(s[from]) || is_real_time_byte(s[from])) {
        lemma_find_terminator(s, from + 1);
    }
}

/// A start byte followed by data and real-time bytes loses only real-time bytes.
proof fn lemma_drop_real_time_shape(s: Seq<u8>)
    requires
        s.len() >= 1,
        !is_real_time_byte(s[0]),
        forall|j: int| 1 <= j < s.len() ==> is_data_byte(s[j]) || is_real_time_byte(s[j]),
    ensures
        drop_real_time(s).len() >= 1,
        drop_real_time(s)[0] == s[0],
        forall|j: int| 1 <= j < drop_real_time(s).len() ==> is_data_byte(#[trigger] drop_real_time(s)[j]),
    decreases s.len(),
{
    if s.len() == 1 {
        assert(s.drop_last() =~= Seq::<u8>::empty());
        assert(drop_real_time(s.drop_last()) =~= Seq::<u8>::empty());
        assert(drop_real_time(s) =~= seq![s[0]]);
    } else {
        let p = s.drop_last();
        assert(forall|j: int| 1 <= j < p.len() ==> p[j] == s[j]);
        lemma_drop_real_time_shape(p);
        let d = drop_real_time(p);
        if !is_real_time_byte(s.last()) {
            assert(is_data_byte(s[s.len() - 1]));
            assert(drop_real_time(s) == d.push(s.last()));
            assert forall|j: int| 1 <= j < drop_real_time(s).len() implies is_data_byte(
                #[trigger] drop_real_time(s)[j],
            ) by {
                if j < d.len() {
                    assert(drop_real_time(s)[j] == d[j]);
                }
            }
        }
    }
}

fn find_terminator_index(b: &[u8], from: usize) -> (r: Option<usize>)
    requires
        from <= b.len(),
    ensures
        match r {
            None => find_terminator(b@, from as int) is None,
            Some(i) => find_terminator(b@, from as int) == Some(i as int) && from <= i < b.len(),
        },
{
    let mut i = from;
    while i < b.len()
        invariant
            from <= i <= b.len(),
            find_terminator(b@, from as int) == find_terminator(b@, i as int),
        decreases b.len() - i,
    {
        if !is_data(&b[i]) && !is_sys_rt(&b[i]) {
            return Some(i);
        }
        i += 1;
    }
    None
}

fn filter_real_time(raw: &[u8]) -> (r: Vec<u8>)
    ensures
        r@ == drop_real_time(raw@),
{
    let mut out: Vec<u8> = Vec::new();
    let mut i: usize = 0;
    assert(raw@.subrange(0, 0) =~= Seq::<u8>::empty());
    while i < raw.len()
        invariant
            i <= raw@.len(),
            out@ == drop_real_time(raw@.subrange(0, i as int)),
        decreases raw.len() - i,
    {
        assert(raw@.subrange(0, i + 1).drop_last() =~= raw@.subrange(0, i as int));
        if !is_sys_rt(&raw[i]) {
            out.push(raw[i]);
        }
        i += 1;
    }
    assert(raw@.subrange(0, i as int) =~= raw@);
    out
}

fn parse_message(m: &[u8]) -> (r: Option<SysEx>)
    requires
        message_shape(m@),
    ensures
        r == parse_message_spec(m@),
{
    let sub_id_1 = if m.len() > 3 {
        Some(m[3])
    } else {
        None
    };
    let sub_id_2 = if m.len() > 4 {
        Some(m[4])
    } else {
        None
    };
    match (sub_id_1, sub_id_2) {
        (Some(0x7F), _) => parse_ack(m),
        (Some(0x7E), _) => parse_nak(m),
        (Some(0x7C), _) => parse_wait(m),
        (Some(0x7D), _) => parse_cancel(m),
        (Some(0x7B), _) => parse_eof(m),
        (Some(0x07), Some(0x01)) => parse_file_dump_header(m),
        (Some(0x07), Some(0x02)) => parse_file_dump_packet(m),
        _ => None,
    }
}

impl SysEx {
    /// Looks once at buffered bytes, as a reader's `fill_buf` hands them over: returns how many
    /// of them to consume, and whether a message was found or another look is needed.
    pub fn read_step(buffer: &[u8]) -> (r: (usize, ReadOutcome))
        ensures
            r.0 as int == read_step_spec(buffer@).0,
            r.1 == read_step_spec(buffer@).1,
            r.0 <= buffer@.len(),
    {
        let start = match find_byte(buffer, SYSEX_START, 0) {
            None => return (buffer.len(), ReadOutcome::Stop),
            Some(i) => i,
        };
        if start > 0 {
            return (start, ReadOutcome::Continue);
        }
        let data_end = match find_terminator_index(buffer, 1) {
            None => return SysEx::read_unterminated(buffer),
            Some(i) => i,
        };
        let end = if buffer[data_end] == SYSEX_END {
            data_end + 1
        } else {
            data_end
        };
        let raw = &buffer[0..end];
        let ghost de = data_end as int;
        proof {
            lemma_find_terminator(buffer@, 1);
            let pre = buffer@.subrange(0, de);
            assert(pre.len() >= 1 && pre[0] == SYSEX_START);
            lemma_drop_real_time_shape(pre);
            if end > data_end {
                assert(raw@.drop_last() =~= pre);
                assert(!is_real_time_byte(raw@.last()));
            } else {
                assert(raw@ =~= pre);
            }
        }
        let m = filter_real_time(raw);
        assert(message_shape(m@));
        if m.len() > 1 && m[1] != UNIVERSAL_NON_REAL_TIME {
            return (end, ReadOutcome::Continue);
        }
        match parse_message(m.as_slice()) {
            Some(x) => (end, ReadOutcome::Found(x)),
            None => (end, ReadOutcome::Continue),
        }
    }

    /// Looks at buffered bytes that start a message but hold no byte that ends it: the bytes
    /// up to the end of the buffer are taken as the message when it is complete without its end
    /// of exclusive, and dropped when it is one that is not read; otherwise they are kept until
    /// more arrive.
    fn read_unterminated(buffer: &[u8]) -> (r: (usize, ReadOutcome))
        requires
            buffer@.len() > 0,
            buffer@[0] == SYSEX_START,
            find_terminator(buffer@, 1) is None,
        ensures
            r.0 as int == read_step_spec(buffer@).0,
            r.1 == read_step_spec(buffer@).1,
            r.0 <= buffer@.len(),
    {
        proof {
            lemma_find_terminator(buffer@, 1);
            lemma_drop_real_time_shape(buffer@);
            assert(find_from(buffer@, SYSEX_START, 0) == Some(0int));
        }
        let m = filter_real_time(buffer);
        assert(message_shape(m@));
        if m.len() > 1 && m[1] != UNIVERSAL_NON_REAL_TIME {
            return (buffer.len(), ReadOutcome::Continue);
        }
        match parse_message(m.as_slice()) {
            Some(x) => (buffer.len(), ReadOutcome::Found(x)),
            None => {
                let unknown = (m.len() > 3 && m[3] != SUB_ID_ACK && m[3] != SUB_ID_NAK && m[3]
                    != SUB_ID_WAIT && m[3] != SUB_ID_CANCEL && m[3] != SUB_ID_EOF && m[3]
                    != SUB_ID_FILE_DUMP) || (m.len() > 4 && m[3] == SUB_ID_FILE_DUMP && m[4]
                    != SUB_ID_FILE_DUMP_HEADER && m[4] != SUB_ID_FILE_DUMP_PACKET);
                if unknown {
                    (buffer.len(), ReadOutcome::Continue)
                } else {
                    (0, ReadOutcome::Stop)
                }
            },
        }
    }

    /// Reads the first recognized message from buffered bytes, looking again after every
    /// skipped part: returns how many bytes were consumed, and the message if one was found.
    pub fn read_buffered(buffer: &[u8]) -> (r: (usize, Option<SysEx>))
        ensures
            (r.0 as int, r.1) == read_spec(buffer@),
            r.0 <= buffer@.len(),
    {
        let mut pos: usize = 0;
        assert(buffer@.subrange(0, buffer@.len() as int) =~= buffer@);
        loop
            invariant
                pos <= buffer@.len(),
                read_spec(buffer@) == (pos + read_spec(buffer@.subrange(pos as int, buffer@.len() as int)).0,
                    read_spec(buffer@.subrange(pos as int, buffer@.len() as int)).1),
            decreases buffer@.len() - pos,
        {
            let rest = &buffer[pos..buffer.len()];
            let (n, outcome) = SysEx::read_step(rest);
            match outcome {
                ReadOutcome::Stop => return (pos + n, None),
                ReadOutcome::Found(x) => return (pos + n, Some(x)),
                ReadOutcome::Continue => {
                    if n == 0 {
                        return (pos, None);
                    }
                    assert(rest@.subrange(n as int, rest@.len() as int) =~= buffer@.subrange(
                        pos + n,
                        buffer@.len() as int,
                    ));
                    pos = pos + n;
                },
            }
        }
    }

    /// Reads the first recognized message from the front of `buffer`, removing the bytes it
    /// consumed: skipped bytes, skipped messages and the message itself. An incomplete message
    /// stays in the buffer.
    pub fn read(buffer: &mut Vec<u8>) -> (r: Option<SysEx>)
        ensures
            r == read_spec(old(buffer)@).1,
            final(buffer)@ == old(buffer)@.subrange(read_spec(old(buffer)@).0, old(buffer)@.len() as int),
    {
        let (n, message) = SysEx::read_buffered(buffer.as_slice());
        let rest = buffer.split_off(n);
        *buffer = rest;
        message
    }
}

} // verus!
