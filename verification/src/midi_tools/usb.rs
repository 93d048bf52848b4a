//! USB-MIDI event packets: four bytes each, a header byte of cable number and code index
//! number (CIN), then up to three bytes of MIDI data.
use vstd::prelude::*;
use circular_buffer::CircularBuffer;
use crate::midi_tools::messages::sysex::{is_data_byte, read_spec, SysEx, SYSEX_END};
use crate::midi_tools::messages::sysex_laws::{lemma_encoding_len, lemma_write_then_read};
use crate::ring::{
    byte_ring_contents, byte_ring_extend, byte_ring_front, byte_ring_is_empty, byte_ring_new,
    byte_ring_pop_front, keep_last,
};

verus! {

/// The code index number of an event packet: what kind of MIDI data the packet carries. Its
/// number is the order of the variants, from 0 to 15.
#[derive(Debug, PartialEq, Eq, Clone, Copy)]
pub enum Cin {
    Misc,
    CableEvent,
    SysCommon2Byte,
    SysCommon3Byte,
    SysEx,
    Sys1Byte,
    SysExEnd2Byte,
    SysExEnd3Byte,
    NoteOff,
    NoteOn,
    PolyKeyPress,
    ControlChange,
    ProgramChange,
    ChannelPressure,
    PitchBendChange,
    SingleByte,
}

impl Cin {
    /// The number of this code index number.
    pub open spec fn spec_code(self) -> u8 {
        match self {
            Cin::Misc => 0,
            Cin::CableEvent => 1,
            Cin::SysCommon2Byte => 2,
            Cin::SysCommon3Byte => 3,
            Cin::SysEx => 4,
            Cin::Sys1Byte => 5,
            Cin::SysExEnd2Byte => 6,
            Cin::SysExEnd3Byte => 7,
            Cin::NoteOff => 8,
            Cin::NoteOn => 9,
            Cin::PolyKeyPress => 10,
            Cin::ControlChange => 11,
            Cin::ProgramChange => 12,
            Cin::ChannelPressure => 13,
            Cin::PitchBendChange => 14,
            Cin::SingleByte => 15,
        }
    }

    /// The code index number with the given number.
    pub open spec fn spec_from_code(code: u8) -> Cin {
        if code == 0 {
            Cin::Misc
        }         else if code == 1 {
            Cin::CableEvent
        }         else if code == 2 {
            Cin::SysCommon2Byte
        }         else if code == 3 {
            Cin::SysCommon3Byte
        }         else if code == 4 {
            Cin::SysEx
        }         else if code == 5 {
            Cin::Sys1Byte
        }         else if code == 6 {
            Cin::SysExEnd2Byte
        }         else if code == 7 {
            Cin::SysExEnd3Byte
        }         else if code == 8 {
            Cin::NoteOff
        }         else if code == 9 {
            Cin::NoteOn
        }         else if code == 10 {
            Cin::PolyKeyPress
        }         else if code == 11 {
            Cin::ControlChange
        }         else if code == 12 {
            Cin::ProgramChange
        }         else if code == 13 {
            Cin::ChannelPressure
        }         else if code == 14 {
            Cin::PitchBendChange
        } else {
            Cin::SingleByte
        }
    }

    /// The code index number with the given number, which must be below 16.
    pub fn from_code(code: u8) -> (r: Cin)
        requires
            code < 16,
        ensures
            r == Cin::spec_from_code(code),
            r.spec_code() == code,
    {
        match code {
            0 => Cin::Misc,
            1 => Cin::CableEvent,
            2 => Cin::SysCommon2Byte,
            3 => Cin::SysCommon3Byte,
            4 => Cin::SysEx,
            5 => Cin::Sys1Byte,
            6 => Cin::SysExEnd2Byte,
            7 => Cin::SysExEnd3Byte,
            8 => Cin::NoteOff,
            9 => Cin::NoteOn,
            10 => Cin::PolyKeyPress,
            11 => Cin::ControlChange,
            12 => Cin::ProgramChange,
            13 => Cin::ChannelPressure,
            14 => Cin::PitchBendChange,
            _ => Cin::SingleByte,
        }
    }

    /// The number of this code index number.
    pub fn code(self) -> (r: u8)
        ensures
            r == self.spec_code(),
            r < 16,
            Cin::spec_from_code(r) == self,
    {
        match self {
            Cin::Misc => 0,
            Cin::CableEvent => 1,
            Cin::SysCommon2Byte => 2,
            Cin::SysCommon3Byte => 3,
            Cin::SysEx => 4,
            Cin::Sys1Byte => 5,
            Cin::SysExEnd2Byte => 6,
            Cin::SysExEnd3Byte => 7,
            Cin::NoteOff => 8,
            Cin::NoteOn => 9,
            Cin::PolyKeyPress => 10,
            Cin::ControlChange => 11,
            Cin::ProgramChange => 12,
            Cin::ChannelPressure => 13,
            Cin::PitchBendChange => 14,
            Cin::SingleByte => 15,
        }
    }

    /// How many MIDI bytes a packet with this code index number carries.
    pub open spec fn payload_size(self) -> int {
        match self {
            Cin::Sys1Byte | Cin::SingleByte => 1,
            Cin::SysCommon2Byte | Cin::SysExEnd2Byte | Cin::ProgramChange | Cin::ChannelPressure => 2,
            _ => 3,
        }
    }
}


/// An event packet: a header byte holding the cable number in its high nibble and the code
/// index number in its low nibble, then three bytes of MIDI data.
#[derive(Debug, PartialEq, Eq, Clone, Copy)]
pub struct EventPacket {
    pub raw: [u8; 4],
}

/// The cable number in a packet's header byte.
pub open spec fn event_cable(raw: Seq<u8>) -> u8 {
    (raw[0] & 0xF0) >> 4u8
}

/// The code index number in a packet's header byte.
pub open spec fn event_cin(raw: Seq<u8>) -> Cin {
    Cin::spec_from_code(raw[0] & 0x0F)
}

/// The MIDI bytes a packet carries, as many as its code index number says.
pub open spec fn event_payload(raw: Seq<u8>) -> Seq<u8> {
    raw.subrange(1, 1 + event_cin(raw).payload_size())
}

impl EventPacket {
    /// Cuts a USB transfer into event packets, four bytes each; bytes after the last full
    /// packet are ignored.
    pub fn parse(buffer: &[u8]) -> (r: Vec<EventPacket>)
        ensures
            r@.len() == buffer@.len() / 4,
            forall|i: int|
                0 <= i < r@.len() ==> (#[trigger] r@[i]).raw@ == buffer@.subrange(4 * i, 4 * i + 4),
    {
        let mut out: Vec<EventPacket> = Vec::new();
        let count = buffer.len() / 4;
        assert(4 * count <= buffer@.len()) by (nonlinear_arith)
            requires
                count == buffer@.len() / 4,
        ;
        let mut i: usize = 0;
        let mut k: usize = 0;
        while i < count
            invariant
                count == buffer@.len() / 4,
                4 * count <= buffer@.len(),
                k == 4 * i,
                i <= count,
                out@.len() == i,
                forall|j: int|
                    0 <= j < i ==> (#[trigger] out@[j]).raw@ == buffer@.subrange(4 * j, 4 * j + 4),
            decreases count - i,
        {
            let raw = [buffer[k], buffer[k + 1], buffer[k + 2], buffer[k + 3]];
            assert(raw@ =~= buffer@.subrange(4 * i, 4 * i + 4));
            out.push(EventPacket { raw });
            i += 1;
            k += 4;
        }
        out
    }

    /// The cable number: the high nibble of the header byte.
    pub fn cable(&self) -> (r: u8)
        ensures
            r == event_cable(self.raw@),
            r < 16,
    {
        let b = self.raw[0];
        assert((b & 0xF0) >> 4u8 < 16) by (bit_vector);
        (b & 0xF0) >> 4
    }

    /// The code index number: the low nibble of the header byte.
    pub fn cin(&self) -> (r: Cin)
        ensures
            r == event_cin(self.raw@),
    {
        let b = self.raw[0];
        assert(b & 0x0F < 16) by (bit_vector);
        Cin::from_code(b & 0x0F)
    }

    /// The MIDI bytes this packet carries.
    pub fn payload(&self) -> (r: &[u8])
        ensures
            r@ == event_payload(self.raw@),
    {
        let size: usize = match self.cin() {
            Cin::Sys1Byte | Cin::SingleByte => 1,
            Cin::SysCommon2Byte | Cin::SysExEnd2Byte | Cin::ProgramChange | Cin::ChannelPressure => 2,
            _ => 3,
        };
        let end = size + 1;
        &self.raw[1..end]
    }
}

/* Encoding a system exclusive message into event packets */

/// How many bytes of `q` the next packet of an encoded system exclusive message carries: the
/// first byte, then as many data bytes as follow it, up to three bytes in all. An end of
/// exclusive at the front goes alone.
pub open spec fn sysex_chunk_len(q: Seq<u8>) -> int {
    if q[0] == SYSEX_END {
        1
    } else if q.len() > 1 && is_data_byte(q[1]) {
        if q.len() > 2 && is_data_byte(q[2]) {
            3
        } else {
            2
        }
    } else {
        1
    }
}

/// The code index number of the next packet: a message that goes on takes 4, the last packet
/// of a message takes 5, 6 or 7 as it carries 1, 2 or 3 bytes.
pub open spec fn sysex_chunk_cin(q: Seq<u8>) -> u8 {
    if sysex_chunk_len(q) == 3 && q.len() > 3 && is_data_byte(q[3]) {
        4
    } else {
        (4 + sysex_chunk_len(q)) as u8
    }
}

/// The next packet for the queued bytes `q`, on the given cable.
pub open spec fn sysex_packet_raw(cable: u8, q: Seq<u8>) -> Seq<u8> {
    seq![
        sysex_chunk_cin(q) | (cable << 4u8),
        q[0],
        if sysex_chunk_len(q) >= 2 { q[1] } else { 0 },
        if sysex_chunk_len(q) >= 3 { q[2] } else { 0 },
    ]
}

/// Yields the event packets that carry one system exclusive message.
pub struct EncodeSysEx {
    cable: u8,
    midi_data: CircularBuffer<138, u8>,
}

impl EncodeSysEx {
    /// The cable the packets go to.
    pub closed spec fn cable_number(&self) -> u8 {
        self.cable
    }

    /// The message bytes not yet put into packets.
    pub closed spec fn pending(&self) -> Seq<u8> {
        byte_ring_contents(self.midi_data)
    }

    /// The next packet, or `None` when the whole message has been yielded.
    pub fn next(&mut self) -> (r: Option<EventPacket>)
        ensures
            final(self).cable_number() == old(self).cable_number(),
            old(self).pending().len() == 0 ==> r is None && final(self).pending() == old(
                self,
            ).pending(),
            old(self).pending().len() > 0 ==> (r matches Some(p) && p.raw@ == sysex_packet_raw(
                old(self).cable_number(),
                old(self).pending(),
            ) && final(self).pending() == old(self).pending().subrange(
                sysex_chunk_len(old(self).pending()),
                old(self).pending().len() as int,
            )),
    {
        if byte_ring_is_empty(&self.midi_data) {
            return None;
        }
        let ghost q = byte_ring_contents(self.midi_data);
        let c = self.cable;
        let mut raw = [0u8; 4];
        raw[0] = 0x05;
        raw[1] = match byte_ring_pop_front(&mut self.midi_data) {
            Some(b) => b,
            None => 0,
        };
        assert(byte_ring_contents(self.midi_data) =~= q.subrange(1, q.len() as int));
        if raw[1] != SYSEX_END {
            let mut i: usize = 2;
            loop
                invariant
                    2 <= i <= 4,
                    i - 1 <= q.len(),
                    self.cable == c,
                    q.len() > 0,
                    q[0] != SYSEX_END,
                    raw@[0] == 3 + i,
                    raw@[1] == q[0],
                    i >= 3 ==> raw@[2] == q[1],
                    i >= 4 ==> raw@[3] == q[2],
                    i < 3 ==> raw@[2] == 0,
                    i < 4 ==> raw@[3] == 0,
                    forall|j: int| 1 <= j < i - 1 ==> is_data_byte(#[trigger] q[j]),
                    byte_ring_contents(self.midi_data) == q.subrange(i - 1, q.len() as int),
                ensures
                    2 <= i <= 4,
                    i - 1 <= q.len(),
                    self.cable == c,
                    raw@[0] == 3 + i,
                    raw@[1] == q[0],
                    i >= 3 ==> raw@[2] == q[1],
                    i >= 4 ==> raw@[3] == q[2],
                    i < 3 ==> raw@[2] == 0,
                    i < 4 ==> raw@[3] == 0,
                    forall|j: int| 1 <= j < i - 1 ==> is_data_byte(#[trigger] q[j]),
                    byte_ring_contents(self.midi_data) == q.subrange(i - 1, q.len() as int),
                    i == 4 || q.len() == i - 1 || !is_data_byte(q[i - 1]),
                decreases 4 - i,
            {
                if i >= 4 {
                    break;
                }
                let front = byte_ring_front(&self.midi_data);
                match front {
                    None => break,
                    Some(b) => {
                        if b >= 0x80 {
                            break;
                        }
                    },
                }
                assert(q[i - 1] == byte_ring_contents(self.midi_data)[0]);
                raw[0] = raw[0] + 1;
                let b = match byte_ring_pop_front(&mut self.midi_data) {
                    Some(b) => b,
                    None => 0,
                };
                assert(b == q[i - 1]);
                raw[i] = b;
                assert(byte_ring_contents(self.midi_data) =~= q.subrange(i as int, q.len() as int));
                i += 1;
            }
            let next_is_data = match byte_ring_front(&self.midi_data) {
                Some(b) => b < 0x80,
                None => false,
            };
            if next_is_data {
                raw[0] = 0x04;
            }
            assert(sysex_chunk_len(q) == i - 1);
        }
        raw[0] = raw[0] | (c << 4);
        assert(raw@ =~= sysex_packet_raw(c, q));
        Some(EventPacket { raw })
    }
}

impl EventPacket {
    /// The event packets that carry a system exclusive message on the given cable. The cable
    /// number must fit in four bits.
    pub fn encode_sysex(cable: u8, message: &SysEx) -> (r: EncodeSysEx)
        requires
            cable <= 0x0F,
            message.writable(),
        ensures
            r.cable_number() == cable,
            r.pending() == message.encoding(),
    {
        let mut bytes: Vec<u8> = Vec::new();
        message.write(&mut bytes);
        let mut midi_data = byte_ring_new();
        byte_ring_extend(&mut midi_data, bytes.as_slice());
        proof {
            lemma_encoding_len(*message);
        }
        assert(Seq::<u8>::empty() + bytes@ =~= message.encoding());
        EncodeSysEx { cable, midi_data }
    }
}

impl EncodeSysEx {
    /// Every packet still to come, in order; nothing is pending afterwards.
    pub fn collect_packets(&mut self) -> (r: Vec<EventPacket>)
        ensures
            final(self).cable_number() == old(self).cable_number(),
            final(self).pending().len() == 0,
            r@.len() == sysex_packets(old(self).cable_number(), old(self).pending()).len(),
            forall|i: int|
                0 <= i < r@.len() ==> (#[trigger] r@[i]).raw@ == sysex_packets(
                    old(self).cable_number(),
                    old(self).pending(),
                )[i],
    {
        let ghost cable = self.cable_number();
        let ghost all = sysex_packets(cable, self.pending());
        let mut out: Vec<EventPacket> = Vec::new();
        loop
            invariant
                self.cable_number() == cable,
                out@.len() + sysex_packets(cable, self.pending()).len() == all.len(),
                forall|i: int| 0 <= i < out@.len() ==> (#[trigger] out@[i]).raw@ == all[i],
                forall|i: int|
                    0 <= i < sysex_packets(cable, self.pending()).len() ==> #[trigger] sysex_packets(
                        cable,
                        self.pending(),
                    )[i] == all[out@.len() + i],
            ensures
                self.cable_number() == cable,
                self.pending().len() == 0,
                out@.len() == all.len(),
                forall|i: int| 0 <= i < out@.len() ==> (#[trigger] out@[i]).raw@ == all[i],
            decreases self.pending().len(),
        {
            let ghost q = self.pending();
            match self.next() {
                None => {
                    break;
                },
                Some(p) => {
                    let ghost rest = q.subrange(sysex_chunk_len(q), q.len() as int);
                    assert(sysex_packets(cable, q) =~= seq![sysex_packet_raw(cable, q)]
                        + sysex_packets(cable, rest));
                    assert(sysex_packets(cable, q)[0] == p.raw@);
                    assert forall|i: int| 0 <= i < sysex_packets(cable, rest).len() implies
                        #[trigger] sysex_packets(cable, rest)[i] == all[out@.len() + 1 + i] by {
                        assert(sysex_packets(cable, rest)[i] == sysex_packets(cable, q)[i + 1]);
                    }
                    out.push(p);
                },
            }
        }
        out
    }
}


/* What the packets carry */

/// The packets that carry the bytes `q` of a system exclusive message, in order.
pub open spec fn sysex_packets(cable: u8, q: Seq<u8>) -> Seq<Seq<u8>>
    decreases q.len(),
{
    if q.len() == 0 {
        Seq::empty()
    } else {
        seq![sysex_packet_raw(cable, q)] + sysex_packets(
            cable,
            q.subrange(sysex_chunk_len(q), q.len() as int),
        )
    }
}

/// The MIDI bytes that a run of packets carries, one packet after the other.
pub open spec fn concat_payloads(raws: Seq<Seq<u8>>) -> Seq<u8>
    decreases raws.len(),
{
    if raws.len() == 0 {
        Seq::empty()
    } else {
        event_payload(raws[0]) + concat_payloads(raws.drop_first())
    }
}

/// The code index numbers that a receiver of system exclusive data accepts.
pub open spec fn is_sysex_cin(c: Cin) -> bool {
    c == Cin::SysEx || c == Cin::Sys1Byte || c == Cin::SysExEnd2Byte || c == Cin::SysExEnd3Byte
}

/// A byte made of a high and a low nibble gives each back.
pub proof fn lemma_byte_nibbles(hi: u8, lo: u8)
    by (bit_vector)
    requires
        hi < 16,
        lo < 16,
    ensures
        ((hi << 4u8) | lo) >> 4u8 == hi,
        ((hi << 4u8) | lo) & 0x0Fu8 == lo,
        (lo | (hi << 4u8)) >> 4u8 == hi,
        (lo | (hi << 4u8)) & 0x0Fu8 == lo,
{
}

/// The status bytes of channel voice messages on channel `c`: the kind in the high nibble, the
/// channel in the low one.
pub proof fn lemma_status_nibbles(c: u8)
    by (bit_vector)
    requires
        c < 16,
    ensures
        (0x90u8 | c) >> 4u8 == 9,
        (0x90u8 | c) & 0x0Fu8 == c,
        (0x80u8 | c) >> 4u8 == 8,
        (0x80u8 | c) & 0x0Fu8 == c,
        (0xB0u8 | c) >> 4u8 == 0xB,
        (0xB0u8 | c) & 0x0Fu8 == c,
{
}

proof fn lemma_header_nibbles(cin: u8, cable: u8)
    requires
        cin < 16,
        cable < 16,
    ensures
        (cin | (cable << 4u8)) & 0x0F == cin,
        ((cin | (cable << 4u8)) & 0xF0) >> 4u8 == cable,
{
    assert((cin | (cable << 4u8)) & 0x0F == cin) by (bit_vector)
        requires
            cin < 16,
    ;
    assert(((cin | (cable << 4u8)) & 0xF0) >> 4u8 == cable) by (bit_vector)
        requires
            cin < 16,
            cable < 16,
    ;
}

/// The packets of a system exclusive message carry exactly its bytes, on its cable, with code
/// index numbers that a system exclusive receiver accepts.
pub proof fn lemma_sysex_packets_carry_bytes(cable: u8, q: Seq<u8>)
    requires
        cable <= 0x0F,
    ensures
        concat_payloads(sysex_packets(cable, q)) == q,
        forall|i: int|
            0 <= i < sysex_packets(cable, q).len() ==> event_cable(#[trigger] sysex_packets(cable, q)[i])
                == cable && is_sysex_cin(event_cin(sysex_packets(cable, q)[i])),
    decreases q.len(),
{
    if q.len() > 0 {
        let n = sysex_chunk_len(q);
        let rest = q.subrange(n, q.len() as int);
        lemma_sysex_packets_carry_bytes(cable, rest);
        let raw = sysex_packet_raw(cable, q);
        let c = sysex_chunk_cin(q);
        lemma_header_nibbles(c, cable);
        assert(event_payload(raw) =~= q.subrange(0, n));
        let ps = sysex_packets(cable, q);
        assert(ps.drop_first() =~= sysex_packets(cable, rest));
        assert(q.subrange(0, n) + rest =~= q);
        assert forall|i: int| 0 <= i < ps.len() implies event_cable(#[trigger] ps[i]) == cable
            && is_sysex_cin(event_cin(ps[i])) by {
            if i > 0 {
                assert(ps[i] == sysex_packets(cable, rest)[i - 1]);
            }
        }
    }
}

/// A written message that travels as event packets is read back whole from the bytes the
/// packets carry.
pub proof fn lemma_sysex_over_usb(cable: u8, m: SysEx)
    requires
        cable <= 0x0F,
        m.well_formed(),
        !(m is IdentityRequest),
        !(m is IdentityReply),
    ensures
        read_spec(concat_payloads(sysex_packets(cable, m.encoding()))) == (
            m.encoding().len() as int,
            Some(m),
        ),
{
    lemma_sysex_packets_carry_bytes(cable, m.encoding());
    lemma_write_then_read(m, Seq::empty());
    assert(m.encoding() + Seq::<u8>::empty() =~= m.encoding());
}

} // verus!
