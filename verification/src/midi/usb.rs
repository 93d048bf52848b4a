//! USB-MIDI event packets for [`Message`]s.
use vstd::prelude::*;
use circular_buffer::CircularBuffer;
pub use crate::midi_tools::usb::{Cin, EventPacket};
use crate::midi_tools::usb::{concat_payloads, event_payload, lemma_byte_nibbles, lemma_status_nibbles};
use crate::midi::Message;
use crate::ring::{packet_ring_contents, packet_ring_new, packet_ring_pop_front, packet_ring_push_back};

verus! {

/// A packet header byte: the cable number in the high nibble, the code index number in the
/// low nibble.
pub open spec fn header_byte(cable: u8, cin: u8) -> u8 {
    (cable << 4u8) | cin
}

/// The four bytes of a packet carrying up to three bytes of MIDI data, zero-filled.
pub open spec fn packet_raw(header: u8, data: Seq<u8>) -> Seq<u8> {
    seq![
        header,
        if data.len() > 0 { data[0] } else { 0 },
        if data.len() > 1 { data[1] } else { 0 },
        if data.len() > 2 { data[2] } else { 0 },
    ]
}

/// The packets that carry a system exclusive message: three bytes per packet with code index
/// number 4, then a last packet of one to three bytes with code index number 5, 6 or 7.
pub open spec fn sysex_raws(cable: u8, data: Seq<u8>) -> Seq<Seq<u8>>
    decreases data.len(),
{
    if data.len() == 0 {
        Seq::empty()
    } else if data.len() > 3 {
        seq![packet_raw(0x04u8 | (cable << 4u8), data.subrange(0, 3))] + sysex_raws(
            cable,
            data.subrange(3, data.len() as int),
        )
    } else {
        seq![packet_raw(((0x04 + data.len()) as u8) | (cable << 4u8), data)]
    }
}

/// The packets that carry a message on the given cable.
pub open spec fn message_raws(cable: u8, message: Message) -> Seq<Seq<u8>> {
    match message {
        Message::NoteOn(_) => seq![packet_raw(header_byte(cable, 0x9), message.encoding())],
        Message::NoteOff(_) => seq![packet_raw(header_byte(cable, 0x8), message.encoding())],
        Message::ControlChange(_) => seq![packet_raw(header_byte(cable, 0xB), message.encoding())],
        _ => sysex_raws(cable, message.encoding()),
    }
}

/// Yields the event packets that carry one message.
pub struct Encode {
    packets: CircularBuffer<46, EventPacket>,
}

/// The raw bytes of each packet.
pub open spec fn raws_of(packets: Seq<EventPacket>) -> Seq<Seq<u8>> {
    packets.map_values(|p: EventPacket| p.raw@)
}

impl Encode {
    /// The packets not yet yielded, as raw bytes.
    pub closed spec fn pending(&self) -> Seq<Seq<u8>> {
        raws_of(packet_ring_contents(self.packets))
    }

    /// The next packet, or `None` when all have been yielded.
    pub fn next(&mut self) -> (r: Option<EventPacket>)
        ensures
            old(self).pending().len() == 0 ==> r is None && final(self).pending() == old(self).pending(),
            old(self).pending().len() > 0 ==> (r matches Some(p) && p.raw@ == old(self).pending()[0]
                && final(self).pending() == old(self).pending().drop_first()),
    {
        let r = packet_ring_pop_front(&mut self.packets);
        proof {
            let q = packet_ring_contents(old(self).packets);
            if q.len() > 0 {
                assert(raws_of(q.drop_first()) =~= raws_of(q).drop_first());
            }
        }
        r
    }

    /// One packet with the given cable, code index number and up to three bytes of data.
    fn new(cable: u8, cin: Cin, data: &[u8]) -> (r: Self)
        requires
            data@.len() <= 3,
        ensures
            r.pending() == seq![packet_raw(header_byte(cable, cin.spec_code()), data@)],
    {
        let mut raw = [0u8; 4];
        raw[0] = (cable << 4) | cin.code();
        let mut i: usize = 0;
        while i < data.len()
            invariant
                data@.len() <= 3,
                i <= data@.len(),
                raw@[0] == header_byte(cable, cin.spec_code()),
                forall|j: int| 1 <= j <= i ==> raw@[j] == data@[j - 1],
                forall|j: int| i + 1 <= j < 4 ==> raw@[j] == 0,
            decreases data.len() - i,
        {
            raw[1 + i] = data[i];
            i += 1;
        }
        let mut packets = packet_ring_new();
        packet_ring_push_back(&mut packets, EventPacket { raw });
        let r = Self { packets };
        assert(raw@ =~= packet_raw(header_byte(cable, cin.spec_code()), data@));
        assert(r.pending() =~= seq![packet_raw(header_byte(cable, cin.spec_code()), data@)]);
        r
    }

    /// The packets of a system exclusive message of at most 138 bytes.
    fn from_sysex(cable: u8, data: &[u8]) -> (r: Self)
        requires
            data@.len() <= 138,
        ensures
            r.pending() == sysex_raws(cable, data@),
    {
        let mut packets = packet_ring_new();
        let n = data.len();
        let mut start: usize = 0;
        assert(data@.subrange(0, n as int) =~= data@);
        while start < n
            invariant
                n == data@.len() <= 138,
                start <= n,
                start < n ==> 3 * packet_ring_contents(packets).len() == start,
                3 * packet_ring_contents(packets).len() <= start + 2,
                raws_of(packet_ring_contents(packets)) + sysex_raws(cable, data@.subrange(start as int, n as int))
                    == sysex_raws(cable, data@),
            decreases n - start,
        {
            let ghost rest = data@.subrange(start as int, n as int);
            let mut raw = [0u8; 4];
            let len = if n - start > 3 {
                3
            } else {
                n - start
            };
            if n - start > 3 {
                raw[0] = 0x04;
            } else {
                raw[0] = 0x04 + len as u8;
            }
            let ghost first = raw@[0];
            let mut i: usize = 0;
            while i < len
                invariant
                    raw@[0] == first,
                    len <= 3,
                    start + len <= n,
                    n == data@.len(),
                    i <= len,
                    forall|j: int| 1 <= j <= i ==> raw@[j] == data@[start + j - 1],
                    forall|j: int| i + 1 <= j < 4 ==> raw@[j] == 0,
                decreases len - i,
            {
                raw[1 + i] = data[start + i];
                i += 1;
            }
            raw[0] = raw[0] | (cable << 4);
            let ghost old_q = packet_ring_contents(packets);
            packet_ring_push_back(&mut packets, EventPacket { raw });
            assert(rest.subrange(0, len as int) =~= data@.subrange(start as int, start + len));
            if n - start > 3 {
                assert(rest.subrange(3, rest.len() as int) =~= data@.subrange(start + 3, n as int));
            }
            assert(raw@ =~= packet_raw(raw[0], rest.subrange(0, len as int)));
            assert(raws_of(old_q.push(EventPacket { raw })) =~= raws_of(old_q).push(raw@));
            assert(packet_ring_contents(packets) == old_q.push(EventPacket { raw }));
            let ghost head = packet_raw(raw@[0], rest.subrange(0, len as int));
            let ghost next = data@.subrange(start + len, n as int);
            if n - start <= 3 {
                assert(rest.subrange(0, len as int) =~= rest);
                assert(next =~= Seq::<u8>::empty());
                assert(sysex_raws(cable, rest) == seq![head]);
            } else {
                assert(sysex_raws(cable, rest) == seq![head] + sysex_raws(cable, next));
            }
            assert(raws_of(old_q).push(raw@) + sysex_raws(cable, next) =~= raws_of(old_q)
                + sysex_raws(cable, rest));
            start = start + len;
        }
        Self { packets }
    }
}

impl EventPacket {
    /// The event packets that carry a message on the given cable, which must fit in four
    /// bits: one packet for a channel voice message, packets of three bytes for a system
    /// exclusive message.
    pub fn encode(cable: u8, message: &Message) -> (r: Encode)
        requires
            cable <= 0x0F,
            message.writable(),
        ensures
            r.pending() == message_raws(cable, *message),
    {
        let mut buffer: Vec<u8> = Vec::new();
        message.write(&mut buffer);
        assert(buffer@ =~= message.encoding());
        match message {
            Message::NoteOn(_) => Encode::new(cable, Cin::NoteOn, buffer.as_slice()),
            Message::NoteOff(_) => Encode::new(cable, Cin::NoteOff, buffer.as_slice()),
            Message::ControlChange(_) => Encode::new(cable, Cin::ControlChange, buffer.as_slice()),
            _ => {
                proof {
                    crate::midi_tools::messages::sysex_laws::lemma_encoding_len(message.sysex().unwrap());
                }
                Encode::from_sysex(cable, buffer.as_slice())
            },
        }
    }
}


/// The packets of a system exclusive message carry exactly its bytes.
pub proof fn lemma_sysex_raws_carry_bytes(cable: u8, data: Seq<u8>)
    ensures
        concat_payloads(sysex_raws(cable, data)) == data,
    decreases data.len(),
{
    if data.len() > 0 {
        let n: int = if data.len() > 3 { 3 } else { data.len() as int };
        let c: u8 = if data.len() > 3 { 4 } else { (4 + data.len()) as u8 };
        assert((c | (cable << 4u8)) & 0x0F == c) by (bit_vector)
            requires
                c < 16,
        ;
        assert((0x04u8 | (cable << 4u8)) & 0x0F == 4) by (bit_vector);
        let raws = sysex_raws(cable, data);
        assert(raws.len() > 0);
        assert(event_payload(raws[0]) =~= data.subrange(0, n));
        assert(concat_payloads(raws) == event_payload(raws[0]) + concat_payloads(raws.drop_first()));
        if data.len() > 3 {
            let rest = data.subrange(3, data.len() as int);
            lemma_sysex_raws_carry_bytes(cable, rest);
            assert(raws.drop_first() =~= sysex_raws(cable, rest));
            assert(data.subrange(0, 3) + rest =~= data);
        } else {
            assert(raws.drop_first() =~= Seq::<Seq<u8>>::empty());
            assert(concat_payloads(raws.drop_first()) == Seq::<u8>::empty());
            assert(data.subrange(0, n) + Seq::<u8>::empty() =~= data);
        }
    }
}

/// The MIDI channel of a channel voice message, if it is one.
pub open spec fn voice_channel(m: Message) -> Option<u8> {
    match m {
        Message::NoteOn(d) => Some(d.channel),
        Message::NoteOff(d) => Some(d.channel),
        Message::ControlChange(d) => Some(d.channel),
        _ => None,
    }
}

/// A channel voice message on a channel that fits in four bits travels as one packet on its
/// cable. The packet's code index number is the message's kind, the high nibble of its status
/// byte: 0x9 for note on, 0x8 for note off, 0xB for control change. The packet carries the
/// message's three bytes.
pub proof fn lemma_channel_voice_packet(cable: u8, m: Message)
    requires
        cable <= 0x0F,
        voice_channel(m) matches Some(c) && c <= 0x0F,
    ensures
        message_raws(cable, m).len() == 1,
        ({
            let raw = message_raws(cable, m)[0];
            &&& raw.len() == 4
            &&& raw[0] >> 4u8 == cable
            &&& raw[0] & 0x0Fu8 == m.encoding()[0] >> 4u8
            &&& (m is NoteOn ==> raw[0] & 0x0Fu8 == 0x9)
            &&& (m is NoteOff ==> raw[0] & 0x0Fu8 == 0x8)
            &&& (m is ControlChange ==> raw[0] & 0x0Fu8 == 0xB)
            &&& raw.subrange(1, 4) == m.encoding()
            &&& event_payload(raw) == m.encoding()
        }),
{
    let c = voice_channel(m).unwrap();
    let raw = message_raws(cable, m)[0];
    let k: u8 = if m is NoteOn { 0x9 } else if m is NoteOff { 0x8 } else { 0xB };
    let status: u8 = if m is NoteOn { 0x90u8 | c } else if m is NoteOff { 0x80u8 | c } else { 0xB0u8 | c };
    assert(m.encoding()[0] == status);
    assert(raw[0] == header_byte(cable, k));
    lemma_byte_nibbles(cable, k);
    lemma_status_nibbles(c);
    assert(raw.subrange(1, 4) =~= m.encoding());
    assert(event_payload(raw) =~= m.encoding());
}

/// The packets of a system exclusive message of `n` bytes: one for every three bytes, the
/// last for what remains. Each goes on the cable; each but the last has code index number 4
/// (the message goes on), and the last has 5, 6 or 7 as it ends the message with one, two or
/// three bytes.
pub proof fn lemma_sysex_raws_headers(cable: u8, data: Seq<u8>)
    requires
        cable <= 0x0F,
    ensures
        sysex_raws(cable, data).len() == (data.len() + 2) / 3,
        forall|i: int|
            0 <= i < sysex_raws(cable, data).len() ==> {
                let raw = #[trigger] sysex_raws(cable, data)[i];
                &&& raw.len() == 4
                &&& raw[0] >> 4u8 == cable
                &&& (i < sysex_raws(cable, data).len() - 1 ==> raw[0] & 0x0Fu8 == 4)
                &&& (i == sysex_raws(cable, data).len() - 1 ==> raw[0] & 0x0Fu8 == 4 + data.len() - 3 * i)
            },
    decreases data.len(),
{
    if data.len() > 0 {
        let raws = sysex_raws(cable, data);
        if data.len() > 3 {
            let rest = data.subrange(3, data.len() as int);
            lemma_sysex_raws_headers(cable, rest);
            assert(raws.drop_first() =~= sysex_raws(cable, rest));
            lemma_byte_nibbles(cable, 4);
            assert forall|i: int| 0 <= i < raws.len() implies {
                let raw = #[trigger] raws[i];
                &&& raw.len() == 4
                &&& raw[0] >> 4u8 == cable
                &&& (i < raws.len() - 1 ==> raw[0] & 0x0Fu8 == 4)
                &&& (i == raws.len() - 1 ==> raw[0] & 0x0Fu8 == 4 + data.len() - 3 * i)
            } by {
                if i > 0 {
                    assert(raws[i] == sysex_raws(cable, rest)[i - 1]);
                }
            }
        } else {
            let c: u8 = (4 + data.len()) as u8;
            lemma_byte_nibbles(cable, c);
        }
    }
}

} // verus!
