//! Reading system exclusive messages from a stream of MIDI bytes that arrive in pieces, as the
//! USB-MIDI event packets carry them. The bytes wait in a ring buffer of 512 bytes, which drops
//! the oldest when it overflows.
use vstd::prelude::*;
use circular_buffer::CircularBuffer;
use crate::midi_tools::messages::sysex::{read_front_spec, ReadOutcome, SysEx};
use crate::midi_tools::usb::{event_cable, event_cin, is_sysex_cin, Cin, EventPacket};
use crate::ring::{
    keep_last, midi_ring_contents, midi_ring_front, midi_ring_new, midi_ring_extend,
    midi_ring_fill_buf, midi_ring_consume,
};

verus! {

/// The bytes received and not yet read.
pub struct SysExReader {
    buffer: CircularBuffer<512, u8>,
}

impl SysExReader {
    /// The bytes waiting, oldest first.
    pub closed spec fn view(&self) -> Seq<u8> {
        midi_ring_contents(self.buffer)
    }

    /// A reader with nothing buffered.
    pub fn new() -> (r: Self)
        ensures
            r@ == Seq::<u8>::empty(),
    {
        SysExReader { buffer: midi_ring_new() }
    }

    /// The bytes the buffer hands out at the next look: its first slice, a prefix of the bytes
    /// waiting.
    pub closed spec fn front(&self) -> Seq<u8> {
        midi_ring_front(self.buffer)
    }

    /// Buffers `payload`; the buffer keeps its last 512 bytes.
    pub fn push(&mut self, payload: &[u8])
        ensures
            final(self)@ == keep_last(old(self)@ + payload@, 512),
    {
        midi_ring_extend(&mut self.buffer, payload);
    }

    /// Reads the first recognized message from the buffered bytes as [`SysEx::read`] does,
    /// looking at one slice of the buffer at a time, and drops what was consumed. A message
    /// that runs past the end of the buffer's first slice is read once the bytes before it are
    /// consumed; one that starts the first slice and is cut short by its end stays unread.
    pub fn read(&mut self) -> (r: Option<SysEx>)
        ensures
            r == read_front_spec(old(self)@, old(self).front()).1,
            final(self)@ == old(self)@.subrange(
                read_front_spec(old(self)@, old(self).front()).0,
                old(self)@.len() as int,
            ),
    {
        let ghost all = self@;
        let ghost first = self.front();
        let ghost mut pos: int = 0;
        loop
            invariant
                all == old(self)@,
                first == old(self).front(),
                0 <= pos <= all.len(),
                self@ == all.subrange(pos, all.len() as int),
                read_front_spec(all, first) == (
                    pos + read_front_spec(self@, self.front()).0,
                    read_front_spec(self@, self.front()).1,
                ),
            decreases all.len() - pos,
        {
            let front = midi_ring_fill_buf(&mut self.buffer);
            let (n, outcome) = SysEx::read_step(front.as_slice());
            midi_ring_consume(&mut self.buffer, n);
            assert(self@ =~= all.subrange(pos + n, all.len() as int));
            match outcome {
                ReadOutcome::Stop => return None,
                ReadOutcome::Found(x) => return Some(x),
                ReadOutcome::Continue => {
                    if n == 0 {
                        return None;
                    }
                    proof {
                        pos = pos + n;
                    }
                },
            }
        }
    }
}

/// Whether an incoming event packet is taken: one on the given cable that carries system
/// exclusive bytes.
pub open spec fn accepted(raw: Seq<u8>, cable: u8) -> bool {
    event_cable(raw) == cable && is_sysex_cin(event_cin(raw))
}

/// The four-byte event packets of a USB transfer; bytes after the last full packet are left
/// out.
pub open spec fn packet_chunks(b: Seq<u8>) -> Seq<Seq<u8>> {
    Seq::new((b.len() / 4) as nat, |i: int| b.subrange(4 * i, 4 * i + 4))
}

/// The bytes of each packet.
pub open spec fn packet_raws(s: Seq<EventPacket>) -> Seq<Seq<u8>> {
    s.map_values(|p: EventPacket| p.raw@)
}

/// The event packets of a USB transfer on the given cable that carry system exclusive bytes,
/// in order.
pub fn incoming_packets(usb_packet: &[u8], cable: u8) -> (r: Vec<EventPacket>)
    ensures
        packet_raws(r@) == packet_chunks(usb_packet@).filter(|raw: Seq<u8>| accepted(raw, cable)),
{
    let packets = EventPacket::parse(usb_packet);
    let ghost chunks = packet_chunks(usb_packet@);
    let ghost pred = |raw: Seq<u8>| accepted(raw, cable);
    assert(chunks.take(0) =~= Seq::<Seq<u8>>::empty());
    assert(chunks.take(0).filter(pred) =~= Seq::<Seq<u8>>::empty()) by {
        reveal(Seq::filter);
    }
    let mut out: Vec<EventPacket> = Vec::new();
    let mut i: usize = 0;
    while i < packets.len()
        invariant
            i <= packets@.len(),
            packets@.len() == chunks.len(),
            chunks == packet_chunks(usb_packet@),
            pred == (|raw: Seq<u8>| accepted(raw, cable)),
            forall|j: int| 0 <= j < packets@.len() ==> (#[trigger] packets@[j]).raw@ == chunks[j],
            packet_raws(out@) == chunks.take(i as int).filter(pred),
        decreases packets.len() - i,
    {
        let p = packets[i];
        assert(chunks.take(i + 1).drop_last() =~= chunks.take(i as int));
        assert(chunks.take(i + 1).last() == chunks[i as int]);
        let take = p.cable() == cable && matches!(p.cin(), Cin::SysEx | Cin::Sys1Byte | Cin::SysExEnd2Byte | Cin::SysExEnd3Byte);
        proof {
            assert(p.raw@ == chunks[i as int]);
            assert(take == pred(chunks[i as int]));
            let t = chunks.take(i + 1);
            reveal(Seq::filter);
            assert(t.filter(pred) == (if pred(t.last()) { t.drop_last().filter(pred).push(t.last()) } else { t.drop_last().filter(pred) }));
        }
        if take {
            let ghost before = out@;
            out.push(p);
            assert(packet_raws(out@) =~= packet_raws(before).push(p.raw@));
        }
        i += 1;
    }
    assert(chunks.take(i as int) =~= chunks);
    out
}

} // verus!
