//! The fixed-capacity ring buffers of the `circular_buffer` crate: the USB-MIDI encoders queue
//! their output in them, incoming MIDI bytes wait in one until a message is complete, and image
//! bytes wait in one until a flash page is full. Verus sees their contents only through the
//! names and contracts below, which restate what the crate's documentation and source show.
use vstd::prelude::*;
use circular_buffer::CircularBuffer;
use crate::midi_tools::usb::EventPacket;

verus! {

/// `circular_buffer::CircularBuffer`, a ring buffer of `N` elements, whose contents Verus does
/// not see.
#[verifier::external_type_specification]
#[verifier::external_body]
#[verifier::reject_recursive_types(T)]
pub struct ExCircularBuffer<const N: usize, T>(CircularBuffer<N, T>);

/// The last `n` elements of `s`: what a ring buffer of capacity `n` keeps of `s`.
pub open spec fn keep_last<T>(s: Seq<T>, n: int) -> Seq<T> {
    if s.len() <= n {
        s
    } else {
        s.subrange(s.len() - n, s.len() as int)
    }
}

/// The bytes held by a ring buffer of 138 bytes, front first.
pub uninterp spec fn byte_ring_contents(q: CircularBuffer<138, u8>) -> Seq<u8>;

/// `CircularBuffer::new`: an empty buffer.
#[verifier::external_body]
pub(crate) fn byte_ring_new() -> (q: CircularBuffer<138, u8>)
    ensures
        byte_ring_contents(q) == Seq::<u8>::empty(),
{
    CircularBuffer::new()
}

/// `CircularBuffer::extend_from_slice`: appends the bytes; when they do not all fit, the
/// elements at the front are dropped, so the last 138 remain.
#[verifier::external_body]
pub(crate) fn byte_ring_extend(q: &mut CircularBuffer<138, u8>, bytes: &[u8])
    ensures
        byte_ring_contents(*final(q)) == keep_last(byte_ring_contents(*old(q)) + bytes@, 138),
{
    q.extend_from_slice(bytes)
}

/// `CircularBuffer::pop_front`: removes and returns the front byte, `None` when empty.
#[verifier::external_body]
pub(crate) fn byte_ring_pop_front(q: &mut CircularBuffer<138, u8>) -> (r: Option<u8>)
    ensures
        byte_ring_contents(*old(q)).len() == 0 ==> r is None && byte_ring_contents(*final(q))
            == byte_ring_contents(*old(q)),
        byte_ring_contents(*old(q)).len() > 0 ==> r == Some(byte_ring_contents(*old(q))[0])
            && byte_ring_contents(*final(q)) == byte_ring_contents(*old(q)).drop_first(),
{
    q.pop_front()
}

/// `CircularBuffer::get(0)`: the front byte, `None` when empty.
#[verifier::external_body]
pub(crate) fn byte_ring_front(q: &CircularBuffer<138, u8>) -> (r: Option<u8>)
    ensures
        byte_ring_contents(*q).len() == 0 ==> r is None,
        byte_ring_contents(*q).len() > 0 ==> r == Some(byte_ring_contents(*q)[0]),
{
    q.get(0).copied()
}

/// `CircularBuffer::is_empty`.
#[verifier::external_body]
pub(crate) fn byte_ring_is_empty(q: &CircularBuffer<138, u8>) -> (r: bool)
    ensures
        r == (byte_ring_contents(*q).len() == 0),
{
    q.is_empty()
}

/// The event packets held by a ring buffer of 46 packets, front first.
pub uninterp spec fn packet_ring_contents(q: CircularBuffer<46, EventPacket>) -> Seq<EventPacket>;

/// `CircularBuffer::new`: an empty buffer.
#[verifier::external_body]
pub(crate) fn packet_ring_new() -> (q: CircularBuffer<46, EventPacket>)
    ensures
        packet_ring_contents(q) == Seq::<EventPacket>::empty(),
{
    CircularBuffer::new()
}

/// `CircularBuffer::push_back`: appends the packet; when the buffer is full, the front packet
/// is dropped.
#[verifier::external_body]
pub(crate) fn packet_ring_push_back(q: &mut CircularBuffer<46, EventPacket>, p: EventPacket)
    ensures
        packet_ring_contents(*final(q)) == keep_last(packet_ring_contents(*old(q)).push(p), 46),
{
    let _ = q.push_back(p);
}

/// `CircularBuffer::pop_front`: removes and returns the front packet, `None` when empty.
#[verifier::external_body]
pub(crate) fn packet_ring_pop_front(q: &mut CircularBuffer<46, EventPacket>) -> (r: Option<EventPacket>)
    ensures
        packet_ring_contents(*old(q)).len() == 0 ==> r is None && packet_ring_contents(*final(q))
            == packet_ring_contents(*old(q)),
        packet_ring_contents(*old(q)).len() > 0 ==> r == Some(packet_ring_contents(*old(q))[0])
            && packet_ring_contents(*final(q)) == packet_ring_contents(*old(q)).drop_first(),
{
    q.pop_front()
}

/// The bytes held by a ring buffer of 512 bytes, front first.
pub uninterp spec fn midi_ring_contents(q: CircularBuffer<512, u8>) -> Seq<u8>;

/// `CircularBuffer::new`: an empty buffer.
#[verifier::external_body]
pub(crate) fn midi_ring_new() -> (q: CircularBuffer<512, u8>)
    ensures
        midi_ring_contents(q) == Seq::<u8>::empty(),
{
    CircularBuffer::new()
}

/// `CircularBuffer::extend_from_slice`: appends the bytes; when they do not all fit, the
/// elements at the front are dropped, so the last 512 remain. Where the first slice that
/// `fill_buf` hands out ends afterwards depends on where in its storage the buffer starts,
/// which nothing here models, so this says nothing of it; `fill_buf` states what always holds.
#[verifier::external_body]
pub(crate) fn midi_ring_extend(q: &mut CircularBuffer<512, u8>, bytes: &[u8])
    ensures
        midi_ring_contents(*final(q)) == keep_last(midi_ring_contents(*old(q)) + bytes@, 512),
{
    q.extend_from_slice(bytes)
}

/// The bytes that `BufRead::fill_buf` hands out for a ring buffer of 512 bytes: the first of
/// its two slices that is not empty, so a prefix of its contents, not empty unless the buffer is.
pub uninterp spec fn midi_ring_front(q: CircularBuffer<512, u8>) -> Seq<u8>;

/// `BufRead::fill_buf`, copied out: the first slice of the buffer that is not empty. The
/// buffer is left as it is.
#[verifier::external_body]
pub(crate) fn midi_ring_fill_buf(q: &mut CircularBuffer<512, u8>) -> (r: Vec<u8>)
    ensures
        *final(q) == *old(q),
        r@ == midi_ring_front(*old(q)),
        midi_ring_front(*old(q)).len() <= midi_ring_contents(*old(q)).len(),
        midi_ring_front(*old(q)) == midi_ring_contents(*old(q)).take(
            midi_ring_front(*old(q)).len() as int,
        ),
        midi_ring_contents(*old(q)).len() > 0 ==> midi_ring_front(*old(q)).len() > 0,
{
    match std::io::BufRead::fill_buf(q) {
        Ok(front) => front.to_vec(),
        Err(_) => Vec::new(),
    }
}

/// `BufRead::consume`: drops the first `n` bytes (all of them when there are fewer). The
/// bytes left move up into the gap while the buffer's start stays put, so the first slice
/// afterwards is as long as before, or as long as what is left when that is less.
#[verifier::external_body]
pub(crate) fn midi_ring_consume(q: &mut CircularBuffer<512, u8>, n: usize)
    ensures
        n <= midi_ring_contents(*old(q)).len() ==> midi_ring_contents(*final(q))
            == midi_ring_contents(*old(q)).subrange(n as int, midi_ring_contents(*old(q)).len() as int),
        n > midi_ring_contents(*old(q)).len() ==> midi_ring_contents(*final(q)) == Seq::<u8>::empty(),
        midi_ring_front(*final(q)) == midi_ring_contents(*final(q)).take(
            vstd::math::min(midi_ring_contents(*final(q)).len() as int, midi_ring_front(*old(q)).len() as int),
        ),
{
    std::io::BufRead::consume(q, n)
}

/// The bytes held by a ring buffer of 256 bytes, front first.
pub uninterp spec fn page_ring_contents(q: CircularBuffer<256, u8>) -> Seq<u8>;

/// `CircularBuffer::new`: an empty buffer.
#[verifier::external_body]
pub(crate) fn page_ring_new() -> (q: CircularBuffer<256, u8>)
    ensures
        page_ring_contents(q) == Seq::<u8>::empty(),
{
    CircularBuffer::new()
}

/// `CircularBuffer::extend_from_slice`: appends the bytes; when they do not all fit, the
/// elements at the front are dropped, so the last 256 remain.
#[verifier::external_body]
pub(crate) fn page_ring_extend(q: &mut CircularBuffer<256, u8>, bytes: &[u8])
    ensures
        page_ring_contents(*final(q)) == keep_last(page_ring_contents(*old(q)) + bytes@, 256),
{
    q.extend_from_slice(bytes)
}

/// `CircularBuffer::pop_front`: removes and returns the front byte, `None` when empty.
#[verifier::external_body]
pub(crate) fn page_ring_pop_front(q: &mut CircularBuffer<256, u8>) -> (r: Option<u8>)
    ensures
        page_ring_contents(*old(q)).len() == 0 ==> r is None && page_ring_contents(*final(q))
            == page_ring_contents(*old(q)),
        page_ring_contents(*old(q)).len() > 0 ==> r == Some(page_ring_contents(*old(q))[0])
            && page_ring_contents(*final(q)) == page_ring_contents(*old(q)).drop_first(),
{
    q.pop_front()
}

/// `CircularBuffer::len`.
#[verifier::external_body]
pub(crate) fn page_ring_len(q: &CircularBuffer<256, u8>) -> (r: usize)
    ensures
        r == page_ring_contents(*q).len(),
{
    q.len()
}

/// `CircularBuffer::is_empty`.
#[verifier::external_body]
pub(crate) fn page_ring_is_empty(q: &CircularBuffer<256, u8>) -> (r: bool)
    ensures
        r == (page_ring_contents(*q).len() == 0),
{
    q.is_empty()
}

/// `CircularBuffer::clear`: drops every byte.
#[verifier::external_body]
pub(crate) fn page_ring_clear(q: &mut CircularBuffer<256, u8>)
    ensures
        page_ring_contents(*final(q)) == Seq::<u8>::empty(),
{
    q.clear()
}

/// `CircularBuffer::push_back`: appends the byte; when the buffer is full, the front byte is
/// dropped.
#[verifier::external_body]
pub(crate) fn page_ring_push_back(q: &mut CircularBuffer<256, u8>, x: u8)
    ensures
        page_ring_contents(*final(q)) == keep_last(page_ring_contents(*old(q)).push(x), 256),
{
    let _ = q.push_back(x);
}

/// `CircularBuffer::make_contiguous`, then its first `n` bytes copied out: the order of the
/// bytes stays as it was.
#[verifier::external_body]
pub(crate) fn page_ring_front(q: &mut CircularBuffer<256, u8>, n: usize) -> (r: Vec<u8>)
    requires
        n <= page_ring_contents(*old(q)).len(),
    ensures
        page_ring_contents(*final(q)) == page_ring_contents(*old(q)),
        r@ == page_ring_contents(*old(q)).subrange(0, n as int),
{
    q.make_contiguous()[..n].to_vec()
}

/// `CircularBuffer::drain` over the first `n` bytes, dropped.
#[verifier::external_body]
pub(crate) fn page_ring_drain_front(q: &mut CircularBuffer<256, u8>, n: usize)
    requires
        n <= page_ring_contents(*old(q)).len(),
    ensures
        page_ring_contents(*final(q)) == page_ring_contents(*old(q)).subrange(
            n as int,
            page_ring_contents(*old(q)).len() as int,
        ),
{
    let _ = q.drain(..n);
}

} // verus!
