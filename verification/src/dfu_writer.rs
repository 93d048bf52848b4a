//! Writing a firmware image to the update partition of the flash, page by page, as its bytes
//! come in pieces. Bytes wait in a ring buffer of 256 bytes until a page is full; the last,
//! partial page is zero-filled.
//!
//! The [`DfuWriter`] here keeps the bytes and says which page to write where; whoever drives it
//! writes the pages with the firmware updater, then marks the update and restarts.
use vstd::prelude::*;
use circular_buffer::CircularBuffer;
use crate::ring::{
    keep_last, page_ring_contents, page_ring_new, page_ring_extend, page_ring_len,
    page_ring_is_empty, page_ring_clear, page_ring_push_back, page_ring_front,
    page_ring_drain_front,
};

verus! {

/// The bytes of a firmware image not yet written, and where the next page goes.
pub struct DfuWriter {
    page_size: usize,
    buffer: CircularBuffer<256, u8>,
    offset: usize,
}

/// `s`, zero-filled to at least `n` bytes.
pub open spec fn pad_to(s: Seq<u8>, n: int) -> Seq<u8> {
    if s.len() >= n {
        s
    } else {
        s + Seq::new((n - s.len()) as nat, |i: int| 0u8)
    }
}

impl DfuWriter {
    /// The size of a flash page.
    pub closed spec fn page_size(&self) -> usize {
        self.page_size
    }

    /// The bytes not yet written, oldest first.
    pub closed spec fn pending(&self) -> Seq<u8> {
        page_ring_contents(self.buffer)
    }

    /// Where in the partition the next page goes.
    pub closed spec fn spec_offset(&self) -> usize {
        self.offset
    }

    /// What a writer keeps true: two pages fit in its buffer.
    pub closed spec fn wf(&self) -> bool {
        &&& 0 < self.page_size
        &&& 2 * self.page_size <= 256
        &&& page_ring_contents(self.buffer).len() <= 256
    }

    /// A writer for pages of `page_size` bytes; two pages must fit in its buffer.
    pub fn new(page_size: usize) -> (r: Self)
        requires
            0 < page_size,
            2 * page_size <= 256,
        ensures
            r.wf(),
            r.page_size() == page_size,
            r.pending() == Seq::<u8>::empty(),
            r.spec_offset() == 0,
    {
        DfuWriter { page_size, buffer: page_ring_new(), offset: 0 }
    }

    /// Where in the partition the next page goes.
    pub fn offset(&self) -> (r: usize)
        ensures
            r == self.spec_offset(),
    {
        self.offset
    }

    /// Starts a new image: drops what is pending and starts at the beginning of the partition.
    pub fn open(&mut self)
        requires
            old(self).wf(),
        ensures
            final(self).wf(),
            final(self).page_size() == old(self).page_size(),
            final(self).pending() == Seq::<u8>::empty(),
            final(self).spec_offset() == 0,
    {
        page_ring_clear(&mut self.buffer);
        self.offset = 0;
    }

    /// Takes more bytes of the image. The buffer keeps its last 256 bytes, so the caller
    /// writes each full page before it takes more than a page.
    pub fn push(&mut self, data: &[u8])
        requires
            old(self).wf(),
        ensures
            final(self).wf(),
            final(self).page_size() == old(self).page_size(),
            final(self).pending() == keep_last(old(self).pending() + data@, 256),
            final(self).spec_offset() == old(self).spec_offset(),
    {
        page_ring_extend(&mut self.buffer, data);
    }

    /// Whether a full page is pending.
    pub fn has_full_page(&self) -> (r: bool)
        requires
            self.wf(),
        ensures
            r == (self.pending().len() >= self.page_size()),
    {
        page_ring_len(&self.buffer) >= self.page_size
    }

    /// Whether nothing is pending.
    pub fn is_empty(&self) -> (r: bool)
        ensures
            r == (self.pending().len() == 0),
    {
        page_ring_is_empty(&self.buffer)
    }

    /// The number of pending bytes.
    pub fn pending_len(&self) -> (r: usize)
        ensures
            r == self.pending().len(),
    {
        page_ring_len(&self.buffer)
    }

    /// Gets the next page ready for `len` bytes of the image: the pending bytes are
    /// zero-filled to a page, and the page is their first page.
    pub fn prepare_page(&mut self, len: usize) -> (page: Vec<u8>)
        requires
            old(self).wf(),
            len <= old(self).pending().len(),
            len <= old(self).page_size(),
        ensures
            final(self).wf(),
            final(self).page_size() == old(self).page_size(),
            final(self).spec_offset() == old(self).spec_offset(),
            final(self).pending() == pad_to(old(self).pending(), old(self).page_size() as int),
            page@ == pad_to(old(self).pending(), old(self).page_size() as int).subrange(
                0,
                old(self).page_size() as int,
            ),
    {
        let ghost start = page_ring_contents(self.buffer);
        while page_ring_len(&self.buffer) < self.page_size
            invariant
                self.page_size == old(self).page_size,
                self.offset == old(self).offset,
                0 < self.page_size,
                2 * self.page_size <= 256,
                start.len() <= 256,
                page_ring_contents(self.buffer).len() <= 256,
                start.len() < self.page_size ==> page_ring_contents(self.buffer) == start + Seq::new(
                    (page_ring_contents(self.buffer).len() - start.len()) as nat,
                    |i: int| 0u8,
                ) && page_ring_contents(self.buffer).len() <= self.page_size,
                start.len() >= self.page_size ==> page_ring_contents(self.buffer) == start,
            decreases self.page_size - page_ring_contents(self.buffer).len(),
        {
            let ghost before = page_ring_contents(self.buffer);
            page_ring_push_back(&mut self.buffer, 0);
            assert(page_ring_contents(self.buffer) =~= start + Seq::new(
                (before.len() + 1 - start.len()) as nat,
                |i: int| 0u8,
            ));
        }
        proof {
            if start.len() < self.page_size {
                assert(page_ring_contents(self.buffer) =~= pad_to(start, self.page_size as int));
            }
        }
        page_ring_front(&mut self.buffer, self.page_size)
    }

    /// The page got ready by [`DfuWriter::prepare_page`] for `len` bytes is written: it is
    /// dropped, and the next page goes `len` bytes further.
    pub fn page_done(&mut self, len: usize)
        requires
            old(self).wf(),
            old(self).pending().len() >= old(self).page_size(),
            old(self).spec_offset() + len <= usize::MAX,
        ensures
            final(self).wf(),
            final(self).page_size() == old(self).page_size(),
            final(self).pending() == old(self).pending().subrange(
                old(self).page_size() as int,
                old(self).pending().len() as int,
            ),
            final(self).spec_offset() == old(self).spec_offset() + len,
    {
        page_ring_drain_front(&mut self.buffer, self.page_size);
        self.offset = self.offset + len;
    }
}

/// Whether `stream`, the bytes taken since the writer was opened, is what has been written up
/// to `offset` followed by the pending bytes.
pub open spec fn holds_stream(offset: int, pending: Seq<u8>, stream: Seq<u8>) -> bool {
    0 <= offset && stream.len() == offset + pending.len() && stream.subrange(offset, stream.len() as int)
        == pending
}

/// The image passes through intact as long as the pending bytes and a new piece fit in the
/// buffer of 256 bytes together: the piece is held after what was pending, each full page is
/// the stream's bytes at its offset, and what is left after it is the rest. Larger pieces make
/// the buffer drop its oldest bytes.
pub proof fn lemma_stream_intact(offset: int, pending: Seq<u8>, piece: Seq<u8>, stream: Seq<u8>, page_size: int)
    requires
        0 < page_size,
        holds_stream(offset, pending, stream),
        pending.len() + piece.len() <= 256,
    ensures
        keep_last(pending + piece, 256) == pending + piece,
        holds_stream(offset, pending + piece, stream + piece),
        (pending + piece).len() >= page_size ==> {
            let held = pending + piece;
            &&& pad_to(held, page_size).subrange(0, page_size) == (stream + piece).subrange(
                offset,
                offset + page_size,
            )
            &&& holds_stream(
                offset + page_size,
                held.subrange(page_size, held.len() as int),
                stream + piece,
            )
        },
{
    let held = pending + piece;
    let more = stream + piece;
    assert(more.subrange(offset, more.len() as int) =~= held);
    if held.len() >= page_size {
        assert(more.subrange(offset, offset + page_size) =~= held.subrange(0, page_size));
        assert(more.subrange(offset + page_size, more.len() as int) =~= held.subrange(
            page_size,
            held.len() as int,
        ));
    }
}

/// The last page, zero-filled, starts with the rest of the stream, and afterwards all of the
/// stream has been written.
pub proof fn lemma_last_page_ends_stream(offset: int, pending: Seq<u8>, stream: Seq<u8>, page_size: int)
    requires
        holds_stream(offset, pending, stream),
        0 < pending.len() < page_size,
    ensures
        pad_to(pending, page_size).subrange(0, page_size).subrange(0, pending.len() as int)
            == stream.subrange(offset, stream.len() as int),
        offset + pending.len() == stream.len(),
{
    assert(pad_to(pending, page_size).subrange(0, page_size).subrange(0, pending.len() as int)
        =~= pending);
}

} // verus!
