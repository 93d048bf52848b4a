//! The firmware update task of the concertina controller. A host sends a new firmware image as
//! a MIDI file dump over USB; the task collects the dump's packets into flash pages, answers
//! each packet, and once the end of file arrives, has the last page written and the update
//! applied.
//!
//! The task here decides; whoever drives it reads the USB packets, writes the pages to flash,
//! sends the answers and restarts the device, as the returned actions say.
use vstd::prelude::*;
use circular_buffer::CircularBuffer;
use vstd::utf8::valid_utf8;
use vstd::string::StringSliceAdditionalSpecFns;
use crate::midi_tools::messages::sysex::{packet_payload, read_front_spec, HandshakeData, SysEx};
use crate::ring::{
    keep_last, page_ring_contents, page_ring_new, page_ring_extend, page_ring_pop_front,
    page_ring_len, page_ring_is_empty, page_ring_clear,
};
use crate::sysex_reader::SysExReader;
use crate::bin2syx::{bin_file_type, next_packet_num, DEVICE_ID, SOURCE_ID};

verus! {

/// The USB-MIDI cable the controller talks on.
pub const USB_MIDI_CABLE: u8 = 0;

/// The controller's own device ID in file dumps.
pub const SYSEX_DEVICE_ID: u8 = 0x01;

/// The device ID that addresses every device.
pub const SYSEX_ANY_DEVICE: u8 = 0x7F;

/// The largest payload of a file dump packet, which also bounds the page size.
pub const MAX_PACKET_PAYLOAD: usize = 112;

/// The file type of a firmware image.
pub open spec fn firmware_file_type() -> Seq<u8> {
    seq![0x42u8, 0x49u8, 0x4Eu8, 0x20u8]
}

/// Whether a file dump message is meant for this device.
pub open spec fn addressed(device_id: u8) -> bool {
    device_id == SYSEX_DEVICE_ID || device_id == SYSEX_ANY_DEVICE
}

/// The packet number that follows `n`: packet numbers count up and wrap around at 128, as the
/// file dump sender numbers them.
pub open spec fn following_packet(n: u8) -> u8 {
    ((n + 1) % 0x80) as u8
}

/// `s`, zero-filled to `n` bytes.
pub open spec fn zero_fill(s: Seq<u8>, n: int) -> Seq<u8> {
    s + Seq::new((n - s.len()) as nat, |i: int| 0u8)
}

/// Where a running file dump stands.
#[derive(Debug, PartialEq, Eq, Clone, Copy)]
pub struct Progress {
    /// The device that sends the dump, which the answers go to.
    pub source_id: u8,
    /// The number the next packet must carry.
    pub next_packet: u8,
    /// Where in flash the next page goes.
    pub offset: usize,
}

/// What the task waits for before it takes the next message.
#[derive(Debug, PartialEq, Eq, Clone, Copy)]
pub enum Awaiting {
    /// Nothing: the next message can come.
    Message,
    /// The outcome of writing a page that completed the packet with this number.
    Page(u8),
    /// The outcome of writing the last, zero-filled page.
    LastPage,
}

/// What the driver of the task must do next.
#[derive(Debug, PartialEq, Eq)]
pub enum FirmwareAction {
    /// Nothing.
    Ignore,
    /// Send this message to the host.
    Send(SysEx),
    /// Write this page to flash at this offset, then report with
    /// [`FirmwareTask::page_written`].
    WritePage { offset: usize, page: Vec<u8> },
    /// Write this last page to flash at this offset, then report with
    /// [`FirmwareTask::last_page_written`].
    WriteLastPage { offset: usize, page: Vec<u8> },
    /// The image is complete: mark it for installation and restart.
    Finish,
}

/// The firmware update task: its file dump progress, the MIDI bytes received but not yet read,
/// and the image bytes received but not yet written.
pub struct FirmwareTask {
    max_firmware_size: usize,
    page_size: usize,
    progress: Option<Progress>,
    awaiting: Awaiting,
    reader: SysExReader,
    file_buffer: CircularBuffer<256, u8>,
}

impl FirmwareTask {
    /// The largest image the flash takes.
    pub closed spec fn max_firmware_size(&self) -> usize {
        self.max_firmware_size
    }

    /// The size of a flash page.
    pub closed spec fn page_size(&self) -> usize {
        self.page_size
    }

    /// The running file dump, if there is one.
    pub closed spec fn progress(&self) -> Option<Progress> {
        self.progress
    }

    /// What the task waits for.
    pub closed spec fn awaiting(&self) -> Awaiting {
        self.awaiting
    }

    /// The MIDI bytes received but not yet read, oldest first.
    pub closed spec fn midi_bytes(&self) -> Seq<u8> {
        self.reader@
    }

    /// The image bytes received but not yet written, oldest first.
    pub closed spec fn file_bytes(&self) -> Seq<u8> {
        page_ring_contents(self.file_buffer)
    }

    /// What the task keeps true between calls.
    pub closed spec fn wf(&self) -> bool {
        &&& MAX_PACKET_PAYLOAD <= self.page_size
        &&& self.max_firmware_size + self.page_size <= usize::MAX
        &&& page_ring_contents(self.file_buffer).len() <= 256
        &&& self.progress matches Some(p) ==> {
            &&& p.offset <= self.max_firmware_size
            &&& p.source_id <= 0x7F
            &&& p.next_packet <= 0x7F
            &&& page_ring_contents(self.file_buffer).len() < self.page_size
        }
        &&& !(self.awaiting is Message) ==> self.progress is Some
        &&& self.awaiting matches Awaiting::Page(n) ==> n <= 0x7F && (self.progress matches Some(
            p,
        ) && p.offset + self.page_size <= self.max_firmware_size)
    }

    /// A task with no dump running and nothing buffered, for an image of at most
    /// `max_firmware_size` bytes written in pages of `page_size` bytes. A page holds at least
    /// the largest packet payload.
    pub fn new(max_firmware_size: usize, page_size: usize) -> (r: Self)
        requires
            MAX_PACKET_PAYLOAD <= page_size,
            max_firmware_size + page_size <= usize::MAX,
        ensures
            r.wf(),
            r.max_firmware_size() == max_firmware_size,
            r.page_size() == page_size,
            r.progress() is None,
            r.awaiting() == Awaiting::Message,
            r.midi_bytes() == Seq::<u8>::empty(),
            r.file_bytes() == Seq::<u8>::empty(),
    {
        FirmwareTask {
            max_firmware_size,
            page_size,
            progress: None,
            awaiting: Awaiting::Message,
            reader: SysExReader::new(),
            file_buffer: page_ring_new(),
        }
    }
}

/// Whether the task can take this message: a header must name a seven-bit sender and carry a
/// file type that is text, and a packet must carry a seven-bit number and at most 112 bytes.
/// Every message read from a stream does.
pub open spec fn acceptable(sysex: SysEx) -> bool {
    &&& sysex matches SysEx::FileDumpHeader(h) ==> h.source_id <= 0x7F && valid_utf8(
        h.raw_file_type@,
    )
    &&& sysex matches SysEx::FileDumpPacket(p) ==> p.packet_num <= 0x7F && p.data_size <= 112
}

/// A snapshot of what the task holds, apart from the MIDI bytes.
pub struct TaskState {
    pub progress: Option<Progress>,
    pub awaiting: Awaiting,
    pub file_bytes: Seq<u8>,
}

/// What the task does with a message: its state afterwards and its action, with the page of a
/// write action by its bytes. `max` is the largest image and `page` the page size.
pub open spec fn handle_spec(max: usize, page: usize, st: TaskState, sysex: SysEx) -> (
    TaskState,
    FirmwareActionView,
) {
    let unchanged = (st, FirmwareActionView::Ignore);
    match sysex {
        SysEx::FileDumpHeader(h) => {
            if !addressed(h.device_id) {
                unchanged
            } else if h.raw_file_type@ != firmware_file_type() || h.length > max {
                (st, FirmwareActionView::Send(SysEx::Cancel(HandshakeData { device_id: h.source_id, packet_num: 0 })))
            } else {
                (
                    TaskState {
                        progress: Some(Progress { source_id: h.source_id, next_packet: 0, offset: 0 }),
                        awaiting: Awaiting::Message,
                        file_bytes: Seq::empty(),
                    },
                    FirmwareActionView::Send(SysEx::Ack(HandshakeData { device_id: h.source_id, packet_num: 0 })),
                )
            }
        },
        SysEx::FileDumpPacket(pk) => match st.progress {
            None => unchanged,
            Some(pr) => {
                if !addressed(pk.device_id) {
                    unchanged
                } else if pk.packet_num != pr.next_packet {
                    (
                        TaskState { progress: None, ..st },
                        FirmwareActionView::Send(SysEx::Cancel(HandshakeData { device_id: pr.source_id, packet_num: pk.packet_num })),
                    )
                } else if !pk.checksum_ok {
                    (st, FirmwareActionView::Send(SysEx::Nak(HandshakeData { device_id: pr.source_id, packet_num: pk.packet_num })))
                } else {
                    let f = keep_last(st.file_bytes + packet_payload(pk), 256);
                    if f.len() >= page {
                        if pr.offset + page > max {
                            (
                                TaskState { progress: None, awaiting: st.awaiting, file_bytes: f },
                                FirmwareActionView::Send(SysEx::Cancel(HandshakeData { device_id: pr.source_id, packet_num: pk.packet_num })),
                            )
                        } else {
                            (
                                TaskState {
                                    progress: st.progress,
                                    awaiting: Awaiting::Page(pk.packet_num),
                                    file_bytes: f.subrange(page as int, f.len() as int),
                                },
                                FirmwareActionView::WritePage { offset: pr.offset, page: f.subrange(0, page as int) },
                            )
                        }
                    } else {
                        (
                            TaskState {
                                progress: Some(Progress { next_packet: following_packet(pr.next_packet), ..pr }),
                                awaiting: st.awaiting,
                                file_bytes: f,
                            },
                            FirmwareActionView::Send(SysEx::Ack(HandshakeData { device_id: pr.source_id, packet_num: pk.packet_num })),
                        )
                    }
                }
            },
        },
        SysEx::Eof(_) => match st.progress {
            None => unchanged,
            Some(pr) => if st.file_bytes.len() > 0 {
                (
                    TaskState { progress: st.progress, awaiting: Awaiting::LastPage, file_bytes: Seq::empty() },
                    FirmwareActionView::WriteLastPage { offset: pr.offset, page: zero_fill(st.file_bytes, page as int) },
                )
            } else {
                (st, FirmwareActionView::Finish)
            },
        },
        _ => unchanged,
    }
}

/// An action with its page by its bytes.
pub enum FirmwareActionView {
    Ignore,
    Send(SysEx),
    WritePage { offset: usize, page: Seq<u8> },
    WriteLastPage { offset: usize, page: Seq<u8> },
    Finish,
}

impl FirmwareAction {
    /// This action with its page by its bytes.
    pub open spec fn view(&self) -> FirmwareActionView {
        match self {
            FirmwareAction::Ignore => FirmwareActionView::Ignore,
            FirmwareAction::Send(m) => FirmwareActionView::Send(*m),
            FirmwareAction::WritePage { offset, page } => FirmwareActionView::WritePage { offset: *offset, page: page@ },
            FirmwareAction::WriteLastPage { offset, page } => FirmwareActionView::WriteLastPage { offset: *offset, page: page@ },
            FirmwareAction::Finish => FirmwareActionView::Finish,
        }
    }
}

impl FirmwareTask {
    /// What the task holds, apart from the MIDI bytes.
    pub open spec fn state(&self) -> TaskState {
        TaskState { progress: self.progress(), awaiting: self.awaiting(), file_bytes: self.file_bytes() }
    }
}

/// Takes `n` bytes from the front of the image bytes, zero-filled to `len` bytes.
fn take_page(q: &mut CircularBuffer<256, u8>, n: usize, len: usize) -> (page: Vec<u8>)
    requires
        n <= page_ring_contents(*old(q)).len(),
        n <= len,
    ensures
        page@ == zero_fill(page_ring_contents(*old(q)).subrange(0, n as int), len as int),
        page_ring_contents(*final(q)) == page_ring_contents(*old(q)).subrange(
            n as int,
            page_ring_contents(*old(q)).len() as int,
        ),
{
    let ghost f = page_ring_contents(*q);
    let ghost want = zero_fill(f.subrange(0, n as int), len as int);
    let mut page: Vec<u8> = Vec::new();
    let mut i: usize = 0;
    while i < len
        invariant
            n <= f.len(),
            n <= len,
            want == zero_fill(f.subrange(0, n as int), len as int),
            i <= len,
            page@.len() == i,
            i <= n ==> page_ring_contents(*q) == f.subrange(i as int, f.len() as int),
            i > n ==> page_ring_contents(*q) == f.subrange(n as int, f.len() as int),
            forall|j: int| 0 <= j < i ==> page@[j] == want[j],
        decreases len - i,
    {
        if i < n {
            let b = page_ring_pop_front(q);
            assert(f.subrange(i as int, f.len() as int).drop_first() =~= f.subrange(i + 1, f.len() as int));
            page.push(b.unwrap());
        } else {
            page.push(0);
        }
        i += 1;
    }
    assert(page@ =~= want);
    page
}

/// Whether the bytes are the firmware file type.
fn is_firmware_file_type(t: &[u8]) -> (r: bool)
    ensures
        r == (t@ == firmware_file_type()),
{
    let r = t.len() == 4 && t[0] == 0x42 && t[1] == 0x49 && t[2] == 0x4E && t[3] == 0x20;
    proof {
        if t@.len() == 4 {
            if r {
                assert(t@ =~= firmware_file_type());
            } else {
                assert(t@ != firmware_file_type());
            }
        }
    }
    r
}

/// What the task does once a page it asked for is written (`ok`) or failed to be.
pub open spec fn page_written_spec(page: usize, st: TaskState, ok: bool) -> (TaskState, FirmwareActionView) {
    match (st.awaiting, st.progress) {
        (Awaiting::Page(n), Some(pr)) => if ok {
            (
                TaskState {
                    progress: Some(Progress { source_id: pr.source_id, next_packet: following_packet(pr.next_packet), offset: (pr.offset + page) as usize }),
                    awaiting: Awaiting::Message,
                    file_bytes: st.file_bytes,
                },
                FirmwareActionView::Send(SysEx::Ack(HandshakeData { device_id: pr.source_id, packet_num: n })),
            )
        } else {
            (
                TaskState { progress: None, awaiting: Awaiting::Message, file_bytes: st.file_bytes },
                FirmwareActionView::Send(SysEx::Cancel(HandshakeData { device_id: pr.source_id, packet_num: n })),
            )
        },
        _ => (st, FirmwareActionView::Ignore),
    }
}

/// What the task does once the last page is written (`ok`) or failed to be.
pub open spec fn last_page_written_spec(st: TaskState, ok: bool) -> (TaskState, FirmwareActionView) {
    if ok {
        (TaskState { awaiting: Awaiting::Message, ..st }, FirmwareActionView::Finish)
    } else {
        (TaskState { progress: None, awaiting: Awaiting::Message, ..st }, FirmwareActionView::Ignore)
    }
}

impl FirmwareTask {
    /// Handles a message read from the host.
    pub fn handle(&mut self, sysex: SysEx) -> (action: FirmwareAction)
        requires
            old(self).wf(),
            old(self).awaiting() == Awaiting::Message,
            acceptable(sysex),
        ensures
            final(self).wf(),
            (final(self).state(), action.view()) == handle_spec(
                old(self).max_firmware_size(),
                old(self).page_size(),
                old(self).state(),
                sysex,
            ),
            final(self).max_firmware_size() == old(self).max_firmware_size(),
            final(self).page_size() == old(self).page_size(),
            final(self).midi_bytes() == old(self).midi_bytes(),
    {
        match sysex {
            SysEx::FileDumpHeader(header) => {
                if header.device_id != SYSEX_DEVICE_ID && header.device_id != SYSEX_ANY_DEVICE {
                    return FirmwareAction::Ignore;
                }
                if !is_firmware_file_type(header.file_type().as_bytes()) {
                    return FirmwareAction::Send(SysEx::cancel(header.source_id, 0));
                }
                if header.length as usize > self.max_firmware_size {
                    return FirmwareAction::Send(SysEx::cancel(header.source_id, 0));
                }
                page_ring_clear(&mut self.file_buffer);
                self.progress = Some(Progress { source_id: header.source_id, next_packet: 0, offset: 0 });
                FirmwareAction::Send(SysEx::ack(header.source_id, 0))
            },
            SysEx::FileDumpPacket(packet) => {
                let progress = match self.progress {
                    None => return FirmwareAction::Ignore,
                    Some(p) => p,
                };
                if packet.device_id != SYSEX_DEVICE_ID && packet.device_id != SYSEX_ANY_DEVICE {
                    return FirmwareAction::Ignore;
                }
                if packet.packet_num != progress.next_packet {
                    self.progress = None;
                    return FirmwareAction::Send(SysEx::cancel(progress.source_id, packet.packet_num));
                }
                if !packet.checksum_ok {
                    return FirmwareAction::Send(SysEx::nak(progress.source_id, packet.packet_num));
                }
                self.progress = None;
                let ghost before = page_ring_contents(self.file_buffer);
                page_ring_extend(&mut self.file_buffer, packet.data());
                let len = page_ring_len(&self.file_buffer);
                if len >= self.page_size {
                    if progress.offset + self.page_size > self.max_firmware_size {
                        return FirmwareAction::Send(SysEx::cancel(progress.source_id, packet.packet_num));
                    }
                    let page = take_page(&mut self.file_buffer, self.page_size, self.page_size);
                    proof {
                        let f = keep_last(before + packet_payload(packet), 256);
                        assert(f.len() <= before.len() + packet_payload(packet).len());
                        assert(zero_fill(f.subrange(0, self.page_size as int), self.page_size as int) =~= f.subrange(0, self.page_size as int));
                    }
                    self.progress = Some(progress);
                    self.awaiting = Awaiting::Page(packet.packet_num);
                    return FirmwareAction::WritePage { offset: progress.offset, page };
                }
                self.progress = Some(Progress { next_packet: (progress.next_packet + 1) % 0x80, ..progress });
                FirmwareAction::Send(SysEx::ack(progress.source_id, packet.packet_num))
            },
            SysEx::Eof(_) => {
                let progress = match self.progress {
                    None => return FirmwareAction::Ignore,
                    Some(p) => p,
                };
                if !page_ring_is_empty(&self.file_buffer) {
                    let n = page_ring_len(&self.file_buffer);
                    let ghost f = page_ring_contents(self.file_buffer);
                    let page = take_page(&mut self.file_buffer, n, self.page_size);
                    proof {
                        assert(f.subrange(0, n as int) =~= f);
                        assert(page_ring_contents(self.file_buffer).len() == 0);
                        assert(page_ring_contents(self.file_buffer) =~= Seq::<u8>::empty());
                    }
                    self.awaiting = Awaiting::LastPage;
                    return FirmwareAction::WriteLastPage { offset: progress.offset, page };
                }
                FirmwareAction::Finish
            },
            _ => FirmwareAction::Ignore,
        }
    }

    /// Takes the outcome of writing the page that [`FirmwareTask::handle`] asked for.
    pub fn page_written(&mut self, ok: bool) -> (action: FirmwareAction)
        requires
            old(self).wf(),
            old(self).awaiting() is Page,
        ensures
            final(self).wf(),
            (final(self).state(), action.view()) == page_written_spec(old(self).page_size(), old(self).state(), ok),
            final(self).max_firmware_size() == old(self).max_firmware_size(),
            final(self).page_size() == old(self).page_size(),
            final(self).midi_bytes() == old(self).midi_bytes(),
    {
        let packet_num = match self.awaiting {
            Awaiting::Page(n) => n,
            _ => return FirmwareAction::Ignore,
        };
        let progress = match self.progress {
            Some(p) => p,
            None => return FirmwareAction::Ignore,
        };
        self.awaiting = Awaiting::Message;
        if ok {
            self.progress = Some(
                Progress {
                    source_id: progress.source_id,
                    next_packet: (progress.next_packet + 1) % 0x80,
                    offset: progress.offset + self.page_size,
                },
            );
            FirmwareAction::Send(SysEx::ack(progress.source_id, packet_num))
        } else {
            self.progress = None;
            FirmwareAction::Send(SysEx::cancel(progress.source_id, packet_num))
        }
    }

    /// Takes the outcome of writing the last page that [`FirmwareTask::handle`] asked for.
    pub fn last_page_written(&mut self, ok: bool) -> (action: FirmwareAction)
        requires
            old(self).wf(),
            old(self).awaiting() == Awaiting::LastPage,
        ensures
            final(self).wf(),
            (final(self).state(), action.view()) == last_page_written_spec(old(self).state(), ok),
            final(self).max_firmware_size() == old(self).max_firmware_size(),
            final(self).page_size() == old(self).page_size(),
            final(self).midi_bytes() == old(self).midi_bytes(),
    {
        self.awaiting = Awaiting::Message;
        if ok {
            FirmwareAction::Finish
        } else {
            self.progress = None;
            FirmwareAction::Ignore
        }
    }
}

impl FirmwareTask {
    /// The MIDI bytes the next read looks at first: a prefix of [`FirmwareTask::midi_bytes`].
    pub closed spec fn midi_front(&self) -> Seq<u8> {
        self.reader.front()
    }

    /// Buffers the payload of a USB-MIDI event packet; the buffer keeps its last 512 bytes.
    pub fn buffer_midi(&mut self, payload: &[u8])
        requires
            old(self).wf(),
        ensures
            final(self).wf(),
            final(self).state() == old(self).state(),
            final(self).max_firmware_size() == old(self).max_firmware_size(),
            final(self).page_size() == old(self).page_size(),
            final(self).midi_bytes() == keep_last(old(self).midi_bytes() + payload@, 512),
    {
        self.reader.push(payload)
    }

    /// Reads the next message from the buffered MIDI bytes, if a complete one is there, as
    /// [`SysExReader::read`] does.
    pub fn read_message(&mut self) -> (r: Option<SysEx>)
        requires
            old(self).wf(),
        ensures
            final(self).wf(),
            final(self).state() == old(self).state(),
            final(self).max_firmware_size() == old(self).max_firmware_size(),
            final(self).page_size() == old(self).page_size(),
            ({
                let (n, m) = read_front_spec(old(self).midi_bytes(), old(self).midi_front());
                &&& r == m
                &&& final(self).midi_bytes() == old(self).midi_bytes().subrange(n, old(self).midi_bytes().len() as int)
            }),
    {
        self.reader.read()
    }
}

/// Pages go to flash back to back: when a page asked for at `offset` is written, the next
/// page is asked for right after it, and the packet that completed the page is acknowledged.
pub proof fn lemma_pages_back_to_back(max: usize, page: usize, st: TaskState, sysex: SysEx)
    requires
        st.awaiting == Awaiting::Message,
        handle_spec(max, page, st, sysex).1 is WritePage,
    ensures
        ({
            let (mid, action) = handle_spec(max, page, st, sysex);
            let (after, answer) = page_written_spec(page, mid, true);
            &&& after.progress matches Some(p) && p.offset == action->WritePage_offset + page
            &&& answer == FirmwareActionView::Send(SysEx::Ack(HandshakeData {
                device_id: st.progress.unwrap().source_id,
                packet_num: sysex->FileDumpPacket_0.packet_num,
            }))
        }),
{
}

/// Once a dump is cancelled, packets are ignored until a new header comes.
pub proof fn lemma_cancelled_dump_ignores_packets(max: usize, page: usize, st: TaskState, sysex: SysEx)
    requires
        st.progress is None,
        !(sysex is FileDumpHeader),
    ensures
        handle_spec(max, page, st, sysex) == (st, FirmwareActionView::Ignore),
{
}

/// Whether `stream`, the payloads of the packets acknowledged since the header, is what the
/// task has written up to its offset followed by what it holds.
pub open spec fn holds_stream(st: TaskState, stream: Seq<u8>) -> bool {
    st.progress matches Some(p) && stream.len() == p.offset + st.file_bytes.len()
        && stream.subrange(p.offset as int, stream.len() as int) == st.file_bytes
}

/// The image passes through intact when a page holds at most 144 bytes: a packet that is
/// taken either is acknowledged with its payload held after what was held, or completes a
/// page that is exactly the stream's bytes at the page's offset; once that page is written,
/// the task holds the rest of the stream after it. With larger pages the buffer of 256 bytes
/// can overflow and drop the oldest bytes.
pub proof fn lemma_stream_intact(max: usize, page: usize, st: TaskState, sysex: SysEx, stream: Seq<u8>)
    requires
        MAX_PACKET_PAYLOAD <= page <= 144,
        max + page <= usize::MAX,
        st.awaiting == Awaiting::Message,
        holds_stream(st, stream),
        st.file_bytes.len() < page,
        st.progress.unwrap().offset + page <= max,
        sysex matches SysEx::FileDumpPacket(pk) && pk.data_size <= 112 && addressed(pk.device_id)
            && pk.packet_num == st.progress.unwrap().next_packet && pk.checksum_ok,
    ensures
        ({
            let pk = sysex->FileDumpPacket_0;
            let more = stream + packet_payload(pk);
            let (mid, action) = handle_spec(max, page, st, sysex);
            &&& action is Send ==> holds_stream(mid, more)
            &&& action is WritePage ==> {
                let o = action->WritePage_offset;
                &&& action->WritePage_page == more.subrange(o as int, o + page)
                &&& holds_stream(page_written_spec(page, mid, true).0, more)
            }
            &&& (action is Send || action is WritePage)
        }),
{
    let pk = sysex->FileDumpPacket_0;
    let pay = packet_payload(pk);
    let more = stream + pay;
    let o = st.progress.unwrap().offset as int;
    let f = st.file_bytes + pay;
    assert(pay.len() == pk.data_size);
    assert(keep_last(st.file_bytes + pay, 256) == f);
    assert(more.subrange(o, more.len() as int) =~= f);
    if f.len() >= page {
        assert(more.subrange(o, o + page) =~= f.subrange(0, page as int));
        assert(more.subrange(o + page, more.len() as int) =~= f.subrange(page as int, f.len() as int));
    }
}

/// A header that is taken starts the stream empty.
pub proof fn lemma_header_starts_stream(max: usize, page: usize, st: TaskState, sysex: SysEx)
    requires
        handle_spec(max, page, st, sysex).1 == (FirmwareActionView::Send(SysEx::Ack(HandshakeData {
            device_id: sysex->FileDumpHeader_0.source_id,
            packet_num: 0,
        }))),
        (sysex is FileDumpHeader),
    ensures
        holds_stream(handle_spec(max, page, st, sysex).0, Seq::empty()),
{
    assert(Seq::<u8>::empty().subrange(0, 0) =~= Seq::<u8>::empty());
}

/// At the end of the file, the last page is the rest of the stream, zero-filled to a page.
pub proof fn lemma_last_page_ends_stream(max: usize, page: usize, st: TaskState, stream: Seq<u8>, eof: SysEx)
    requires
        holds_stream(st, stream),
        st.file_bytes.len() > 0,
        (eof is Eof),
    ensures
        handle_spec(max, page, st, eof).1 == (FirmwareActionView::WriteLastPage {
            offset: st.progress.unwrap().offset,
            page: zero_fill(stream.subrange(st.progress.unwrap().offset as int, stream.len() as int), page as int),
        }),
{
}

/// A dump packaged by [`crate::bin2syx`] opens an update: its header, for an image that fits
/// in flash, starts the dump for its sender with packet 0 expected, and is acknowledged.
pub proof fn lemma_packaged_header_taken(max: usize, page: usize, st: TaskState, header: SysEx)
    requires
        header matches SysEx::FileDumpHeader(d) && d.device_id == DEVICE_ID && d.source_id
            == SOURCE_ID && d.raw_file_type@ == bin_file_type() && d.length <= max,
    ensures
        handle_spec(max, page, st, header) == (
            TaskState {
                progress: Some(Progress { source_id: SOURCE_ID, next_packet: 0, offset: 0 }),
                awaiting: Awaiting::Message,
                file_bytes: Seq::empty(),
            },
            FirmwareActionView::Send(SysEx::Ack(HandshakeData { device_id: SOURCE_ID, packet_num: 0 })),
        ),
{
}

/// Each packet of a packaged dump that arrives in order, while its page fits in flash, is
/// acknowledged, at once or once the page it completes is written; afterwards the task waits
/// for the next message and expects the number the packager gives the next packet, which is
/// 0 after 0x7F.
pub proof fn lemma_packaged_packet_acked(max: usize, page: usize, st: TaskState, packet: SysEx)
    requires
        st.awaiting == Awaiting::Message,
        st.progress matches Some(p) && p.source_id == SOURCE_ID && p.offset + page <= max,
        packet matches SysEx::FileDumpPacket(d) && d.device_id == DEVICE_ID && d.packet_num
            == st.progress.unwrap().next_packet && d.checksum_ok,
    ensures
        ({
            let n = st.progress.unwrap().next_packet;
            let ack = FirmwareActionView::Send(SysEx::Ack(HandshakeData { device_id: SOURCE_ID, packet_num: n }));
            let (mid, action) = handle_spec(max, page, st, packet);
            let after = if action is WritePage {
                page_written_spec(page, mid, true)
            } else {
                (mid, action)
            };
            &&& (action == ack || action is WritePage)
            &&& after.1 == ack
            &&& after.0.awaiting == Awaiting::Message
            &&& after.0.progress matches Some(q) && q.source_id == SOURCE_ID && q.next_packet
                == next_packet_num(n)
        }),
{
}

/// The end of a running dump completes the update: the task finishes at once, or asks for the
/// last page and finishes once it is written.
pub proof fn lemma_packaged_eof_finishes(max: usize, page: usize, st: TaskState, eof: SysEx)
    requires
        st.awaiting == Awaiting::Message,
        st.progress is Some,
        (eof is Eof),
    ensures
        ({
            let (mid, action) = handle_spec(max, page, st, eof);
            ||| action == FirmwareActionView::Finish
            ||| action is WriteLastPage && mid.awaiting == Awaiting::LastPage
                && last_page_written_spec(mid, true).1 == FirmwareActionView::Finish
        }),
{
}

/// The answers the task gives to `msgs`, one for each, when every page it asks for is written,
/// and the state it ends in. A message that has a page written is answered by what the task
/// says once the page is written.
pub open spec fn run_spec(max: usize, page: usize, st: TaskState, msgs: Seq<SysEx>) -> (
    TaskState,
    Seq<FirmwareActionView>,
)
    decreases msgs.len(),
{
    if msgs.len() == 0 {
        (st, Seq::empty())
    } else {
        let (mid, action) = handle_spec(max, page, st, msgs[0]);
        let (after, answer) = match action {
            FirmwareActionView::WritePage { .. } => page_written_spec(page, mid, true),
            FirmwareActionView::WriteLastPage { .. } => last_page_written_spec(mid, true),
            _ => (mid, action),
        };
        let (end, rest) = run_spec(max, page, after, msgs.drop_first());
        (end, seq![answer] + rest)
    }
}

/// Whether `packets` are file dump packets for this device, with good checksums and at most
/// 112 bytes each, numbered on from `n` as the packager numbers them.
pub open spec fn numbered_from(packets: Seq<SysEx>, n: u8) -> bool
    decreases packets.len(),
{
    packets.len() == 0 || (packets[0] matches SysEx::FileDumpPacket(d) && d.device_id == DEVICE_ID
        && d.checksum_ok && d.data_size <= 112 && d.packet_num == n && numbered_from(
        packets.drop_first(),
        next_packet_num(n),
    ))
}

/// How many image bytes `packets` carry.
pub open spec fn dump_size(packets: Seq<SysEx>) -> int
    decreases packets.len(),
{
    if packets.len() == 0 {
        0
    } else {
        packets[0]->FileDumpPacket_0.data_size + dump_size(packets.drop_first())
    }
}

/// The acknowledgement of each packet, to the packager.
pub open spec fn packet_acks(packets: Seq<SysEx>) -> Seq<FirmwareActionView> {
    packets.map_values(
        |m: SysEx|
            FirmwareActionView::Send(
                SysEx::Ack(HandshakeData { device_id: SOURCE_ID, packet_num: m->FileDumpPacket_0.packet_num }),
            ),
    )
}

proof fn lemma_dump_size_nonneg(packets: Seq<SysEx>)
    ensures
        dump_size(packets) >= 0,
    decreases packets.len(),
{
    if packets.len() > 0 {
        lemma_dump_size_nonneg(packets.drop_first());
    }
}

proof fn lemma_packaged_packets_run(
    max: usize,
    page: usize,
    st: TaskState,
    packets: Seq<SysEx>,
    eof: SysEx,
    received: int,
)
    requires
        MAX_PACKET_PAYLOAD <= page,
        st.awaiting == Awaiting::Message,
        st.progress matches Some(p) && p.source_id == SOURCE_ID && p.offset + st.file_bytes.len()
            <= received && numbered_from(packets, p.next_packet),
        st.file_bytes.len() < page,
        received + dump_size(packets) <= max,
        (eof is Eof),
    ensures
        run_spec(max, page, st, packets + seq![eof]).1 == packet_acks(packets) + seq![
            FirmwareActionView::Finish,
        ],
    decreases packets.len(),
{
    let msgs = packets + seq![eof];
    if packets.len() == 0 {
        assert(msgs =~= seq![eof]);
        assert(msgs.drop_first() =~= Seq::<SysEx>::empty());
        assert(packet_acks(packets) =~= Seq::<FirmwareActionView>::empty());
        let (mid, action) = handle_spec(max, page, st, eof);
        assert(action == FirmwareActionView::Finish || (action is WriteLastPage
            && last_page_written_spec(mid, true).1 == FirmwareActionView::Finish));
        let (after, answer) = match action {
            FirmwareActionView::WritePage { .. } => page_written_spec(page, mid, true),
            FirmwareActionView::WriteLastPage { .. } => last_page_written_spec(mid, true),
            _ => (mid, action),
        };
        assert(answer == FirmwareActionView::Finish);
        assert(run_spec(max, page, after, msgs.drop_first()).1 =~= Seq::<FirmwareActionView>::empty());
        assert(run_spec(max, page, st, msgs).1 =~= seq![FirmwareActionView::Finish]);
    } else {
        lemma_dump_size_nonneg(packets.drop_first());
        let pk = packets[0]->FileDumpPacket_0;
        let pr = st.progress.unwrap();
        let pay = packet_payload(pk);
        assert(pay.len() == pk.data_size);
        let f = keep_last(st.file_bytes + pay, 256);
        assert(f.len() <= st.file_bytes.len() + pay.len());
        let rest = packets.drop_first();
        assert(msgs[0] == packets[0]);
        assert(msgs.drop_first() =~= rest + seq![eof]);
        let (mid, action) = handle_spec(max, page, st, packets[0]);
        let (after, answer) = match action {
            FirmwareActionView::WritePage { .. } => page_written_spec(page, mid, true),
            FirmwareActionView::WriteLastPage { .. } => last_page_written_spec(mid, true),
            _ => (mid, action),
        };
        let ack = FirmwareActionView::Send(
            SysEx::Ack(HandshakeData { device_id: SOURCE_ID, packet_num: pk.packet_num }),
        );
        if f.len() >= page {
            assert(pr.offset + page <= max);
            assert(action is WritePage);
        } else {
            assert(action == ack);
        }
        assert(answer == ack);
        assert(after.awaiting == Awaiting::Message);
        assert(after.file_bytes.len() < page);
        lemma_packaged_packets_run(max, page, after, rest, eof, received + pk.data_size);
        assert(packet_acks(packets) =~= seq![ack] + packet_acks(rest));
        assert(run_spec(max, page, st, msgs).1 =~= seq![ack] + run_spec(max, page, after, rest + seq![eof]).1);
    }
}

/// A whole dump packaged by [`crate::bin2syx`], for an image that fits in flash, is taken
/// from start to end when every page write succeeds: the header is acknowledged with packet
/// number 0, every packet with its own number, wrapping around after 0x7F, and the end of
/// file completes the update.
pub proof fn lemma_packaged_dump_completes(
    max: usize,
    page: usize,
    st: TaskState,
    header: SysEx,
    packets: Seq<SysEx>,
    eof: SysEx,
)
    requires
        MAX_PACKET_PAYLOAD <= page,
        st.awaiting == Awaiting::Message,
        header matches SysEx::FileDumpHeader(d) && d.device_id == DEVICE_ID && d.source_id
            == SOURCE_ID && d.raw_file_type@ == bin_file_type() && d.length == dump_size(packets),
        dump_size(packets) <= max,
        numbered_from(packets, 0),
        (eof is Eof),
    ensures
        run_spec(max, page, st, seq![header] + packets + seq![eof]).1 == seq![
            FirmwareActionView::Send(SysEx::Ack(HandshakeData { device_id: SOURCE_ID, packet_num: 0 })),
        ] + packet_acks(packets) + seq![FirmwareActionView::Finish],
{
    let msgs = seq![header] + packets + seq![eof];
    assert(msgs[0] == header);
    assert(msgs.drop_first() =~= packets + seq![eof]);
    let (mid, action) = handle_spec(max, page, st, header);
    lemma_packaged_header_taken(max, page, st, header);
    lemma_packaged_packets_run(max, page, mid, packets, eof, 0);
    assert(run_spec(max, page, st, msgs).1 =~= seq![action] + run_spec(max, page, mid, packets + seq![eof]).1);
    assert(seq![action] + (packet_acks(packets) + seq![FirmwareActionView::Finish]) =~= seq![action]
        + packet_acks(packets) + seq![FirmwareActionView::Finish]);
}

} // verus!
