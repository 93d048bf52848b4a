//! Keeping a keyboard's firmware in step with the controller's: the controller asks the
//! keyboard for its version, and when it differs from its own, streams the keyboard firmware
//! to it packet by packet, pacing itself by the keyboard's write status, and finally waits for
//! the keyboard to come back with its new version.
//!
//! A [`Transfer`] decides; whoever drives it talks to the keyboard over I2C as the returned
//! actions say and hands back what came of each.
use vstd::prelude::*;
use crate::i2c_proto::{WriteStatus, PACKET_MAX_PAYLOAD_SIZE};
use crate::version::FirmwareVersion;

verus! {

/// How often the controller asks for a keyboard's version before it gives up; with a pause of
/// 100 ms between tries this leaves the keyboard over two minutes to apply an update.
pub const VERSION_RETRY_COUNT: usize = 1200;

/// Where a firmware transfer stands.
#[derive(Debug, Clone, Copy, PartialEq, Eq, Structural)]
pub enum TransferState {
    /// The keyboard's version is yet to be checked.
    Begin,
    /// Firmware packets are being sent.
    InProgress,
    /// The keyboard runs the controller's firmware.
    Done,
}

/// What a transfer waits to hear back.
#[derive(Debug, Clone, Copy, PartialEq, Eq)]
pub enum Phase {
    /// Nothing: the next poll starts a new exchange.
    Idle,
    /// The keyboard's version, before a transfer.
    Version,
    /// Whether the write was begun.
    WriteBegin,
    /// The keyboard's write status.
    WriteStatus,
    /// Whether a packet was written.
    Packet,
    /// Whether the end of the write was sent.
    WriteEnd,
    /// The keyboard's version after the update.
    Verify,
}

/// What the driver of a transfer must do next.
#[derive(Debug, PartialEq, Eq)]
pub enum TransferAction<'a> {
    /// Ask the keyboard for its version, retrying up to [`VERSION_RETRY_COUNT`] times.
    GetVersion,
    /// Tell the keyboard a write begins.
    WriteBegin,
    /// Ask the keyboard for its write status.
    GetWriteStatus,
    /// Send this packet of firmware.
    WritePacket(&'a [u8]),
    /// Tell the keyboard the write is complete.
    WriteEnd,
    /// The poll is over with this outcome.
    Report(Result<TransferState, ()>),
}

/// What came of the last action.
#[derive(Debug)]
pub enum TransferEvent<'v> {
    /// A new poll.
    Poll,
    /// The keyboard's version, or `None` when it did not answer.
    Version(Option<FirmwareVersion<'v>>),
    /// Whether the write, packet or end was sent.
    Sent(bool),
    /// The keyboard's write status, or `None` when the request failed.
    Status(Option<WriteStatus>),
}

/// The firmware packet that starts at `offset`: the next [`PACKET_MAX_PAYLOAD_SIZE`] bytes, or
/// what is left.
pub open spec fn chunk_at(firmware: Seq<u8>, offset: int) -> Seq<u8> {
    if offset + PACKET_MAX_PAYLOAD_SIZE <= firmware.len() {
        firmware.subrange(offset, offset + PACKET_MAX_PAYLOAD_SIZE)
    } else {
        firmware.subrange(offset, firmware.len() as int)
    }
}

/// The firmware packets from `offset` on, in order.
pub open spec fn chunks_from(firmware: Seq<u8>, offset: int) -> Seq<Seq<u8>>
    decreases firmware.len() - offset,
{
    if offset < 0 || offset >= firmware.len() {
        Seq::empty()
    } else {
        seq![chunk_at(firmware, offset)] + chunks_from(
            firmware,
            offset + chunk_at(firmware, offset).len(),
        )
    }
}

/// The packets of a firmware image laid end to end give back the image from where they start.
pub proof fn lemma_chunks_cover(firmware: Seq<u8>, offset: int)
    requires
        0 <= offset <= firmware.len(),
    ensures
        chunks_from(firmware, offset).fold_left(Seq::<u8>::empty(), |acc: Seq<u8>, c: Seq<u8>| acc + c)
            == firmware.subrange(offset, firmware.len() as int),
    decreases firmware.len() - offset,
{
    let f = |acc: Seq<u8>, c: Seq<u8>| acc + c;
    if offset == firmware.len() {
        assert(firmware.subrange(offset, firmware.len() as int) =~= Seq::<u8>::empty());
    } else {
        let c = chunk_at(firmware, offset);
        let rest = chunks_from(firmware, offset + c.len());
        lemma_chunks_cover(firmware, offset + c.len());
        lemma_fold_concat_prefix(rest, c);
        assert(chunks_from(firmware, offset) == seq![c] + rest);
        assert((seq![c] + rest).drop_first() =~= rest);
        lemma_fold_left_first(seq![c] + rest, Seq::<u8>::empty());
        assert(Seq::<u8>::empty() + c =~= c);
        assert(c + firmware.subrange(offset + c.len(), firmware.len() as int) =~= firmware.subrange(
            offset,
            firmware.len() as int,
        ));
    }
}

/// Folding concatenation from a start value puts the start value in front.
proof fn lemma_fold_concat_prefix(s: Seq<Seq<u8>>, start: Seq<u8>)
    ensures
        s.fold_left(start, |acc: Seq<u8>, c: Seq<u8>| acc + c) == start + s.fold_left(
            Seq::<u8>::empty(),
            |acc: Seq<u8>, c: Seq<u8>| acc + c,
        ),
    decreases s.len(),
{
    let f = |acc: Seq<u8>, c: Seq<u8>| acc + c;
    if s.len() == 0 {
        assert(start + Seq::<u8>::empty() =~= start);
    } else {
        lemma_fold_concat_prefix(s.drop_last(), start);
        assert(s.fold_left(start, f) == f(s.drop_last().fold_left(start, f), s.last()));
        assert(s.fold_left(Seq::<u8>::empty(), f) == f(
            s.drop_last().fold_left(Seq::<u8>::empty(), f),
            s.last(),
        ));
        assert((start + s.drop_last().fold_left(Seq::<u8>::empty(), f)) + s.last() =~= start + (
        s.drop_last().fold_left(Seq::<u8>::empty(), f) + s.last()));
    }
}

/// Folding from the left takes the first element first.
proof fn lemma_fold_left_first(s: Seq<Seq<u8>>, start: Seq<u8>)
    requires
        s.len() > 0,
    ensures
        s.fold_left(start, |acc: Seq<u8>, c: Seq<u8>| acc + c) == s.drop_first().fold_left(
            start + s[0],
            |acc: Seq<u8>, c: Seq<u8>| acc + c,
        ),
{
    s.lemma_fold_left_alt(start, |acc: Seq<u8>, c: Seq<u8>| acc + c);
    s.drop_first().lemma_fold_left_alt(start + s[0], |acc: Seq<u8>, c: Seq<u8>| acc + c);
}

/// A keyboard's firmware transfer: where it stands, what it waits for, the keyboard's address,
/// the version the keyboard should run, the firmware image, and how much of the image has
/// been sent.
pub struct Transfer<'a> {
    state: TransferState,
    phase: Phase,
    address: u8,
    version: FirmwareVersion<'a>,
    firmware: &'a [u8],
    offset: usize,
}

/// What a transfer holds apart from the keyboard's address, version and firmware.
pub struct TransferView {
    pub state: TransferState,
    pub phase: Phase,
    pub offset: int,
}

/// An action with its packet by its bytes.
pub enum TransferActionView {
    GetVersion,
    WriteBegin,
    GetWriteStatus,
    WritePacket(Seq<u8>),
    WriteEnd,
    Report(Result<TransferState, ()>),
}

impl<'a> TransferAction<'a> {
    /// This action with its packet by its bytes.
    pub open spec fn view(&self) -> TransferActionView {
        match self {
            TransferAction::GetVersion => TransferActionView::GetVersion,
            TransferAction::WriteBegin => TransferActionView::WriteBegin,
            TransferAction::GetWriteStatus => TransferActionView::GetWriteStatus,
            TransferAction::WritePacket(p) => TransferActionView::WritePacket(p@),
            TransferAction::WriteEnd => TransferActionView::WriteEnd,
            TransferAction::Report(r) => TransferActionView::Report(*r),
        }
    }
}

/// The outcome of a failed exchange: the transfer starts over.
pub open spec fn failed(t: TransferView) -> (TransferView, TransferActionView) {
    (TransferView { state: TransferState::Begin, phase: Phase::Idle, offset: t.offset }, TransferActionView::Report(Err(())))
}

/// What a transfer of `firmware`, for a keyboard that should run a version with `parts`, does
/// on an event. An event the transfer does not wait for changes nothing and ends the poll with
/// an error.
pub open spec fn transfer_step(
    parts: (u8, u8, u8, Option<Seq<u8>>),
    firmware: Seq<u8>,
    t: TransferView,
    event: TransferEvent,
) -> (TransferView, TransferActionView) {
    let idle = |s: TransferState| TransferView { state: s, phase: Phase::Idle, offset: t.offset };
    match (t.phase, event) {
        (Phase::Idle, TransferEvent::Poll) => match t.state {
            TransferState::Begin => (TransferView { phase: Phase::Version, ..t }, TransferActionView::GetVersion),
            TransferState::InProgress => (TransferView { phase: Phase::WriteStatus, ..t }, TransferActionView::GetWriteStatus),
            TransferState::Done => (t, TransferActionView::Report(Ok(TransferState::Done))),
        },
        (Phase::Version, TransferEvent::Version(v)) => match v {
            None => (idle(t.state), TransferActionView::Report(Err(()))),
            Some(kv) => if kv.parts() != parts {
                (TransferView { state: t.state, phase: Phase::WriteBegin, offset: 0 }, TransferActionView::WriteBegin)
            } else {
                (idle(t.state), TransferActionView::Report(Ok(t.state)))
            },
        },
        (Phase::WriteBegin, TransferEvent::Sent(ok)) => if ok {
            (idle(TransferState::InProgress), TransferActionView::Report(Ok(TransferState::InProgress)))
        } else {
            (idle(t.state), TransferActionView::Report(Err(())))
        },
        (Phase::WriteStatus, TransferEvent::Status(s)) => match s {
            Some(WriteStatus::Ready) => if t.offset < firmware.len() {
                let c = chunk_at(firmware, t.offset);
                (
                    TransferView { state: t.state, phase: Phase::Packet, offset: t.offset + c.len() },
                    TransferActionView::WritePacket(c),
                )
            } else {
                (TransferView { phase: Phase::WriteEnd, ..t }, TransferActionView::WriteEnd)
            },
            Some(WriteStatus::Busy) => (idle(t.state), TransferActionView::Report(Ok(t.state))),
            _ => failed(t),
        },
        (Phase::Packet, TransferEvent::Sent(ok)) => if ok {
            (idle(t.state), TransferActionView::Report(Ok(t.state)))
        } else {
            failed(t)
        },
        (Phase::WriteEnd, TransferEvent::Sent(ok)) => if ok {
            (TransferView { phase: Phase::Verify, ..t }, TransferActionView::GetVersion)
        } else {
            failed(t)
        },
        (Phase::Verify, TransferEvent::Version(v)) => if v is Some {
            (idle(TransferState::Done), TransferActionView::Report(Ok(TransferState::Done)))
        } else {
            failed(t)
        },
        _ => (t, TransferActionView::Report(Err(()))),
    }
}

impl<'a> Transfer<'a> {
    /// What this transfer holds apart from the keyboard's address, version and firmware.
    pub closed spec fn view(&self) -> TransferView {
        TransferView { state: self.state, phase: self.phase, offset: self.offset as int }
    }

    /// The keyboard's I2C address.
    pub closed spec fn spec_address(&self) -> u8 {
        self.address
    }

    /// The version the keyboard should run.
    pub closed spec fn target(&self) -> (u8, u8, u8, Option<Seq<u8>>) {
        self.version.parts()
    }

    /// The firmware image.
    pub closed spec fn image(&self) -> Seq<u8> {
        self.firmware@
    }

    /// What a transfer keeps true: no more than the image has been sent.
    pub closed spec fn wf(&self) -> bool {
        self.offset <= self.firmware@.len()
    }

    /// A transfer that starts by checking the keyboard's version.
    pub fn new(address: u8, version: FirmwareVersion<'a>, firmware: &'a [u8]) -> (r: Self)
        ensures
            r.wf(),
            r@ == (TransferView { state: TransferState::Begin, phase: Phase::Idle, offset: 0 }),
            r.spec_address() == address,
            r.target() == version.parts(),
            r.image() == firmware@,
    {
        Transfer { state: TransferState::Begin, phase: Phase::Idle, address, version, firmware, offset: 0 }
    }

    /// The keyboard's I2C address.
    pub fn address(&self) -> (r: u8)
        ensures
            r == self.spec_address(),
    {
        self.address
    }

    /// Takes what came of the last action and says what to do next.
    pub fn step(&mut self, event: TransferEvent) -> (r: TransferAction<'a>)
        requires
            old(self).wf(),
        ensures
            final(self).wf(),
            (final(self)@, r@) == transfer_step(old(self).target(), old(self).image(), old(self)@, event),
            final(self).spec_address() == old(self).spec_address(),
            final(self).target() == old(self).target(),
            final(self).image() == old(self).image(),
    {
        match (self.phase, event) {
            (Phase::Idle, TransferEvent::Poll) => match self.state {
                TransferState::Begin => {
                    self.phase = Phase::Version;
                    TransferAction::GetVersion
                },
                TransferState::InProgress => {
                    self.phase = Phase::WriteStatus;
                    TransferAction::GetWriteStatus
                },
                TransferState::Done => TransferAction::Report(Ok(TransferState::Done)),
            },
            (Phase::Version, TransferEvent::Version(v)) => {
                self.phase = Phase::Idle;
                match v {
                    None => TransferAction::Report(Err(())),
                    Some(keyboard_version) => if !keyboard_version.same_as(&self.version) {
                        self.offset = 0;
                        self.phase = Phase::WriteBegin;
                        TransferAction::WriteBegin
                    } else {
                        TransferAction::Report(Ok(self.state))
                    },
                }
            },
            (Phase::WriteBegin, TransferEvent::Sent(ok)) => {
                self.phase = Phase::Idle;
                if ok {
                    self.state = TransferState::InProgress;
                    TransferAction::Report(Ok(TransferState::InProgress))
                } else {
                    TransferAction::Report(Err(()))
                }
            },
            (Phase::WriteStatus, TransferEvent::Status(s)) => match s {
                Some(WriteStatus::Ready) => {
                    if self.offset < self.firmware.len() {
                        let start = self.offset;
                        let end = if self.firmware.len() - start >= PACKET_MAX_PAYLOAD_SIZE {
                            start + PACKET_MAX_PAYLOAD_SIZE
                        } else {
                            self.firmware.len()
                        };
                        let chunk = &self.firmware[start..end];
                        self.offset = end;
                        self.phase = Phase::Packet;
                        TransferAction::WritePacket(chunk)
                    } else {
                        self.phase = Phase::WriteEnd;
                        TransferAction::WriteEnd
                    }
                },
                Some(WriteStatus::Busy) => {
                    self.phase = Phase::Idle;
                    TransferAction::Report(Ok(self.state))
                },
                _ => self.fail(),
            },
            (Phase::Packet, TransferEvent::Sent(ok)) => {
                if ok {
                    self.phase = Phase::Idle;
                    TransferAction::Report(Ok(self.state))
                } else {
                    self.fail()
                }
            },
            (Phase::WriteEnd, TransferEvent::Sent(ok)) => {
                if ok {
                    self.phase = Phase::Verify;
                    TransferAction::GetVersion
                } else {
                    self.fail()
                }
            },
            (Phase::Verify, TransferEvent::Version(v)) => {
                if v.is_some() {
                    self.phase = Phase::Idle;
                    self.state = TransferState::Done;
                    TransferAction::Report(Ok(TransferState::Done))
                } else {
                    self.fail()
                }
            },
            _ => TransferAction::Report(Err(())),
        }
    }

    /// Starts over after a failed exchange.
    fn fail(&mut self) -> (r: TransferAction<'a>)
        ensures
            (final(self)@, r@) == failed(old(self)@),
            final(self).offset == old(self).offset,
            final(self).address == old(self).address,
            final(self).version == old(self).version,
            final(self).firmware == old(self).firmware,
    {
        self.state = TransferState::Begin;
        self.phase = Phase::Idle;
        TransferAction::Report(Err(()))
    }
}

} // verus!
