//! A firmware transfer session with one keyboard, with a bounded number of restarts when the
//! keyboard cancels. A session polls the keyboard's write status only while it is not in
//! progress, and a ready keyboard gets the next packet of the data the session was last
//! restarted on.
//!
//! A [`Session`] decides; whoever drives it talks to the keyboard as the returned actions say
//! and hands back what came of each.
use vstd::prelude::*;
use crate::i2c_proto::{ControllerError, WriteStatus, PACKET_MAX_PAYLOAD_SIZE};
use crate::anglo_controller::keyboard::chunk_at;

verus! {

/// How often a session restarts a transfer that the keyboard cancelled.
pub const RESTARTS: u8 = 5;

/// Where a session stands.
#[derive(Debug, Clone, Copy, PartialEq, Eq, Structural)]
pub enum Status {
    InProgress,
    Finished,
    Failed,
}

/// What a session waits to hear back.
#[derive(Debug, Clone, Copy, PartialEq, Eq)]
pub enum SessionPhase {
    /// Nothing: the next poll starts a new exchange.
    Idle,
    /// The keyboard's write status.
    Status,
    /// Whether a packet was written.
    Packet,
    /// Whether the end of the write was sent.
    End,
    /// Whether the restarted write was begun.
    Begin,
}

/// What the driver of a session must do next.
#[derive(Debug, PartialEq, Eq)]
pub enum SessionAction<'a, E> {
    /// Ask the keyboard for its write status.
    GetWriteStatus,
    /// Send this packet.
    WritePacket(&'a [u8]),
    /// Tell the keyboard the write is complete.
    WriteEnd,
    /// Tell the keyboard a write begins.
    WriteBegin,
    /// The poll is over with this outcome.
    Report(Result<Status, ControllerError<E>>),
}

/// What came of the last action.
#[derive(Debug)]
pub enum SessionEvent<E> {
    /// A new poll.
    Poll,
    /// The answer to a write status request.
    Status(Result<WriteStatus, ControllerError<E>>),
    /// The outcome of a write.
    Sent(Result<(), ControllerError<E>>),
}

/// A firmware transfer session with one keyboard.
pub struct Session<'a> {
    address: u8,
    beginning: Option<&'a [u8]>,
    iter: Option<usize>,
    retries_remaining: u8,
    status: Status,
    phase: SessionPhase,
}

/// What a session holds apart from its address: the data it was begun with, how much of it has
/// been sent since the last restart (`None` before the first restart), the restarts left, its
/// status and what it waits for.
pub struct SessionView {
    pub beginning: Option<Seq<u8>>,
    pub iter: Option<int>,
    pub retries_remaining: int,
    pub status: Status,
    pub phase: SessionPhase,
}

/// An action with its packet by its bytes.
pub enum SessionActionView<E> {
    GetWriteStatus,
    WritePacket(Seq<u8>),
    WriteEnd,
    WriteBegin,
    Report(Result<Status, ControllerError<E>>),
}

impl<'a, E> SessionAction<'a, E> {
    /// This action with its packet by its bytes.
    pub open spec fn view(&self) -> SessionActionView<E> {
        match self {
            SessionAction::GetWriteStatus => SessionActionView::GetWriteStatus,
            SessionAction::WritePacket(p) => SessionActionView::WritePacket(p@),
            SessionAction::WriteEnd => SessionActionView::WriteEnd,
            SessionAction::WriteBegin => SessionActionView::WriteBegin,
            SessionAction::Report(r) => SessionActionView::Report(*r),
        }
    }
}

/// Whether a session can take an event: a ready keyboard can only be served once the session
/// has been restarted on its data; before that it has no packets to give.
pub open spec fn session_accepts<E>(s: SessionView, event: SessionEvent<E>) -> bool {
    (s.phase == SessionPhase::Status && event matches SessionEvent::Status(Ok(WriteStatus::Ready)))
        ==> (s.iter is Some && s.beginning is Some)
}

/// What a session does on an event. An event it does not wait for changes nothing and reports
/// its status.
pub open spec fn session_step<E>(s: SessionView, event: SessionEvent<E>) -> (SessionView, SessionActionView<E>) {
    let report = SessionActionView::Report(Ok(s.status));
    let idle = SessionView { phase: SessionPhase::Idle, ..s };
    match (s.phase, event) {
        (SessionPhase::Idle, SessionEvent::Poll) => if s.status != Status::InProgress {
            (SessionView { phase: SessionPhase::Status, ..s }, SessionActionView::GetWriteStatus)
        } else {
            (s, report)
        },
        (SessionPhase::Status, SessionEvent::Status(Ok(WriteStatus::Ready))) => {
            let data = s.beginning.unwrap();
            let offset = s.iter.unwrap();
            if offset < data.len() {
                let c = chunk_at(data, offset);
                (
                    SessionView { iter: Some(offset + c.len()), phase: SessionPhase::Packet, ..s },
                    SessionActionView::WritePacket(c),
                )
            } else {
                (SessionView { phase: SessionPhase::End, ..s }, SessionActionView::WriteEnd)
            }
        },
        (SessionPhase::Status, SessionEvent::Status(Ok(WriteStatus::Cancel))) => if s.retries_remaining > 0 {
            (
                SessionView {
                    iter: if s.beginning is Some { Some(0) } else { None },
                    retries_remaining: s.retries_remaining - 1,
                    phase: SessionPhase::Begin,
                    ..s
                },
                SessionActionView::WriteBegin,
            )
        } else {
            (
                SessionView { status: Status::Failed, phase: SessionPhase::Idle, ..s },
                SessionActionView::Report(Ok(Status::Failed)),
            )
        },
        (SessionPhase::Status, SessionEvent::Status(_)) => (idle, report),
        (SessionPhase::Packet, SessionEvent::Sent(r)) | (SessionPhase::Begin, SessionEvent::Sent(r)) => match r {
            Ok(_) => (idle, report),
            Err(e) => (idle, SessionActionView::Report(Err(e))),
        },
        (SessionPhase::End, SessionEvent::Sent(r)) => match r {
            Ok(_) => (
                SessionView { status: Status::Finished, phase: SessionPhase::Idle, ..s },
                SessionActionView::Report(Ok(Status::Finished)),
            ),
            Err(e) => (idle, SessionActionView::Report(Err(e))),
        },
        _ => (s, report),
    }
}

impl<'a> Session<'a> {
    /// What this session holds apart from its address.
    pub closed spec fn view(&self) -> SessionView {
        SessionView {
            beginning: match self.beginning {
                Some(d) => Some(d@),
                None => None,
            },
            iter: match self.iter {
                Some(o) => Some(o as int),
                None => None,
            },
            retries_remaining: self.retries_remaining as int,
            status: self.status,
            phase: self.phase,
        }
    }

    /// The keyboard's I2C address.
    pub closed spec fn spec_address(&self) -> u8 {
        self.address
    }

    /// What a session keeps true: no more of the data has been sent than there is.
    pub closed spec fn wf(&self) -> bool {
        self.iter matches Some(o) ==> (self.beginning matches Some(d) && o <= d@.len())
    }

    /// A finished session with nothing to send.
    pub fn new(address: u8) -> (r: Self)
        ensures
            r.wf(),
            r.spec_address() == address,
            r@ == (SessionView {
                beginning: None,
                iter: None,
                retries_remaining: 0,
                status: Status::Finished,
                phase: SessionPhase::Idle,
            }),
    {
        Session {
            address,
            beginning: None,
            iter: None,
            retries_remaining: 0,
            status: Status::Finished,
            phase: SessionPhase::Idle,
        }
    }

    /// Whether the session has packets to give a ready keyboard: it has been restarted on its
    /// data since it was set up.
    pub fn has_packets(&self) -> (r: bool)
        ensures
            r == (self@.iter is Some && self@.beginning is Some),
    {
        self.iter.is_some() && self.beginning.is_some()
    }

    /// Sets the session up to send `data`, with [`RESTARTS`] restarts.
    pub fn begin(&mut self, data: &'a [u8])
        requires
            old(self).wf(),
        ensures
            final(self).wf(),
            final(self).spec_address() == old(self).spec_address(),
            final(self)@ == (SessionView {
                beginning: Some(data@),
                iter: None,
                retries_remaining: RESTARTS as int,
                status: Status::InProgress,
                ..old(self)@
            }),
    {
        self.beginning = Some(data);
        self.iter = None;
        self.retries_remaining = RESTARTS;
        self.status = Status::InProgress;
    }

    /// Takes what came of the last action and says what to do next.
    pub fn step<E>(&mut self, event: SessionEvent<E>) -> (r: SessionAction<'a, E>)
        requires
            old(self).wf(),
            session_accepts(old(self)@, event),
        ensures
            final(self).wf(),
            final(self).spec_address() == old(self).spec_address(),
            (final(self)@, r@) == session_step(old(self)@, event),
    {
        match (self.phase, event) {
            (SessionPhase::Idle, SessionEvent::Poll) => {
                if self.status != Status::InProgress {
                    self.phase = SessionPhase::Status;
                    SessionAction::GetWriteStatus
                } else {
                    SessionAction::Report(Ok(self.status))
                }
            },
            (SessionPhase::Status, SessionEvent::Status(result)) => match result {
                Ok(WriteStatus::Ready) => {
                    let data = self.beginning.unwrap();
                    let offset = self.iter.unwrap();
                    if offset < data.len() {
                        let end = if data.len() - offset >= PACKET_MAX_PAYLOAD_SIZE {
                            offset + PACKET_MAX_PAYLOAD_SIZE
                        } else {
                            data.len()
                        };
                        self.iter = Some(end);
                        self.phase = SessionPhase::Packet;
                        SessionAction::WritePacket(&data[offset..end])
                    } else {
                        self.phase = SessionPhase::End;
                        SessionAction::WriteEnd
                    }
                },
                Ok(WriteStatus::Cancel) => {
                    if self.retries_remaining > 0 {
                        self.iter = match self.beginning {
                            Some(_) => Some(0),
                            None => None,
                        };
                        self.retries_remaining = self.retries_remaining - 1;
                        self.phase = SessionPhase::Begin;
                        SessionAction::WriteBegin
                    } else {
                        self.status = Status::Failed;
                        self.phase = SessionPhase::Idle;
                        SessionAction::Report(Ok(Status::Failed))
                    }
                },
                _ => {
                    self.phase = SessionPhase::Idle;
                    SessionAction::Report(Ok(self.status))
                },
            },
            (SessionPhase::Packet, SessionEvent::Sent(result)) | (SessionPhase::Begin, SessionEvent::Sent(result)) => {
                self.phase = SessionPhase::Idle;
                match result {
                    Ok(_) => SessionAction::Report(Ok(self.status)),
                    Err(e) => SessionAction::Report(Err(e)),
                }
            },
            (SessionPhase::End, SessionEvent::Sent(result)) => {
                self.phase = SessionPhase::Idle;
                match result {
                    Ok(_) => {
                        self.status = Status::Finished;
                        SessionAction::Report(Ok(Status::Finished))
                    },
                    Err(e) => SessionAction::Report(Err(e)),
                }
            },
            _ => SessionAction::Report(Ok(self.status)),
        }
    }
}

/// A session restarts at most as often as it was set up to: no event raises the number of
/// restarts left, a restart uses one up, and a session only fails once none are left.
pub proof fn lemma_restarts_bounded<E>(s: SessionView, event: SessionEvent<E>)
    ensures
        session_step(s, event).0.retries_remaining <= s.retries_remaining,
        session_step(s, event).1 is WriteBegin ==> session_step(s, event).0.retries_remaining
            == s.retries_remaining - 1,
        session_step(s, event).0.status == Status::Failed && s.status != Status::Failed
            ==> s.retries_remaining <= 0,
{
}

} // verus!
