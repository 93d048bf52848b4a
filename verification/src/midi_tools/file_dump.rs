//! The receiving side of the MIDI file dump protocol. The receiver decides, for each system
//! exclusive message that arrives, what to send back and what to do with the file; whoever owns
//! the file and the output performs those actions and reports their outcome.
use vstd::prelude::*;
use vstd::string::StringSliceAdditionalSpecFns;
use crate::midi_tools::messages::sysex::{
    FileDumpPacketData, HandshakeData, SysEx, ALL_CALL_DEVICE_ID,
};

verus! {

/// Where a file transfer stands: who sends it, and which packet comes next.
#[derive(Debug, PartialEq, Eq, Clone, Copy)]
struct FileDumpProgress {
    source_id: u8,
    packet_num: u8,
}

impl FileDumpProgress {
    /// The number of the packet after this one; numbers wrap around after 127.
    fn next_packet(&self) -> (r: u8)
        requires
            self.packet_num < 0x80,
        ensures
            r == (self.packet_num + 1) % 0x80,
    {
        (self.packet_num + 1) % 0x80
    }
}

/// What the receiver asks for after a message arrived.
#[derive(Debug, PartialEq, Eq)]
pub enum FileDumpAction {
    /// Nothing to do.
    Ignore,
    /// Send this message.
    Send(SysEx),
    /// Send `wait`, open the file, then report the outcome to [`FileDumpReceiver::opened`].
    Open { wait: SysEx, source_id: u8 },
    /// Send `wait`, write the packet's payload to the file, then report the outcome to
    /// [`FileDumpReceiver::written`].
    Write { wait: SysEx, packet: FileDumpPacketData },
    /// Close the file; the transfer is over.
    Close,
}

/// Receives a file sent with the MIDI file dump protocol to one device ID, for one file type.
pub struct FileDumpReceiver {
    device_id: u8,
    raw_file_type: [u8; 4],
    progress: Option<FileDumpProgress>,
}

/// A message is addressed to the device when it names its ID or the ID of all devices.
pub open spec fn addressed_to(device_id: u8, target: u8) -> bool {
    target == device_id || target == ALL_CALL_DEVICE_ID
}

/// A message the receiver for `device_id` can answer: a header addressed to it names its
/// source with a seven-bit ID. Headers addressed elsewhere are ignored, whatever their source.
pub open spec fn answerable(device_id: u8, x: SysEx) -> bool {
    x matches SysEx::FileDumpHeader(h) ==> (addressed_to(device_id, h.device_id) ==> h.source_id <= 0x7F)
}

/// What the receiver does with a message: the transfer's new state (its source and the number
/// of the packet it expects next, or none), and the action it asks for.
pub open spec fn process_spec(
    device_id: u8,
    file_type: Seq<u8>,
    progress: Option<(u8, u8)>,
    x: SysEx,
) -> (Option<(u8, u8)>, FileDumpAction) {
    match x {
        SysEx::FileDumpHeader(h) => {
            if !addressed_to(device_id, h.device_id) {
                (progress, FileDumpAction::Ignore)
            } else if h.raw_file_type@ != file_type {
                (
                    progress,
                    FileDumpAction::Send(
                        SysEx::Cancel(HandshakeData { device_id: h.source_id, packet_num: 0 }),
                    ),
                )
            } else {
                (
                    progress,
                    FileDumpAction::Open {
                        wait: SysEx::Wait(HandshakeData { device_id: h.source_id, packet_num: 0 }),
                        source_id: h.source_id,
                    },
                )
            }
        },
        _ => match progress {
            None => (None, FileDumpAction::Ignore),
            Some((source_id, packet_num)) => match x {
                SysEx::FileDumpPacket(p) => {
                    if !addressed_to(device_id, p.device_id) {
                        (progress, FileDumpAction::Ignore)
                    } else if p.packet_num != packet_num {
                        (None, FileDumpAction::Send(SysEx::Cancel(HandshakeData { device_id: source_id, packet_num })))
                    } else if !p.checksum_ok {
                        (progress, FileDumpAction::Send(SysEx::Nak(HandshakeData { device_id: source_id, packet_num })))
                    } else {
                        (
                            progress,
                            FileDumpAction::Write {
                                wait: SysEx::Wait(HandshakeData { device_id: source_id, packet_num }),
                                packet: p,
                            },
                        )
                    }
                },
                SysEx::Eof(e) => {
                    if !addressed_to(device_id, e.device_id) {
                        (progress, FileDumpAction::Ignore)
                    } else {
                        (None, FileDumpAction::Close)
                    }
                },
                _ => (progress, FileDumpAction::Ignore),
            },
        },
    }
}

impl FileDumpReceiver {
    #[verifier::type_invariant]
    closed spec fn inv(self) -> bool {
        &&& self.device_id < 0x80
        &&& self.progress matches Some(p) ==> p.source_id <= 0x7F && p.packet_num <= 0x7F
    }

    /// The device ID the receiver answers to.
    pub closed spec fn device(&self) -> u8 {
        self.device_id
    }

    /// The file type the receiver accepts.
    pub closed spec fn file_type(&self) -> Seq<u8> {
        self.raw_file_type@
    }

    /// The transfer in progress: its source and the number of the packet expected next.
    pub closed spec fn progress(&self) -> Option<(u8, u8)> {
        match self.progress {
            None => None,
            Some(p) => Some((p.source_id, p.packet_num)),
        }
    }

    /// A receiver for the given device ID, below `0x80`, and a file type of exactly four
    /// bytes, each below `0x80`.
    pub fn new(device_id: u8, file_type: &str) -> (r: Self)
        requires
            device_id < 0x80,
            file_type.spec_bytes().len() == 4,
            forall|i: int| 0 <= i < 4 ==> #[trigger] file_type.spec_bytes()[i] < 0x80,
        ensures
            r.device() == device_id,
            r.file_type() == file_type.spec_bytes(),
            r.progress() is None,
    {
        let b = file_type.as_bytes();
        let raw_file_type = [b[0], b[1], b[2], b[3]];
        assert(raw_file_type@ =~= b@);
        FileDumpReceiver { device_id, raw_file_type, progress: None }
    }

    /// Whether a transfer is in progress.
    pub fn active(&self) -> (r: bool)
        ensures
            r == self.progress() is Some,
    {
        self.progress.is_some()
    }

    /// Whether a message naming `target` is addressed to this receiver.
    pub fn is_addressed(&self, target: u8) -> (r: bool)
        ensures
            r == addressed_to(self.device(), target),
    {
        target == self.device_id || target == ALL_CALL_DEVICE_ID
    }

    /// Decides what to do with a message that arrived.
    pub fn process(&mut self, sysex: SysEx) -> (r: FileDumpAction)
        requires
            answerable(old(self).device(), sysex),
        ensures
            final(self).device() == old(self).device(),
            final(self).file_type() == old(self).file_type(),
            (final(self).progress(), r) == process_spec(
                old(self).device(),
                old(self).file_type(),
                old(self).progress(),
                sysex,
            ),
    {
        proof {
            use_type_invariant(&*self);
        }
        if let SysEx::FileDumpHeader(header) = sysex {
            if !self.is_addressed(header.device_id) {
                return FileDumpAction::Ignore;
            }
            let t = header.raw_file_type;
            if t[0] != self.raw_file_type[0] || t[1] != self.raw_file_type[1] || t[2]
                != self.raw_file_type[2] || t[3] != self.raw_file_type[3] {
                return FileDumpAction::Send(SysEx::cancel(header.source_id, 0));
            }
            assert(t@ =~= self.raw_file_type@);
            return FileDumpAction::Open {
                wait: SysEx::wait(header.source_id, 0),
                source_id: header.source_id,
            };
        }
        let progress = match self.progress {
            None => return FileDumpAction::Ignore,
            Some(p) => p,
        };
        match sysex {
            SysEx::FileDumpPacket(packet) => {
                if !self.is_addressed(packet.device_id) {
                    return FileDumpAction::Ignore;
                }
                if packet.packet_num != progress.packet_num {
                    self.progress = None;
                    return FileDumpAction::Send(
                        SysEx::cancel(progress.source_id, progress.packet_num),
                    );
                }
                if !packet.checksum_ok {
                    return FileDumpAction::Send(SysEx::nak(progress.source_id, progress.packet_num));
                }
                FileDumpAction::Write {
                    wait: SysEx::wait(progress.source_id, progress.packet_num),
                    packet,
                }
            },
            SysEx::Eof(handshake) => {
                if !self.is_addressed(handshake.device_id) {
                    return FileDumpAction::Ignore;
                }
                self.progress = None;
                FileDumpAction::Close
            },
            _ => FileDumpAction::Ignore,
        }
    }

    /// Takes the outcome of opening the file for a transfer from `source_id` and returns the
    /// message to send: an acknowledgement that starts the transfer at packet 0, or a cancel
    /// that leaves the receiver as it was.
    pub fn opened(&mut self, source_id: u8, ok: bool) -> (r: SysEx)
        requires
            source_id <= 0x7F,
        ensures
            final(self).device() == old(self).device(),
            final(self).file_type() == old(self).file_type(),
            ok ==> r == SysEx::Ack(HandshakeData { device_id: source_id, packet_num: 0 })
                && final(self).progress() == Some((source_id, 0u8)),
            !ok ==> r == SysEx::Cancel(HandshakeData { device_id: source_id, packet_num: 0 })
                && final(self).progress() == old(self).progress(),
    {
        proof {
            use_type_invariant(&*self);
        }
        if !ok {
            return SysEx::cancel(source_id, 0);
        }
        self.progress = Some(FileDumpProgress { source_id, packet_num: 0 });
        SysEx::ack(source_id, 0)
    }

    /// Takes the outcome of writing the expected packet and returns the message to send: an
    /// acknowledgement of the packet, after which the next packet is expected, or a cancel
    /// that ends the transfer.
    pub fn written(&mut self, ok: bool) -> (r: SysEx)
        requires
            old(self).progress() is Some,
        ensures
            final(self).device() == old(self).device(),
            final(self).file_type() == old(self).file_type(),
            ({
                let (source_id, packet_num) = old(self).progress().unwrap();
                &&& ok ==> r == SysEx::Ack(HandshakeData { device_id: source_id, packet_num })
                    && final(self).progress() == Some((source_id, ((packet_num + 1) % 0x80) as u8))
                &&& !ok ==> r == SysEx::Cancel(HandshakeData { device_id: source_id, packet_num })
                    && final(self).progress() is None
            }),
    {
        proof {
            use_type_invariant(&*self);
        }
        let progress = match self.progress {
            Some(p) => p,
            None => {
                assert(false);
                return SysEx::cancel(0, 0);
            },
        };
        if !ok {
            self.progress = None;
            return SysEx::cancel(progress.source_id, progress.packet_num);
        }
        let next = progress.next_packet();
        self.progress = Some(FileDumpProgress { source_id: progress.source_id, packet_num: next });
        SysEx::ack(progress.source_id, progress.packet_num)
    }
}

} // verus!
