//! A keyboard of the anglo concertina: it scans its fifteen hall-effect buttons one at a time
//! through an analog multiplexer, answers the controller's I2C requests, and takes firmware
//! updates from it.
//!
//! The decisions are here; whoever drives them reads the sensors, talks on the bus and writes
//! the flash.
use vstd::prelude::*;
use crate::i2c_proto::{Command as I2cCommand, DeviceError, WriteStatus, PACKET_MAX_PAYLOAD_SIZE};

verus! {

/// The number of buttons on a keyboard.
pub const BUTTON_COUNT: usize = 15;

/// The number of select lines of the multiplexer.
pub const MUX_PIN_COUNT: usize = 4;

/// Sensor readings below this count as a pressed button: the magnet is near.
pub const PRESS_THRESHOLD: u16 = 600;

/// Whether button `i` is pressed in a button state.
pub open spec fn pressed(state: u16, i: int) -> bool {
    (state >> (i as u16)) & 1u16 == 1u16
}

/// The button state after button `i` was read as `raw`: its bit is set when the reading is
/// below the threshold and cleared otherwise; the other bits stay.
pub fn scan_update(state: u16, i: usize, raw: u16) -> (r: u16)
    requires
        i < BUTTON_COUNT,
    ensures
        pressed(r, i as int) == (raw < PRESS_THRESHOLD),
        forall|j: int| 0 <= j < 16 && j != i ==> pressed(r, j) == pressed(state, j),
{
    let k: u16 = i as u16;
    let r = if raw < PRESS_THRESHOLD {
        state | (1u16 << k)
    } else {
        state & !(1u16 << k)
    };
    proof {
        assert(forall|j: u16| j < 16 && j != k ==> (((state | (1u16 << k)) >> j) & 1u16) == ((state >> j) & 1u16)) by (bit_vector)
            requires
                k < 15,
        ;
        assert(forall|j: u16| j < 16 && j != k ==> (((state & !(1u16 << k)) >> j) & 1u16) == ((state >> j) & 1u16)) by (bit_vector)
            requires
                k < 15,
        ;
        assert((((state | (1u16 << k)) >> k) & 1u16) == 1u16) by (bit_vector)
            requires
                k < 15,
        ;
        assert((((state & !(1u16 << k)) >> k) & 1u16) == 0u16) by (bit_vector)
            requires
                k < 15,
        ;
        assert forall|j: int| 0 <= j < 16 && j != i implies pressed(r, j) == pressed(state, j) by {
            let jj = j as u16;
            assert(jj < 16 && jj != k);
        }
    }
    r
}

/// The button scanned after button `i`: the buttons are scanned round and round.
pub fn next_button(i: usize) -> (r: usize)
    requires
        i < BUTTON_COUNT,
    ensures
        r == (i + 1) % (BUTTON_COUNT as int),
        r < BUTTON_COUNT,
{
    (i + 1) % BUTTON_COUNT
}

/// The levels of the multiplexer's select lines for a channel: line `b` is high when bit `b`
/// of the channel is set.
pub fn mux_levels(index: usize) -> (r: [bool; 4])
    ensures
        forall|b: int| 0 <= b < 4 ==> r@[b] == ((index >> (b as usize)) & 1usize == 1usize),
{
    let mut r = [false; 4];
    let mut bit: usize = 0;
    while bit < MUX_PIN_COUNT
        invariant
            bit <= 4,
            r@.len() == 4,
            forall|b: int| 0 <= b < bit ==> r@[b] == ((index >> (b as usize)) & 1usize == 1usize),
        decreases 4 - bit,
    {
        r[bit] = (index >> bit) & 1 == 1;
        bit += 1;
    }
    r
}

/// What a keyboard is doing.
#[derive(Debug, Clone, Copy, PartialEq, Eq, Structural)]
pub enum Mode {
    /// Scanning its buttons.
    ScanButtons,
    /// Taking a firmware update.
    UpgradeFirmware,
}

/// A step of a firmware update, as the keyboard's update task takes it.
#[derive(Debug, Clone, Copy, PartialEq, Eq)]
pub enum Command {
    Begin,
    Write { data: [u8; 252], length: usize },
    End,
}

/// How the update task last fared.
#[derive(Debug, Clone, Copy, PartialEq, Eq, Structural)]
pub enum UpdateStatus {
    Good,
    Failed,
}

/// What a keyboard sends when the controller reads from it next.
#[derive(Debug, Clone, Copy, PartialEq, Eq, Structural)]
pub enum ReadResponse {
    Buttons,
    Version,
    WriteStatus,
}

/// The write status a keyboard reports: ready for the next packet while it takes an update
/// that is going well and its queue of update steps has room, busy while the queue is full,
/// and cancel otherwise.
pub open spec fn write_status_for(mode: Mode, update: UpdateStatus, queue_full: bool) -> WriteStatus {
    if mode == Mode::UpgradeFirmware && update == UpdateStatus::Good {
        if queue_full {
            WriteStatus::Busy
        } else {
            WriteStatus::Ready
        }
    } else {
        WriteStatus::Cancel
    }
}

/// The write status a keyboard reports.
pub fn write_status(mode: Mode, update: UpdateStatus, queue_full: bool) -> (r: WriteStatus)
    ensures
        r == write_status_for(mode, update, queue_full),
{
    match (mode, update) {
        (Mode::UpgradeFirmware, UpdateStatus::Good) => if queue_full {
            WriteStatus::Busy
        } else {
            WriteStatus::Ready
        },
        _ => WriteStatus::Cancel,
    }
}

/// What a keyboard does about a command from the controller.
#[derive(Debug, Clone, Copy, PartialEq, Eq)]
pub enum KeyboardAction {
    /// Nothing.
    Ignore,
    /// Switch to taking an update, queue its beginning, and wait until the update task is
    /// fine.
    BeginUpdate,
    /// Queue this step of the update.
    Queue(Command),
    /// Give up any update and go back to scanning.
    Cancel,
}

/// How a keyboard answers the controller: what it sends on the next read.
pub struct Responder {
    next_read: ReadResponse,
}

/// What a keyboard does on a command, in a mode: the response for the next read and the
/// action.
pub open spec fn command_spec<E>(next: ReadResponse, mode: Mode, command: Result<I2cCommand, DeviceError<E>>) -> (
    ReadResponse,
    KeyboardAction,
) {
    match command {
        Ok(I2cCommand::GetVersion) => (ReadResponse::Version, KeyboardAction::Ignore),
        Ok(I2cCommand::GetWriteStatus) => (ReadResponse::WriteStatus, KeyboardAction::Ignore),
        Ok(I2cCommand::WriteBegin) => (next, KeyboardAction::BeginUpdate),
        Ok(I2cCommand::WritePacket { data, length }) => (
            next,
            if mode == Mode::UpgradeFirmware {
                KeyboardAction::Queue(Command::Write { data, length })
            } else {
                KeyboardAction::Ignore
            },
        ),
        Ok(I2cCommand::WriteEnd) => (
            next,
            if mode == Mode::UpgradeFirmware {
                KeyboardAction::Queue(Command::End)
            } else {
                KeyboardAction::Ignore
            },
        ),
        Err(_) => (next, KeyboardAction::Cancel),
    }
}

impl Responder {
    /// What the keyboard sends on the next read.
    pub closed spec fn next(&self) -> ReadResponse {
        self.next_read
    }

    /// A keyboard answers reads with its buttons until asked for something else.
    pub fn new() -> (r: Self)
        ensures
            r.next() == ReadResponse::Buttons,
    {
        Responder { next_read: ReadResponse::Buttons }
    }

    /// The controller reads: what to send. Afterwards reads get the buttons again.
    pub fn read(&mut self) -> (r: ReadResponse)
        ensures
            r == old(self).next(),
            final(self).next() == ReadResponse::Buttons,
    {
        let r = self.next_read;
        self.next_read = ReadResponse::Buttons;
        r
    }

    /// The controller wrote a command, read as `command`, while the keyboard is in `mode`.
    pub fn command<E>(&mut self, mode: Mode, command: Result<I2cCommand, DeviceError<E>>) -> (r: KeyboardAction)
        ensures
            (final(self).next(), r) == command_spec(old(self).next(), mode, command),
    {
        match command {
            Ok(I2cCommand::GetVersion) => {
                self.next_read = ReadResponse::Version;
                KeyboardAction::Ignore
            },
            Ok(I2cCommand::GetWriteStatus) => {
                self.next_read = ReadResponse::WriteStatus;
                KeyboardAction::Ignore
            },
            Ok(I2cCommand::WriteBegin) => KeyboardAction::BeginUpdate,
            Ok(I2cCommand::WritePacket { data, length }) => {
                if mode == Mode::UpgradeFirmware {
                    KeyboardAction::Queue(Command::Write { data, length })
                } else {
                    KeyboardAction::Ignore
                }
            },
            Ok(I2cCommand::WriteEnd) => {
                if mode == Mode::UpgradeFirmware {
                    KeyboardAction::Queue(Command::End)
                } else {
                    KeyboardAction::Ignore
                }
            },
            Err(_) => KeyboardAction::Cancel,
        }
    }
}

/// The payload of a queued write: its first `length` bytes.
pub fn write_payload(data: &[u8; 252], length: usize) -> (r: &[u8])
    requires
        length <= PACKET_MAX_PAYLOAD_SIZE,
    ensures
        r@ == data@.subrange(0, length as int),
{
    &data[0..length]
}

} // verus!
