//! The I2C protocol between the instrument's controller and its keyboards. The controller
//! reads button states, asks for firmware versions and write status, and streams firmware
//! updates to a keyboard in packets; every command and every multi-byte answer carries a check
//! so that corrupted transfers are noticed.
//!
//! The transfers themselves belong to whoever drives the bus; this module builds the messages
//! that go out and decodes the ones that come back.
use vstd::prelude::*;
use crate::version::FirmwareVersion;
use crate::midi_tools::messages::sysex::{array_with_view, lemma_array_with_view};

verus! {

/// Messages are limited to 255 bytes.
pub const PACKET_MAX_SIZE: usize = 255;

/// A write packet carries up to 252 bytes of payload: the message also holds the command, its
/// complement and a checksum.
pub const PACKET_MAX_PAYLOAD_SIZE: usize = 252;

/// Asks a keyboard for its firmware version.
pub const GET_VERSION: u8 = 0x00;
/// Asks a keyboard whether it takes the next firmware packet.
pub const GET_WRITE_STATUS: u8 = 0x01;
/// Starts a firmware write.
pub const WRITE_BEGIN: u8 = 0x02;
/// Carries a packet of firmware.
pub const WRITE_PACKET: u8 = 0x03;
/// Completes a firmware write.
pub const WRITE_END: u8 = 0x04;

/// A command the controller sends to a keyboard.
#[derive(Debug, PartialEq, Eq, Clone, Copy)]
pub enum Command {
    GetVersion,
    GetWriteStatus,
    WriteBegin,
    WritePacket { data: [u8; 252], length: usize },
    WriteEnd,
}

/// Whether a keyboard takes the next firmware packet.
#[derive(Debug, PartialEq, Eq, Clone, Copy)]
pub enum WriteStatus {
    Ready,
    Busy,
    Cancel,
}

/// What can go wrong on the controller's side.
#[derive(Debug, PartialEq, Eq, Clone, Copy)]
pub enum ControllerError<CommError> {
    /// An answer failed its check.
    CorruptMessage,
    /// The transfer failed.
    Communication(CommError),
}

/// What can go wrong on a keyboard's side.
#[derive(Debug, PartialEq, Eq, Clone, Copy)]
pub enum DeviceError<CommError> {
    ShortMessage(usize),
    LongMessage(usize),
    UnknownCommand(u8),
    CorruptCommand,
    CorruptMessage,
    EmptyPacket,
    Communication(CommError),
}

impl<E> ControllerError<E> {
    /// A transfer error, wrapped.
    pub fn from(value: E) -> (r: Self)
        ensures
            r == ControllerError::Communication(value),
    {
        ControllerError::Communication(value)
    }
}

impl<E> DeviceError<E> {
    /// A transfer error, wrapped.
    pub fn from(value: E) -> (r: Self)
        ensures
            r == DeviceError::Communication(value),
    {
        DeviceError::Communication(value)
    }
}

/// The controller's end of the bus: the transport it sends commands over and reads answers
/// from.
pub struct Controller<IO> {
    pub io: IO,
}

impl<IO> Controller<IO> {
    /// A controller that talks over `io`.
    pub fn new(io: IO) -> (r: Self)
        ensures
            r.io == io,
    {
        Controller { io }
    }
}

/// A keyboard's end of the bus: the transport it listens on and answers over.
pub struct Device<IO> {
    pub io: IO,
}

impl<IO> Device<IO> {
    /// A device that talks over `io`.
    pub fn new(io: IO) -> (r: Self)
        ensures
            r.io == io,
    {
        Device { io }
    }
}

/// The sum of the bytes, wrapping around at 256.
pub open spec fn byte_sum(s: Seq<u8>) -> u8
    decreases s.len(),
{
    if s.len() == 0 {
        0
    } else {
        ((byte_sum(s.drop_last()) + s.last()) % 256) as u8
    }
}

/// The wrapping sum of a run of bytes.
fn sum_bytes(s: &[u8]) -> (r: u8)
    ensures
        r == byte_sum(s@),
{
    let mut acc: u8 = 0;
    let mut i: usize = 0;
    while i < s.len()
        invariant
            i <= s@.len(),
            acc == byte_sum(s@.subrange(0, i as int)),
        decreases s.len() - i,
    {
        assert(s@.subrange(0, i + 1).drop_last() =~= s@.subrange(0, i as int));
        acc = acc.wrapping_add(s[i]);
        i += 1;
    }
    assert(s@.subrange(0, i as int) =~= s@);
    acc
}

/// A command without payload: its code, then the code's complement.
pub open spec fn command_bytes(code: u8) -> Seq<u8> {
    seq![code, !code]
}

/// The message of a write packet command: the command and its complement, the payload, and
/// the payload's wrapping sum.
pub open spec fn write_packet_bytes(data: Seq<u8>) -> Seq<u8> {
    seq![WRITE_PACKET, !WRITE_PACKET] + data + seq![byte_sum(data)]
}

/// The answer to a version request: major, minor and patch, `*` (0x2A) for a prerelease or 0
/// for a release, then the wrapping sum of those four bytes.
pub open spec fn version_bytes(major: u8, minor: u8, patch: u8, prerelease: bool) -> Seq<u8> {
    let body = seq![major, minor, patch, if prerelease { 0x2Au8 } else { 0u8 }];
    body + seq![byte_sum(body)]
}

/// The number of a write status as it is sent.
pub open spec fn write_status_code(s: WriteStatus) -> u8 {
    match s {
        WriteStatus::Ready => 0,
        WriteStatus::Busy => 1,
        WriteStatus::Cancel => 2,
    }
}

/// The write status a number stands for; a number that stands for none counts as a cancel.
pub open spec fn write_status_from_code(code: u8) -> WriteStatus {
    if code == 0 {
        WriteStatus::Ready
    } else if code == 1 {
        WriteStatus::Busy
    } else {
        WriteStatus::Cancel
    }
}

/// The payload of a write packet, zero-filled to the largest payload.
pub open spec fn pad_payload(s: Seq<u8>) -> Seq<u8> {
    s + Seq::new((252 - s.len()) as nat, |i: int| 0u8)
}

/// Builds a command without payload.
pub fn command_message(code: u8) -> (r: [u8; 2])
    ensures
        r@ == command_bytes(code),
{
    let r = [code, !code];
    assert(r@ =~= command_bytes(code));
    r
}

/// The button state as it is sent: two bytes, most significant first.
pub open spec fn button_bytes(buttons: u16) -> Seq<u8> {
    seq![(buttons / 256) as u8, (buttons % 256) as u8]
}

/// The button state that two bytes, most significant first, stand for.
pub open spec fn buttons_value(b: Seq<u8>) -> int {
    b[0] * 256 + b[1]
}

/// Decodes the answer to a button request.
pub fn decode_buttons(buffer: [u8; 2]) -> (r: u16)
    ensures
        r == buttons_value(buffer@),
{
    (buffer[0] as u16) * 256 + buffer[1] as u16
}

/// Encodes the button state for a button request.
pub fn encode_buttons(buttons: u16) -> (r: [u8; 2])
    ensures
        r@ == button_bytes(buttons),
{
    let r = [(buttons / 256) as u8, (buttons % 256) as u8];
    assert(r@ =~= button_bytes(buttons));
    r
}

/// What the answer to a version request reads as: major, minor, patch and whether it is a
/// prerelease, or nothing when its sum does not match.
pub open spec fn version_reading(b: Seq<u8>) -> Option<(u8, u8, u8, bool)> {
    if b[4] != byte_sum(b.subrange(0, 4)) {
        None
    } else {
        Some((b[0], b[1], b[2], b[3] != 0))
    }
}

/// Decodes the answer to a version request. A prerelease is reported as the text `*`: the
/// answer tells only that the version is one.
pub fn decode_version<E>(buffer: [u8; 5]) -> (r: Result<FirmwareVersion<'static>, ControllerError<E>>)
    ensures
        version_reading(buffer@) is None ==> r == Err::<FirmwareVersion<'static>, ControllerError<E>>(ControllerError::CorruptMessage),
        version_reading(buffer@) matches Some(t) ==> (r matches Ok(v) && (v.major, v.minor, v.patch, v.prerelease is Some) == t
            && (v.prerelease matches Some(p) ==> p@ == seq!['*'])),
{
    let check = buffer[4];
    if check != sum_bytes(&buffer[0..4]) {
        return Err(ControllerError::CorruptMessage);
    }
    let star = "*";
    proof {
        reveal_strlit("*");
    }
    Ok(FirmwareVersion {
        major: buffer[0],
        minor: buffer[1],
        patch: buffer[2],
        prerelease: if buffer[3] == 0 { None } else { Some(star) },
    })
}

/// Decodes the answer to a write status request: the status and its complement. Unknown
/// statuses count as a cancel.
pub fn decode_write_status<E>(status: [u8; 2]) -> (r: Result<WriteStatus, ControllerError<E>>)
    ensures
        status@[0] != !status@[1] ==> r == Err::<WriteStatus, ControllerError<E>>(ControllerError::CorruptMessage),
        status@[0] == !status@[1] ==> r == Ok::<WriteStatus, ControllerError<E>>(
            write_status_from_code(status@[0]),
        ),
{
    if status[0] != !status[1] {
        return Err(ControllerError::CorruptMessage);
    }
    match status[0] {
        0x00 => Ok(WriteStatus::Ready),
        0x01 => Ok(WriteStatus::Busy),
        0x02 => Ok(WriteStatus::Cancel),
        _ => Ok(WriteStatus::Cancel),
    }
}

/// Builds a write packet command for a payload of 1 to 252 bytes.
pub fn write_packet_message(data: &[u8]) -> (r: Vec<u8>)
    requires
        data@.len() > 0,
        data@.len() <= 252,
    ensures
        r@ == write_packet_bytes(data@),
        r@.len() == data@.len() + 3,
{
    let mut message: Vec<u8> = Vec::new();
    message.push(WRITE_PACKET);
    message.push(!WRITE_PACKET);
    let mut i: usize = 0;
    while i < data.len()
        invariant
            i <= data@.len(),
            message@ == seq![WRITE_PACKET, !WRITE_PACKET] + data@.subrange(0, i as int),
        decreases data.len() - i,
    {
        message.push(data[i]);
        assert(data@.subrange(0, i + 1) =~= data@.subrange(0, i as int).push(data@[i as int]));
        i += 1;
    }
    assert(data@.subrange(0, i as int) =~= data@);
    message.push(sum_bytes(data));
    message
}

/// Encodes a version for a version request.
pub fn version_message(version: &FirmwareVersion) -> (r: [u8; 5])
    ensures
        r@ == version_bytes(version.major, version.minor, version.patch, version.prerelease is Some),
{
    let prerelease: u8 = match version.prerelease {
        Some(_) => 0x2A,
        None => 0,
    };
    let body = [version.major, version.minor, version.patch, prerelease];
    let check = sum_bytes(&body);
    let r = [version.major, version.minor, version.patch, prerelease, check];
    assert(body@ =~= seq![version.major, version.minor, version.patch, prerelease]);
    assert(r@ =~= version_bytes(version.major, version.minor, version.patch, version.prerelease is Some));
    r
}

/// Encodes a write status: its number, then the number's complement.
pub fn write_status_message(status: WriteStatus) -> (r: [u8; 2])
    ensures
        r@ == command_bytes(write_status_code(status)),
{
    let byte: u8 = match status {
        WriteStatus::Ready => 0,
        WriteStatus::Busy => 1,
        WriteStatus::Cancel => 2,
    };
    command_message(byte)
}

/// The command a keyboard reads from a message of `len` bytes received into `buffer`.
pub open spec fn command_spec<E>(buffer: Seq<u8>, len: usize) -> Result<Command, DeviceError<E>> {
    if len < 2 {
        Err(DeviceError::ShortMessage(len))
    } else if len > 255 {
        Err(DeviceError::LongMessage(len))
    } else if buffer[0] != !buffer[1] {
        Err(DeviceError::CorruptCommand)
    } else if buffer[0] == GET_VERSION {
        Ok(Command::GetVersion)
    } else if buffer[0] == GET_WRITE_STATUS {
        Ok(Command::GetWriteStatus)
    } else if buffer[0] == WRITE_BEGIN {
        Ok(Command::WriteBegin)
    } else if buffer[0] == WRITE_PACKET {
        if len < 4 {
            Err(DeviceError::EmptyPacket)
        } else if buffer[len - 1] != byte_sum(buffer.subrange(2, len - 1)) {
            Err(DeviceError::CorruptMessage)
        } else {
            Ok(
                Command::WritePacket {
                    data: array_with_view::<252>(pad_payload(buffer.subrange(2, len - 1))),
                    length: (len - 3) as usize,
                },
            )
        }
    } else if buffer[0] == WRITE_END {
        Ok(Command::WriteEnd)
    } else {
        Err(DeviceError::UnknownCommand(buffer[0]))
    }
}

/// Reads the command in a message of `len` bytes that was received into `buffer`.
pub fn parse_command<E>(buffer: &[u8; 255], len: usize) -> (r: Result<Command, DeviceError<E>>)
    ensures
        r == command_spec::<E>(buffer@, len),
{
    if len < 2 {
        return Err(DeviceError::ShortMessage(len));
    }
    if len > buffer.len() {
        return Err(DeviceError::LongMessage(len));
    }
    if buffer[0] != !buffer[1] {
        return Err(DeviceError::CorruptCommand);
    }
    match buffer[0] {
        GET_VERSION => Ok(Command::GetVersion),
        GET_WRITE_STATUS => Ok(Command::GetWriteStatus),
        WRITE_BEGIN => Ok(Command::WriteBegin),
        WRITE_PACKET => {
            if len < 4 {
                return Err(DeviceError::EmptyPacket);
            }
            let check = buffer[len - 1];
            let payload = &buffer[2..len - 1];
            if check != sum_bytes(payload) {
                return Err(DeviceError::CorruptMessage);
            }
            let length = payload.len();
            let mut data = [0u8; 252];
            let mut i: usize = 0;
            while i < length
                invariant
                    length == payload@.len() <= 252,
                    i <= length,
                    forall|j: int| 0 <= j < i ==> data@[j] == payload@[j],
                    forall|j: int| i <= j < 252 ==> data@[j] == 0,
                decreases length - i,
            {
                data[i] = payload[i];
                i += 1;
            }
            proof {
                assert(payload@ =~= buffer@.subrange(2, len - 1));
                assert(data@ =~= pad_payload(buffer@.subrange(2, len - 1)));
                lemma_array_with_view(data, pad_payload(buffer@.subrange(2, len - 1)));
            }
            Ok(Command::WritePacket { data, length })
        },
        WRITE_END => Ok(Command::WriteEnd),
        unknown_code => Err(DeviceError::UnknownCommand(unknown_code)),
    }
}

/// Every command without payload that the controller sends is read back by a keyboard as
/// that command.
pub proof fn lemma_simple_commands_round_trip<E>(buffer: Seq<u8>, code: u8)
    requires
        buffer.len() == 255,
        buffer.subrange(0, 2) == command_bytes(code),
        code == GET_VERSION || code == GET_WRITE_STATUS || code == WRITE_BEGIN || code == WRITE_END,
    ensures
        command_spec::<E>(buffer, 2) == Ok::<Command, DeviceError<E>>(
            if code == GET_VERSION {
                Command::GetVersion
            } else if code == GET_WRITE_STATUS {
                Command::GetWriteStatus
            } else if code == WRITE_BEGIN {
                Command::WriteBegin
            } else {
                Command::WriteEnd
            },
        ),
{
    assert(buffer[0] == buffer.subrange(0, 2)[0]);
    assert(buffer[1] == buffer.subrange(0, 2)[1]);
    assert(!!code == code) by (bit_vector);
}

/// A write packet that the controller sends for a payload of 1 to 252 bytes is read back by a
/// keyboard as that payload, zero-filled, with its length.
pub proof fn lemma_write_packet_round_trip<E>(buffer: Seq<u8>, data: Seq<u8>)
    requires
        buffer.len() == 255,
        0 < data.len() <= 252,
        buffer.subrange(0, data.len() + 3int) == write_packet_bytes(data),
    ensures
        command_spec::<E>(buffer, (data.len() + 3) as usize) == Ok::<Command, DeviceError<E>>(
            Command::WritePacket {
                data: array_with_view::<252>(pad_payload(data)),
                length: data.len() as usize,
            },
        ),
{
    let len: int = data.len() + 3int;
    let m = write_packet_bytes(data);
    assert(buffer[0] == m[0]);
    assert(buffer[1] == m[1]);
    assert(m[1] == !WRITE_PACKET);
    assert(!0xFCu8 == 3u8) by (bit_vector);
    assert(!3u8 == 0xFCu8) by (bit_vector);
    assert(buffer[len - 1] == m[len - 1]);
    assert(buffer.subrange(2, len - 1) =~= m.subrange(2, len - 1));
    assert(m.subrange(2, len - 1) =~= data);
}

/// A version that a keyboard sends passes the controller's check and is read back with its
/// numbers and with whether it is a prerelease.
pub proof fn lemma_version_round_trip(major: u8, minor: u8, patch: u8, prerelease: bool)
    ensures
        version_reading(version_bytes(major, minor, patch, prerelease)) == Some((major, minor, patch, prerelease)),
{
    let b = version_bytes(major, minor, patch, prerelease);
    let body = seq![major, minor, patch, if prerelease { 0x2Au8 } else { 0u8 }];
    assert(b.subrange(0, 4) =~= body);
}

/// A write status that a keyboard sends passes the controller's check and is read back as
/// itself.
pub proof fn lemma_write_status_round_trip(status: WriteStatus)
    ensures
        ({
            let b = command_bytes(write_status_code(status));
            &&& b[0] == !b[1]
            &&& write_status_from_code(b[0]) == status
        }),
{
    let c = write_status_code(status);
    assert(!!c == c) by (bit_vector);
}

/// A button state that a keyboard sends is read back by the controller as itself.
pub proof fn lemma_buttons_round_trip(buttons: u16)
    ensures
        buttons_value(button_bytes(buttons)) == buttons,
{
}

} // verus!
