//! The bellows: which way they move and how hard, as the pressure sensor between them reports
//! it.
use vstd::prelude::*;

verus! {

/// The largest magnitude a bellows state holds: fourteen bits, as two 7-bit MIDI values carry.
pub const MAX_MAGNITUDE: i16 = 0x3FFF;

/// Which way the bellows move.
#[derive(Debug, Clone, Copy, PartialEq, Eq, Structural)]
pub enum Direction {
    Push,
    Pull,
    Still,
}

/// How the bellows move: positive when pushed, negative when pulled, by at most
/// [`MAX_MAGNITUDE`] either way.
#[derive(Debug, Clone, Copy, PartialEq, Eq)]
pub struct State {
    value: i16,
}

/// The absolute value of `v`.
pub open spec fn abs(v: int) -> int {
    if v < 0 {
        -v
    } else {
        v
    }
}

/// The direction of a bellows value.
pub open spec fn direction_of(v: int) -> Direction {
    if v > 0 {
        Direction::Push
    } else if v < 0 {
        Direction::Pull
    } else {
        Direction::Still
    }
}

impl State {
    /// The signed bellows value.
    pub closed spec fn value(&self) -> int {
        self.value as int
    }

    #[verifier::type_invariant]
    spec fn bounded(self) -> bool {
        -MAX_MAGNITUDE <= self.value <= MAX_MAGNITUDE
    }

    /// Still bellows.
    pub fn default() -> (r: Self)
        ensures
            r.value() == 0,
    {
        State { value: 0 }
    }

    /// The bellows state with this value, as a pressure reading scales it.
    pub fn from_value(value: i16) -> (r: Self)
        requires
            -MAX_MAGNITUDE <= value <= MAX_MAGNITUDE,
        ensures
            r.value() == value,
    {
        State { value }
    }

    /// Which way the bellows move.
    pub fn direction(&self) -> (r: Direction)
        ensures
            r == direction_of(self.value()),
    {
        if self.value > 0 {
            Direction::Push
        } else if self.value < 0 {
            Direction::Pull
        } else {
            Direction::Still
        }
    }

    /// The upper seven bits of the magnitude.
    pub fn magnitude_msb(&self) -> (r: u8)
        ensures
            r == abs(self.value()) / 128,
            r <= 0x7F,
    {
        proof {
            use_type_invariant(self);
        }
        let m: i16 = if self.value < 0 { -self.value } else { self.value };
        let r = ((m >> 7u32) & 0x7F) as u8;
        assert(0 <= m <= 0x3FFF ==> ((m >> 7u32) & 0x7F) == m / 128) by (bit_vector);
        r
    }

    /// The lower seven bits of the magnitude.
    pub fn magnitude_lsb(&self) -> (r: u8)
        ensures
            r == abs(self.value()) % 128,
    {
        proof {
            use_type_invariant(self);
        }
        let m: i16 = if self.value < 0 { -self.value } else { self.value };
        let r = (m & 0x7F) as u8;
        assert(0 <= m ==> m & 0x7F == m % 128) by (bit_vector);
        r
    }

    /// Whether two states are the same.
    pub fn same_as(&self, other: &State) -> (r: bool)
        ensures
            r == (self.value() == other.value()),
    {
        self.value == other.value
    }
}

/// The two MIDI values the bellows magnitude is sent as put it back together: the upper seven
/// bits times 128 plus the lower seven bits is the magnitude.
pub proof fn lemma_magnitude_split(value: int)
    requires
        -0x3FFF <= value <= 0x3FFF,
    ensures
        (abs(value) / 128) * 128 + abs(value) % 128 == abs(value),
        abs(value) / 128 <= 0x7F,
{
}

/// The pressure sensor's 24-bit two's complement reading, from its three data bytes, most
/// significant first.
pub open spec fn reading_value(b: Seq<u8>) -> int {
    let raw = b[0] * 65536 + b[1] * 256 + b[2];
    if raw >= 0x800000 {
        raw - 0x1000000
    } else {
        raw
    }
}

/// Decodes the pressure sensor's reading from its three data bytes.
pub fn sensor_reading(buffer: [u8; 3]) -> (r: i32)
    ensures
        r == reading_value(buffer@),
{
    let mut reading: i32 = buffer[2] as i32;
    reading = reading | ((buffer[1] as i32) << 8u32);
    reading = reading | ((buffer[0] as i32) << 16u32);
    let (b0, b1, b2) = (buffer[0], buffer[1], buffer[2]);
    assert((b2 as i32) | ((b1 as i32) << 8u32) | ((b0 as i32) << 16u32) == b0 * 65536 + b1 * 256 + b2) by (bit_vector);
    if reading & 0x0080_0000 != 0 {
        assert(0 <= reading < 0x1000000 ==> ((reading & 0x0080_0000 != 0) == (reading >= 0x800000))) by (bit_vector);
        reading = reading - 16777216;
    } else {
        assert(0 <= reading < 0x1000000 ==> ((reading & 0x0080_0000 != 0) == (reading >= 0x800000))) by (bit_vector);
    }
    reading
}

} // verus!
