//! Control change numbers.
use vstd::prelude::*;

verus! {

/// Channel volume, upper seven bits.
pub const CHANNEL_VOLUME_MSB: u8 = 0x07;
/// Channel volume, lower seven bits.
pub const CHANNEL_VOLUME_LSB: u8 = 0x27;

} // verus!
