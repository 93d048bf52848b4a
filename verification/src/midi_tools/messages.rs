//! MIDI messages: universal system exclusive messages and channel voice messages.
pub mod midi;
pub mod sysex;
pub mod sysex_laws;
