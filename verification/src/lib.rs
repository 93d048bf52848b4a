//! Firmware logic of a MIDI anglo concertina: firmware version strings, the I2C protocol
//! between the controller and its keyboards, MIDI and USB-MIDI message encoding and decoding,
//! the MIDI file dump receivers that take firmware updates, the page writer that puts an image
//! into flash, and the state machines that drive the controller and the keyboards. Whatever
//! talks to hardware does what the state machines here decide.
pub mod bytes;
pub mod i2c_proto;
pub mod version;
pub mod midi_tools;
pub mod ring;
pub mod midi;
pub mod sysex_reader;
pub mod concertina_controller;
pub mod anglo_controller;
pub mod anglo_keyboard;
pub mod dfu_writer;
pub mod bin2syx;
