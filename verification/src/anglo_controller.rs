//! The anglo concertina's controller: it reads the two keyboards and the bellows over I2C,
//! turns button presses into MIDI notes according to the bellows' direction, keeps the
//! keyboards' firmware in step with its own, and takes firmware updates over USB.
pub mod bellows;
pub mod keymap;
pub mod mode;
pub mod notes;
pub mod keyboard;
pub mod i2c_transfer;
pub mod usb;
pub mod led;
