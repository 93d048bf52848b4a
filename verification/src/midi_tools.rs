//! MIDI tooling shared by the firmware images: message types, USB-MIDI event packets and the
//! MIDI sample/file dump receiver.
pub mod messages;
pub mod usb;
pub mod file_dump;
