# concertina

The firmware logic of a MIDI anglo concertina, written in Verus and verified against its
contracts.

- `src/` is the library: firmware version strings, the I2C protocol between the controller and
  its keyboards, MIDI and USB-MIDI messages, the MIDI file dump receivers that take firmware
  updates, the flash page writer, and the state machines of the controller and the keyboards.
  Each state machine says what to do next; it does no I/O itself.
- `app/` is ordinary Rust around it: the `bin2syx` program that packages a firmware image as a
  `.syx` file dump, and the drivers that perform the state machines' actions with the
  instrument's buses, flash and timers, together with the floating-point volume curve and
  breathing light.
- `tests/` runs the library on concrete inputs.

The ring buffers of the `circular_buffer` crate are used through a few trusted wrappers in
`src/ring.rs`, whose contracts restate the crate's behaviour.
