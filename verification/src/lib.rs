//! Controller logic for a USB signal tower / buzzer device.
//!
//! The library covers the command-to-report encoding model (bit-packing of
//! LED, buzzer and pitch nibbles into the fixed 8-byte HID output report),
//! the token parser with its alias tables, and the bounded-retry state
//! machine used to claim the device's single USB interface.  The USB
//! transport itself (device enumeration, interrupt transfers) and the
//! command-line grammar are external collaborators and live outside this
//! crate.

pub mod claim;
pub mod error;
pub mod parse;
pub mod report;
