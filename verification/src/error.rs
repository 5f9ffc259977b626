//! Error taxonomy of the controller.
//!
//! Parse failures are reported by the value parser; all other variants are
//! produced while encoding a command or sending the report.  USB-layer
//! failures are carried as [`UsbFault`], the library's own rendering of the
//! transport error codes, so that contracts and the claim state machine can
//! speak about them.

use vstd::prelude::*;

verus! {

/// Failure of the value parser: a malformed token, or a numeric value above
/// the bound that the target kind allows.
#[derive(Debug, PartialEq, Eq)]
pub enum ParseError {
    /// The token is neither a known alias nor a well-formed number.
    InvalidFormat(String),
    /// The token parsed to a number above the allowed bound: `(value, bound)`.
    OutOfRange(u8, u8),
}

/// A structural violation of a command's arguments.
#[derive(Debug, Clone, Copy, PartialEq, Eq, Structural)]
pub enum ArgFault {
    /// `Buzzer` was given exactly one of the two pitch nibbles.
    UnpairedPitch,
    /// A raw report was given a byte count other than eight.
    ReportLength,
    /// A light command named a color index above four.
    ColorOutOfRange,
}

/// A USB transport failure, as the library models it.  The transport adapter
/// translates the host-controller library's error codes into these variants;
/// the claim state machine only distinguishes `Busy` from the rest.
#[derive(Debug, Clone, Copy, PartialEq, Eq, Structural)]
pub enum UsbFault {
    Io,
    InvalidParam,
    Access,
    NoDevice,
    NotFound,
    Busy,
    Timeout,
    Overflow,
    Pipe,
    Interrupted,
    NoMem,
    NotSupported,
    BadDescriptor,
    Other,
}

/// Top-level failure of one controller invocation.
#[derive(Debug, Clone, Copy, PartialEq, Eq, Structural)]
pub enum ControlError {
    /// No device with the expected vendor/product id is attached.
    DeviceNotFound,
    /// A command-specific structural violation; never retried.
    InvalidArg(ArgFault),
    /// A USB-layer failure (busy after exhausted retries, permission,
    /// disconnect, stall); fatal.
    Usb(UsbFault),
    /// The transport accepted fewer than eight bytes; fatal, never retried.
    ShortWrite,
}

} // verus!
