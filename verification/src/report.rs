//! The report encoder: a deterministic, total mapping from a validated
//! command to the fixed 8-byte HID output report.
//!
//! Report layout, positionally fixed:
//! `[version, commandId, buzzerByte, pitchByte, ledRedYellow, ledGreenBlue, ledWhiteHigh, reserved]`.
//! Every multi-channel byte packs two independent 4-bit fields, high nibble
//! first.  The nibble value `0x0F` is the KEEP sentinel: "leave this
//! channel's current hardware state unchanged" (distinct from off, `0x0`).

use vstd::prelude::*;

use crate::error::ArgFault;
use crate::error::ControlError;

verus! {

pub const REPORT_LEN: usize = 8;

pub const COMMAND_VERSION: u8 = 0x00;

pub const COMMAND_ID: u8 = 0x00;

pub const COLOR_RED: u8 = 0;

pub const COLOR_YELLOW: u8 = 1;

pub const COLOR_GREEN: u8 = 2;

pub const COLOR_BLUE: u8 = 3;

pub const COLOR_WHITE: u8 = 4;

/// KEEP sentinel for one LED channel's nibble.
pub const LED_KEEP: u8 = 0x0F;

pub const LED_OFF: u8 = 0x00;

/// Both nibbles of an LED byte set to KEEP.
pub const LED_KEEP_PAIR: u8 = (LED_KEEP << 4) | LED_KEEP;

/// High nibble KEEP, low nibble zero: the white-LED byte's unused low half.
pub const LED_KEEP_HIGH: u8 = LED_KEEP << 4;

/// KEEP sentinel for the buzzer's pattern or limit nibble.
pub const BUZZER_KEEP: u8 = 0x0F;

/// Both nibbles of the buzzer byte set to KEEP.
pub const BUZZER_KEEP_PAIR: u8 = (BUZZER_KEEP << 4) | BUZZER_KEEP;

pub const BUZZER_OFF: u8 = 0x00;

/// Device default pitch pair, used when a buzzer command omits both pitches.
pub const BUZZER_PITCH_DEFAULT_A: u8 = 0x0E;

pub const BUZZER_PITCH_DEFAULT_B: u8 = 0x0F;

pub const PITCH_OFF: u8 = 0x00;

/// A validated command; exactly one variant is active per invocation and it
/// fully determines the report.
#[derive(Debug, PartialEq, Eq)]
pub enum Command {
    /// Set a single LED's state, leaving every other channel unchanged.
    Light { color: u8, state: u8 },
    /// Set all five LED channels explicitly.
    Tower { red: u8, yellow: u8, green: u8, blue: u8, white: u8 },
    /// Sound the buzzer; the pitch pair must be supplied together or not at
    /// all.
    Buzzer { pattern: u8, limit: u8, pitch_a: Option<u8>, pitch_b: Option<u8> },
    /// Turn every channel off.
    Reset,
    /// Send the given bytes verbatim; exactly eight must be supplied.
    Report { bytes: Vec<u8> },
}

/// The low four bits of `value`: what packing keeps of any nibble input.
pub open spec fn spec_nibble(value: u8) -> u8 {
    value & 0x0F
}

/// Two nibbles packed into one byte, high nibble first; both inputs are
/// masked to four bits.
pub open spec fn spec_pack(hi: u8, lo: u8) -> u8 {
    ((hi & 0x0F) << 4) | (lo & 0x0F)
}

/// The canonical report for the given field bytes: version and command id
/// are fixed at zero for this device family, as is the trailing reserved
/// byte.
pub open spec fn spec_report(buzzer: u8, pitch: u8, led_ry: u8, led_gb: u8, led_w: u8) -> Seq<u8> {
    seq![COMMAND_VERSION, COMMAND_ID, buzzer, pitch, led_ry, led_gb, led_w, 0u8]
}

/// The three LED bytes for a single-LED command: the chosen channel's nibble
/// carries the (masked) state, every other channel nibble is KEEP, and the
/// white byte's unused low nibble is zero.
pub open spec fn spec_light_leds(color: u8, state: u8) -> (u8, u8, u8) {
    let s = spec_nibble(state);
    if color == COLOR_RED {
        ((s << 4) | LED_KEEP, LED_KEEP_PAIR, LED_KEEP_HIGH)
    } else if color == COLOR_YELLOW {
        ((LED_KEEP << 4) | s, LED_KEEP_PAIR, LED_KEEP_HIGH)
    } else if color == COLOR_GREEN {
        (LED_KEEP_PAIR, (s << 4) | LED_KEEP, LED_KEEP_HIGH)
    } else if color == COLOR_BLUE {
        (LED_KEEP_PAIR, (LED_KEEP << 4) | s, LED_KEEP_HIGH)
    } else {
        (LED_KEEP_PAIR, LED_KEEP_PAIR, s << 4)
    }
}

/// Whether the command's arguments are structurally valid: the color index
/// in range, the pitch pair supplied together or not at all, a raw report of
/// exactly eight bytes.
pub open spec fn command_valid(c: Command) -> bool {
    match c {
        Command::Light { color, state } => color <= COLOR_WHITE,
        Command::Buzzer { pattern, limit, pitch_a, pitch_b } => pitch_a is Some <==> pitch_b is Some,
        Command::Report { bytes } => bytes@.len() == REPORT_LEN,
        _ => true,
    }
}

/// The error reported for a structurally invalid command.
pub open spec fn command_fault(c: Command) -> ControlError {
    match c {
        Command::Light { color, state } => ControlError::InvalidArg(ArgFault::ColorOutOfRange),
        Command::Buzzer { pattern, limit, pitch_a, pitch_b } => ControlError::InvalidArg(
            ArgFault::UnpairedPitch,
        ),
        Command::Report { bytes } => ControlError::InvalidArg(ArgFault::ReportLength),
        _ => arbitrary(),
    }
}

/// The report that a structurally valid command encodes to.
pub open spec fn spec_encode(c: Command) -> Seq<u8> {
    match c {
        Command::Light { color, state } => {
            let leds = spec_light_leds(color, state);
            spec_report(BUZZER_KEEP_PAIR, PITCH_OFF, leds.0, leds.1, leds.2)
        },
        Command::Tower { red, yellow, green, blue, white } => spec_report(
            BUZZER_KEEP_PAIR,
            PITCH_OFF,
            spec_pack(red, yellow),
            spec_pack(green, blue),
            spec_nibble(white) << 4,
        ),
        Command::Buzzer { pattern, limit, pitch_a, pitch_b } => {
            let a = if pitch_a is Some {
                pitch_a->0
            } else {
                BUZZER_PITCH_DEFAULT_A
            };
            let b = if pitch_b is Some {
                pitch_b->0
            } else {
                BUZZER_PITCH_DEFAULT_B
            };
            spec_report(
                spec_pack(limit, pattern),
                spec_pack(a, b),
                LED_KEEP_PAIR,
                LED_KEEP_PAIR,
                LED_KEEP_HIGH,
            )
        },
        Command::Reset => spec_report(BUZZER_OFF, PITCH_OFF, LED_OFF, LED_OFF, LED_OFF),
        Command::Report { bytes } => bytes@,
    }
}

/// Mask a value to its low four bits.  Packing always masks at the point of
/// use, so the encoder is safe even against a caller that skipped range
/// validation.
pub fn nibble(value: u8) -> (r: u8)
    ensures
        r == spec_nibble(value),
        r <= 0x0F,
{
    proof {
        assert(value & 0x0F <= 0x0F) by (bit_vector);
    }
    value & 0x0F
}

/// Defensive masking law: a nibble input keeps exactly its value modulo 16,
/// so values already in `0..=15` pass through packing unchanged.
pub proof fn lemma_nibble_masks(value: u8)
    ensures
        spec_nibble(value) == value % 16,
        value <= 0x0F ==> spec_nibble(value) == value,
{
    assert(value & 0x0F == value % 16) by (bit_vector);
    assert(value <= 0x0F ==> value & 0x0F == value) by (bit_vector);
}

/// Pack two nibble inputs into one byte, high nibble first, masking both.
pub fn pack_nibbles(hi: u8, lo: u8) -> (r: u8)
    ensures
        r == spec_pack(hi, lo),
{
    (nibble(hi) << 4) | nibble(lo)
}

/// Assemble the full 8-byte report from its field bytes.
pub fn build_report(buzzer: u8, pitch: u8, led_ry: u8, led_gb: u8, led_w: u8) -> (r: [u8; 8])
    ensures
        r@ == spec_report(buzzer, pitch, led_ry, led_gb, led_w),
{
    let r: [u8; 8] = [COMMAND_VERSION, COMMAND_ID, buzzer, pitch, led_ry, led_gb, led_w, 0];
    proof {
        assert(r@ =~= spec_report(buzzer, pitch, led_ry, led_gb, led_w));
    }
    r
}

/// The three LED bytes for a single-LED command; a color index above four is
/// rejected.
pub fn assemble_leds(color: u8, state: u8) -> (r: Result<(u8, u8, u8), ControlError>)
    ensures
        color <= COLOR_WHITE ==> r == Ok::<(u8, u8, u8), ControlError>(
            spec_light_leds(color, state),
        ),
        color > COLOR_WHITE ==> r == Err::<(u8, u8, u8), ControlError>(
            ControlError::InvalidArg(ArgFault::ColorOutOfRange),
        ),
{
    let s = nibble(state);
    if color == COLOR_RED {
        Ok(((s << 4) | LED_KEEP, LED_KEEP_PAIR, LED_KEEP_HIGH))
    } else if color == COLOR_YELLOW {
        Ok(((LED_KEEP << 4) | s, LED_KEEP_PAIR, LED_KEEP_HIGH))
    } else if color == COLOR_GREEN {
        Ok((LED_KEEP_PAIR, (s << 4) | LED_KEEP, LED_KEEP_HIGH))
    } else if color == COLOR_BLUE {
        Ok((LED_KEEP_PAIR, (LED_KEEP << 4) | s, LED_KEEP_HIGH))
    } else if color == COLOR_WHITE {
        Ok((LED_KEEP_PAIR, LED_KEEP_PAIR, s << 4))
    } else {
        Err(ControlError::InvalidArg(ArgFault::ColorOutOfRange))
    }
}

/// Encode a command into its report.  A structurally valid command always
/// encodes successfully, to exactly the report `spec_encode` gives; an
/// invalid one is rejected with its structural fault and nothing else is
/// reported.
pub fn encode(cmd: &Command) -> (r: Result<[u8; 8], ControlError>)
    ensures
        command_valid(*cmd) ==> (r matches Ok(rep) && rep@ == spec_encode(*cmd)),
        !command_valid(*cmd) ==> r == Err::<[u8; 8], ControlError>(command_fault(*cmd)),
{
    match cmd {
        Command::Light { color, state } => {
            match assemble_leds(*color, *state) {
                Ok((ry, gb, w)) => Ok(build_report(BUZZER_KEEP_PAIR, PITCH_OFF, ry, gb, w)),
                Err(e) => Err(e),
            }
        },
        Command::Tower { red, yellow, green, blue, white } => {
            let ry = pack_nibbles(*red, *yellow);
            let gb = pack_nibbles(*green, *blue);
            let w = nibble(*white) << 4;
            Ok(build_report(BUZZER_KEEP_PAIR, PITCH_OFF, ry, gb, w))
        },
        Command::Buzzer { pattern, limit, pitch_a, pitch_b } => {
            let (a, b): (u8, u8) = match (pitch_a, pitch_b) {
                (Some(a), Some(b)) => (*a, *b),
                (None, None) => (BUZZER_PITCH_DEFAULT_A, BUZZER_PITCH_DEFAULT_B),
                _ => {
                    return Err(ControlError::InvalidArg(ArgFault::UnpairedPitch));
                },
            };
            let buzzer = pack_nibbles(*limit, *pattern);
            let pitch = pack_nibbles(a, b);
            Ok(build_report(buzzer, pitch, LED_KEEP_PAIR, LED_KEEP_PAIR, LED_KEEP_HIGH))
        },
        Command::Reset => Ok(build_report(BUZZER_OFF, PITCH_OFF, LED_OFF, LED_OFF, LED_OFF)),
        Command::Report { bytes } => {
            if bytes.len() != REPORT_LEN {
                return Err(ControlError::InvalidArg(ArgFault::ReportLength));
            }
            let rep: [u8; 8] = [
                bytes[0],
                bytes[1],
                bytes[2],
                bytes[3],
                bytes[4],
                bytes[5],
                bytes[6],
                bytes[7],
            ];
            proof {
                assert(rep@ =~= bytes@);
            }
            Ok(rep)
        },
    }
}

} // verus!
