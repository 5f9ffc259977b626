//! The value parser: textual tokens to validated numeric fields.
//!
//! A token is first matched case-insensitively against the alias table of
//! its target kind; otherwise it is parsed as a number, hexadecimal when
//! `0x`/`0X`-prefixed and decimal otherwise.  Nibble targets require the
//! value to be at most 15, color targets at most 4, byte targets accept the
//! whole range.  Every alias starts with a letter, so an alias can never
//! collide with a numeric token and resolving aliases first loses nothing.

use vstd::prelude::*;

use crate::error::ParseError;
use crate::report::BUZZER_KEEP;
use crate::report::COLOR_BLUE;
use crate::report::COLOR_GREEN;
use crate::report::COLOR_RED;
use crate::report::COLOR_WHITE;
use crate::report::COLOR_YELLOW;
use crate::report::LED_KEEP;

verus! {

/// The largest value a nibble target accepts.
pub const NIBBLE_MAX: u8 = 0x0F;

// ---------------------------------------------------------------------------
// Numeric tokens
// ---------------------------------------------------------------------------

/// Whether `c` is a digit of the given radix (decimal digits always; for
/// radix 16 also the hex letters of either case).
pub open spec fn is_digit(c: char, radix: u32) -> bool {
    let u = c as u32;
    (48 <= u && u <= 57) || (radix == 16 && ((97 <= u && u <= 102) || (65 <= u && u <= 70)))
}

/// The numeric value of a digit character (0 for non-digits).
pub open spec fn digit_val(c: char) -> int {
    let u = c as u32;
    if 48 <= u && u <= 57 {
        u - 48
    } else if 97 <= u && u <= 102 {
        u - 97 + 10
    } else if 65 <= u && u <= 70 {
        u - 65 + 10
    } else {
        0
    }
}

/// The value of a digit string read most-significant first.
pub open spec fn radix_value(s: Seq<char>, radix: u32) -> int
    decreases s.len(),
{
    if s.len() == 0 {
        0
    } else {
        radix_value(s.drop_last(), radix) * radix + digit_val(s.last())
    }
}

pub open spec fn all_digits(s: Seq<char>, radix: u32) -> bool {
    forall|i: int| 0 <= i < s.len() ==> is_digit(#[trigger] s[i], radix)
}

/// A digit string may carry one optional leading `+`.
pub open spec fn strip_plus(s: Seq<char>) -> Seq<char> {
    if s.len() > 0 && s[0] == '+' {
        s.skip(1)
    } else {
        s
    }
}

/// Whether `s`, after an optional `+`, is a nonempty digit string whose
/// value fits in a byte.
pub open spec fn valid_u8_digits(s: Seq<char>, radix: u32) -> bool {
    let d = strip_plus(s);
    d.len() > 0 && all_digits(d, radix) && radix_value(d, radix) <= 255
}

pub open spec fn has_hex_prefix(s: Seq<char>) -> bool {
    s.len() >= 2 && s[0] == '0' && (s[1] == 'x' || s[1] == 'X')
}

/// The numeric value of a token: hexadecimal after a `0x`/`0X` prefix,
/// decimal otherwise; `None` when the token is malformed or above 255.
pub open spec fn spec_u8_token(s: Seq<char>) -> Option<u8> {
    if has_hex_prefix(s) {
        if valid_u8_digits(s.skip(2), 16) {
            Some(radix_value(strip_plus(s.skip(2)), 16) as u8)
        } else {
            None
        }
    } else {
        if valid_u8_digits(s, 10) {
            Some(radix_value(strip_plus(s), 10) as u8)
        } else {
            None
        }
    }
}

proof fn lemma_append_digit_ge(v: int, radix: u32, d: int)
    requires
        v >= 0,
        radix >= 1,
        d >= 0,
    ensures
        v * radix + d >= v,
{
    assert(v * radix >= v) by (nonlinear_arith)
        requires
            v >= 0,
            radix >= 1,
    ;
}

/// The numeric value of a digit character, or `None` when `c` is no digit
/// of the radix.
fn digit_value(c: char, radix: u32) -> (r: Option<u32>)
    requires
        radix == 10 || radix == 16,
    ensures
        r is Some <==> is_digit(c, radix),
        r is Some ==> r->0 == digit_val(c) && r->0 <= 15,
{
    let u = c as u32;
    if 48 <= u && u <= 57 {
        Some(u - 48)
    } else if radix == 16 && 97 <= u && u <= 102 {
        Some(u - 97 + 10)
    } else if radix == 16 && 65 <= u && u <= 70 {
        Some(u - 65 + 10)
    } else {
        None
    }
}

/// Parse a token as a byte, hexadecimal when `0x`/`0X`-prefixed, decimal
/// otherwise.  Returns exactly the token's numeric value, and
/// `InvalidFormat` carrying the token itself when it has none.
#[verifier::loop_isolation(false)]
pub fn parse_u8_any(value: &str) -> (r: Result<u8, ParseError>)
    ensures
        match spec_u8_token(value@) {
            Some(n) => r == Ok::<u8, ParseError>(n),
            None => r matches Err(e) && e matches ParseError::InvalidFormat(t) && t@ == value@,
        },
{
    let ghost s = value@;
    let len = value.unicode_len();
    let hex = len >= 2 && value.get_char(0) == '0' && (value.get_char(1) == 'x' || value.get_char(
        1,
    ) == 'X');
    let start0: usize = if hex {
        2
    } else {
        0
    };
    let radix: u32 = if hex {
        16
    } else {
        10
    };
    proof {
        assert(hex <==> has_hex_prefix(s));
    }
    let start: usize = if start0 < len && value.get_char(start0) == '+' {
        start0 + 1
    } else {
        start0
    };
    let ghost digits = s.skip(start as int);
    proof {
        if start > start0 {
            assert(s.skip(start0 as int)[0] == '+');
            assert(s.skip(start0 as int).skip(1) =~= digits);
        }
        assert(strip_plus(s.skip(start0 as int)) =~= digits);
    }
    if start >= len {
        proof {
            assert(digits.len() == 0);
        }
        return Err(ParseError::InvalidFormat(value.to_owned()));
    }
    let mut acc: u32 = 0;
    let mut over: bool = false;
    let mut i: usize = start;
    while i < len
        invariant
            start <= i <= len,
            all_digits(digits.take(i - start), radix),
            !over ==> acc <= 255 && acc == radix_value(digits.take(i - start), radix),
            over ==> radix_value(digits.take(i - start), radix) > 255,
        decreases len - i,
    {
        let c = value.get_char(i);
        proof {
            assert(digits[i - start] == c);
        }
        match digit_value(c, radix) {
            None => {
                proof {
                    assert(!is_digit(digits[i - start], radix));
                    assert(!all_digits(digits, radix));
                }
                return Err(ParseError::InvalidFormat(value.to_owned()));
            },
            Some(d) => {
                proof {
                    assert(digits.take(i - start + 1).drop_last() =~= digits.take(i - start));
                    assert(digits.take(i - start + 1).last() == digits[i - start]);
                }
                if !over {
                    acc = acc * radix + d;
                    if acc > 255 {
                        over = true;
                    }
                } else {
                    proof {
                        lemma_append_digit_ge(
                            radix_value(digits.take(i - start), radix),
                            radix,
                            digit_val(c),
                        );
                    }
                }
            },
        }
        i = i + 1;
    }
    proof {
        assert(digits.take(len - start) =~= digits);
        assert(all_digits(digits, radix));
        assert(digits.len() > 0);
        if hex {
            assert(s.skip(2) == s.skip(start0 as int));
        } else {
            assert(s.skip(start0 as int) =~= s);
        }
        if over {
            assert(radix_value(digits, radix) > 255);
            if hex {
                assert(!valid_u8_digits(s.skip(2), 16));
            } else {
                assert(!valid_u8_digits(s, 10));
            }
            assert(spec_u8_token(s) is None);
        } else {
            assert(acc == radix_value(digits, radix));
            if hex {
                assert(valid_u8_digits(s.skip(2), 16));
                assert(radix_value(strip_plus(s.skip(2)), 16) == acc);
            } else {
                assert(valid_u8_digits(s, 10));
                assert(radix_value(strip_plus(s), 10) == acc);
            }
            assert(spec_u8_token(s) == Some(acc as u8));
        }
    }
    if over {
        Err(ParseError::InvalidFormat(value.to_owned()))
    } else {
        Ok(acc as u8)
    }
}

/// Parse a byte target: any value 0..=255.
pub fn parse_byte(value: &str) -> (r: Result<u8, ParseError>)
    ensures
        match spec_u8_token(value@) {
            Some(n) => r == Ok::<u8, ParseError>(n),
            None => r matches Err(e) && e matches ParseError::InvalidFormat(t) && t@ == value@,
        },
{
    parse_u8_any(value)
}

/// Parse a nibble target: a numeric token whose value is at most 15.
pub fn parse_nibble(value: &str) -> (r: Result<u8, ParseError>)
    ensures
        match spec_u8_token(value@) {
            Some(n) => if n <= NIBBLE_MAX {
                r == Ok::<u8, ParseError>(n)
            } else {
                r == Err::<u8, ParseError>(ParseError::OutOfRange(n, NIBBLE_MAX))
            },
            None => r matches Err(e) && e matches ParseError::InvalidFormat(t) && t@ == value@,
        },
{
    match parse_u8_any(value) {
        Ok(n) => if n <= NIBBLE_MAX {
            Ok(n)
        } else {
            Err(ParseError::OutOfRange(n, NIBBLE_MAX))
        },
        Err(e) => Err(e),
    }
}

// ---------------------------------------------------------------------------
// Case-insensitive aliases
// ---------------------------------------------------------------------------

/// ASCII lowercase of one character; anything but `A`..=`Z` is unchanged.
pub open spec fn lower_char(c: char) -> char {
    let u = c as u32;
    if 65 <= u && u <= 90 {
        ((u + 32) as u8) as char
    } else {
        c
    }
}

/// ASCII lowercase of a character sequence.
pub open spec fn lower_seq(s: Seq<char>) -> Seq<char> {
    Seq::new(s.len(), |i: int| lower_char(s[i]))
}

fn lower_char_exec(c: char) -> (r: char)
    ensures
        r == lower_char(c),
{
    let u = c as u32;
    if 65 <= u && u <= 90 {
        (u as u8 + 32) as char
    } else {
        c
    }
}

/// Whether the ASCII-lowercased form of `s` is exactly `t`.
#[verifier::loop_isolation(false)]
fn eq_lower(s: &str, t: &str) -> (r: bool)
    ensures
        r <==> lower_seq(s@) == t@,
{
    let n = s.unicode_len();
    let m = t.unicode_len();
    if n != m {
        proof {
            assert(lower_seq(s@).len() != t@.len());
        }
        return false;
    }
    let mut i: usize = 0;
    while i < n
        invariant
            i <= n,
            forall|j: int| 0 <= j < i ==> lower_seq(s@)[j] == t@[j],
        decreases n - i,
    {
        let cs = lower_char_exec(s.get_char(i));
        let ct = t.get_char(i);
        if cs != ct {
            proof {
                assert(lower_seq(s@)[i as int] != t@[i as int]);
            }
            return false;
        }
        i = i + 1;
    }
    proof {
        assert(lower_seq(s@) =~= t@);
    }
    true
}

/// Lowercasing is idempotent, so alias resolution cannot distinguish a token
/// from its lowercased form.
pub proof fn lemma_lower_seq_idempotent(s: Seq<char>)
    ensures
        lower_seq(lower_seq(s)) == lower_seq(s),
{
    assert forall|i: int| 0 <= i < s.len() implies lower_seq(lower_seq(s))[i] == lower_seq(s)[i] by {
        let c = s[i];
        let u = c as u32;
        if 65 <= u && u <= 90 {
            assert(lower_char(c) as u32 == u + 32);
        }
    }
    assert(lower_seq(lower_seq(s)) =~= lower_seq(s));
}

/// The color alias table: the five color names, case-insensitively, to
/// their indices.
pub open spec fn color_alias_spec(s: Seq<char>) -> Option<u8> {
    let l = lower_seq(s);
    if l == "red"@ {
        Some(COLOR_RED)
    } else if l == "yellow"@ {
        Some(COLOR_YELLOW)
    } else if l == "green"@ {
        Some(COLOR_GREEN)
    } else if l == "blue"@ {
        Some(COLOR_BLUE)
    } else if l == "white"@ {
        Some(COLOR_WHITE)
    } else {
        None
    }
}

/// Resolve a color name alias, case-insensitively.
pub fn color_alias(value: &str) -> (r: Option<u8>)
    ensures
        r == color_alias_spec(value@),
{
    if eq_lower(value, "red") {
        Some(COLOR_RED)
    } else if eq_lower(value, "yellow") {
        Some(COLOR_YELLOW)
    } else if eq_lower(value, "green") {
        Some(COLOR_GREEN)
    } else if eq_lower(value, "blue") {
        Some(COLOR_BLUE)
    } else if eq_lower(value, "white") {
        Some(COLOR_WHITE)
    } else {
        None
    }
}

/// The LED state alias table, case-insensitive.
pub open spec fn led_state_alias_spec(s: Seq<char>) -> Option<u8> {
    let l = lower_seq(s);
    if l == "led_off"@ || l == "off"@ {
        Some(0x0)
    } else if l == "led_on"@ || l == "on"@ || l == "solid"@ {
        Some(0x1)
    } else if l == "led_pattern1"@ || l == "pattern1"@ {
        Some(0x2)
    } else if l == "led_pattern2"@ || l == "pattern2"@ {
        Some(0x3)
    } else if l == "led_pattern3"@ || l == "pattern3"@ {
        Some(0x4)
    } else if l == "led_pattern4"@ || l == "pattern4"@ {
        Some(0x5)
    } else if l == "led_keep"@ || l == "keep"@ {
        Some(LED_KEEP)
    } else {
        None
    }
}

/// Resolve an LED state alias, case-insensitively.
pub fn led_state_alias(value: &str) -> (r: Option<u8>)
    ensures
        r == led_state_alias_spec(value@),
{
    if eq_lower(value, "led_off") || eq_lower(value, "off") {
        Some(0x0)
    } else if eq_lower(value, "led_on") || eq_lower(value, "on") || eq_lower(value, "solid") {
        Some(0x1)
    } else if eq_lower(value, "led_pattern1") || eq_lower(value, "pattern1") {
        Some(0x2)
    } else if eq_lower(value, "led_pattern2") || eq_lower(value, "pattern2") {
        Some(0x3)
    } else if eq_lower(value, "led_pattern3") || eq_lower(value, "pattern3") {
        Some(0x4)
    } else if eq_lower(value, "led_pattern4") || eq_lower(value, "pattern4") {
        Some(0x5)
    } else if eq_lower(value, "led_keep") || eq_lower(value, "keep") {
        Some(LED_KEEP)
    } else {
        None
    }
}

/// The buzzer pattern alias table, case-insensitive.
pub open spec fn buzzer_alias_spec(s: Seq<char>) -> Option<u8> {
    let l = lower_seq(s);
    if l == "buzz_off"@ || l == "buzzer_off"@ || l == "off"@ {
        Some(0x0)
    } else if l == "buzz_on"@ || l == "buzzer_on"@ || l == "on"@ {
        Some(0x1)
    } else if l == "buzz_pattern1"@ || l == "pattern1"@ {
        Some(0x2)
    } else if l == "buzz_pattern2"@ || l == "pattern2"@ {
        Some(0x3)
    } else if l == "buzz_pattern3"@ || l == "pattern3"@ {
        Some(0x4)
    } else if l == "buzz_pattern4"@ || l == "pattern4"@ {
        Some(0x5)
    } else if l == "buzzer_keep"@ || l == "keep"@ {
        Some(BUZZER_KEEP)
    } else {
        None
    }
}

/// Resolve a buzzer pattern alias, case-insensitively.
pub fn buzzer_alias(value: &str) -> (r: Option<u8>)
    ensures
        r == buzzer_alias_spec(value@),
{
    if eq_lower(value, "buzz_off") || eq_lower(value, "buzzer_off") || eq_lower(value, "off") {
        Some(0x0)
    } else if eq_lower(value, "buzz_on") || eq_lower(value, "buzzer_on") || eq_lower(value, "on") {
        Some(0x1)
    } else if eq_lower(value, "buzz_pattern1") || eq_lower(value, "pattern1") {
        Some(0x2)
    } else if eq_lower(value, "buzz_pattern2") || eq_lower(value, "pattern2") {
        Some(0x3)
    } else if eq_lower(value, "buzz_pattern3") || eq_lower(value, "pattern3") {
        Some(0x4)
    } else if eq_lower(value, "buzz_pattern4") || eq_lower(value, "pattern4") {
        Some(0x5)
    } else if eq_lower(value, "buzzer_keep") || eq_lower(value, "keep") {
        Some(BUZZER_KEEP)
    } else {
        None
    }
}

/// Alias resolution is case-insensitive: every alias table resolves a token
/// exactly as it resolves the token's ASCII-lowercased form.
pub proof fn lemma_alias_case_insensitive(s: Seq<char>)
    ensures
        color_alias_spec(s) == color_alias_spec(lower_seq(s)),
        led_state_alias_spec(s) == led_state_alias_spec(lower_seq(s)),
        buzzer_alias_spec(s) == buzzer_alias_spec(lower_seq(s)),
{
    lemma_lower_seq_idempotent(s);
}

// ---------------------------------------------------------------------------
// Parsers with alias tables
// ---------------------------------------------------------------------------

/// Parse a color: an alias resolves first, otherwise a numeric token at
/// most 4.
pub fn parse_color(value: &str) -> (r: Result<u8, ParseError>)
    ensures
        color_alias_spec(value@) matches Some(n) ==> r == Ok::<u8, ParseError>(n),
        color_alias_spec(value@) is None ==> match spec_u8_token(value@) {
            Some(n) => if n <= COLOR_WHITE {
                r == Ok::<u8, ParseError>(n)
            } else {
                r == Err::<u8, ParseError>(ParseError::OutOfRange(n, COLOR_WHITE))
            },
            None => r matches Err(e) && e matches ParseError::InvalidFormat(t) && t@ == value@,
        },
{
    if let Some(alias) = color_alias(value) {
        return Ok(alias);
    }
    match parse_u8_any(value) {
        Ok(n) => if n <= COLOR_WHITE {
            Ok(n)
        } else {
            Err(ParseError::OutOfRange(n, COLOR_WHITE))
        },
        Err(e) => Err(e),
    }
}

/// Parse an LED state: an alias resolves first, otherwise a nibble.
pub fn parse_led_state(value: &str) -> (r: Result<u8, ParseError>)
    ensures
        led_state_alias_spec(value@) matches Some(n) ==> r == Ok::<u8, ParseError>(n),
        led_state_alias_spec(value@) is None ==> match spec_u8_token(value@) {
            Some(n) => if n <= NIBBLE_MAX {
                r == Ok::<u8, ParseError>(n)
            } else {
                r == Err::<u8, ParseError>(ParseError::OutOfRange(n, NIBBLE_MAX))
            },
            None => r matches Err(e) && e matches ParseError::InvalidFormat(t) && t@ == value@,
        },
{
    if let Some(alias) = led_state_alias(value) {
        return Ok(alias);
    }
    parse_nibble(value)
}

/// Parse a buzzer pattern: an alias resolves first, otherwise a nibble.
pub fn parse_buzzer_pattern(value: &str) -> (r: Result<u8, ParseError>)
    ensures
        buzzer_alias_spec(value@) matches Some(n) ==> r == Ok::<u8, ParseError>(n),
        buzzer_alias_spec(value@) is None ==> match spec_u8_token(value@) {
            Some(n) => if n <= NIBBLE_MAX {
                r == Ok::<u8, ParseError>(n)
            } else {
                r == Err::<u8, ParseError>(ParseError::OutOfRange(n, NIBBLE_MAX))
            },
            None => r matches Err(e) && e matches ParseError::InvalidFormat(t) && t@ == value@,
        },
{
    if let Some(alias) = buzzer_alias(value) {
        return Ok(alias);
    }
    parse_nibble(value)
}

} // verus!
