use ptltectl::error::ParseError;
use ptltectl::parse::buzzer_alias;
use ptltectl::parse::color_alias;
use ptltectl::parse::led_state_alias;
use ptltectl::parse::parse_buzzer_pattern;
use ptltectl::parse::parse_byte;
use ptltectl::parse::parse_color;
use ptltectl::parse::parse_led_state;
use ptltectl::parse::parse_nibble;
use ptltectl::parse::parse_u8_any;

#[test]
fn decimal_tokens() {
    assert_eq!(parse_u8_any("0"), Ok(0));
    assert_eq!(parse_u8_any("7"), Ok(7));
    assert_eq!(parse_u8_any("255"), Ok(255));
    assert_eq!(parse_u8_any("+7"), Ok(7));
}

#[test]
fn hex_tokens() {
    assert_eq!(parse_u8_any("0x0"), Ok(0));
    assert_eq!(parse_u8_any("0x1A"), Ok(26));
    assert_eq!(parse_u8_any("0Xff"), Ok(255));
    assert_eq!(parse_u8_any("0x0F"), Ok(15));
}

#[test]
fn malformed_tokens_fail() {
    assert_eq!(parse_u8_any(""), Err(ParseError::InvalidFormat(String::from(""))));
    assert_eq!(parse_u8_any("abc"), Err(ParseError::InvalidFormat(String::from("abc"))));
    assert_eq!(parse_u8_any("0x"), Err(ParseError::InvalidFormat(String::from("0x"))));
    assert_eq!(parse_u8_any("-1"), Err(ParseError::InvalidFormat(String::from("-1"))));
    assert_eq!(parse_u8_any("1 2"), Err(ParseError::InvalidFormat(String::from("1 2"))));
    assert_eq!(parse_u8_any("++7"), Err(ParseError::InvalidFormat(String::from("++7"))));
    assert_eq!(parse_u8_any("+"), Err(ParseError::InvalidFormat(String::from("+"))));
    assert_eq!(parse_u8_any("0xGG"), Err(ParseError::InvalidFormat(String::from("0xGG"))));
}

#[test]
fn oversized_tokens_fail() {
    assert_eq!(parse_u8_any("256"), Err(ParseError::InvalidFormat(String::from("256"))));
    assert_eq!(parse_u8_any("0x100"), Err(ParseError::InvalidFormat(String::from("0x100"))));
    assert_eq!(
        parse_u8_any("99999999999999999999"),
        Err(ParseError::InvalidFormat(String::from("99999999999999999999")))
    );
}

#[test]
fn byte_target_full_range() {
    assert_eq!(parse_byte("255"), Ok(255));
    assert_eq!(parse_byte("0"), Ok(0));
    assert_eq!(parse_byte("x"), Err(ParseError::InvalidFormat(String::from("x"))));
}

#[test]
fn nibble_target_bound() {
    assert_eq!(parse_nibble("15"), Ok(15));
    assert_eq!(parse_nibble("0x0F"), Ok(15));
    assert_eq!(parse_nibble("16"), Err(ParseError::OutOfRange(16, 15)));
    assert_eq!(parse_nibble("0x10"), Err(ParseError::OutOfRange(16, 15)));
}

#[test]
fn color_aliases_match_documented_values() {
    assert_eq!(color_alias("red"), Some(0));
    assert_eq!(color_alias("yellow"), Some(1));
    assert_eq!(color_alias("green"), Some(2));
    assert_eq!(color_alias("blue"), Some(3));
    assert_eq!(color_alias("white"), Some(4));
    assert_eq!(color_alias("purple"), None);
}

#[test]
fn color_aliases_case_insensitive() {
    assert_eq!(color_alias("RED"), Some(0));
    assert_eq!(color_alias("Yellow"), Some(1));
    assert_eq!(color_alias("GrEeN"), Some(2));
    assert_eq!(color_alias("BLUE"), Some(3));
    assert_eq!(color_alias("White"), Some(4));
}

#[test]
fn parse_color_alias_and_numeric_agree() {
    assert_eq!(parse_color("red"), Ok(0));
    assert_eq!(parse_color("red"), parse_color("0"));
    assert_eq!(parse_color("white"), parse_color("4"));
    assert_eq!(parse_color("4"), Ok(4));
    assert_eq!(parse_color("5"), Err(ParseError::OutOfRange(5, 4)));
    assert_eq!(parse_color("purple"), Err(ParseError::InvalidFormat(String::from("purple"))));
}

#[test]
fn led_state_aliases_match_documented_values() {
    assert_eq!(led_state_alias("led_off"), Some(0x0));
    assert_eq!(led_state_alias("off"), Some(0x0));
    assert_eq!(led_state_alias("led_on"), Some(0x1));
    assert_eq!(led_state_alias("on"), Some(0x1));
    assert_eq!(led_state_alias("solid"), Some(0x1));
    assert_eq!(led_state_alias("led_pattern1"), Some(0x2));
    assert_eq!(led_state_alias("pattern1"), Some(0x2));
    assert_eq!(led_state_alias("led_pattern2"), Some(0x3));
    assert_eq!(led_state_alias("pattern2"), Some(0x3));
    assert_eq!(led_state_alias("led_pattern3"), Some(0x4));
    assert_eq!(led_state_alias("pattern3"), Some(0x4));
    assert_eq!(led_state_alias("led_pattern4"), Some(0x5));
    assert_eq!(led_state_alias("pattern4"), Some(0x5));
    assert_eq!(led_state_alias("led_keep"), Some(0x0F));
    assert_eq!(led_state_alias("keep"), Some(0x0F));
    assert_eq!(led_state_alias("blink"), None);
}

#[test]
fn led_state_aliases_case_insensitive() {
    assert_eq!(led_state_alias("LED_KEEP"), Some(0x0F));
    assert_eq!(led_state_alias("Led_On"), Some(0x1));
    assert_eq!(led_state_alias("SOLID"), Some(0x1));
}

#[test]
fn parse_led_state_alias_equals_numeric() {
    assert_eq!(parse_led_state("led_keep"), parse_led_state("0x0F"));
    assert_eq!(parse_led_state("led_keep"), parse_led_state("15"));
    assert_eq!(parse_led_state("off"), parse_led_state("0"));
    assert_eq!(parse_led_state("7"), Ok(7));
    assert_eq!(parse_led_state("16"), Err(ParseError::OutOfRange(16, 15)));
}

#[test]
fn buzzer_aliases_match_documented_values() {
    assert_eq!(buzzer_alias("buzz_off"), Some(0x0));
    assert_eq!(buzzer_alias("buzzer_off"), Some(0x0));
    assert_eq!(buzzer_alias("off"), Some(0x0));
    assert_eq!(buzzer_alias("buzz_on"), Some(0x1));
    assert_eq!(buzzer_alias("buzzer_on"), Some(0x1));
    assert_eq!(buzzer_alias("on"), Some(0x1));
    assert_eq!(buzzer_alias("buzz_pattern1"), Some(0x2));
    assert_eq!(buzzer_alias("pattern1"), Some(0x2));
    assert_eq!(buzzer_alias("buzz_pattern2"), Some(0x3));
    assert_eq!(buzzer_alias("pattern2"), Some(0x3));
    assert_eq!(buzzer_alias("buzz_pattern3"), Some(0x4));
    assert_eq!(buzzer_alias("pattern3"), Some(0x4));
    assert_eq!(buzzer_alias("buzz_pattern4"), Some(0x5));
    assert_eq!(buzzer_alias("pattern4"), Some(0x5));
    assert_eq!(buzzer_alias("buzzer_keep"), Some(0x0F));
    assert_eq!(buzzer_alias("keep"), Some(0x0F));
    assert_eq!(buzzer_alias("chirp"), None);
}

#[test]
fn parse_buzzer_pattern_alias_equals_numeric() {
    assert_eq!(parse_buzzer_pattern("BUZZER_KEEP"), parse_buzzer_pattern("0x0F"));
    assert_eq!(parse_buzzer_pattern("buzz_on"), parse_buzzer_pattern("1"));
    assert_eq!(parse_buzzer_pattern("3"), Ok(3));
    assert_eq!(parse_buzzer_pattern("0x1F"), Err(ParseError::OutOfRange(31, 15)));
}

#[test]
fn alias_takes_priority_over_numeric() {
    // An alias that happens to bound-check differently from its numeric
    // value must still resolve through the table.
    assert_eq!(parse_led_state("keep"), Ok(0x0F));
    assert_eq!(parse_color("red"), Ok(0));
}
