use dynamo_serving::text::{trimmed, NumberError, Unsigned};

#[test]
fn trimming_treats_empty_as_absent() {
    assert_eq!(trimmed(None), None);
    assert_eq!(trimmed(Some(" \t\u{a0}\u{2003}".to_string())), None);
    assert_eq!(trimmed(Some(" a b\u{3000}".to_string())), Some("a b".to_string()));
    let once = trimmed(Some("\u{85} x \u{2029}".to_string()));
    assert_eq!(once, Some("x".to_string()));
    assert_eq!(trimmed(once.clone()), once);
    // The zero-width space is not white space.
    assert_eq!(trimmed(Some("\u{200b}".to_string())), Some("\u{200b}".to_string()));
}

#[test]
fn unsigned_numbers_are_parsed_strictly() {
    assert_eq!(u16::parse_text("65535"), Ok(65535));
    assert!(u16::parse_text("65536").is_err());
    assert_eq!(u32::parse_text("+0007"), Ok(7));
    assert!(u32::parse_text("").is_err());
    assert!(u32::parse_text("+").is_err());
    assert!(u32::parse_text("-1").is_err());
    assert!(u32::parse_text(" 1").is_err());
    assert!(u64::parse_text("1_000").is_err());
    assert_eq!(u64::parse_text("18446744073709551615"), Ok(u64::MAX));
    assert!(usize::parse_text("0x10").is_err());
    assert_eq!(usize::parse_text("10"), Ok(10));
}

#[test]
fn number_errors_are_told_apart() {
    assert_eq!(u32::parse_text(""), Err(NumberError::Empty));
    for bad in ["+", "-", "-1", "++1", " 1", "1_000", "12x", "x", "\u{0661}"] {
        assert_eq!(u32::parse_text(bad), Err(NumberError::InvalidDigit), "{bad}");
    }
    assert_eq!(u16::parse_text("65536"), Err(NumberError::TooLarge));
    assert_eq!(u16::parse_text("+065536"), Err(NumberError::TooLarge));
    // The digits before the other character still fit.
    assert_eq!(u16::parse_text("65535x"), Err(NumberError::InvalidDigit));
    assert_eq!(u32::parse_text("4294967296"), Err(NumberError::TooLarge));
    assert_eq!(u64::parse_text("18446744073709551616"), Err(NumberError::TooLarge));
    assert_eq!(usize::parse_text("zero"), Err(NumberError::InvalidDigit));
}

#[test]
fn number_errors_speak_as_the_parser_does() {
    for text in ["", "+", "65536", "65535x", "99999x"] {
        let told = text.parse::<u16>().unwrap_err().to_string();
        assert_eq!(u16::parse_text(text).unwrap_err().message(), told, "{text}");
    }
}
