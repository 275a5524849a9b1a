use adsb::{ErrorKind, ICAOAddress, ParseSquawkError, ParserError, Squawk};
use std::str::FromStr;

#[test]
fn test_squawk() {
    assert_eq!(Squawk::from(22128), Squawk(86, 112));
    assert_eq!(Squawk::from_str("5670").unwrap(), Squawk(86, 112));
    assert_eq!(Squawk::from_str("5670").unwrap().to_string(), "5670");
    // 4608 1200
    assert_eq!(Squawk::from(4608), Squawk(18, 0));
    assert_eq!(Squawk::from_str("1200").unwrap(), Squawk(18, 0));
    assert_eq!(Squawk::from_str("1200").unwrap().to_string(), "1200");
}

#[test]
fn squawk_text_forms() {
    assert_eq!(Squawk::from_str("+1200"), Ok(Squawk(0x12, 0x00)));
    assert_eq!(Squawk::from_str("7"), Ok(Squawk(0, 7)));
    assert_eq!(Squawk::from_str("00007777"), Ok(Squawk(0x77, 0x77)));
    assert_eq!(Squawk::from_str("abCD"), Ok(Squawk(0xAB, 0xCD)));
    assert_eq!(Squawk::from_str("ffff"), Ok(Squawk(0xFF, 0xFF)));
    assert_eq!(Squawk::from_str(""), Err(ParseSquawkError));
    assert_eq!(Squawk::from_str("+"), Err(ParseSquawkError));
    assert_eq!(Squawk::from_str("-12"), Err(ParseSquawkError));
    assert_eq!(Squawk::from_str("12g4"), Err(ParseSquawkError));
    assert_eq!(Squawk::from_str("10000"), Err(ParseSquawkError));
    assert_eq!(Squawk::parse("7700"), Some(Squawk(0x77, 0x00)));
    assert_eq!(Squawk::parse("77 00"), None);
}

#[test]
fn squawk_and_address_as_text() {
    assert_eq!(Squawk(0x0A, 0xBC).to_string(), "0ABC");
    assert_eq!(ICAOAddress(0xA4, 0x04, 0x42).to_string(), "A40442");
    assert_eq!(ICAOAddress(0x00, 0x9F, 0xF0).to_string(), "009FF0");
}

#[test]
fn error_text_for_each_kind() {
    let kinds = [
        ErrorKind::Truncated,
        ErrorKind::UnexpectedValue,
        ErrorKind::ConstraintViolation,
        ErrorKind::ArithmeticOverflow,
        ErrorKind::CrcInputTooShort,
        ErrorKind::FramingError,
    ];
    for (i, a) in kinds.iter().enumerate() {
        let text = ParserError::new(*a).to_string();
        assert!(!text.is_empty());
        for b in kinds.iter().skip(i + 1) {
            assert_ne!(text, ParserError::new(*b).to_string());
        }
    }
    assert_eq!(
        ParserError::new(ErrorKind::Truncated).to_string(),
        "frame ends before the end of a field"
    );
}
