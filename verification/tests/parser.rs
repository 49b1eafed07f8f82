use perptrix::indicators::error::IndicatorError;
use perptrix::indicators::parser::{parse_u32, parse_u32_from_any};

#[test]
fn test_parse_u32_valid() {
    assert!(parse_u32("42").is_ok());
    assert!(parse_u32("0").is_ok());
}

#[test]
fn test_parse_u32_invalid() {
    assert!(parse_u32("abc").is_err());
    assert!(parse_u32("-5").is_err());
    assert!(parse_u32("12.5").is_err());
}

#[test]
fn parse_u32_values() {
    assert_eq!(parse_u32("42"), Ok(42));
    assert_eq!(parse_u32("+42"), Ok(42));
    assert_eq!(parse_u32("007"), Ok(7));
    assert_eq!(parse_u32("4294967295"), Ok(u32::MAX));
    assert_eq!(parse_u32("0000000004294967295"), Ok(u32::MAX));
    assert_eq!(
        parse_u32("4294967296"),
        Err(IndicatorError::InvalidNumericFormat("4294967296".to_string()))
    );
    assert_eq!(parse_u32(""), Err(IndicatorError::InvalidNumericFormat(String::new())));
    assert_eq!(parse_u32("+"), Err(IndicatorError::InvalidNumericFormat("+".to_string())));
    assert_eq!(parse_u32(" 1"), Err(IndicatorError::InvalidNumericFormat(" 1".to_string())));
    assert_eq!(parse_u32("1_0"), Err(IndicatorError::InvalidNumericFormat("1_0".to_string())));
    assert_eq!(parse_u32("١"), Err(IndicatorError::InvalidNumericFormat("١".to_string())));
}

#[test]
fn parse_u32_agrees_with_std() {
    for text in ["0", "1", "+1", "-1", "", "+", "-", "99999999999", "4294967295", "4294967296", "12a", "a12", "1.0", "++1", "0x10"] {
        assert_eq!(parse_u32(text).ok(), text.parse::<u32>().ok(), "{}", text);
    }
}

#[test]
fn parse_u32_from_displayed_values() {
    assert_eq!(parse_u32_from_any(&14u64), Ok(14));
    assert_eq!(parse_u32_from_any(&"26"), Ok(26));
    assert!(parse_u32_from_any(&-3i32).is_err());
    assert!(parse_u32_from_any(&12.5f64).is_err());
}
