use perptrix::decimal::{Decimal, DecimalError, SCALE};

#[test]
fn parse_reads_decimal_text() {
    assert_eq!(Decimal::parse("1"), Ok(Decimal::new(SCALE)));
    assert_eq!(Decimal::parse("123.45"), Ok(Decimal::new(12_345_000_000)));
    assert_eq!(Decimal::parse("-0.5"), Ok(Decimal::new(-50_000_000)));
    assert_eq!(Decimal::parse("+0.5"), Ok(Decimal::new(50_000_000)));
    assert_eq!(Decimal::parse("0"), Ok(Decimal::zero()));
    assert_eq!(Decimal::parse("-0"), Ok(Decimal::zero()));
    assert_eq!(Decimal::parse("007.10"), Ok(Decimal::new(710_000_000)));
    assert_eq!(Decimal::parse("0.00000001"), Ok(Decimal::new(1)));
    assert_eq!(Decimal::parse("0.000000019"), Ok(Decimal::new(1)));
    assert_eq!(Decimal::parse("45000.0"), Ok(Decimal::new(45_000 * SCALE)));
}

#[test]
fn parse_refuses_what_is_no_decimal() {
    for text in ["", "-", "+", ".", ".5", "5.", "1.2.3", "abc", "1e5", "1 ", " 1", "--1", "1,5", "NaN", "١"] {
        assert_eq!(Decimal::parse(text), Err(DecimalError::Malformed), "{}", text);
    }
}

#[test]
fn parse_knows_the_range() {
    assert_eq!(Decimal::parse("92233720368.54775807"), Ok(Decimal::new(i64::MAX)));
    assert_eq!(Decimal::parse("92233720368.54775808"), Err(DecimalError::OutOfRange));
    assert_eq!(Decimal::parse("-92233720368.54775808"), Ok(Decimal::new(i64::MIN)));
    assert_eq!(Decimal::parse("-92233720368.54775809"), Err(DecimalError::OutOfRange));
    assert_eq!(Decimal::parse("92233720369"), Err(DecimalError::OutOfRange));
    assert_eq!(Decimal::parse("99999999999999999999999999"), Err(DecimalError::OutOfRange));
    assert_eq!(Decimal::parse("00000000000000000000000001"), Ok(Decimal::new(SCALE)));
}

#[test]
fn render_writes_eight_places() {
    assert_eq!(Decimal::new(SCALE).render(), "1.00000000");
    assert_eq!(Decimal::new(0).render(), "0.00000000");
    assert_eq!(Decimal::new(-50_000_000).render(), "-0.50000000");
    assert_eq!(Decimal::new(12_345_000_001).render(), "123.45000001");
    assert_eq!(Decimal::new(i64::MAX).render(), "92233720368.54775807");
    assert_eq!(Decimal::new(i64::MIN).render(), "-92233720368.54775808");
}

#[test]
fn render_and_parse_agree() {
    for units in [0i64, 1, -1, 99_999_999, 100_000_000, -123_456_789_012, i64::MAX, i64::MIN] {
        let d = Decimal::new(units);
        assert_eq!(Decimal::parse(&d.render()), Ok(d));
    }
}

#[test]
fn arithmetic_rounds_toward_zero_and_knows_the_range() {
    let half = Decimal::new(SCALE / 2);
    let three = Decimal::from_int(3);
    assert_eq!(three.times(half), Some(Decimal::new(150_000_000)));
    assert_eq!(Decimal::new(1).times(half), Some(Decimal::new(0)));
    assert_eq!(Decimal::new(-1).times(half), Some(Decimal::new(0)));
    assert_eq!(Decimal::new(-3).times(half), Some(Decimal::new(-1)));
    assert_eq!(Decimal::new(i64::MAX).times(three), None);
    assert_eq!(Decimal::new(i64::MAX).plus(Decimal::new(1)), None);
    assert_eq!(Decimal::new(i64::MIN).plus(Decimal::new(-1)), None);
    assert_eq!(three.plus(half), Some(Decimal::new(350_000_000)));
    assert_eq!(Decimal::from_int(-2), Decimal::new(-2 * SCALE));
    assert_eq!(Decimal::new(i64::MIN).abs_units(), 1u64 << 63);
    assert!(Decimal::new(-1).is_negative());
    assert_eq!(three.max(half), three);
}
