use ticker_core::decimal::{parse_units, parse_units_wide, units_to_decimal};
use ticker_core::record::{cutoff_millis, query_cutoff};
use ticker_core::types::{RawPriceTick, TickerError};

#[test]
fn parses_whole_numbers() {
    assert_eq!(parse_units("0"), Some(0));
    assert_eq!(parse_units("7"), Some(700_000_000));
    assert_eq!(parse_units("65000"), Some(6_500_000_000_000));
}

#[test]
fn parses_fractions() {
    assert_eq!(parse_units("101.5"), Some(10_150_000_000));
    assert_eq!(parse_units("0.00012000"), Some(12_000));
    assert_eq!(parse_units("0.00000001"), Some(1));
    assert_eq!(parse_units("12345.67890123"), Some(1_234_567_890_123));
}

#[test]
fn rejects_malformed_text() {
    for s in ["", ".", "1.", ".5", "1.2.3", "-1", "1e5", "abc", " 1", "1.123456789", "１"] {
        assert_eq!(parse_units(s), None, "{s}");
    }
}

#[test]
fn rejects_quantities_beyond_u64() {
    // u64::MAX is 184467440737.09551615 whole units
    assert_eq!(parse_units("184467440737.09551615"), Some(u64::MAX));
    assert_eq!(parse_units("184467440737.09551616"), None);
    assert_eq!(parse_units("184467440738"), None);
    assert_eq!(parse_units("99999999999999999999999999"), None);
}

#[test]
fn trade_from_fields() {
    let t = RawPriceTick::try_from_fields("102.25", "3", 1_700_000_000_000).unwrap();
    assert_eq!(t, RawPriceTick { price: 10_225_000_000, size: 300_000_000, timestamp: 1_700_000_000_000 });
    assert!(matches!(
        RawPriceTick::try_from_fields("x", "3", 0),
        Err(TickerError::ParseDecimalError(_))
    ));
    assert!(matches!(
        RawPriceTick::try_from_fields("1", "", 0),
        Err(TickerError::ParseDecimalError(_))
    ));
}

#[test]
fn cutoff_of_a_query() {
    assert_eq!(cutoff_millis(10_000_000, 6000), Some(4_000_000));
    assert_eq!(cutoff_millis(0, -5), Some(5000));
    assert_eq!(cutoff_millis(i64::MIN, 1), None);
    assert_eq!(cutoff_millis(i64::MIN, i64::MIN / 1000), Some(i64::MIN - (i64::MIN / 1000) * 1000));
}

#[test]
fn cutoff_of_a_query_made_now() {
    let (now, cutoff) = query_cutoff(6000);
    assert!(now > 1_600_000_000_000);
    assert_eq!(cutoff, Some(now - 6_000_000));
}

#[test]
fn wide_reader_takes_quantities_beyond_u64() {
    assert_eq!(parse_units_wide("184467440738"), Some(18_446_744_073_800_000_000));
    assert_eq!(parse_units_wide("101.5"), Some(10_150_000_000));
    assert_eq!(parse_units_wide("1.2.3"), None);
    let max = units_to_decimal(u128::MAX);
    assert_eq!(parse_units_wide(&max), Some(u128::MAX));
    assert_eq!(parse_units_wide("3402823669209384634633746074317.68211456"), None);
    assert_eq!(parse_units_wide("9999999999999999999999999999999999999999"), None);
}

#[test]
fn rendered_sizes_read_back() {
    for units in [0u128, 1, 10_150_000_000, u64::MAX as u128 + 1, u128::MAX / 3] {
        assert_eq!(parse_units_wide(&units_to_decimal(units)), Some(units));
    }
}
