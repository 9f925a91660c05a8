use mzsvg::{Coord, CoordinateRange};
use mzsvg::chart_regions::AxisTickLabelStyle;
use mzsvg::numfmt::{format_coord, format_fixed, format_percentile, format_scinot, format_u128};
use mzsvg::util::{parse_coord_str, parse_dimensions, parse_mz_range, Dimensions,
    MZRangeParseError, NumberParseError};

fn units(v: i64) -> Coord {
    Coord::of_units(v)
}

#[test]
fn test_percentile_of_domain_max() {
    // 2500 of a domain topping out at 10000 is exactly 25.00%.
    let style = AxisTickLabelStyle::Percentile(2);
    let scale = CoordinateRange::new(units(10000), units(0));
    let label = style.format(&units(2500), &scale);
    assert_eq!(label, "25.00%");
}

#[test]
fn test_percentile_rounding() {
    assert_eq!(format_percentile(units(1).micros(), units(3).micros(), 2), "33.33%");
    assert_eq!(format_percentile(units(2).micros(), units(3).micros(), 0), "67%");
    assert_eq!(format_percentile(-2_000_000, 4_000_000, 1), "-50.0%");
}

#[test]
fn test_fixed_precision() {
    assert_eq!(format_fixed(3_141_592, 2), "3.14");
    assert_eq!(format_fixed(3_146_000, 2), "3.15");
    assert_eq!(format_fixed(-1_500_000, 0), "-2");
    assert_eq!(format_fixed(500_000_000, 2), "500.00");
}

#[test]
fn test_scientific_notation() {
    assert_eq!(format_scinot(7_500_000_000, 2), "7.50e3");
    assert_eq!(format_scinot(0, 2), "0.00e0");
    assert_eq!(format_scinot(2_500_000, 1), "2.5e0");
    assert_eq!(format_scinot(-9_990_000, 1), "-1.0e1");
    assert_eq!(format_scinot(500, 2), "5.00e-4");
}

#[test]
fn test_coord_decimal_text() {
    assert_eq!(format_coord(499_999_900), "499.9999");
    assert_eq!(format_coord(500_000_000), "500");
    assert_eq!(format_coord(-1_250_000), "-1.25");
    assert_eq!(format_coord(0), "0");
    assert_eq!(format_u128(12345), "12345");
}

#[test]
fn test_parse_dimensions_pairs_and_squares() {
    assert_eq!(parse_dimensions("600x200"), Ok(Dimensions(600, 200)));
    assert_eq!(parse_dimensions("400"), Ok(Dimensions(400, 400)));
    assert_eq!(parse_dimensions("600x200x50"), Ok(Dimensions(600, 200)));
    assert_eq!(parse_dimensions(""), Err(NumberParseError::Empty));
    assert_eq!(parse_dimensions("600xab"), Err(NumberParseError::InvalidDigit));
    assert_eq!(Dimensions(600, 200).display_string(), "600x200");
    assert_eq!(Dimensions::default(), Dimensions(600, 200));
}

#[test]
fn test_parse_coord_values() {
    assert_eq!(parse_coord_str("500.0001").unwrap().micros(), 500_000_100);
    assert_eq!(parse_coord_str("-2.5").unwrap().micros(), -2_500_000);
    assert_eq!(parse_coord_str("42").unwrap().micros(), 42_000_000);
    assert_eq!(parse_coord_str("abc"), Err(NumberParseError::InvalidDigit));
    assert_eq!(parse_coord_str(""), Err(NumberParseError::Empty));
    assert_eq!(parse_coord_str("9999999999999"), Err(NumberParseError::TooLarge));
}

#[test]
fn test_parse_mz_range_windows() {
    let r = parse_mz_range("400-800").unwrap();
    assert_eq!(r.start.unwrap().micros(), 400_000_000);
    assert_eq!(r.end.unwrap().micros(), 800_000_000);

    let r = parse_mz_range("400:800.5").unwrap();
    assert_eq!(r.end.unwrap().micros(), 800_500_000);

    let r = parse_mz_range("-800").unwrap();
    assert!(r.start.is_none());
    assert_eq!(r.end.unwrap().micros(), 800_000_000);

    match parse_mz_range("4x0-800") {
        Err(MZRangeParseError::MalformedStart(_)) => {},
        other => panic!("unexpected result {:?}", other),
    }
    match parse_mz_range("400-abc") {
        Err(MZRangeParseError::MalformedEnd(NumberParseError::InvalidDigit)) => {},
        other => panic!("unexpected result {:?}", other),
    }
}
