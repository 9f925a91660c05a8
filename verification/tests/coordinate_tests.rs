use mzsvg::{Coord, CoordinateRange, Frac, ChartError, Scale};

fn units(v: i64) -> Coord {
    Coord::of_units(v)
}

#[test]
fn test_coordinate_range() {
    let c = CoordinateRange::from((units(0), units(100)));
    let p = c.transform(units(50)).unwrap();
    assert_eq!(p.num() as f64 / p.den() as f64, 0.5);

    let p = c.transform(units(150)).unwrap();
    assert_eq!(p.num() as f64 / p.den() as f64, 1.5);

    let c = CoordinateRange::from((units(20), units(120)));
    let p = c.transform(units(70)).unwrap();
    assert_eq!(p.num() as f64 / p.den() as f64, 0.5);
}

#[test]
fn test_coordinate_range_inverse() {
    let c = CoordinateRange::from((units(0), units(160)));
    let p = c.inverse_transform(Frac::new(1, 2)).unwrap();
    assert_eq!(p.micros(), 80_000_000);

    let c = CoordinateRange::from((units(20), units(120)));
    let p = c.inverse_transform(Frac::new(1, 2)).unwrap();
    assert_eq!(p.micros(), 70_000_000);
}

#[test]
fn test_coordinate_range_hi_lo() {
    let c = CoordinateRange::from((units(100), units(0)));
    let p = c.transform(units(20)).unwrap();
    assert_eq!(p.num() as f64 / p.den() as f64, 0.8);
}

#[test]
fn test_round_trip_exact() {
    let c = CoordinateRange::new(units(37), units(411));
    let v = Coord::from_micros(123_456_789);
    let f = c.transform(v).unwrap();
    let back = c.inverse_transform(f).unwrap();
    assert_eq!(back.micros(), v.micros());

    let inverted = CoordinateRange::new(units(411), units(37));
    let f = inverted.transform(v).unwrap();
    let back = inverted.inverse_transform(f).unwrap();
    assert_eq!(back.micros(), v.micros());
}

#[test]
fn test_degenerate_range_is_an_error() {
    let c = CoordinateRange::new(units(5), units(5));
    assert_eq!(c.transform(units(3)), Err(ChartError::DegenerateScale));

    let s = Scale::new(c, CoordinateRange::new(units(0), units(100)));
    assert_eq!(s.transform(units(3)), Err(ChartError::DegenerateScale));
}

#[test]
fn test_clamp_any_orientation() {
    let c = CoordinateRange::new(units(0), units(100));
    assert_eq!(c.clamp(units(-5)).micros(), 0);
    assert_eq!(c.clamp(units(105)).micros(), 100_000_000);
    assert_eq!(c.clamp(units(42)).micros(), 42_000_000);

    let inverted = CoordinateRange::new(units(100), units(0));
    assert_eq!(inverted.clamp(units(-5)).micros(), 0);
    assert_eq!(inverted.clamp(units(105)).micros(), 100_000_000);
    assert_eq!(inverted.clamp(units(42)).micros(), 42_000_000);
}

#[test]
fn test_coordinate_overflow_is_an_error() {
    // Denormalizing one-and-a-half times the full coordinate span leaves
    // the well-formed bound.
    let c = CoordinateRange::new(
        Coord::from_micros(0),
        Coord::from_micros(1_000_000_000_000_000_000),
    );
    assert_eq!(c.inverse_transform(Frac::new(3, 2)), Err(ChartError::CoordinateOverflow));
}

#[test]
fn test_scale_maps_domain_to_range() {
    let domain = CoordinateRange::new(units(0), units(1000));
    let range = CoordinateRange::new(units(0), units(600));
    let s = Scale::new(domain, range);
    assert_eq!(s.transform(units(500)).unwrap().micros(), 300_000_000);
    assert_eq!(s.transform(units(0)).unwrap().micros(), 0);
    assert_eq!(s.transform(units(1000)).unwrap().micros(), 600_000_000);
}
