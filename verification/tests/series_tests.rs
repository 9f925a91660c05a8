use mzsvg::{AxisOrientation, AxisProps, Canvas, CentroidPeak, Coord, CoordinateRange,
    LineSeries, PlotSeries, PrecursorSeries, ScatterSeries, SeriesDescription};
use mzsvg::series::peaks_to_arrays;

fn units(v: i64) -> Coord {
    Coord::of_units(v)
}

fn micros(v: i64) -> Coord {
    Coord::from_micros(v)
}

#[test]
fn test_polyline() {
    let mut canvas: Canvas = Canvas::new(600, 200);
    canvas.update_scales(
        CoordinateRange::new(units(0), units(1000)),
        CoordinateRange::new(units(10000), units(0)),
    );

    let mut props: AxisProps = AxisProps::new(AxisOrientation::Bottom);
    props.tick_values = Some(vec![
        units(0),
        units(200),
        units(400),
        units(600),
        units(800),
        units(1000),
    ]);
    props.label = Some("m/z".to_string());

    let mut props2: AxisProps = AxisProps::new(AxisOrientation::Left);
    props2.tick_values = Some(vec![
        units(10000),
        micros(7_500_050_000),
        units(5000),
        units(2500),
        units(0),
    ]);
    props2.label = Some("Intensity".to_string());

    let series = LineSeries {
        points: vec![
            (units(250), micros(7_000_500_000)),
            (units(350), units(150)),
            (units(571), units(4000)),
        ],
        description: "test".into(),
    };

    let layer = series.to_svg(&canvas).unwrap();
    canvas.groups.push(layer);

    let _ = canvas.to_svg(&props, &props2).unwrap();
}

#[test]
fn test_scatter() {
    let mut canvas: Canvas = Canvas::new(600, 200);
    canvas.update_scales(
        CoordinateRange::new(units(0), units(1000)),
        CoordinateRange::new(units(10000), units(0)),
    );

    let mut props: AxisProps = AxisProps::new(AxisOrientation::Bottom);
    props.tick_values = Some(vec![
        units(0),
        units(200),
        units(400),
        units(600),
        units(800),
        units(1000),
    ]);
    props.label = Some("m/z".to_string());

    let mut props2: AxisProps = AxisProps::new(AxisOrientation::Left);
    props2.tick_values = Some(vec![
        units(10000),
        micros(7_500_050_000),
        units(5000),
        units(2500),
        units(0),
    ]);
    props2.label = Some("Intensity".to_string());

    let series = ScatterSeries {
        points: vec![
            (units(250), micros(7_000_500_000), units(25)),
            (units(350), units(150), units(50)),
            (units(571), units(4000), units(50)),
        ],
        description: "test".into(),
    };

    let layer = series.to_svg(&canvas).unwrap();
    canvas.groups.push(layer);

    let doc = canvas.to_svg(&props, &props2).unwrap();
    println!("{}", doc.to_xml_string());
}

#[test]
fn test_make_canvas() {
    let mut canvas: Canvas = Canvas::new(400, 150);
    canvas.update_scales(
        CoordinateRange::new(units(0), units(1000)),
        CoordinateRange::new(units(100), units(0)),
    );
    assert_eq!(canvas.width, 400);
    assert_eq!(canvas.height, 150);

    assert_eq!(canvas.x_axis.scale.domain.max().micros(), 1_000_000_000);

    assert_eq!(canvas.y_axis.scale.domain.max().micros(), 100_000_000);
}

#[test]
fn test_axis_props() {
    let mut canvas: Canvas = Canvas::new(600, 200);
    canvas.update_scales(
        CoordinateRange::new(units(0), units(1000)),
        CoordinateRange::new(units(10000), units(0)),
    );

    let mut props: AxisProps = AxisProps::new(AxisOrientation::Bottom);
    props.tick_values = Some(vec![
        units(0),
        units(200),
        units(400),
        units(600),
        units(800),
        units(1000),
    ]);
    props.label = Some("m/z".to_string());

    let mut props2: AxisProps = AxisProps::new(AxisOrientation::Left);
    props2.tick_values = Some(vec![units(10000), units(7500), units(5000), units(2500), units(0)]);
    props2.label = Some("Intensity".to_string());

    canvas.to_svg(&props, &props2).unwrap();
}

#[test]
fn test_xaxis() {}

#[test]
fn test_centroid_peak_expansion() {
    // One peak at m/z 500 of intensity 1000 becomes exactly the
    // baseline-peak-baseline triplet.
    let peaks = vec![CentroidPeak { mz: units(500), intensity: units(1000) }];
    let pts = peaks_to_arrays(&peaks);
    assert_eq!(pts.len(), 3);
    assert_eq!(pts[0].0.micros(), 499_999_900);
    assert_eq!(pts[0].1.micros(), 0);
    assert_eq!(pts[1].0.micros(), 500_000_000);
    assert_eq!(pts[1].1.micros(), 1_000_000_000);
    assert_eq!(pts[2].0.micros(), 500_000_100);
    assert_eq!(pts[2].1.micros(), 0);
}

#[test]
fn test_continuous_series_path_shape() {
    // Three profile points on a 4x50 canvas with domain (99, 103) and an
    // inverted intensity domain (50, 0): the path starts and ends at the
    // baseline and visits all three points in x-order.
    let mut canvas: Canvas = Canvas::new(4, 50);
    canvas.update_scales(
        CoordinateRange::new(units(99), units(103)),
        CoordinateRange::new(units(50), units(0)),
    );
    let series = mzsvg::ContinuousSeries::new(
        vec![(units(100), units(10)), (units(101), units(50)), (units(102), units(5))],
        SeriesDescription::new("profile".to_string(), "black".to_string()),
    );
    let layer = series.to_svg(&canvas).unwrap();
    // The path element is the group's only child; its `d` attribute is
    // its second attribute.
    let d = &layer.children[0].attrs[1];
    assert_eq!(d.name, "d");
    assert_eq!(d.value, "M1,50 L1,40 L2,0 L3,45 z");
}

#[test]
fn test_line_slice_keeps_boundaries() {
    let mut series = LineSeries::new(
        vec![
            (units(1), units(1)),
            (units(2), units(2)),
            (units(3), units(3)),
            (units(4), units(4)),
        ],
        SeriesDescription::new("test".to_string(), "black".to_string()),
    );
    series.slice_x(units(2), units(3));
    assert_eq!(series.points.len(), 2);
    assert_eq!(series.points[0].0.micros(), 2_000_000);
    assert_eq!(series.points[1].0.micros(), 3_000_000);

    // Slicing twice with shrinking bounds equals one slice with the
    // narrower bounds.
    let mut twice = LineSeries::new(
        vec![
            (units(1), units(1)),
            (units(2), units(2)),
            (units(3), units(3)),
            (units(4), units(4)),
        ],
        SeriesDescription::new("test".to_string(), "black".to_string()),
    );
    twice.slice_x(units(1), units(4));
    twice.slice_x(units(2), units(3));
    assert_eq!(twice.points, series.points);
}

#[test]
fn test_precursor_out_of_frame_renders_empty() {
    let canvas: Canvas = Canvas::new(600, 200);
    let mut series = PrecursorSeries::new(
        units(500),
        units(1000),
        Some(2),
        SeriesDescription::new("precursor".to_string(), "black".to_string()),
    );
    series.slice_x(units(600), units(700));
    let layer = series.to_svg(&canvas).unwrap();
    assert_eq!(layer.name, "g");
    assert!(layer.attrs.is_empty());
    assert!(layer.children.is_empty());
}

#[test]
fn test_color_cycle_wraps_at_palette_length() {
    let mut cycle = mzsvg::ColorCycle::default();
    let palette = mzsvg::default_color_cycle();
    let n = palette.len();
    let first = cycle.next().unwrap();
    assert_eq!(first, "black");
    for i in 1..n {
        assert_eq!(cycle.next().unwrap(), palette[i]);
    }
    // Call number n + 1 yields the first color again.
    assert_eq!(cycle.next().unwrap(), first);
}
