use mzsvg::{CentroidPeak, ChartError, Coord, MZRange, ProfileArrays, SpectrumData, SpectrumSVG,
    FeatureSVG, FeatureTrace};
use mzsvg::svgdoc::Element;

fn units(v: i64) -> Coord {
    Coord::of_units(v)
}

fn sample_spectrum() -> SpectrumData {
    SpectrumData {
        base_peak_intensity: units(1000),
        scan_windows: vec![(units(50), units(2000))],
        is_profile: true,
        arrays: Some(ProfileArrays {
            mzs: vec![units(100), units(101), units(102)],
            intensities: vec![units(10), units(50), units(5)],
        }),
        peaks: Some(vec![
            CentroidPeak { mz: units(500), intensity: units(1000) },
            CentroidPeak { mz: units(750), intensity: units(400) },
        ]),
        deconvoluted_peaks: None,
        precursor: None,
    }
}

#[test]
fn test_spectrum_chart_end_to_end() {
    let mut chart = SpectrumSVG::with_size(600, 200);
    let spectrum = sample_spectrum();
    chart.axes_from(&spectrum);
    chart.draw_spectrum(&spectrum).unwrap();
    chart.finish();
    let text = chart.to_string().unwrap();
    assert!(text.starts_with("<svg xmlns=\"http://www.w3.org/2000/svg\">"));
    assert!(text.contains("class=\"canvas\""));
    assert!(text.contains("class=\"data-canvas\""));
    assert!(text.contains("x-axis"));
    assert!(text.contains("y-axis"));
    assert!(text.contains("id=\"centroid-1\""));
    assert!(text.ends_with("</svg>"));
}

#[test]
fn test_axes_inference_pads_scan_window() {
    let mut chart = SpectrumSVG::with_size(600, 200);
    chart.axes_from(&sample_spectrum());
    let x = chart.x_range.unwrap();
    // 50 * 0.95 and 2000 * 1.05.
    assert_eq!(x.start.micros(), 47_500_000);
    assert_eq!(x.end.micros(), 2_100_000_000);
    let y = chart.y_range.unwrap();
    assert_eq!(y.start.micros(), 1_000_000_000);
    assert_eq!(y.end.micros(), 0);
}

#[test]
fn test_axes_widen_never_shrink() {
    let mut chart = SpectrumSVG::with_size(600, 200);
    chart.axes_from(&sample_spectrum());
    let mut narrower = sample_spectrum();
    narrower.scan_windows = vec![(units(400), units(800))];
    narrower.base_peak_intensity = units(10);
    chart.axes_from(&narrower);
    let x = chart.x_range.unwrap();
    assert_eq!(x.start.micros(), 47_500_000);
    assert_eq!(x.end.micros(), 2_100_000_000);
    assert_eq!(chart.y_range.unwrap().start.micros(), 1_000_000_000);
}

#[test]
fn test_xlim_requires_axes() {
    let mut chart = SpectrumSVG::with_size(600, 200);
    let window = MZRange::new(Some(units(400)), Some(units(800)));
    assert_eq!(chart.xlim(window), Err(ChartError::AxisNotInitialized));

    chart.axes_from(&sample_spectrum());
    chart.xlim(window).unwrap();
    let x = chart.x_range.unwrap();
    assert_eq!(x.start.micros(), 400_000_000);
    assert_eq!(x.end.micros(), 800_000_000);
}

#[test]
fn test_series_tags_disambiguate() {
    let mut chart = SpectrumSVG::with_size(600, 200);
    let spectrum = sample_spectrum();
    chart.axes_from(&spectrum);
    let peaks = spectrum.peaks.clone().unwrap();
    chart.draw_centroids(&peaks).unwrap();
    chart.draw_centroids(&peaks).unwrap();
    chart.finish();
    let text = chart.to_string().unwrap();
    assert!(text.contains("id=\"centroid-1\""));
    assert!(text.contains("id=\"centroid-2\""));
}

#[test]
fn test_finish_is_idempotent() {
    let mut chart = SpectrumSVG::with_size(600, 200);
    let spectrum = sample_spectrum();
    chart.axes_from(&spectrum);
    chart.finish();
    let text = chart.to_string().unwrap();
    chart.finish();
    assert_eq!(chart.to_string().unwrap(), text);
}

#[test]
fn test_feature_chart_end_to_end() {
    let mut chart = FeatureSVG::with_size(600, 200);
    let feature = FeatureTrace {
        points: vec![
            (units(10), units(100)),
            (units(11), units(500)),
            (units(12), units(50)),
        ],
    };
    chart.axes_from(&feature);
    chart.add_as_series(&feature).unwrap();
    chart.finish();
    let text = chart.to_string().unwrap();
    assert!(text.contains("id=\"feature-1\""));
    assert!(text.contains("fill-opacity=\"75%\""));
}

#[test]
fn test_xml_escaping() {
    let e = Element::new("text").set("class", "a<b&c\"d".to_string()).with_text(
        "1 < 2 & 4 > 3".to_string(),
    );
    let s = e.to_xml_string();
    assert_eq!(s, "<text class=\"a&lt;b&amp;c&quot;d\">1 &lt; 2 &amp; 4 &gt; 3</text>");
}
