//! A chart-rendering engine for scientific 2D plots of mass-spectrometry
//! data: mass spectra and chromatographic/ion-mobility features drawn as
//! scalable vector graphics.
//!
//! Coordinates are exact fixed-point numbers ([`coord::Coord`], micro-unit
//! resolution), so every geometric statement in the contracts is exact
//! rather than approximate.

pub mod coord;
pub mod linear;
pub mod numfmt;
pub mod svgdoc;
pub mod chart_regions;
pub mod series;
pub mod util;
pub mod chart;

pub use coord::ChartError;
pub use coord::Coord;
pub use coord::Frac;
pub use linear::CoordinateRange;
pub use linear::Scale;
pub use svgdoc::Element;
pub use svgdoc::PathCmd;
pub use chart_regions::AxisOrientation;
pub use chart_regions::AxisProps;
pub use chart_regions::AxisTickLabelStyle;
pub use chart_regions::AxisLabelOptions;
pub use chart_regions::Canvas;
pub use chart_regions::HorizontalAlignment;
pub use chart_regions::RenderCoordinate;
pub use chart_regions::Sides;
pub use chart_regions::TextProps;
pub use chart_regions::XAxis;
pub use chart_regions::YAxis;
pub use series::AnnotationSeries;
pub use series::CentroidPeak;
pub use series::CentroidSeries;
pub use series::ColorCycle;
pub use series::ContinuousSeries;
pub use series::DeconvolutedCentroidSeries;
pub use series::LineSeries;
pub use series::PlotSeries;
pub use series::PrecursorDescriptor;
pub use series::PrecursorSeries;
pub use series::ScatterSeries;
pub use series::SeriesDescription;
pub use series::TraceSeries;
pub use series::peaks_to_arrays;
pub use series::default_color_cycle;
pub use chart::AsSeries;
pub use chart::FeatureSVG;
pub use chart::FeatureTrace;
pub use chart::ProfileArrays;
pub use chart::SpectrumData;
pub use chart::SpectrumSVG;
pub use util::Dimensions;
pub use util::MZRange;
pub use util::MZRangeParseError;
pub use util::parse_dimensions;
