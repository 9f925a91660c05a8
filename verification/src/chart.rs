//! Chart orchestration: axis-range inference from data, color
//! assignment, series registration, and composition of the final
//! document.
//!
//! A chart is in its building state until it is finished; finishing
//! again is a no-op, and composing the document is a pure reading of
//! the chart's state.

use vstd::prelude::*;
use vstd::string::StringExecFns;
use crate::coord::{ChartError, Coord, COORD_LIMIT, div_floor_i128};
use crate::linear::CoordinateRange;
use crate::svgdoc::{Element, spec_render_elem};
use crate::chart_regions::{AxisOrientation, AxisProps, AxisTickLabelStyle, Canvas, XAxis, YAxis};
use crate::series::{CentroidPeak, CentroidSeries, ColorCycle, ContinuousSeries,
    DeconvolutedCentroidSeries, PlotSeries, PrecursorDescriptor, PrecursorSeries,
    SeriesDescription, TraceSeries, description_from_label, peaks_wf, points_wf,
    spec_cycle_color};
use crate::numfmt::{spec_digits, format_u128};

verus! {

/// The raw signal arrays of a profile spectrum, as parallel lists.
#[derive(Debug, Clone)]
pub struct ProfileArrays {
    pub mzs: Vec<Coord>,
    pub intensities: Vec<Coord>,
}

/// All raw signal samples lie within the coordinate bounds.
pub open spec fn arrays_wf(a: ProfileArrays) -> bool {
    &&& forall|i: int| 0 <= i < a.mzs@.len() ==> (#[trigger] a.mzs@[i]).in_bounds()
    &&& forall|i: int|
        0 <= i < a.intensities@.len() ==> (#[trigger] a.intensities@[i]).in_bounds()
}

/// An abstract spectral record: raw samples, picked peaks, charge
/// deconvolution, the precursor, and the scan windows used for initial
/// axis inference.
#[derive(Debug, Clone)]
pub struct SpectrumData {
    /// Intensity of the tallest peak (for the y-axis maximum).
    pub base_peak_intensity: Coord,
    /// `(lower, upper)` bounds of each scan window.
    pub scan_windows: Vec<(Coord, Coord)>,
    /// Whether the spectrum carries continuous (profile) signal.
    pub is_profile: bool,
    pub arrays: Option<ProfileArrays>,
    pub peaks: Option<Vec<CentroidPeak>>,
    pub deconvoluted_peaks: Option<Vec<CentroidPeak>>,
    pub precursor: Option<PrecursorDescriptor>,
}

/// Bound on scan-window coordinates, leaving room for the 5% padding
/// applied to the inferred axis range.
pub open spec fn window_coord_ok(c: Coord) -> bool {
    -(COORD_LIMIT / 2) <= c.micros <= COORD_LIMIT / 2
}

pub open spec fn spectrum_wf(sd: SpectrumData) -> bool {
    &&& sd.base_peak_intensity.in_bounds()
    &&& forall|i: int|
        0 <= i < sd.scan_windows@.len() ==> window_coord_ok((#[trigger] sd.scan_windows@[i]).0)
            && window_coord_ok(sd.scan_windows@[i].1)
    &&& (sd.arrays matches Some(a) ==> arrays_wf(a))
    &&& (sd.peaks matches Some(p) ==> peaks_wf(p@))
    &&& (sd.deconvoluted_peaks matches Some(p) ==> peaks_wf(p@))
    &&& (sd.precursor matches Some(p) ==> p.mz.in_bounds() && p.intensity.in_bounds())
    &&& (sd.is_profile ==> sd.arrays is Some)
}

/// The least scan-window lower bound.
pub open spec fn spec_windows_min(ws: Seq<(Coord, Coord)>) -> int
    recommends
        ws.len() > 0,
    decreases ws.len(),
{
    if ws.len() <= 1 {
        ws[0].0.micros as int
    } else {
        let m = spec_windows_min(ws.drop_last());
        if (ws.last().0.micros as int) < m {
            ws.last().0.micros as int
        } else {
            m
        }
    }
}

/// The greatest scan-window upper bound.
pub open spec fn spec_windows_max(ws: Seq<(Coord, Coord)>) -> int
    recommends
        ws.len() > 0,
    decreases ws.len(),
{
    if ws.len() <= 1 {
        ws[0].1.micros as int
    } else {
        let m = spec_windows_max(ws.drop_last());
        if (ws.last().1.micros as int) > m {
            ws.last().1.micros as int
        } else {
            m
        }
    }
}

/// The m/z bounds axis inference uses: the folded scan windows, or the
/// conventional 50..2000 window when none were recorded.
pub open spec fn spec_scan_bounds(ws: Seq<(Coord, Coord)>) -> (int, int) {
    if ws.len() == 0 {
        (50_000_000, 2_000_000_000)
    } else {
        (spec_windows_min(ws), spec_windows_max(ws))
    }
}

/// The first registry entry with this label, or -1.
pub open spec fn spec_find_key(
    reg: Seq<(String, Vec<SeriesDescription>)>,
    key: Seq<char>,
) -> int
    decreases reg.len(),
{
    if reg.len() == 0 {
        -1
    } else if reg[0].0@ == key {
        0
    } else {
        let r = spec_find_key(reg.skip(1), key);
        if r == -1 {
            -1
        } else {
            1 + r
        }
    }
}

/// How many series were registered under this label.
pub open spec fn spec_bucket_len(
    reg: Seq<(String, Vec<SeriesDescription>)>,
    key: Seq<char>,
) -> int {
    let i = spec_find_key(reg, key);
    if i == -1 {
        0
    } else {
        reg[i].1@.len() as int
    }
}

proof fn lemma_find_key_at(reg: Seq<(String, Vec<SeriesDescription>)>, key: Seq<char>, i: int)
    requires
        0 <= i < reg.len(),
        reg[i].0@ == key,
        forall|j: int| 0 <= j < i ==> (#[trigger] reg[j]).0@ != key,
    ensures
        spec_find_key(reg, key) == i,
    decreases reg.len(),
{
    if i > 0 {
        assert(reg.skip(1)[i - 1] == reg[i]);
        assert(forall|j: int| 0 <= j < i - 1 ==> #[trigger] reg.skip(1)[j] == reg[j + 1]);
        lemma_find_key_at(reg.skip(1), key, i - 1);
    }
}

proof fn lemma_find_key_none(reg: Seq<(String, Vec<SeriesDescription>)>, key: Seq<char>)
    requires
        forall|j: int| 0 <= j < reg.len() ==> (#[trigger] reg[j]).0@ != key,
    ensures
        spec_find_key(reg, key) == -1,
    decreases reg.len(),
{
    if reg.len() > 0 {
        assert(forall|j: int|
            0 <= j < reg.len() - 1 ==> #[trigger] reg.skip(1)[j] == reg[j + 1]);
        lemma_find_key_none(reg.skip(1), key);
    }
}

/// Finding a key looks only at the keys.
proof fn lemma_find_key_same_keys(
    r1: Seq<(String, Vec<SeriesDescription>)>,
    r2: Seq<(String, Vec<SeriesDescription>)>,
    key: Seq<char>,
)
    requires
        r1.len() == r2.len(),
        forall|j: int| 0 <= j < r1.len() ==> (#[trigger] r1[j]).0@ == r2[j].0@,
    ensures
        spec_find_key(r1, key) == spec_find_key(r2, key),
    decreases r1.len(),
{
    if r1.len() > 0 {
        assert(forall|j: int|
            0 <= j < r1.len() - 1 ==> #[trigger] r1.skip(1)[j] == r1[j + 1]);
        assert(forall|j: int|
            0 <= j < r2.len() - 1 ==> #[trigger] r2.skip(1)[j] == r2[j + 1]);
        lemma_find_key_same_keys(r1.skip(1), r2.skip(1), key);
    }
}

/// Appending an entry leaves the result of finding existing keys
/// alone; a fresh key is found at the end.
proof fn lemma_find_key_push(
    reg: Seq<(String, Vec<SeriesDescription>)>,
    p: (String, Vec<SeriesDescription>),
    key: Seq<char>,
)
    ensures
        spec_find_key(reg, key) != -1 ==> spec_find_key(reg.push(p), key) == spec_find_key(
            reg,
            key,
        ),
        spec_find_key(reg, key) == -1 && p.0@ == key ==> spec_find_key(reg.push(p), key)
            == reg.len(),
        spec_find_key(reg, key) == -1 && p.0@ != key ==> spec_find_key(reg.push(p), key) == -1,
    decreases reg.len(),
{
    let pu = reg.push(p);
    if reg.len() == 0 {
        assert(pu[0] == p);
        assert(pu.skip(1) =~= Seq::<(String, Vec<SeriesDescription>)>::empty());
        if p.0@ == key {
            assert(spec_find_key(pu, key) == 0);
        } else {
            assert(spec_find_key(pu.skip(1), key) == -1);
            assert(spec_find_key(pu, key) == -1);
        }
    } else {
        assert(pu[0] == reg[0]);
        assert(pu.skip(1) =~= reg.skip(1).push(p));
        lemma_find_key_push(reg.skip(1), p, key);
        if reg[0].0@ == key {
            assert(spec_find_key(reg, key) == 0);
            assert(spec_find_key(pu, key) == 0);
        } else {
            let r1 = spec_find_key(reg.skip(1), key);
            assert(spec_find_key(pu.skip(1), key) == spec_find_key(reg.skip(1).push(p), key));
            if r1 != -1 {
                assert(spec_find_key(reg, key) == 1 + r1);
                assert(spec_find_key(reg.skip(1).push(p), key) == r1);
                assert(spec_find_key(pu, key) == 1 + r1);
            } else {
                assert(spec_find_key(reg, key) == -1);
                if p.0@ == key {
                    assert(spec_find_key(reg.skip(1).push(p), key) == reg.skip(1).len());
                    assert(spec_find_key(pu, key) == 1 + reg.skip(1).len());
                    assert(1 + reg.skip(1).len() == reg.len());
                } else {
                    assert(spec_find_key(reg.skip(1).push(p), key) == -1);
                    assert(spec_find_key(pu, key) == -1);
                }
            }
        }
    }
    if spec_find_key(reg, key) == -1 && p.0@ == key {
        lemma_find_key_none_inverse(reg, key);
        assert(forall|j: int| 0 <= j < pu.len() - 1 ==> (#[trigger] pu[j]).0@ != key);
        assert(pu[reg.len() as int] == p);
        lemma_find_key_at(pu, key, reg.len() as int);
    }
}

/// A found index is a valid index (or -1).
proof fn lemma_find_key_range(reg: Seq<(String, Vec<SeriesDescription>)>, key: Seq<char>)
    ensures
        -1 <= spec_find_key(reg, key) < reg.len(),
    decreases reg.len(),
{
    if reg.len() > 0 {
        lemma_find_key_range(reg.skip(1), key);
    }
}

/// When no entry is found, no entry has the key.
proof fn lemma_find_key_none_inverse(reg: Seq<(String, Vec<SeriesDescription>)>, key: Seq<char>)
    requires
        spec_find_key(reg, key) == -1,
    ensures
        forall|j: int| 0 <= j < reg.len() ==> (#[trigger] reg[j]).0@ != key,
    decreases reg.len(),
{
    if reg.len() > 0 {
        assert(reg[0].0@ != key);
        assert(spec_find_key(reg.skip(1), key) == -1) by {
            lemma_find_key_range(reg.skip(1), key);
            if spec_find_key(reg.skip(1), key) != -1 {
                assert(spec_find_key(reg, key) == 1 + spec_find_key(reg.skip(1), key));
            }
        }
        lemma_find_key_none_inverse(reg.skip(1), key);
        assert(forall|j: int|
            1 <= j < reg.len() ==> (#[trigger] reg[j]).0@ == reg.skip(1)[j - 1].0@);
    }
}

/// The points `(xs[i], ys[i])`, up to the shorter list.
pub open spec fn spec_zip(xs: Seq<Coord>, ys: Seq<Coord>) -> Seq<(Coord, Coord)> {
    Seq::new(vstd::math::min(xs.len() as int, ys.len() as int) as nat, |i: int| (xs[i], ys[i]))
}

/// Scan-window folds stay within the window coordinate bound.
proof fn lemma_windows_bounds(ws: Seq<(Coord, Coord)>)
    requires
        ws.len() > 0,
        forall|i: int|
            0 <= i < ws.len() ==> window_coord_ok((#[trigger] ws[i]).0) && window_coord_ok(
                ws[i].1,
            ),
    ensures
        -(COORD_LIMIT / 2) <= spec_windows_min(ws) <= COORD_LIMIT / 2,
        -(COORD_LIMIT / 2) <= spec_windows_max(ws) <= COORD_LIMIT / 2,
    decreases ws.len(),
{
    if ws.len() > 1 {
        assert(forall|i: int|
            0 <= i < ws.len() - 1 ==> #[trigger] ws.drop_last()[i] == ws[i]);
        lemma_windows_bounds(ws.drop_last());
    }
}

/// The y-domain after folding in one spectrum: tallest intensity down
/// to zero, never shrinking an established domain.
pub open spec fn spec_y_after(old_y: Option<CoordinateRange>, max_int: Coord) -> CoordinateRange {
    match old_y {
        None => CoordinateRange { start: max_int, end: Coord { micros: 0 } },
        Some(y) => CoordinateRange {
            start: if y.start.micros >= max_int.micros {
                y.start
            } else {
                max_int
            },
            end: y.end,
        },
    }
}

/// The x-domain after folding in one spectrum: the scan bounds padded
/// by 5% when first established, then widened by later bounds.
pub open spec fn spec_x_after(old_x: Option<CoordinateRange>, bounds: (int, int)) -> CoordinateRange {
    match old_x {
        None => CoordinateRange {
            start: Coord { micros: ((bounds.0 * 95) / 100) as i64 },
            end: Coord { micros: ((bounds.1 * 105) / 100) as i64 },
        },
        Some(x) => CoordinateRange {
            start: if x.start.micros as int <= bounds.0 {
                x.start
            } else {
                Coord { micros: bounds.0 as i64 }
            },
            end: if x.end.micros as int >= bounds.1 {
                x.end
            } else {
                Coord { micros: bounds.1 as i64 }
            },
        },
    }
}

/// One series, tagged, sliced to the x-window and rendered into `e`.
#[verifier::opaque]
pub open spec fn spec_pushed_series<S: PlotSeries>(
    orig: S,
    tag: Seq<char>,
    xr: CoordinateRange,
    canvas: Canvas,
    e: Element,
) -> bool {
    exists|d: SeriesDescription, s2: S|
        {
            &&& d.label == orig.desc_spec().label
            &&& d.color == orig.desc_spec().color
            &&& d.tag@ == tag
            &&& #[trigger] orig.with_desc(d).slice_x_post(s2, xr.start, xr.end)
            &&& s2.rendered_ok(canvas, e)
        }
}

/// One series, tagged and sliced, whose rendering surfaced `er`.
#[verifier::opaque]
pub open spec fn spec_pushed_series_err<S: PlotSeries>(
    orig: S,
    tag: Seq<char>,
    xr: CoordinateRange,
    canvas: Canvas,
    er: ChartError,
) -> bool {
    exists|d: SeriesDescription, s2: S|
        {
            &&& d.label == orig.desc_spec().label
            &&& d.color == orig.desc_spec().color
            &&& d.tag@ == tag
            &&& #[trigger] orig.with_desc(d).slice_x_post(s2, xr.start, xr.end)
            &&& s2.render_err(canvas, er)
        }
}

/// One series sliced to the x-window (untagged) and rendered into `e`.
#[verifier::opaque]
pub open spec fn spec_drawn_series<S: PlotSeries>(
    orig: S,
    xr: CoordinateRange,
    canvas: Canvas,
    e: Element,
) -> bool {
    exists|s2: S|
        #[trigger] orig.slice_x_post(s2, xr.start, xr.end) && s2.rendered_ok(canvas, e)
}

/// One series sliced to the x-window (untagged) whose rendering
/// surfaced `er`.
#[verifier::opaque]
pub open spec fn spec_drawn_series_err<S: PlotSeries>(
    orig: S,
    xr: CoordinateRange,
    canvas: Canvas,
    er: ChartError,
) -> bool {
    exists|s2: S|
        #[trigger] orig.slice_x_post(s2, xr.start, xr.end) && s2.render_err(canvas, er)
}

/// Like [`spec_pushed_series`], but pinning only the scales the
/// rendering reads: some canvas with exactly these axes rendered the
/// layer.
#[verifier::opaque]
pub open spec fn spec_pushed_scaled<S: PlotSeries>(
    orig: S,
    tag: Seq<char>,
    xr: CoordinateRange,
    xa: XAxis,
    ya: YAxis,
    e: Element,
) -> bool {
    exists|cv: Canvas|
        cv.x_axis == xa && cv.y_axis == ya && #[trigger] spec_pushed_series(orig, tag, xr, cv, e)
}

/// The error form of [`spec_pushed_scaled`].
#[verifier::opaque]
pub open spec fn spec_pushed_scaled_err<S: PlotSeries>(
    orig: S,
    tag: Seq<char>,
    xr: CoordinateRange,
    xa: XAxis,
    ya: YAxis,
    er: ChartError,
) -> bool {
    exists|cv: Canvas|
        cv.x_axis == xa && cv.y_axis == ya && #[trigger] spec_pushed_series_err(
            orig,
            tag,
            xr,
            cv,
            er,
        )
}

/// A data source that can stand as one plot series.
pub trait AsSeries {
    type Series: PlotSeries;

    /// The source's own well-formedness (its data in coordinate
    /// bounds).
    spec fn source_wf(&self) -> bool;

    /// What the converted series holds of this source.
    spec fn series_ok(&self, r: Self::Series) -> bool;

    fn as_series(&self) -> (r: Self::Series)
        requires
            self.source_wf(),
        ensures
            r.wf(),
            self.series_ok(r),
    ;
}

impl AsSeries for PrecursorDescriptor {
    type Series = PrecursorSeries;

    open spec fn source_wf(&self) -> bool {
        self.mz.in_bounds() && self.intensity.in_bounds()
    }

    open spec fn series_ok(&self, r: PrecursorSeries) -> bool {
        &&& r.mz == self.mz
        &&& r.intensity == self.intensity
        &&& r.charge == self.charge
        &&& r.in_frame == true
        &&& r.description.label@ == "precursor"@
        &&& r.description.color@ == "black"@
        &&& r.description.tag@ == Seq::<char>::empty()
    }

    fn as_series(&self) -> (r: PrecursorSeries) {
        PrecursorSeries::from_precursor(self)
    }
}

impl AsSeries for ProfileArrays {
    type Series = ContinuousSeries;

    open spec fn source_wf(&self) -> bool {
        arrays_wf(*self)
    }

    open spec fn series_ok(&self, r: ContinuousSeries) -> bool {
        &&& r.points@ == spec_zip(self.mzs@, self.intensities@)
        &&& r.description.label@ == "profile"@
        &&& r.description.color@ == "black"@
        &&& r.description.tag@ == Seq::<char>::empty()
    }

    fn as_series(&self) -> (r: ContinuousSeries) {
        let r = ContinuousSeries::from_iterators(
            &self.mzs,
            &self.intensities,
            description_from_label("profile"),
        );
        proof {
            assert(r.points@ =~= spec_zip(self.mzs@, self.intensities@));
        }
        r
    }
}

/// An exact copy of a peak list.
pub fn copy_peaks(peaks: &Vec<CentroidPeak>) -> (r: Vec<CentroidPeak>)
    ensures
        r@ == peaks@,
{
    let mut r: Vec<CentroidPeak> = Vec::new();
    let n = peaks.len();
    let mut i: usize = 0;
    while i < n
        invariant
            n == peaks@.len(),
            0 <= i <= n,
            r@ == peaks@.take(i as int),
        decreases n - i,
    {
        r.push(peaks[i]);
        proof {
            assert(r@ =~= peaks@.take(i + 1 as int));
        }
        i = i + 1;
    }
    proof {
        assert(peaks@.take(n as int) =~= peaks@);
    }
    r
}

/// A chart of one or more mass spectra: axis inference, color
/// assignment, series registration and final composition.
#[derive(Debug)]
pub struct SpectrumSVG {
    pub canvas: Canvas,
    pub colors: ColorCycle,
    pub xticks: AxisProps,
    pub yticks: AxisProps,
    pub x_range: Option<CoordinateRange>,
    pub y_range: Option<CoordinateRange>,
    pub finished: bool,
    pub series: Vec<(String, Vec<SeriesDescription>)>,
    pub custom_css: Option<String>,
}

impl SpectrumSVG {
    pub open spec fn wf(self) -> bool {
        &&& self.canvas.wf()
        &&& self.colors.wf()
        &&& self.xticks.wf()
        &&& self.yticks.wf()
        &&& !(self.xticks.axis_orientation is Right)
        &&& !(self.yticks.axis_orientation is Right)
        &&& (self.xticks.axis_orientation is Top ==> self.xticks.label is None)
        &&& (self.yticks.axis_orientation is Top ==> self.yticks.label is None)
        &&& (self.x_range matches Some(r) ==> r.wf())
        &&& (self.y_range matches Some(r) ==> r.wf())
    }

    /// The tick-label styles can format against the current domains
    /// (needed before the axes are rendered).
    pub open spec fn fmt_ok(self) -> bool {
        &&& self.xticks.tick_format.fmt_wf(self.canvas.x_axis.scale.domain)
        &&& self.yticks.tick_format.fmt_wf(self.canvas.y_axis.scale.domain)
    }

    /// A fresh chart around an existing canvas: bottom m/z axis, left
    /// percentile intensity axis.
    pub fn new(canvas: Canvas) -> (r: Self)
        requires
            canvas.wf(),
        ensures
            r.canvas == canvas,
            r.colors.colors.deep_view() == crate::series::spec_default_palette(),
            r.colors.index == 0,
            r.xticks.axis_orientation == AxisOrientation::Bottom,
            r.xticks.label matches Some(l) && l@ == "m/z"@,
            r.xticks.id matches Some(l) && l@ == "x-axis"@,
            r.xticks.tick_format == AxisTickLabelStyle::Precision(2usize),
            r.yticks.axis_orientation == AxisOrientation::Left,
            r.yticks.label matches Some(l) && l@ == "Intensity"@,
            r.yticks.id matches Some(l) && l@ == "y-axis"@,
            r.yticks.tick_format == AxisTickLabelStyle::Percentile(2usize),
            r.x_range is None,
            r.y_range is None,
            r.finished == false,
            r.series@.len() == 0,
            r.custom_css is None,
            r.wf(),
    {
        SpectrumSVG {
            canvas,
            colors: ColorCycle::default(),
            xticks: AxisProps::new(AxisOrientation::Bottom).label("m/z").id("x-axis"),
            yticks: AxisProps::new(AxisOrientation::Left).label("Intensity").tick_format(
                AxisTickLabelStyle::Percentile(2),
            ).id("y-axis"),
            x_range: None,
            y_range: None,
            finished: false,
            series: Vec::new(),
            custom_css: None,
        }
    }

    /// A fresh chart with a canvas of the given pixel size.
    pub fn with_size(width: usize, height: usize) -> (r: Self)
        requires
            width <= 1_000_000_000,
            height <= 1_000_000_000,
        ensures
            r.canvas.width == width,
            r.canvas.height == height,
            r.x_range is None,
            r.y_range is None,
            r.finished == false,
            r.wf(),
    {
        Self::new(Canvas::new(width, height))
    }

    /// Direct access to the canvas.
    pub fn canvas_mut(&mut self) -> (r: &mut Canvas)
        ensures
            *r == old(self).canvas,
            final(self).canvas == *final(r),
            final(self).colors == old(self).colors,
            final(self).xticks == old(self).xticks,
            final(self).yticks == old(self).yticks,
            final(self).x_range == old(self).x_range,
            final(self).y_range == old(self).y_range,
            final(self).finished == old(self).finished,
            final(self).series == old(self).series,
            final(self).custom_css == old(self).custom_css,
    {
        &mut self.canvas
    }

    /// Append an already-rendered layer.
    pub fn add_raw(&mut self, group: Element)
        ensures
            final(self).canvas.groups@ == old(self).canvas.groups@.push(group),
            final(self).canvas.width == old(self).canvas.width,
            final(self).canvas.height == old(self).canvas.height,
            final(self).canvas.x_axis == old(self).canvas.x_axis,
            final(self).canvas.y_axis == old(self).canvas.y_axis,
            final(self).canvas.subplot_offset == old(self).canvas.subplot_offset,
            final(self).colors == old(self).colors,
            final(self).xticks == old(self).xticks,
            final(self).yticks == old(self).yticks,
            final(self).x_range == old(self).x_range,
            final(self).y_range == old(self).y_range,
            final(self).finished == old(self).finished,
            final(self).series == old(self).series,
            final(self).custom_css == old(self).custom_css,
    {
        self.canvas.push_layer(group);
    }

    /// Infer or widen both axis domains from one spectrum: the y-axis
    /// spans the tallest intensity down to zero; the x-axis spans the
    /// folded scan windows, padded by 5% when first established; later
    /// spectra only widen, never shrink.
    pub fn axes_from(&mut self, spectrum: &SpectrumData)
        requires
            old(self).wf(),
            spectrum_wf(*spectrum),
        ensures
            final(self).y_range == Some(
                spec_y_after(old(self).y_range, spectrum.base_peak_intensity),
            ),
            final(self).x_range == Some(
                spec_x_after(old(self).x_range, spec_scan_bounds(spectrum.scan_windows@)),
            ),
            final(self).canvas.x_axis.scale.domain == final(self).x_range->0,
            final(self).canvas.y_axis.scale.domain == final(self).y_range->0,
            final(self).canvas.x_axis.scale.range == old(self).canvas.x_axis.scale.range,
            final(self).canvas.y_axis.scale.range == old(self).canvas.y_axis.scale.range,
            final(self).canvas.width == old(self).canvas.width,
            final(self).canvas.height == old(self).canvas.height,
            final(self).canvas.groups == old(self).canvas.groups,
            final(self).canvas.subplot_offset == old(self).canvas.subplot_offset,
            final(self).colors == old(self).colors,
            final(self).xticks == old(self).xticks,
            final(self).yticks == old(self).yticks,
            final(self).finished == old(self).finished,
            final(self).series == old(self).series,
            final(self).custom_css == old(self).custom_css,
            final(self).wf(),
    {
        let max_int = spectrum.base_peak_intensity;
        let new_y: CoordinateRange = match &self.y_range {
            None => CoordinateRange::new(max_int, Coord::zero()),
            Some(y) => {
                let ns = if y.start.micros >= max_int.micros {
                    y.start
                } else {
                    max_int
                };
                CoordinateRange::new(ns, y.end)
            },
        };
        self.y_range = Some(new_y);

        let n = spectrum.scan_windows.len();
        let (bmin, bmax): (i64, i64) = if n == 0 {
            (50_000_000, 2_000_000_000)
        } else {
            let mut lo = spectrum.scan_windows[0].0.micros;
            let mut hi = spectrum.scan_windows[0].1.micros;
            let mut i: usize = 1;
            while i < n
                invariant
                    n == spectrum.scan_windows@.len(),
                    1 <= i <= n,
                    lo == spec_windows_min(spectrum.scan_windows@.take(i as int)),
                    hi == spec_windows_max(spectrum.scan_windows@.take(i as int)),
                decreases n - i,
            {
                let w = spectrum.scan_windows[i];
                if w.0.micros < lo {
                    lo = w.0.micros;
                }
                if w.1.micros > hi {
                    hi = w.1.micros;
                }
                proof {
                    let cur = spectrum.scan_windows@.take(i + 1 as int);
                    assert(cur.drop_last() =~= spectrum.scan_windows@.take(i as int));
                    assert(cur.last() == spectrum.scan_windows@[i as int]);
                }
                i = i + 1;
            }
            proof {
                assert(spectrum.scan_windows@.take(n as int) =~= spectrum.scan_windows@);
            }
            (lo, hi)
        };
        proof {
            if spectrum.scan_windows@.len() > 0 {
                lemma_windows_bounds(spectrum.scan_windows@);
            }
        }
        let new_x: CoordinateRange = match &self.x_range {
            None => {
                let xs = div_floor_i128((bmin as i128) * 95, 100);
                let xe = div_floor_i128((bmax as i128) * 105, 100);
                proof {
                    vstd::arithmetic::div_mod::lemma_fundamental_div_mod(
                        (bmin as i128 * 95) as int,
                        100,
                    );
                    vstd::arithmetic::div_mod::lemma_mod_bound((bmin as i128 * 95) as int, 100);
                    vstd::arithmetic::div_mod::lemma_fundamental_div_mod(
                        (bmax as i128 * 105) as int,
                        100,
                    );
                    vstd::arithmetic::div_mod::lemma_mod_bound((bmax as i128 * 105) as int, 100);
                }
                CoordinateRange::new(Coord { micros: xs as i64 }, Coord { micros: xe as i64 })
            },
            Some(x) => {
                let ns = if x.start.micros <= bmin {
                    x.start
                } else {
                    Coord { micros: bmin }
                };
                let ne = if x.end.micros >= bmax {
                    x.end
                } else {
                    Coord { micros: bmax }
                };
                CoordinateRange::new(ns, ne)
            },
        };
        self.x_range = Some(new_x);
        self.canvas.update_scales(new_x, new_y);
    }

    /// Override the x-domain from an m/z window (open sides keep the
    /// current bound).  The axes must have been established first.
    pub fn xlim(&mut self, xlim: crate::util::MZRange) -> (r: Result<(), ChartError>)
        requires
            old(self).wf(),
            xlim.start matches Some(c) ==> c.in_bounds(),
            xlim.end matches Some(c) ==> c.in_bounds(),
        ensures
            (old(self).x_range is None || old(self).y_range is None) <==> r == Err::<
                (),
                ChartError,
            >(ChartError::AxisNotInitialized),
            r == Err::<(), ChartError>(ChartError::AxisNotInitialized) ==> *final(self) == *old(
                self,
            ),
            old(self).x_range is Some && old(self).y_range is Some ==> r is Ok,
            r is Ok ==> {
                let xr0 = old(self).x_range->0;
                let nx = CoordinateRange {
                    start: match xlim.start {
                        Some(c) => c,
                        None => xr0.start,
                    },
                    end: match xlim.end {
                        Some(c) => c,
                        None => xr0.end,
                    },
                };
                &&& final(self).x_range == Some(nx)
                &&& final(self).canvas.x_axis.scale.domain == nx
                &&& final(self).canvas.y_axis.scale.domain == old(self).y_range->0
                &&& final(self).canvas.x_axis.scale.range == old(self).canvas.x_axis.scale.range
                &&& final(self).canvas.y_axis.scale.range == old(self).canvas.y_axis.scale.range
                &&& final(self).y_range == old(self).y_range
                &&& final(self).canvas.groups == old(self).canvas.groups
                &&& final(self).colors == old(self).colors
                &&& final(self).series == old(self).series
                &&& final(self).finished == old(self).finished
                &&& final(self).wf()
            },
    {
        let xr0 = match &self.x_range {
            Some(x) => *x,
            None => {
                return Err(ChartError::AxisNotInitialized);
            },
        };
        let yr0 = match &self.y_range {
            Some(y) => *y,
            None => {
                return Err(ChartError::AxisNotInitialized);
            },
        };
        let ns = match xlim.start {
            Some(c) => c,
            None => xr0.start,
        };
        let ne = match xlim.end {
            Some(c) => c,
            None => xr0.end,
        };
        let nx = CoordinateRange::new(ns, ne);
        self.x_range = Some(nx);
        self.canvas.update_scales(nx, yr0);
        Ok(())
    }
}


impl SpectrumSVG {
    /// Record one series description under its label and hand back the
    /// disambiguating tag: the new size of that label's bucket.
    fn add_series_description(&mut self, descr: SeriesDescription) -> (tag: String)
        ensures
            tag@ == spec_digits(spec_bucket_len(old(self).series@, descr.label@) + 1),
            spec_bucket_len(final(self).series@, descr.label@) == spec_bucket_len(
                old(self).series@,
                descr.label@,
            ) + 1,
            forall|k: Seq<char>|
                k != descr.label@ ==> spec_bucket_len(final(self).series@, k) == spec_bucket_len(
                    old(self).series@,
                    k,
                ),
            final(self).canvas == old(self).canvas,
            final(self).colors == old(self).colors,
            final(self).xticks == old(self).xticks,
            final(self).yticks == old(self).yticks,
            final(self).x_range == old(self).x_range,
            final(self).y_range == old(self).y_range,
            final(self).finished == old(self).finished,
            final(self).custom_css == old(self).custom_css,
    {
        let ghost reg0 = self.series@;
        let ghost key = descr.label@;
        let n = self.series.len();
        let mut i: usize = 0;
        while i < n
            invariant
                reg0 == self.series@,
                reg0 == old(self).series@,
                key == descr.label@,
                n == reg0.len(),
                0 <= i <= n,
                forall|j: int| 0 <= j < i ==> (#[trigger] reg0[j]).0@ != key,
                self.canvas == old(self).canvas,
                self.colors == old(self).colors,
                self.xticks == old(self).xticks,
                self.yticks == old(self).yticks,
                self.x_range == old(self).x_range,
                self.y_range == old(self).y_range,
                self.finished == old(self).finished,
                self.custom_css == old(self).custom_css,
            decreases n - i,
        {
            if self.series[i].0 == descr.label {
                proof {
                    lemma_find_key_at(reg0, key, i as int);
                }
                let ghost old_bucket = reg0[i as int].1@;
                let mut pair: (String, Vec<SeriesDescription>) = (String::new(), Vec::new());
                core::mem::swap(&mut pair, &mut self.series[i]);
                pair.1.push(descr);
                let l = pair.1.len();
                core::mem::swap(&mut pair, &mut self.series[i]);
                proof {
                    assert(self.series@.len() == reg0.len());
                    assert(forall|j: int|
                        0 <= j < reg0.len() && j != i ==> self.series@[j] == #[trigger] reg0[j]);
                    assert(self.series@[i as int].0 == reg0[i as int].0);
                    assert(self.series@[i as int].1@ == old_bucket.push(descr));
                    assert(forall|j: int|
                        0 <= j < reg0.len() ==> (#[trigger] self.series@[j]).0@ == reg0[j].0@);
                    lemma_find_key_same_keys(self.series@, reg0, key);
                    assert(spec_find_key(self.series@, key) == i);
                    assert(self.series@[i as int].1@ == old_bucket.push(descr));
                    assert(spec_bucket_len(self.series@, key) == old_bucket.len() + 1);
                    assert forall|k2: Seq<char>| k2 != key implies spec_bucket_len(
                        self.series@,
                        k2,
                    ) == spec_bucket_len(reg0, k2) by {
                        lemma_find_key_same_keys(self.series@, reg0, k2);
                        lemma_find_key_range(reg0, k2);
                        if spec_find_key(reg0, k2) != -1 {
                            lemma_find_key_at_inverse(reg0, k2);
                        }
                    }
                }
                return format_u128(l as u128);
            }
            i = i + 1;
        }
        proof {
            lemma_find_key_none(reg0, key);
        }
        let mut bucket: Vec<SeriesDescription> = Vec::new();
        let lbl = descr.label.clone();
        bucket.push(descr);
        self.series.push((lbl, bucket));
        proof {
            let p = self.series@.last();
            assert(self.series@ =~= reg0.push(p));
            lemma_find_key_push(reg0, p, key);
            assert(spec_find_key(self.series@, key) == reg0.len());
            assert(spec_bucket_len(self.series@, key) == 1);
            assert forall|k2: Seq<char>| k2 != key implies spec_bucket_len(self.series@, k2)
                == spec_bucket_len(reg0, k2) by {
                lemma_find_key_push(reg0, p, k2);
                lemma_find_key_range(reg0, k2);
                if spec_find_key(reg0, k2) != -1 {
                    lemma_find_key_at_inverse(reg0, k2);
                }
            }
        }
        format_u128(1)
    }

    /// Slice one series to the current x-window and render it into a
    /// new layer (no registration).
    pub fn draw_series<S: PlotSeries>(&mut self, series: S) -> (r: Result<(), ChartError>)
        requires
            old(self).wf(),
            series.wf(),
        ensures
            old(self).x_range is None ==> r == Err::<(), ChartError>(
                ChartError::AxisNotInitialized,
            ) && *final(self) == *old(self),
            r is Ok ==> {
                &&& old(self).x_range is Some
                &&& final(self).canvas.groups@.len() == old(self).canvas.groups@.len() + 1
                &&& forall|j: int|
                    0 <= j < old(self).canvas.groups@.len() ==> final(self).canvas.groups@[j]
                        == #[trigger] old(self).canvas.groups@[j]
                &&& spec_drawn_series(
                    series,
                    old(self).x_range->0,
                    old(self).canvas,
                    final(self).canvas.groups@.last(),
                )
            },
            r matches Err(er) ==> (old(self).x_range is Some ==> final(self).canvas.groups
                == old(self).canvas.groups && spec_drawn_series_err(
                series,
                old(self).x_range->0,
                old(self).canvas,
                er,
            )),
            final(self).canvas.x_axis == old(self).canvas.x_axis,
            final(self).canvas.y_axis == old(self).canvas.y_axis,
            final(self).canvas.width == old(self).canvas.width,
            final(self).canvas.height == old(self).canvas.height,
            final(self).canvas.subplot_offset == old(self).canvas.subplot_offset,
            final(self).colors == old(self).colors,
            final(self).x_range == old(self).x_range,
            final(self).y_range == old(self).y_range,
            final(self).series == old(self).series,
            final(self).finished == old(self).finished,
            final(self).custom_css == old(self).custom_css,
            final(self).xticks == old(self).xticks,
            final(self).yticks == old(self).yticks,
            final(self).wf(),
    {
        let xr = match &self.x_range {
            Some(x) => *x,
            None => {
                return Err(ChartError::AxisNotInitialized);
            },
        };
        proof {
            reveal(spec_drawn_series);
            reveal(spec_drawn_series_err);
        }
        let mut series = series;
        series.slice_x(xr.start, xr.end);
        match series.to_svg(&self.canvas) {
            Ok(g) => {
                self.canvas.push_layer(g);
                Ok(())
            },
            Err(er) => Err(er),
        }
    }

    /// Register one series under its label (assigning its tag), slice
    /// it to the current x-window and render it into a new layer.
    pub fn add_series<S: PlotSeries>(&mut self, series: S) -> (r: Result<(), ChartError>)
        requires
            old(self).wf(),
            series.wf(),
        ensures
            old(self).x_range is None ==> r == Err::<(), ChartError>(
                ChartError::AxisNotInitialized,
            ) && *final(self) == *old(self),
            r is Ok ==> old(self).x_range is Some,
            old(self).x_range is Some ==> {
                let tag = spec_digits(
                    spec_bucket_len(old(self).series@, series.desc_spec().label@) + 1,
                );
                &&& spec_bucket_len(final(self).series@, series.desc_spec().label@)
                    == spec_bucket_len(old(self).series@, series.desc_spec().label@) + 1
                &&& (forall|k: Seq<char>|
                    k != series.desc_spec().label@ ==> spec_bucket_len(final(self).series@, k)
                        == spec_bucket_len(old(self).series@, k))
                &&& (r is Ok ==> final(self).canvas.groups@.len() == old(
                    self,
                ).canvas.groups@.len() + 1 && (forall|j: int|
                    0 <= j < old(self).canvas.groups@.len() ==> final(self).canvas.groups@[j]
                        == #[trigger] old(self).canvas.groups@[j]) && spec_pushed_series(
                    series,
                    tag,
                    old(self).x_range->0,
                    old(self).canvas,
                    final(self).canvas.groups@.last(),
                ))
                &&& (r matches Err(er) ==> final(self).canvas.groups == old(self).canvas.groups
                    && spec_pushed_series_err(
                    series,
                    tag,
                    old(self).x_range->0,
                    old(self).canvas,
                    er,
                ))
            },
            final(self).canvas.x_axis == old(self).canvas.x_axis,
            final(self).canvas.y_axis == old(self).canvas.y_axis,
            final(self).canvas.width == old(self).canvas.width,
            final(self).canvas.height == old(self).canvas.height,
            final(self).colors == old(self).colors,
            final(self).x_range == old(self).x_range,
            final(self).y_range == old(self).y_range,
            final(self).finished == old(self).finished,
            final(self).custom_css == old(self).custom_css,
            final(self).xticks == old(self).xticks,
            final(self).yticks == old(self).yticks,
            final(self).wf(),
    {
        let xr = match &self.x_range {
            Some(x) => *x,
            None => {
                return Err(ChartError::AxisNotInitialized);
            },
        };
        proof {
            reveal(spec_pushed_series);
            reveal(spec_pushed_series_err);
        }
        let mut series = series;
        let descr = series.description().duplicate();
        let tag = self.add_series_description(descr);
        series.set_tag(tag);
        let ghost tagged = series;
        series.slice_x(xr.start, xr.end);
        let ghost sliced = series;
        match series.to_svg(&self.canvas) {
            Ok(g) => {
                self.canvas.push_layer(g);
                Ok(())
            },
            Err(er) => Err(er),
        }
    }
}

/// A found index's entry has the key.
proof fn lemma_find_key_at_inverse(reg: Seq<(String, Vec<SeriesDescription>)>, key: Seq<char>)
    requires
        spec_find_key(reg, key) != -1,
        -1 <= spec_find_key(reg, key) < reg.len(),
    ensures
        reg[spec_find_key(reg, key)].0@ == key,
    decreases reg.len(),
{
    if reg.len() > 0 && reg[0].0@ != key {
        lemma_find_key_range(reg.skip(1), key);
        lemma_find_key_at_inverse(reg.skip(1), key);
        assert(reg.skip(1)[spec_find_key(reg.skip(1), key)] == reg[spec_find_key(reg, key)]);
    }
}


impl Default for SpectrumSVG {
    /// The conventional full-width spectrum panel.
    fn default() -> (r: Self)
        ensures
            r.canvas.width == 1400,
            r.canvas.height == 600,
            r.x_range is None,
            r.y_range is None,
            r.finished == false,
            r.wf(),
    {
        Self::with_size(1400, 600)
    }
}

/// Advancing a reduced cycle index one more step.
proof fn lemma_cycle_steps(i: int, k: int, n: int)
    requires
        0 < n,
        0 <= i < n,
        0 <= k,
    ensures
        (((i + k) % n) + 1) % n == (i + (k + 1)) % n,
{
    vstd::arithmetic::div_mod::lemma_add_mod_noop(i + k, 1, n);
    if n > 1 {
        vstd::arithmetic::div_mod::lemma_small_mod(1, n as nat);
    } else {
        vstd::arithmetic::div_mod::lemma_mod_bound((i + k) % n + 1, 1);
        vstd::arithmetic::div_mod::lemma_mod_bound(i + k, 1);
    }
}

/// How many layers drawing one spectrum adds.
pub open spec fn spec_spectrum_layers(sd: SpectrumData) -> int {
    (if sd.is_profile {
        1int
    } else {
        0
    }) + (if sd.peaks is Some {
        1int
    } else {
        0
    }) + (if sd.deconvoluted_peaks is Some {
        1int
    } else {
        0
    }) + (if sd.precursor matches Some(p) && p.intensity.micros > 0 {
        1int
    } else {
        0
    })
}

/// The profile layer of one successful spectrum draw: the raw trace,
/// tagged and sliced, rendered at the first new position.
#[verifier::opaque]
pub open spec fn spec_spectrum_profile_layer(
    pre: SpectrumSVG,
    post: SpectrumSVG,
    sd: SpectrumData,
) -> bool {
    let base = pre.canvas.groups@.len() as int;
    sd.is_profile ==> exists|r0: ContinuousSeries, d0: SeriesDescription|
        #![trigger r0.with_desc(d0)]
        {
            &&& r0.points@ == spec_zip(sd.arrays->0.mzs@, sd.arrays->0.intensities@)
            &&& r0.description.label@ == "profile"@
            &&& d0.label == r0.description.label
            &&& d0.tag == r0.description.tag
            &&& d0.color@ == spec_cycle_color(pre.colors, 0)
            &&& spec_pushed_scaled(
                r0.with_desc(d0),
                spec_digits(spec_bucket_len(pre.series@, "profile"@) + 1),
                post.x_range->0,
                post.canvas.x_axis,
                post.canvas.y_axis,
                post.canvas.groups@[base],
            )
        }
}

/// The centroid layer of one successful spectrum draw.
#[verifier::opaque]
pub open spec fn spec_spectrum_centroid_layer(
    pre: SpectrumSVG,
    post: SpectrumSVG,
    sd: SpectrumData,
) -> bool {
    let base = pre.canvas.groups@.len() as int;
    let k_c: int = if sd.is_profile {
        1
    } else {
        0
    };
    sd.peaks matches Some(ps) ==> exists|orig: CentroidSeries|
        #![trigger orig.peaks@]
        {
            &&& orig.peaks@ == ps@
            &&& orig.description.label@ == "centroid"@
            &&& orig.description.color@ == spec_cycle_color(pre.colors, k_c as nat)
            &&& spec_pushed_scaled(
                orig,
                spec_digits(spec_bucket_len(pre.series@, "centroid"@) + 1),
                post.x_range->0,
                post.canvas.x_axis,
                post.canvas.y_axis,
                post.canvas.groups@[base + k_c],
            )
        }
}

/// The deconvoluted-centroid layer of one successful spectrum draw.
#[verifier::opaque]
pub open spec fn spec_spectrum_deconvoluted_layer(
    pre: SpectrumSVG,
    post: SpectrumSVG,
    sd: SpectrumData,
) -> bool {
    let base = pre.canvas.groups@.len() as int;
    let k_d: int = (if sd.is_profile {
        1int
    } else {
        0
    }) + (if sd.peaks is Some {
        1int
    } else {
        0
    });
    sd.deconvoluted_peaks matches Some(ps) ==> exists|orig: DeconvolutedCentroidSeries|
        #![trigger orig.peaks@]
        {
            &&& orig.peaks@ == ps@
            &&& orig.description.label@ == "deconvoluted-centroid"@
            &&& orig.description.color@ == spec_cycle_color(pre.colors, k_d as nat)
            &&& spec_pushed_scaled(
                orig,
                spec_digits(spec_bucket_len(pre.series@, "deconvoluted-centroid"@) + 1),
                post.x_range->0,
                post.canvas.x_axis,
                post.canvas.y_axis,
                post.canvas.groups@[base + k_d],
            )
        }
}

/// The precursor layer of one successful spectrum draw.
#[verifier::opaque]
pub open spec fn spec_spectrum_precursor_layer(
    pre: SpectrumSVG,
    post: SpectrumSVG,
    sd: SpectrumData,
) -> bool {
    let base = pre.canvas.groups@.len() as int;
    let k_pr: int = (if sd.is_profile {
        1int
    } else {
        0
    }) + (if sd.peaks is Some {
        1int
    } else {
        0
    }) + (if sd.deconvoluted_peaks is Some {
        1int
    } else {
        0
    });
    sd.precursor is Some && sd.precursor->0.intensity.micros > 0 ==> exists|
        r0: PrecursorSeries,
        d0: SeriesDescription,
    |
        #![trigger r0.with_desc(d0)]
        {
            &&& r0.mz == sd.precursor->0.mz
            &&& r0.intensity == sd.precursor->0.intensity
            &&& r0.charge == sd.precursor->0.charge
            &&& r0.in_frame == true
            &&& r0.description.label@ == "precursor"@
            &&& d0.label == r0.description.label
            &&& d0.tag == r0.description.tag
            &&& d0.color@ == spec_cycle_color(pre.colors, k_pr as nat)
            &&& spec_pushed_scaled(
                r0.with_desc(d0),
                spec_digits(spec_bucket_len(pre.series@, "precursor"@) + 1),
                post.x_range->0,
                post.canvas.x_axis,
                post.canvas.y_axis,
                post.canvas.groups@[base + k_pr],
            )
        }
}

/// The registry totals of one successful spectrum draw: each drawn
/// component registered once under its own label.
#[verifier::opaque]
pub open spec fn spec_spectrum_registry(
    pre: SpectrumSVG,
    post: SpectrumSVG,
    sd: SpectrumData,
) -> bool {
    &&& spec_bucket_len(post.series@, "profile"@) == spec_bucket_len(pre.series@, "profile"@) + (
    if sd.is_profile {
        1int
    } else {
        0
    })
    &&& spec_bucket_len(post.series@, "centroid"@) == spec_bucket_len(pre.series@, "centroid"@)
        + (if sd.peaks is Some {
        1int
    } else {
        0
    })
    &&& spec_bucket_len(post.series@, "deconvoluted-centroid"@) == spec_bucket_len(
        pre.series@,
        "deconvoluted-centroid"@,
    ) + (if sd.deconvoluted_peaks is Some {
        1int
    } else {
        0
    })
    &&& spec_bucket_len(post.series@, "precursor"@) == spec_bucket_len(
        pre.series@,
        "precursor"@,
    ) + (if sd.precursor is Some && sd.precursor->0.intensity.micros > 0 {
        1int
    } else {
        0
    })
}


/// Introduce [`spec_spectrum_centroid_layer`] from a concrete witness.
proof fn lemma_centroid_layer_intro(
    pre: SpectrumSVG,
    post: SpectrumSVG,
    sd: SpectrumData,
    orig: CentroidSeries,
)
    requires
        sd.peaks is Some ==> {
            &&& orig.peaks@ == sd.peaks->0@
            &&& orig.description.label@ == "centroid"@
            &&& orig.description.color@ == spec_cycle_color(
                pre.colors,
                ((if sd.is_profile {
                    1int
                } else {
                    0
                }) as nat),
            )
            &&& spec_pushed_scaled(
                orig,
                spec_digits(spec_bucket_len(pre.series@, "centroid"@) + 1),
                post.x_range->0,
                post.canvas.x_axis,
                post.canvas.y_axis,
                post.canvas.groups@[pre.canvas.groups@.len() as int + (if sd.is_profile {
                    1int
                } else {
                    0
                })],
            )
        },
    ensures
        spec_spectrum_centroid_layer(pre, post, sd),
{
    reveal(spec_spectrum_centroid_layer);
}

/// Introduce [`spec_spectrum_deconvoluted_layer`] from a concrete
/// witness.
proof fn lemma_deconvoluted_layer_intro(
    pre: SpectrumSVG,
    post: SpectrumSVG,
    sd: SpectrumData,
    orig: DeconvolutedCentroidSeries,
)
    requires
        sd.deconvoluted_peaks is Some ==> {
            &&& orig.peaks@ == sd.deconvoluted_peaks->0@
            &&& orig.description.label@ == "deconvoluted-centroid"@
            &&& orig.description.color@ == spec_cycle_color(
                pre.colors,
                (((if sd.is_profile {
                    1int
                } else {
                    0
                }) + (if sd.peaks is Some {
                    1int
                } else {
                    0
                })) as nat),
            )
            &&& spec_pushed_scaled(
                orig,
                spec_digits(spec_bucket_len(pre.series@, "deconvoluted-centroid"@) + 1),
                post.x_range->0,
                post.canvas.x_axis,
                post.canvas.y_axis,
                post.canvas.groups@[pre.canvas.groups@.len() as int + (if sd.is_profile {
                    1int
                } else {
                    0
                }) + (if sd.peaks is Some {
                    1int
                } else {
                    0
                })],
            )
        },
    ensures
        spec_spectrum_deconvoluted_layer(pre, post, sd),
{
    reveal(spec_spectrum_deconvoluted_layer);
}

/// Introduce [`spec_spectrum_precursor_layer`] from concrete witnesses.
proof fn lemma_precursor_layer_intro(
    pre: SpectrumSVG,
    post: SpectrumSVG,
    sd: SpectrumData,
    r0: PrecursorSeries,
    d0: SeriesDescription,
)
    requires
        sd.precursor is Some && sd.precursor->0.intensity.micros > 0 ==> {
            &&& r0.mz == sd.precursor->0.mz
            &&& r0.intensity == sd.precursor->0.intensity
            &&& r0.charge == sd.precursor->0.charge
            &&& r0.in_frame == true
            &&& r0.description.label@ == "precursor"@
            &&& d0.label == r0.description.label
            &&& d0.tag == r0.description.tag
            &&& d0.color@ == spec_cycle_color(
                pre.colors,
                (((if sd.is_profile {
                    1int
                } else {
                    0
                }) + (if sd.peaks is Some {
                    1int
                } else {
                    0
                }) + (if sd.deconvoluted_peaks is Some {
                    1int
                } else {
                    0
                })) as nat),
            )
            &&& spec_pushed_scaled(
                r0.with_desc(d0),
                spec_digits(spec_bucket_len(pre.series@, "precursor"@) + 1),
                post.x_range->0,
                post.canvas.x_axis,
                post.canvas.y_axis,
                post.canvas.groups@[pre.canvas.groups@.len() as int + (if sd.is_profile {
                    1int
                } else {
                    0
                }) + (if sd.peaks is Some {
                    1int
                } else {
                    0
                }) + (if sd.deconvoluted_peaks is Some {
                    1int
                } else {
                    0
                })],
            )
        },
    ensures
        spec_spectrum_precursor_layer(pre, post, sd),
{
    reveal(spec_spectrum_precursor_layer);
}

/// Everything one successful spectrum draw guarantees of the chart:
/// the four layers in order, each the tagged, sliced and rendered form
/// of its data source against the final scales, and the registry
/// totals.
pub open spec fn spec_spectrum_drawn(
    pre: SpectrumSVG,
    post: SpectrumSVG,
    sd: SpectrumData,
) -> bool {
    &&& spec_spectrum_profile_layer(pre, post, sd)
    &&& spec_spectrum_centroid_layer(pre, post, sd)
    &&& spec_spectrum_deconvoluted_layer(pre, post, sd)
    &&& spec_spectrum_precursor_layer(pre, post, sd)
    &&& spec_spectrum_registry(pre, post, sd)
}

impl SpectrumSVG {
    /// Draw the raw profile trace: a filled silhouette in the next
    /// palette color, sliced to the current x-window (drawn without
    /// registration).
    pub fn draw_profile(&mut self, arrays: &ProfileArrays) -> (r: Result<(), ChartError>)
        requires
            old(self).wf(),
            arrays_wf(*arrays),
        ensures
            final(self).colors.colors == old(self).colors.colors,
            final(self).colors.index == (old(self).colors.index + 1) % old(
                self,
            ).colors.colors@.len() as int,
            old(self).x_range is None ==> r == Err::<(), ChartError>(
                ChartError::AxisNotInitialized,
            ) && final(self).canvas.groups == old(self).canvas.groups,
            r is Ok ==> {
                &&& old(self).x_range is Some
                &&& final(self).canvas.groups@.len() == old(self).canvas.groups@.len() + 1
                &&& (forall|j: int|
                    0 <= j < old(self).canvas.groups@.len() ==> final(self).canvas.groups@[j]
                        == #[trigger] old(self).canvas.groups@[j])
                &&& exists|orig: ContinuousSeries|
                    {
                        &&& orig.points@ == spec_zip(arrays.mzs@, arrays.intensities@)
                        &&& orig.description.label@ == "profile"@
                        &&& orig.description.color@ == spec_cycle_color(old(self).colors, 0)
                        &&& #[trigger] spec_drawn_series(
                            orig,
                            old(self).x_range->0,
                            old(self).canvas,
                            final(self).canvas.groups@.last(),
                        )
                    }
            },
            r matches Err(er) ==> (old(self).x_range is Some ==> final(self).canvas.groups
                == old(self).canvas.groups && (exists|orig: ContinuousSeries|
                {
                    &&& orig.points@ == spec_zip(arrays.mzs@, arrays.intensities@)
                    &&& orig.description.label@ == "profile"@
                    &&& orig.description.color@ == spec_cycle_color(old(self).colors, 0)
                    &&& #[trigger] spec_drawn_series_err(
                        orig,
                        old(self).x_range->0,
                        old(self).canvas,
                        er,
                    )
                })),
            final(self).canvas.x_axis == old(self).canvas.x_axis,
            final(self).canvas.y_axis == old(self).canvas.y_axis,
            final(self).x_range == old(self).x_range,
            final(self).y_range == old(self).y_range,
            final(self).series == old(self).series,
            final(self).finished == old(self).finished,
            final(self).xticks == old(self).xticks,
            final(self).yticks == old(self).yticks,
            final(self).custom_css == old(self).custom_css,
            final(self).wf(),
    {
        let color = match self.colors.next() {
            Some(c) => c,
            None => String::new(),
        };
        let series = ContinuousSeries::from_iterators(
            &arrays.mzs,
            &arrays.intensities,
            description_from_label("profile").with_color(color),
        );
        proof {
            assert(series.points@ =~= spec_zip(arrays.mzs@, arrays.intensities@));
            assert(points_wf(series.points@));
        }
        let ghost orig = series;
        let res = self.draw_series(series);
        proof {
            if res is Ok {
                assert(spec_drawn_series(
                    orig,
                    old(self).x_range->0,
                    old(self).canvas,
                    self.canvas.groups@.last(),
                ));
            }
            if res is Err && old(self).x_range is Some {
                assert(spec_drawn_series_err(
                    orig,
                    old(self).x_range->0,
                    old(self).canvas,
                    res->Err_0,
                ));
            }
        }
        res
    }

    /// Draw picked peaks as spikes, registered under `centroid`, in
    /// the next palette color.
    pub fn draw_centroids(&mut self, peaks: &Vec<CentroidPeak>) -> (r: Result<(), ChartError>)
        requires
            old(self).wf(),
            peaks_wf(peaks@),
        ensures
            final(self).colors.colors == old(self).colors.colors,
            final(self).colors.index == (old(self).colors.index + 1) % old(
                self,
            ).colors.colors@.len() as int,
            old(self).x_range is None ==> r == Err::<(), ChartError>(
                ChartError::AxisNotInitialized,
            ) && final(self).canvas.groups == old(self).canvas.groups && final(self).series
                == old(self).series,
            old(self).x_range is Some ==> spec_bucket_len(final(self).series@, "centroid"@)
                == spec_bucket_len(old(self).series@, "centroid"@) + 1 && (forall|k: Seq<char>|
                k != "centroid"@ ==> spec_bucket_len(final(self).series@, k) == spec_bucket_len(
                    old(self).series@,
                    k,
                )),
            r is Ok ==> {
                &&& old(self).x_range is Some
                &&& final(self).canvas.groups@.len() == old(self).canvas.groups@.len() + 1
                &&& (forall|j: int|
                    0 <= j < old(self).canvas.groups@.len() ==> final(self).canvas.groups@[j]
                        == #[trigger] old(self).canvas.groups@[j])
                &&& spec_bucket_len(final(self).series@, "centroid"@) == spec_bucket_len(
                    old(self).series@,
                    "centroid"@,
                ) + 1
                &&& exists|orig: CentroidSeries|
                    {
                        &&& orig.peaks@ == peaks@
                        &&& orig.description.label@ == "centroid"@
                        &&& orig.description.color@ == spec_cycle_color(old(self).colors, 0)
                        &&& #[trigger] spec_pushed_series(
                            orig,
                            spec_digits(spec_bucket_len(old(self).series@, "centroid"@) + 1),
                            old(self).x_range->0,
                            old(self).canvas,
                            final(self).canvas.groups@.last(),
                        )
                    }
            },
            r matches Err(er) ==> (old(self).x_range is Some ==> final(self).canvas.groups
                == old(self).canvas.groups && (exists|orig: CentroidSeries|
                {
                    &&& orig.peaks@ == peaks@
                    &&& orig.description.label@ == "centroid"@
                    &&& orig.description.color@ == spec_cycle_color(old(self).colors, 0)
                    &&& #[trigger] spec_pushed_series_err(
                        orig,
                        spec_digits(spec_bucket_len(old(self).series@, "centroid"@) + 1),
                        old(self).x_range->0,
                        old(self).canvas,
                        er,
                    )
                })),
            final(self).canvas.x_axis == old(self).canvas.x_axis,
            final(self).canvas.y_axis == old(self).canvas.y_axis,
            final(self).x_range == old(self).x_range,
            final(self).y_range == old(self).y_range,
            final(self).finished == old(self).finished,
            final(self).xticks == old(self).xticks,
            final(self).yticks == old(self).yticks,
            final(self).custom_css == old(self).custom_css,
            final(self).wf(),
    {
        let color = match self.colors.next() {
            Some(c) => c,
            None => String::new(),
        };
        let series = CentroidSeries::from_iterator(
            copy_peaks(peaks),
            description_from_label("centroid").with_color(color),
        );
        let ghost orig = series;
        let res = self.add_series(series);
        proof {
            if res is Ok {
                assert(spec_pushed_series(
                    orig,
                    spec_digits(spec_bucket_len(old(self).series@, "centroid"@) + 1),
                    old(self).x_range->0,
                    old(self).canvas,
                    self.canvas.groups@.last(),
                ));
            }
            if res is Err && old(self).x_range is Some {
                assert(spec_pushed_series_err(
                    orig,
                    spec_digits(spec_bucket_len(old(self).series@, "centroid"@) + 1),
                    old(self).x_range->0,
                    old(self).canvas,
                    res->Err_0,
                ));
            }
        }
        res
    }

    /// Draw deconvoluted peaks as spikes (sorted by m/z when
    /// rendered), registered under `deconvoluted-centroid`, in the
    /// next palette color.
    pub fn draw_deconvoluted_centroids(&mut self, peaks: &Vec<CentroidPeak>) -> (r: Result<
        (),
        ChartError,
    >)
        requires
            old(self).wf(),
            peaks_wf(peaks@),
        ensures
            final(self).colors.colors == old(self).colors.colors,
            final(self).colors.index == (old(self).colors.index + 1) % old(
                self,
            ).colors.colors@.len() as int,
            old(self).x_range is None ==> r == Err::<(), ChartError>(
                ChartError::AxisNotInitialized,
            ) && final(self).canvas.groups == old(self).canvas.groups && final(self).series
                == old(self).series,
            old(self).x_range is Some ==> spec_bucket_len(
                final(self).series@,
                "deconvoluted-centroid"@,
            ) == spec_bucket_len(old(self).series@, "deconvoluted-centroid"@) + 1 && (forall|
                k: Seq<char>,
            |
                k != "deconvoluted-centroid"@ ==> spec_bucket_len(final(self).series@, k)
                    == spec_bucket_len(old(self).series@, k)),
            r is Ok ==> {
                &&& old(self).x_range is Some
                &&& final(self).canvas.groups@.len() == old(self).canvas.groups@.len() + 1
                &&& (forall|j: int|
                    0 <= j < old(self).canvas.groups@.len() ==> final(self).canvas.groups@[j]
                        == #[trigger] old(self).canvas.groups@[j])
                &&& spec_bucket_len(final(self).series@, "deconvoluted-centroid"@)
                    == spec_bucket_len(old(self).series@, "deconvoluted-centroid"@) + 1
                &&& exists|orig: DeconvolutedCentroidSeries|
                    {
                        &&& orig.peaks@ == peaks@
                        &&& orig.description.label@ == "deconvoluted-centroid"@
                        &&& orig.description.color@ == spec_cycle_color(old(self).colors, 0)
                        &&& #[trigger] spec_pushed_series(
                            orig,
                            spec_digits(
                                spec_bucket_len(old(self).series@, "deconvoluted-centroid"@) + 1,
                            ),
                            old(self).x_range->0,
                            old(self).canvas,
                            final(self).canvas.groups@.last(),
                        )
                    }
            },
            r matches Err(er) ==> (old(self).x_range is Some ==> final(self).canvas.groups
                == old(self).canvas.groups && (exists|orig: DeconvolutedCentroidSeries|
                {
                    &&& orig.peaks@ == peaks@
                    &&& orig.description.label@ == "deconvoluted-centroid"@
                    &&& orig.description.color@ == spec_cycle_color(old(self).colors, 0)
                    &&& #[trigger] spec_pushed_series_err(
                        orig,
                        spec_digits(
                            spec_bucket_len(old(self).series@, "deconvoluted-centroid"@) + 1,
                        ),
                        old(self).x_range->0,
                        old(self).canvas,
                        er,
                    )
                })),
            final(self).canvas.x_axis == old(self).canvas.x_axis,
            final(self).canvas.y_axis == old(self).canvas.y_axis,
            final(self).x_range == old(self).x_range,
            final(self).y_range == old(self).y_range,
            final(self).finished == old(self).finished,
            final(self).xticks == old(self).xticks,
            final(self).yticks == old(self).yticks,
            final(self).custom_css == old(self).custom_css,
            final(self).wf(),
    {
        let color = match self.colors.next() {
            Some(c) => c,
            None => String::new(),
        };
        let series = DeconvolutedCentroidSeries::from_iterator(
            copy_peaks(peaks),
            description_from_label("deconvoluted-centroid").with_color(color),
        );
        let ghost orig = series;
        let res = self.add_series(series);
        proof {
            if res is Ok {
                assert(spec_pushed_series(
                    orig,
                    spec_digits(spec_bucket_len(old(self).series@, "deconvoluted-centroid"@) + 1),
                    old(self).x_range->0,
                    old(self).canvas,
                    self.canvas.groups@.last(),
                ));
            }
            if res is Err && old(self).x_range is Some {
                assert(spec_pushed_series_err(
                    orig,
                    spec_digits(spec_bucket_len(old(self).series@, "deconvoluted-centroid"@) + 1),
                    old(self).x_range->0,
                    old(self).canvas,
                    res->Err_0,
                ));
            }
        }
        res
    }

    /// Convert a data source to its series, color it with the next
    /// palette color, and add it (registered under its label).
    pub fn add_as_series<T: AsSeries>(&mut self, t: &T) -> (r: Result<(), ChartError>)
        requires
            old(self).wf(),
            t.source_wf(),
        ensures
            final(self).colors.colors == old(self).colors.colors,
            final(self).colors.index == (old(self).colors.index + 1) % old(
                self,
            ).colors.colors@.len() as int,
            old(self).x_range is None ==> r == Err::<(), ChartError>(
                ChartError::AxisNotInitialized,
            ) && final(self).canvas.groups == old(self).canvas.groups && final(self).series
                == old(self).series,
            r is Ok ==> {
                &&& old(self).x_range is Some
                &&& final(self).canvas.groups@.len() == old(self).canvas.groups@.len() + 1
                &&& (forall|j: int|
                    0 <= j < old(self).canvas.groups@.len() ==> final(self).canvas.groups@[j]
                        == #[trigger] old(self).canvas.groups@[j])
                &&& exists|r0: T::Series, d0: SeriesDescription|
                    {
                        &&& t.series_ok(r0)
                        &&& d0.label == r0.desc_spec().label
                        &&& d0.tag == r0.desc_spec().tag
                        &&& d0.color@ == spec_cycle_color(old(self).colors, 0)
                        &&& #[trigger] spec_pushed_series(
                            r0.with_desc(d0),
                            spec_digits(
                                spec_bucket_len(old(self).series@, r0.desc_spec().label@) + 1,
                            ),
                            old(self).x_range->0,
                            old(self).canvas,
                            final(self).canvas.groups@.last(),
                        )
                    }
            },
            old(self).x_range is Some ==> (exists|r0: T::Series|
                {
                    &&& #[trigger] t.series_ok(r0)
                    &&& spec_bucket_len(final(self).series@, r0.desc_spec().label@)
                        == spec_bucket_len(old(self).series@, r0.desc_spec().label@) + 1
                    &&& (forall|k: Seq<char>|
                        k != r0.desc_spec().label@ ==> spec_bucket_len(final(self).series@, k)
                            == spec_bucket_len(old(self).series@, k))
                }),
            r matches Err(er) ==> (old(self).x_range is Some ==> final(self).canvas.groups
                == old(self).canvas.groups && (exists|r0: T::Series, d0: SeriesDescription|
                {
                    &&& t.series_ok(r0)
                    &&& d0.label == r0.desc_spec().label
                    &&& d0.tag == r0.desc_spec().tag
                    &&& d0.color@ == spec_cycle_color(old(self).colors, 0)
                    &&& #[trigger] spec_pushed_series_err(
                        r0.with_desc(d0),
                        spec_digits(
                            spec_bucket_len(old(self).series@, r0.desc_spec().label@) + 1,
                        ),
                        old(self).x_range->0,
                        old(self).canvas,
                        er,
                    )
                })),
            final(self).canvas.x_axis == old(self).canvas.x_axis,
            final(self).canvas.y_axis == old(self).canvas.y_axis,
            final(self).x_range == old(self).x_range,
            final(self).y_range == old(self).y_range,
            final(self).finished == old(self).finished,
            final(self).xticks == old(self).xticks,
            final(self).yticks == old(self).yticks,
            final(self).custom_css == old(self).custom_css,
            final(self).wf(),
    {
        let mut series = t.as_series();
        let ghost r0 = series;
        let color = match self.colors.next() {
            Some(c) => c,
            None => String::new(),
        };
        let cm = series.color_mut();
        *cm = color;
        let ghost modified = series;
        let ghost d0 = modified.desc_spec();
        proof {
            assert(modified == r0.with_desc(d0));
            assert(d0.label == r0.desc_spec().label);
            assert(d0.tag == r0.desc_spec().tag);
            assert(d0.color@ == spec_cycle_color(old(self).colors, 0));
        }
        let res = self.add_series(series);
        proof {
            if res is Ok {
                assert(spec_pushed_series(
                    r0.with_desc(d0),
                    spec_digits(spec_bucket_len(old(self).series@, r0.desc_spec().label@) + 1),
                    old(self).x_range->0,
                    old(self).canvas,
                    self.canvas.groups@.last(),
                ));
            }
            if res is Err && old(self).x_range is Some {
                assert(spec_pushed_series_err(
                    r0.with_desc(d0),
                    spec_digits(spec_bucket_len(old(self).series@, r0.desc_spec().label@) + 1),
                    old(self).x_range->0,
                    old(self).canvas,
                    res->Err_0,
                ));
            }
        }
        res
    }

    /// Draw a whole spectrum: infer axes when none are set, then the
    /// profile trace, peaks, deconvoluted peaks and a positive
    /// precursor, each as its own layer.
    #[verifier::rlimit(100)]
    #[verifier::spinoff_prover]
    pub fn draw_spectrum(&mut self, spectrum: &SpectrumData) -> (r: Result<(), ChartError>)
        requires
            old(self).wf(),
            spectrum_wf(*spectrum),
        ensures
            final(self).x_range == (if old(self).x_range is Some {
                old(self).x_range
            } else {
                Some(spec_x_after(None, spec_scan_bounds(spectrum.scan_windows@)))
            }),
            final(self).y_range == (if old(self).x_range is Some {
                old(self).y_range
            } else {
                Some(spec_y_after(old(self).y_range, spectrum.base_peak_intensity))
            }),
            old(self).x_range is Some ==> final(self).canvas.x_axis == old(self).canvas.x_axis
                && final(self).canvas.y_axis == old(self).canvas.y_axis,
            old(self).x_range is None ==> final(self).canvas.x_axis.scale.domain
                == final(self).x_range->0 && final(self).canvas.y_axis.scale.domain
                == final(self).y_range->0
                && final(self).canvas.x_axis.scale.range == old(self).canvas.x_axis.scale.range
                && final(self).canvas.y_axis.scale.range == old(self).canvas.y_axis.scale.range,
            forall|j: int|
                0 <= j < old(self).canvas.groups@.len() ==> final(self).canvas.groups@[j]
                    == #[trigger] old(self).canvas.groups@[j],
            r is Ok ==> final(self).canvas.groups@.len() == old(self).canvas.groups@.len()
                + spec_spectrum_layers(*spectrum),
            final(self).colors.colors == old(self).colors.colors,
            r is Ok ==> final(self).colors.index == (old(self).colors.index
                + spec_spectrum_layers(*spectrum)) % old(self).colors.colors@.len() as int,
            r is Ok ==> spec_spectrum_drawn(*old(self), *final(self), *spectrum),
            forall|k: Seq<char>|
                k != "profile"@ && k != "centroid"@ && k != "deconvoluted-centroid"@ && k
                    != "precursor"@ ==> spec_bucket_len(final(self).series@, k)
                    == spec_bucket_len(old(self).series@, k),
            final(self).finished == old(self).finished,
            final(self).xticks == old(self).xticks,
            final(self).yticks == old(self).yticks,
            final(self).custom_css == old(self).custom_css,
            final(self).wf(),
    {
        let ghost n = old(self).colors.colors@.len() as int;
        let ghost i0 = old(self).colors.index as int;
        let ghost mut drawn: int = 0;
        if self.x_range.is_none() {
            self.axes_from(spectrum);
        }
        let ghost base = self.canvas.groups@.len() as int;
        let ghost xr_v = self.x_range->0;
        proof {
            reveal_strlit("profile");
            reveal_strlit("centroid");
            reveal_strlit("deconvoluted-centroid");
            reveal_strlit("precursor");
            vstd::arithmetic::div_mod::lemma_small_mod(i0 as nat, n as nat);
            assert(self.colors.index as int == (i0 + drawn) % n);
            assert(base == old(self).canvas.groups@.len() as int);
        }
        let ghost mut p_r0: ContinuousSeries = arbitrary();
        let ghost mut p_d0: SeriesDescription = arbitrary();
        let ghost mut p_canvas: Canvas = self.canvas;
        let ghost mut p_layer: Element = arbitrary();
        if spectrum.is_profile {
            match &spectrum.arrays {
                Some(a) => {
                    let ghost reg_b = self.series@;
                    let ghost cols_b = self.colors;
                    let ghost c_b = self.canvas;
                    proof {
                        lemma_cycle_steps(i0, drawn, n);
                        vstd::arithmetic::div_mod::lemma_mod_bound(i0 + drawn, n);
                        vstd::arithmetic::div_mod::lemma_small_mod(
                            ((i0 + drawn) % n) as nat,
                            n as nat,
                        );
                        assert(spec_cycle_color(cols_b, 0) == spec_cycle_color(
                            old(self).colors,
                            drawn as nat,
                        ));
                    }
                    let res1 = self.add_as_series(a);
                    match res1 {
                        Ok(_) => {},
                        Err(e) => {
                            proof {
                                let (r0x, d0x) = choose|
                                    r0: ContinuousSeries,
                                    d0: SeriesDescription,
                                |
                                    {
                                        &&& a.series_ok(r0)
                                        &&& d0.label == r0.desc_spec().label
                                        &&& d0.tag == r0.desc_spec().tag
                                        &&& d0.color@ == spec_cycle_color(cols_b, 0)
                                        &&& #[trigger] spec_pushed_series_err(
                                            r0.with_desc(d0),
                                            spec_digits(
                                                spec_bucket_len(
                                                    reg_b,
                                                    r0.desc_spec().label@,
                                                ) + 1,
                                            ),
                                            xr_v,
                                            c_b,
                                            e,
                                        )
                                    };
                                reveal(spec_pushed_scaled_err);
                                reveal(spec_pushed_scaled_err);
                            assert(spec_pushed_scaled_err(
                                    r0x.with_desc(d0x),
                                    spec_digits(
                                        spec_bucket_len(old(self).series@, "profile"@) + 1,
                                    ),
                                    xr_v,
                                    self.canvas.x_axis,
                                    self.canvas.y_axis,
                                    e,
                                ));
                            }
                            return Err(e);
                        },
                    }
                    proof {
                        let (r0x, d0x) = choose|r0: ContinuousSeries, d0: SeriesDescription|
                            {
                                &&& a.series_ok(r0)
                                &&& d0.label == r0.desc_spec().label
                                &&& d0.tag == r0.desc_spec().tag
                                &&& d0.color@ == spec_cycle_color(cols_b, 0)
                                &&& #[trigger] spec_pushed_series(
                                    r0.with_desc(d0),
                                    spec_digits(
                                        spec_bucket_len(reg_b, r0.desc_spec().label@) + 1,
                                    ),
                                    xr_v,
                                    c_b,
                                    self.canvas.groups@.last(),
                                )
                            };
                        p_r0 = r0x;
                        p_d0 = d0x;
                        p_canvas = c_b;
                        p_layer = self.canvas.groups@.last();
                        assert(spec_pushed_series(
                            p_r0.with_desc(p_d0),
                            spec_digits(spec_bucket_len(old(self).series@, "profile"@) + 1),
                            xr_v,
                            p_canvas,
                            p_layer,
                        ));
                        let (rr) = choose|r0: ContinuousSeries|
                            {
                                &&& #[trigger] a.series_ok(r0)
                                &&& spec_bucket_len(self.series@, r0.desc_spec().label@)
                                    == spec_bucket_len(reg_b, r0.desc_spec().label@) + 1
                                &&& (forall|k: Seq<char>|
                                    k != r0.desc_spec().label@ ==> spec_bucket_len(
                                        self.series@,
                                        k,
                                    ) == spec_bucket_len(reg_b, k))
                            };
                        assert(spec_bucket_len(self.series@, "profile"@) == spec_bucket_len(
                            reg_b,
                            "profile"@,
                        ) + 1);
                        assert(forall|k: Seq<char>|
                            k != "profile"@ ==> spec_bucket_len(self.series@, k)
                                == spec_bucket_len(reg_b, k));
                        drawn = drawn + 1;
                        assert(self.colors.index as int == (i0 + drawn) % n);
                        assert(self.canvas.groups@.len() == base + drawn);
                    }
                },
                None => {},
            }
        }
        let ghost mut c_orig: CentroidSeries = arbitrary();
        let ghost mut c_canvas: Canvas = self.canvas;
        let ghost mut c_layer: Element = arbitrary();
        let ghost reg_c = self.series@;
        match &spectrum.peaks {
            Some(p) => {
                let ghost cols_b = self.colors;
                let ghost c_b = self.canvas;
                proof {
                    lemma_cycle_steps(i0, drawn, n);
                    vstd::arithmetic::div_mod::lemma_mod_bound(i0 + drawn, n);
                    vstd::arithmetic::div_mod::lemma_small_mod(
                        ((i0 + drawn) % n) as nat,
                        n as nat,
                    );
                    assert(spec_cycle_color(cols_b, 0) == spec_cycle_color(
                        old(self).colors,
                        drawn as nat,
                    ));
                    reveal_strlit("profile");
                    reveal_strlit("centroid");
                    assert("profile"@.len() == 7);
                    assert("centroid"@.len() == 8);
                    assert("centroid"@ != "profile"@);
                    assert(spec_bucket_len(reg_c, "centroid"@) == spec_bucket_len(
                        old(self).series@,
                        "centroid"@,
                    ));
                }
                let res2 = self.draw_centroids(p);
                match res2 {
                    Ok(_) => {},
                    Err(e) => {
                        proof {
                            let orix = choose|orig: CentroidSeries|
                                {
                                    &&& orig.peaks@ == p@
                                    &&& orig.description.label@ == "centroid"@
                                    &&& orig.description.color@ == spec_cycle_color(cols_b, 0)
                                    &&& #[trigger] spec_pushed_series_err(
                                        orig,
                                        spec_digits(
                                            spec_bucket_len(reg_c, "centroid"@) + 1,
                                        ),
                                        xr_v,
                                        c_b,
                                        e,
                                    )
                                };
                            reveal(spec_pushed_scaled_err);
                            assert(spec_pushed_scaled_err(
                                orix,
                                spec_digits(
                                    spec_bucket_len(old(self).series@, "centroid"@) + 1,
                                ),
                                xr_v,
                                self.canvas.x_axis,
                                self.canvas.y_axis,
                                e,
                            ));
                        }
                        return Err(e);
                    },
                }
                proof {
                    let orix = choose|orig: CentroidSeries|
                        {
                            &&& orig.peaks@ == p@
                            &&& orig.description.label@ == "centroid"@
                            &&& orig.description.color@ == spec_cycle_color(cols_b, 0)
                            &&& #[trigger] spec_pushed_series(
                                orig,
                                spec_digits(spec_bucket_len(reg_c, "centroid"@) + 1),
                                xr_v,
                                c_b,
                                self.canvas.groups@.last(),
                            )
                        };
                    c_orig = orix;
                    c_canvas = c_b;
                    c_layer = self.canvas.groups@.last();
                    assert(spec_pushed_series(
                        c_orig,
                        spec_digits(spec_bucket_len(old(self).series@, "centroid"@) + 1),
                        xr_v,
                        c_canvas,
                        c_layer,
                    ));
                    assert(spec_bucket_len(self.series@, "centroid"@) == spec_bucket_len(
                        reg_c,
                        "centroid"@,
                    ) + 1);
                    assert(forall|k: Seq<char>|
                        k != "centroid"@ ==> spec_bucket_len(self.series@, k)
                            == spec_bucket_len(reg_c, k));
                    drawn = drawn + 1;
                    assert(self.colors.index as int == (i0 + drawn) % n);
                    assert(self.canvas.groups@.len() == base + drawn);
                }
            },
            None => {},
        }
        let ghost mut d_orig: DeconvolutedCentroidSeries = arbitrary();
        let ghost mut d_canvas: Canvas = self.canvas;
        let ghost mut d_layer: Element = arbitrary();
        let ghost reg_d = self.series@;
        match &spectrum.deconvoluted_peaks {
            Some(p) => {
                let ghost cols_b = self.colors;
                let ghost c_b = self.canvas;
                proof {
                    lemma_cycle_steps(i0, drawn, n);
                    vstd::arithmetic::div_mod::lemma_mod_bound(i0 + drawn, n);
                    vstd::arithmetic::div_mod::lemma_small_mod(
                        ((i0 + drawn) % n) as nat,
                        n as nat,
                    );
                    assert(spec_cycle_color(cols_b, 0) == spec_cycle_color(
                        old(self).colors,
                        drawn as nat,
                    ));
                    reveal_strlit("profile");
                    reveal_strlit("centroid");
                    reveal_strlit("deconvoluted-centroid");
                    assert("profile"@.len() == 7);
                    assert("centroid"@.len() == 8);
                    assert("deconvoluted-centroid"@.len() == 21);
                    assert("deconvoluted-centroid"@ != "profile"@);
                    assert("deconvoluted-centroid"@ != "centroid"@);
                    assert(spec_bucket_len(reg_d, "deconvoluted-centroid"@) == spec_bucket_len(
                        old(self).series@,
                        "deconvoluted-centroid"@,
                    ));
                }
                let res3 = self.draw_deconvoluted_centroids(p);
                match res3 {
                    Ok(_) => {},
                    Err(e) => {
                        proof {
                            let orix = choose|orig: DeconvolutedCentroidSeries|
                                {
                                    &&& orig.peaks@ == p@
                                    &&& orig.description.label@ == "deconvoluted-centroid"@
                                    &&& orig.description.color@ == spec_cycle_color(cols_b, 0)
                                    &&& #[trigger] spec_pushed_series_err(
                                        orig,
                                        spec_digits(
                                            spec_bucket_len(
                                                reg_d,
                                                "deconvoluted-centroid"@,
                                            ) + 1,
                                        ),
                                        xr_v,
                                        c_b,
                                        e,
                                    )
                                };
                            reveal(spec_pushed_scaled_err);
                            assert(spec_pushed_scaled_err(
                                orix,
                                spec_digits(
                                    spec_bucket_len(
                                        old(self).series@,
                                        "deconvoluted-centroid"@,
                                    ) + 1,
                                ),
                                xr_v,
                                self.canvas.x_axis,
                                self.canvas.y_axis,
                                e,
                            ));
                        }
                        return Err(e);
                    },
                }
                proof {
                    let orix = choose|orig: DeconvolutedCentroidSeries|
                        {
                            &&& orig.peaks@ == p@
                            &&& orig.description.label@ == "deconvoluted-centroid"@
                            &&& orig.description.color@ == spec_cycle_color(cols_b, 0)
                            &&& #[trigger] spec_pushed_series(
                                orig,
                                spec_digits(
                                    spec_bucket_len(reg_d, "deconvoluted-centroid"@) + 1,
                                ),
                                xr_v,
                                c_b,
                                self.canvas.groups@.last(),
                            )
                        };
                    d_orig = orix;
                    d_canvas = c_b;
                    d_layer = self.canvas.groups@.last();
                    assert(spec_pushed_series(
                        d_orig,
                        spec_digits(
                            spec_bucket_len(old(self).series@, "deconvoluted-centroid"@) + 1,
                        ),
                        xr_v,
                        d_canvas,
                        d_layer,
                    ));
                    assert(spec_bucket_len(self.series@, "deconvoluted-centroid"@)
                        == spec_bucket_len(reg_d, "deconvoluted-centroid"@) + 1);
                    assert(forall|k: Seq<char>|
                        k != "deconvoluted-centroid"@ ==> spec_bucket_len(self.series@, k)
                            == spec_bucket_len(reg_d, k));
                    drawn = drawn + 1;
                    assert(self.colors.index as int == (i0 + drawn) % n);
                    assert(self.canvas.groups@.len() == base + drawn);
                }
            },
            None => {},
        }
        let ghost mut q_r0: PrecursorSeries = arbitrary();
        let ghost mut q_d0: SeriesDescription = arbitrary();
        let ghost mut q_canvas: Canvas = self.canvas;
        let ghost mut q_layer: Element = arbitrary();
        let ghost reg_q = self.series@;
        match &spectrum.precursor {
            Some(pr) => {
                if pr.intensity.micros > 0 {
                    let ghost cols_b = self.colors;
                    let ghost c_b = self.canvas;
                    proof {
                        lemma_cycle_steps(i0, drawn, n);
                        vstd::arithmetic::div_mod::lemma_mod_bound(i0 + drawn, n);
                        vstd::arithmetic::div_mod::lemma_small_mod(
                            ((i0 + drawn) % n) as nat,
                            n as nat,
                        );
                        assert(spec_cycle_color(cols_b, 0) == spec_cycle_color(
                            old(self).colors,
                            drawn as nat,
                        ));
                        reveal_strlit("profile");
                        reveal_strlit("centroid");
                        reveal_strlit("deconvoluted-centroid");
                        reveal_strlit("precursor");
                        assert("profile"@.len() == 7);
                        assert("centroid"@.len() == 8);
                        assert("deconvoluted-centroid"@.len() == 21);
                        assert("precursor"@.len() == 9);
                        assert("precursor"@ != "profile"@);
                        assert("precursor"@ != "centroid"@);
                        assert("precursor"@ != "deconvoluted-centroid"@);
                        assert(spec_bucket_len(reg_q, "precursor"@) == spec_bucket_len(
                            old(self).series@,
                            "precursor"@,
                        ));
                    }
                    let res4 = self.add_as_series(pr);
                    match res4 {
                        Ok(_) => {},
                        Err(e) => {
                            proof {
                                let (r0x, d0x) = choose|
                                    r0: PrecursorSeries,
                                    d0: SeriesDescription,
                                |
                                    {
                                        &&& pr.series_ok(r0)
                                        &&& d0.label == r0.desc_spec().label
                                        &&& d0.tag == r0.desc_spec().tag
                                        &&& d0.color@ == spec_cycle_color(cols_b, 0)
                                        &&& #[trigger] spec_pushed_series_err(
                                            r0.with_desc(d0),
                                            spec_digits(
                                                spec_bucket_len(
                                                    reg_q,
                                                    r0.desc_spec().label@,
                                                ) + 1,
                                            ),
                                            xr_v,
                                            c_b,
                                            e,
                                        )
                                    };
                                reveal(spec_pushed_scaled_err);
                                reveal(spec_pushed_scaled_err);
                            assert(spec_pushed_scaled_err(
                                    r0x.with_desc(d0x),
                                    spec_digits(
                                        spec_bucket_len(old(self).series@, "precursor"@) + 1,
                                    ),
                                    xr_v,
                                    self.canvas.x_axis,
                                    self.canvas.y_axis,
                                    e,
                                ));
                            }
                            return Err(e);
                        },
                    }
                    proof {
                        let (r0x, d0x) = choose|r0: PrecursorSeries, d0: SeriesDescription|
                            {
                                &&& pr.series_ok(r0)
                                &&& d0.label == r0.desc_spec().label
                                &&& d0.tag == r0.desc_spec().tag
                                &&& d0.color@ == spec_cycle_color(cols_b, 0)
                                &&& #[trigger] spec_pushed_series(
                                    r0.with_desc(d0),
                                    spec_digits(
                                        spec_bucket_len(reg_q, r0.desc_spec().label@) + 1,
                                    ),
                                    xr_v,
                                    c_b,
                                    self.canvas.groups@.last(),
                                )
                            };
                        q_r0 = r0x;
                        q_d0 = d0x;
                        q_canvas = c_b;
                        q_layer = self.canvas.groups@.last();
                        assert(spec_pushed_series(
                            q_r0.with_desc(q_d0),
                            spec_digits(spec_bucket_len(old(self).series@, "precursor"@) + 1),
                            xr_v,
                            q_canvas,
                            q_layer,
                        ));
                        let (rr) = choose|r0: PrecursorSeries|
                            {
                                &&& #[trigger] pr.series_ok(r0)
                                &&& spec_bucket_len(self.series@, r0.desc_spec().label@)
                                    == spec_bucket_len(reg_q, r0.desc_spec().label@) + 1
                                &&& (forall|k: Seq<char>|
                                    k != r0.desc_spec().label@ ==> spec_bucket_len(
                                        self.series@,
                                        k,
                                    ) == spec_bucket_len(reg_q, k))
                            };
                        assert(spec_bucket_len(self.series@, "precursor"@) == spec_bucket_len(
                            reg_q,
                            "precursor"@,
                        ) + 1);
                        assert(forall|k: Seq<char>|
                            k != "precursor"@ ==> spec_bucket_len(self.series@, k)
                                == spec_bucket_len(reg_q, k));
                        drawn = drawn + 1;
                        assert(self.colors.index as int == (i0 + drawn) % n);
                        assert(self.canvas.groups@.len() == base + drawn);
                    }
                }
            },
            None => {},
        }
        proof {
            reveal_strlit("profile");
            reveal_strlit("centroid");
            reveal_strlit("deconvoluted-centroid");
            reveal_strlit("precursor");
            assert("profile"@.len() == 7);
            assert("centroid"@.len() == 8);
            assert("deconvoluted-centroid"@.len() == 21);
            assert("precursor"@.len() == 9);
            assert(drawn == spec_spectrum_layers(*spectrum));
            let k_c: int = if spectrum.is_profile {
                1
            } else {
                0
            };
            let k_d: int = k_c + (if spectrum.peaks is Some {
                1int
            } else {
                0
            });
            let k_pr: int = k_d + (if spectrum.deconvoluted_peaks is Some {
                1int
            } else {
                0
            });
            if spectrum.is_profile {
                assert(self.canvas.groups@[base] == p_layer);
                assert(p_canvas.x_axis == self.canvas.x_axis);
                assert(p_canvas.y_axis == self.canvas.y_axis);
                reveal(spec_pushed_scaled);
                assert(spec_pushed_scaled(
                    p_r0.with_desc(p_d0),
                    spec_digits(spec_bucket_len(old(self).series@, "profile"@) + 1),
                    xr_v,
                    self.canvas.x_axis,
                    self.canvas.y_axis,
                    self.canvas.groups@[base],
                ));
            }
            if spectrum.peaks is Some {
                assert(self.canvas.groups@[base + k_c] == c_layer);
                reveal(spec_pushed_scaled);
                assert(spec_pushed_scaled(
                    c_orig,
                    spec_digits(spec_bucket_len(old(self).series@, "centroid"@) + 1),
                    xr_v,
                    self.canvas.x_axis,
                    self.canvas.y_axis,
                    self.canvas.groups@[base + k_c],
                ));
            }
            if spectrum.deconvoluted_peaks is Some {
                assert(self.canvas.groups@[base + k_d] == d_layer);
                reveal(spec_pushed_scaled);
                assert(spec_pushed_scaled(
                    d_orig,
                    spec_digits(
                        spec_bucket_len(old(self).series@, "deconvoluted-centroid"@) + 1,
                    ),
                    xr_v,
                    self.canvas.x_axis,
                    self.canvas.y_axis,
                    self.canvas.groups@[base + k_d],
                ));
            }
            if spectrum.precursor is Some && spectrum.precursor->0.intensity.micros > 0 {
                assert(self.canvas.groups@[base + k_pr] == q_layer);
                reveal(spec_pushed_scaled);
                assert(spec_pushed_scaled(
                    q_r0.with_desc(q_d0),
                    spec_digits(spec_bucket_len(old(self).series@, "precursor"@) + 1),
                    xr_v,
                    self.canvas.x_axis,
                    self.canvas.y_axis,
                    self.canvas.groups@[base + k_pr],
                ));
            }
            assert(xr_v == self.x_range->0);
            assert(spec_spectrum_profile_layer(*old(self), *self, *spectrum)) by {
                reveal(spec_spectrum_profile_layer);
            }
            if spectrum.peaks is Some {
                assert(c_orig.description.color@ == spec_cycle_color(
                    old(self).colors,
                    ((if spectrum.is_profile {
                        1int
                    } else {
                        0
                    }) as nat),
                ));
                reveal(spec_pushed_scaled);
                assert(spec_pushed_scaled(
                    c_orig,
                    spec_digits(spec_bucket_len(old(self).series@, "centroid"@) + 1),
                    self.x_range->0,
                    self.canvas.x_axis,
                    self.canvas.y_axis,
                    self.canvas.groups@[old(self).canvas.groups@.len() as int + (
                    if spectrum.is_profile {
                        1int
                    } else {
                        0
                    })],
                ));
            }
            lemma_centroid_layer_intro(*old(self), *self, *spectrum, c_orig);
            if spectrum.deconvoluted_peaks is Some {
                assert(d_orig.description.color@ == spec_cycle_color(
                    old(self).colors,
                    (((if spectrum.is_profile {
                        1int
                    } else {
                        0
                    }) + (if spectrum.peaks is Some {
                        1int
                    } else {
                        0
                    })) as nat),
                ));
                reveal(spec_pushed_scaled);
                assert(spec_pushed_scaled(
                    d_orig,
                    spec_digits(
                        spec_bucket_len(old(self).series@, "deconvoluted-centroid"@) + 1,
                    ),
                    self.x_range->0,
                    self.canvas.x_axis,
                    self.canvas.y_axis,
                    self.canvas.groups@[old(self).canvas.groups@.len() as int + (
                    if spectrum.is_profile {
                        1int
                    } else {
                        0
                    }) + (if spectrum.peaks is Some {
                        1int
                    } else {
                        0
                    })],
                ));
            }
            lemma_deconvoluted_layer_intro(*old(self), *self, *spectrum, d_orig);
            if spectrum.precursor is Some && spectrum.precursor->0.intensity.micros > 0 {
                assert(q_d0.color@ == spec_cycle_color(
                    old(self).colors,
                    (((if spectrum.is_profile {
                        1int
                    } else {
                        0
                    }) + (if spectrum.peaks is Some {
                        1int
                    } else {
                        0
                    }) + (if spectrum.deconvoluted_peaks is Some {
                        1int
                    } else {
                        0
                    })) as nat),
                ));
                reveal(spec_pushed_scaled);
                assert(spec_pushed_scaled(
                    q_r0.with_desc(q_d0),
                    spec_digits(spec_bucket_len(old(self).series@, "precursor"@) + 1),
                    self.x_range->0,
                    self.canvas.x_axis,
                    self.canvas.y_axis,
                    self.canvas.groups@[old(self).canvas.groups@.len() as int + (
                    if spectrum.is_profile {
                        1int
                    } else {
                        0
                    }) + (if spectrum.peaks is Some {
                        1int
                    } else {
                        0
                    }) + (if spectrum.deconvoluted_peaks is Some {
                        1int
                    } else {
                        0
                    })],
                ));
            }
            lemma_precursor_layer_intro(*old(self), *self, *spectrum, q_r0, q_d0);
            assert(spec_spectrum_registry(*old(self), *self, *spectrum)) by {
                reveal(spec_spectrum_registry);
            }
        }
        Ok(())
    }

    /// Whether the composed document's structure matches this chart's
    /// state before finishing.
    pub open spec fn document_ok(self, d: Element) -> bool {
        let n_style: int = if self.custom_css is Some {
            1
        } else {
            0
        };
        &&& d.name@ == "svg"@
        &&& d.text is None
        &&& d.attrs@.len() == 1
        &&& d.attrs@[0].name@ == "xmlns"@ && d.attrs@[0].value@ == "http://www.w3.org/2000/svg"@
        &&& d.children@.len() == 1 + n_style
        &&& (self.custom_css matches Some(css) ==> {
            let st = d.children@[0];
            &&& st.name@ == "style"@
            &&& st.text matches Some(t) && t@ == css@
            &&& st.attrs@.len() == 0
            &&& st.children@.len() == 0
        })
        &&& self.canvas.composed_ok(self.xticks, self.yticks, d.children@.last())
    }

    /// Mark the chart finished, closing the building state.
    /// Composition itself is pure ([`Self::make_document`]), so
    /// finishing alters nothing else, and finishing again changes
    /// nothing at all.
    pub fn finish(&mut self)
        ensures
            *final(self) == (Self { finished: true, ..*old(self) }),
    {
        self.finished = true;
    }

    /// Whether every tick of both axes transforms successfully on the
    /// current domains.
    pub open spec fn ticks_ok(self) -> bool {
        &&& (forall|i: int|
            0 <= i < self.xticks.spec_ticks(self.canvas.x_axis.scale.domain).len()
                ==> (#[trigger] self.canvas.x_axis.scale.spec_transform_result(
                self.xticks.spec_ticks(self.canvas.x_axis.scale.domain)[i],
            )) is Ok)
        &&& (forall|i: int|
            0 <= i < self.yticks.spec_ticks(self.canvas.y_axis.scale.domain).len()
                ==> (#[trigger] self.canvas.y_axis.scale.spec_transform_result(
                self.yticks.spec_ticks(self.canvas.y_axis.scale.domain)[i],
            )) is Ok)
    }

    /// Compose the document: the optional custom stylesheet, then the
    /// canvas frame with copies of the data layers and both axes.  The
    /// chart itself is untouched.  Succeeds exactly when the label
    /// styles can format against the current domains and every tick
    /// position transforms; a percentile style against a zero domain
    /// maximum is the degenerate-scale error.
    pub fn make_document(&self) -> (r: Result<Element, ChartError>)
        requires
            self.wf(),
        ensures
            r is Ok <==> (self.fmt_ok() && self.ticks_ok()),
            r matches Ok(d) ==> self.document_ok(d),
            r matches Err(er) ==> (!self.fmt_ok() && er == ChartError::DegenerateScale) || (
            self.fmt_ok() && ((exists|i: int|
                0 <= i < self.xticks.spec_ticks(self.canvas.x_axis.scale.domain).len()
                    && #[trigger] self.canvas.x_axis.scale.spec_transform_result(
                    self.xticks.spec_ticks(self.canvas.x_axis.scale.domain)[i],
                ) == Err::<Coord, ChartError>(er)) || (exists|i: int|
                0 <= i < self.yticks.spec_ticks(self.canvas.y_axis.scale.domain).len()
                    && #[trigger] self.canvas.y_axis.scale.spec_transform_result(
                    self.yticks.spec_ticks(self.canvas.y_axis.scale.domain)[i],
                ) == Err::<Coord, ChartError>(er)))),
    {
        let fx = match self.xticks.tick_format {
            AxisTickLabelStyle::Precision(p) => p <= 6,
            AxisTickLabelStyle::SciNot(p) => p <= 6,
            AxisTickLabelStyle::Percentile(p) => p <= 6
                && self.canvas.x_axis.scale.domain.max().micros != 0,
        };
        let fy = match self.yticks.tick_format {
            AxisTickLabelStyle::Precision(p) => p <= 6,
            AxisTickLabelStyle::SciNot(p) => p <= 6,
            AxisTickLabelStyle::Percentile(p) => p <= 6
                && self.canvas.y_axis.scale.domain.max().micros != 0,
        };
        if !(fx && fy) {
            return Err(ChartError::DegenerateScale);
        }
        let composed = match self.canvas.to_svg(&self.xticks, &self.yticks) {
            Ok(g) => g,
            Err(e) => {
                return Err(e);
            },
        };
        let mut doc = Element::new("svg").set(
            "xmlns",
            String::from_str("http://www.w3.org/2000/svg"),
        );
        match &self.custom_css {
            Some(css) => {
                doc = doc.add(Element::new("style").with_text(css.clone()));
            },
            None => {},
        }
        doc = doc.add(composed);
        Ok(doc)
    }

    /// The document text: compose and serialize, succeeding exactly
    /// when [`Self::make_document`] does.
    pub fn to_string(&self) -> (r: Result<String, ChartError>)
        requires
            self.wf(),
        ensures
            r is Ok <==> (self.fmt_ok() && self.ticks_ok()),
            r matches Ok(s) ==> exists|d: Element|
                #[trigger] self.document_ok(d) && s@ == spec_render_elem(d),
            r matches Err(_) ==> !self.fmt_ok() || !self.ticks_ok(),
    {
        match self.make_document() {
            Ok(d) => {
                let s = d.to_xml_string();
                proof {
                    assert(self.document_ok(d) && s@ == spec_render_elem(d));
                }
                Ok(s)
            },
            Err(e) => Err(e),
        }
    }
}


/// A chromatographic/ion-mobility feature as plain values: its
/// `(time, intensity)` points in time order.
#[derive(Debug, Clone)]
pub struct FeatureTrace {
    pub points: Vec<(Coord, Coord)>,
}

/// Feature points lie within the coordinate bounds, with the margin the
/// 5% axis padding needs on the time side.
pub open spec fn feature_wf(f: FeatureTrace) -> bool {
    forall|i: int|
        0 <= i < f.points@.len() ==> window_coord_ok((#[trigger] f.points@[i]).0)
            && f.points@[i].1.in_bounds()
}

/// The greatest intensity of a feature (ties keep the later point).
pub open spec fn spec_max_intensity(s: Seq<(Coord, Coord)>) -> Coord
    recommends
        s.len() > 0,
    decreases s.len(),
{
    if s.len() <= 1 {
        s[0].1
    } else {
        let m = spec_max_intensity(s.drop_last());
        if s.last().1.micros >= m.micros {
            s.last().1
        } else {
            m
        }
    }
}

impl AsSeries for FeatureTrace {
    type Series = TraceSeries;

    open spec fn source_wf(&self) -> bool {
        feature_wf(*self)
    }

    open spec fn series_ok(&self, r: TraceSeries) -> bool {
        &&& r.points@ == self.points@
        &&& r.description.label@ == "feature"@
        &&& r.description.color@ == "black"@
        &&& r.description.tag@ == Seq::<char>::empty()
    }

    fn as_series(&self) -> (r: TraceSeries) {
        let r = TraceSeries::new(copy_peaks_points(&self.points), description_from_label(
            "feature",
        ));
        proof {
            assert(forall|i: int|
                0 <= i < r.points@.len() ==> (#[trigger] r.points@[i]).0.in_bounds()
                    && r.points@[i].1.in_bounds());
        }
        r
    }
}

/// An exact copy of a point list.
pub fn copy_peaks_points(points: &Vec<(Coord, Coord)>) -> (r: Vec<(Coord, Coord)>)
    ensures
        r@ == points@,
{
    let mut r: Vec<(Coord, Coord)> = Vec::new();
    let n = points.len();
    let mut i: usize = 0;
    while i < n
        invariant
            n == points@.len(),
            0 <= i <= n,
            r@ == points@.take(i as int),
        decreases n - i,
    {
        r.push(points[i]);
        proof {
            assert(r@ =~= points@.take(i + 1 as int));
        }
        i = i + 1;
    }
    proof {
        assert(points@.take(n as int) =~= points@);
    }
    r
}

/// A chart of chromatographic/ion-mobility features: the same
/// orchestration as the spectrum chart, with a time axis and
/// scientific-notation intensity labels.
#[derive(Debug)]
pub struct FeatureSVG {
    pub canvas: Canvas,
    pub colors: ColorCycle,
    pub xticks: AxisProps,
    pub yticks: AxisProps,
    pub x_range: Option<CoordinateRange>,
    pub y_range: Option<CoordinateRange>,
    pub finished: bool,
    pub series: Vec<(String, Vec<SeriesDescription>)>,
    pub custom_css: Option<String>,
}

impl FeatureSVG {
    pub open spec fn wf(self) -> bool {
        &&& self.canvas.wf()
        &&& self.colors.wf()
        &&& self.xticks.wf()
        &&& self.yticks.wf()
        &&& !(self.xticks.axis_orientation is Right)
        &&& !(self.yticks.axis_orientation is Right)
        &&& (self.xticks.axis_orientation is Top ==> self.xticks.label is None)
        &&& (self.yticks.axis_orientation is Top ==> self.yticks.label is None)
        &&& (self.x_range matches Some(r) ==> r.wf())
        &&& (self.y_range matches Some(r) ==> r.wf())
    }

    pub open spec fn fmt_ok(self) -> bool {
        &&& self.xticks.tick_format.fmt_wf(self.canvas.x_axis.scale.domain)
        &&& self.yticks.tick_format.fmt_wf(self.canvas.y_axis.scale.domain)
    }

    /// A fresh feature chart around an existing canvas: bottom time
    /// axis, left scientific-notation intensity axis.
    pub fn new(canvas: Canvas) -> (r: Self)
        requires
            canvas.wf(),
        ensures
            r.canvas == canvas,
            r.colors.colors.deep_view() == crate::series::spec_default_palette(),
            r.colors.index == 0,
            r.xticks.axis_orientation == AxisOrientation::Bottom,
            r.xticks.label matches Some(l) && l@ == "Time"@,
            r.xticks.id matches Some(l) && l@ == "x-axis"@,
            r.yticks.axis_orientation == AxisOrientation::Left,
            r.yticks.label matches Some(l) && l@ == "Intensity"@,
            r.yticks.id matches Some(l) && l@ == "y-axis"@,
            r.yticks.tick_format == AxisTickLabelStyle::SciNot(2usize),
            r.x_range is None,
            r.y_range is None,
            r.finished == false,
            r.series@.len() == 0,
            r.custom_css is None,
            r.wf(),
    {
        FeatureSVG {
            canvas,
            colors: ColorCycle::default(),
            xticks: AxisProps::new(AxisOrientation::Bottom).label("Time").id("x-axis"),
            yticks: AxisProps::new(AxisOrientation::Left).label("Intensity").tick_format(
                AxisTickLabelStyle::SciNot(2),
            ).id("y-axis"),
            x_range: None,
            y_range: None,
            finished: false,
            series: Vec::new(),
            custom_css: None,
        }
    }

    /// A fresh feature chart with a canvas of the given pixel size.
    pub fn with_size(width: usize, height: usize) -> (r: Self)
        requires
            width <= 1_000_000_000,
            height <= 1_000_000_000,
        ensures
            r.canvas.width == width,
            r.canvas.height == height,
            r.x_range is None,
            r.y_range is None,
            r.finished == false,
            r.wf(),
    {
        Self::new(Canvas::new(width, height))
    }

    /// Direct access to the canvas.
    pub fn canvas_mut(&mut self) -> (r: &mut Canvas)
        ensures
            *r == old(self).canvas,
            final(self).canvas == *final(r),
            final(self).colors == old(self).colors,
            final(self).xticks == old(self).xticks,
            final(self).yticks == old(self).yticks,
            final(self).x_range == old(self).x_range,
            final(self).y_range == old(self).y_range,
            final(self).finished == old(self).finished,
            final(self).series == old(self).series,
            final(self).custom_css == old(self).custom_css,
    {
        &mut self.canvas
    }

    /// Append an already-rendered layer.
    pub fn add_raw(&mut self, group: Element)
        ensures
            final(self).canvas.groups@ == old(self).canvas.groups@.push(group),
            final(self).canvas.x_axis == old(self).canvas.x_axis,
            final(self).canvas.y_axis == old(self).canvas.y_axis,
            final(self).colors == old(self).colors,
            final(self).x_range == old(self).x_range,
            final(self).y_range == old(self).y_range,
            final(self).finished == old(self).finished,
            final(self).series == old(self).series,
    {
        self.canvas.push_layer(group);
    }

    /// Infer or widen both axis domains from one feature: the y-axis
    /// spans the greatest intensity down to zero; the x-axis spans the
    /// feature's time extent, padded by 5% when first established;
    /// later features only widen, never shrink.
    pub fn axes_from(&mut self, feature: &FeatureTrace)
        requires
            old(self).wf(),
            feature_wf(*feature),
            feature.points@.len() > 0,
        ensures
            final(self).y_range == Some(
                spec_y_after(old(self).y_range, spec_max_intensity(feature.points@)),
            ),
            final(self).x_range == Some(
                spec_x_after(
                    old(self).x_range,
                    (
                        feature.points@[0].0.micros as int,
                        feature.points@.last().0.micros as int,
                    ),
                ),
            ),
            final(self).canvas.x_axis.scale.domain == final(self).x_range->0,
            final(self).canvas.y_axis.scale.domain == final(self).y_range->0,
            final(self).canvas.x_axis.scale.range == old(self).canvas.x_axis.scale.range,
            final(self).canvas.y_axis.scale.range == old(self).canvas.y_axis.scale.range,
            final(self).canvas.groups == old(self).canvas.groups,
            final(self).colors == old(self).colors,
            final(self).xticks == old(self).xticks,
            final(self).yticks == old(self).yticks,
            final(self).finished == old(self).finished,
            final(self).series == old(self).series,
            final(self).custom_css == old(self).custom_css,
            final(self).wf(),
    {
        let n = feature.points.len();
        let mut max_int = feature.points[0].1;
        let mut i: usize = 1;
        while i < n
            invariant
                n == feature.points@.len(),
                1 <= i <= n,
                max_int == spec_max_intensity(feature.points@.take(i as int)),
            decreases n - i,
        {
            let p = feature.points[i];
            if p.1.micros >= max_int.micros {
                max_int = p.1;
            }
            proof {
                let cur = feature.points@.take(i + 1 as int);
                assert(cur.drop_last() =~= feature.points@.take(i as int));
                assert(cur.last() == feature.points@[i as int]);
            }
            i = i + 1;
        }
        proof {
            assert(feature.points@.take(n as int) =~= feature.points@);
            lemma_max_intensity_in_bounds(feature.points@);
        }
        let new_y: CoordinateRange = match &self.y_range {
            None => CoordinateRange::new(max_int, Coord::zero()),
            Some(y) => {
                let ns = if y.start.micros >= max_int.micros {
                    y.start
                } else {
                    max_int
                };
                CoordinateRange::new(ns, y.end)
            },
        };
        self.y_range = Some(new_y);
        let bmin = feature.points[0].0.micros;
        let bmax = feature.points[n - 1].0.micros;
        let new_x: CoordinateRange = match &self.x_range {
            None => {
                let xs = div_floor_i128((bmin as i128) * 95, 100);
                let xe = div_floor_i128((bmax as i128) * 105, 100);
                proof {
                    vstd::arithmetic::div_mod::lemma_fundamental_div_mod(
                        (bmin as i128 * 95) as int,
                        100,
                    );
                    vstd::arithmetic::div_mod::lemma_mod_bound((bmin as i128 * 95) as int, 100);
                    vstd::arithmetic::div_mod::lemma_fundamental_div_mod(
                        (bmax as i128 * 105) as int,
                        100,
                    );
                    vstd::arithmetic::div_mod::lemma_mod_bound((bmax as i128 * 105) as int, 100);
                }
                CoordinateRange::new(Coord { micros: xs as i64 }, Coord { micros: xe as i64 })
            },
            Some(x) => {
                let ns = if x.start.micros <= bmin {
                    x.start
                } else {
                    Coord { micros: bmin }
                };
                let ne = if x.end.micros >= bmax {
                    x.end
                } else {
                    Coord { micros: bmax }
                };
                CoordinateRange::new(ns, ne)
            },
        };
        self.x_range = Some(new_x);
        self.canvas.update_scales(new_x, new_y);
    }

    /// Override the x-domain (open sides keep the current bound).
    pub fn xlim(&mut self, xlim: crate::util::MZRange) -> (r: Result<(), ChartError>)
        requires
            old(self).wf(),
            xlim.start matches Some(c) ==> c.in_bounds(),
            xlim.end matches Some(c) ==> c.in_bounds(),
        ensures
            (old(self).x_range is None || old(self).y_range is None) <==> r == Err::<
                (),
                ChartError,
            >(ChartError::AxisNotInitialized),
            r == Err::<(), ChartError>(ChartError::AxisNotInitialized) ==> *final(self) == *old(
                self,
            ),
            old(self).x_range is Some && old(self).y_range is Some ==> r is Ok,
            r is Ok ==> {
                let xr0 = old(self).x_range->0;
                let nx = CoordinateRange {
                    start: match xlim.start {
                        Some(c) => c,
                        None => xr0.start,
                    },
                    end: match xlim.end {
                        Some(c) => c,
                        None => xr0.end,
                    },
                };
                &&& final(self).x_range == Some(nx)
                &&& final(self).canvas.x_axis.scale.domain == nx
                &&& final(self).canvas.y_axis.scale.domain == old(self).y_range->0
                &&& final(self).y_range == old(self).y_range
                &&& final(self).canvas.groups == old(self).canvas.groups
                &&& final(self).colors == old(self).colors
                &&& final(self).series == old(self).series
                &&& final(self).finished == old(self).finished
                &&& final(self).wf()
            },
    {
        let xr0 = match &self.x_range {
            Some(x) => *x,
            None => {
                return Err(ChartError::AxisNotInitialized);
            },
        };
        let yr0 = match &self.y_range {
            Some(y) => *y,
            None => {
                return Err(ChartError::AxisNotInitialized);
            },
        };
        let ns = match xlim.start {
            Some(c) => c,
            None => xr0.start,
        };
        let ne = match xlim.end {
            Some(c) => c,
            None => xr0.end,
        };
        let nx = CoordinateRange::new(ns, ne);
        self.x_range = Some(nx);
        self.canvas.update_scales(nx, yr0);
        Ok(())
    }

    /// Record one series description under its label and hand back the
    /// disambiguating tag: the new size of that label's bucket.
    fn add_series_description(&mut self, descr: SeriesDescription) -> (tag: String)
        ensures
            tag@ == spec_digits(spec_bucket_len(old(self).series@, descr.label@) + 1),
            spec_bucket_len(final(self).series@, descr.label@) == spec_bucket_len(
                old(self).series@,
                descr.label@,
            ) + 1,
            forall|k: Seq<char>|
                k != descr.label@ ==> spec_bucket_len(final(self).series@, k) == spec_bucket_len(
                    old(self).series@,
                    k,
                ),
            final(self).canvas == old(self).canvas,
            final(self).colors == old(self).colors,
            final(self).xticks == old(self).xticks,
            final(self).yticks == old(self).yticks,
            final(self).x_range == old(self).x_range,
            final(self).y_range == old(self).y_range,
            final(self).finished == old(self).finished,
            final(self).custom_css == old(self).custom_css,
    {
        let ghost reg0 = self.series@;
        let ghost key = descr.label@;
        let n = self.series.len();
        let mut i: usize = 0;
        while i < n
            invariant
                reg0 == self.series@,
                reg0 == old(self).series@,
                key == descr.label@,
                n == reg0.len(),
                0 <= i <= n,
                forall|j: int| 0 <= j < i ==> (#[trigger] reg0[j]).0@ != key,
                self.canvas == old(self).canvas,
                self.colors == old(self).colors,
                self.xticks == old(self).xticks,
                self.yticks == old(self).yticks,
                self.x_range == old(self).x_range,
                self.y_range == old(self).y_range,
                self.finished == old(self).finished,
                self.custom_css == old(self).custom_css,
            decreases n - i,
        {
            if self.series[i].0 == descr.label {
                proof {
                    lemma_find_key_at(reg0, key, i as int);
                }
                let ghost old_bucket = reg0[i as int].1@;
                let mut pair: (String, Vec<SeriesDescription>) = (String::new(), Vec::new());
                core::mem::swap(&mut pair, &mut self.series[i]);
                pair.1.push(descr);
                let l = pair.1.len();
                core::mem::swap(&mut pair, &mut self.series[i]);
                proof {
                    assert(self.series@.len() == reg0.len());
                    assert(forall|j: int|
                        0 <= j < reg0.len() && j != i ==> self.series@[j] == #[trigger] reg0[j]);
                    assert(self.series@[i as int].0 == reg0[i as int].0);
                    assert(self.series@[i as int].1@ == old_bucket.push(descr));
                    assert(forall|j: int|
                        0 <= j < reg0.len() ==> (#[trigger] self.series@[j]).0@ == reg0[j].0@);
                    lemma_find_key_same_keys(self.series@, reg0, key);
                    assert(spec_find_key(self.series@, key) == i);
                    assert(spec_bucket_len(self.series@, key) == old_bucket.len() + 1);
                    assert forall|k2: Seq<char>| k2 != key implies spec_bucket_len(
                        self.series@,
                        k2,
                    ) == spec_bucket_len(reg0, k2) by {
                        lemma_find_key_same_keys(self.series@, reg0, k2);
                        lemma_find_key_range(reg0, k2);
                        if spec_find_key(reg0, k2) != -1 {
                            lemma_find_key_at_inverse(reg0, k2);
                        }
                    }
                }
                return format_u128(l as u128);
            }
            i = i + 1;
        }
        proof {
            lemma_find_key_none(reg0, key);
        }
        let mut bucket: Vec<SeriesDescription> = Vec::new();
        let lbl = descr.label.clone();
        bucket.push(descr);
        self.series.push((lbl, bucket));
        proof {
            let p = self.series@.last();
            assert(self.series@ =~= reg0.push(p));
            lemma_find_key_push(reg0, p, key);
            assert(spec_find_key(self.series@, key) == reg0.len());
            assert(spec_bucket_len(self.series@, key) == 1);
            assert forall|k2: Seq<char>| k2 != key implies spec_bucket_len(self.series@, k2)
                == spec_bucket_len(reg0, k2) by {
                lemma_find_key_push(reg0, p, k2);
                lemma_find_key_range(reg0, k2);
                if spec_find_key(reg0, k2) != -1 {
                    lemma_find_key_at_inverse(reg0, k2);
                }
            }
        }
        format_u128(1)
    }

    /// Slice one series to the current x-window and render it into a
    /// new layer (no registration).
    pub fn draw_series<S: PlotSeries>(&mut self, series: S) -> (r: Result<(), ChartError>)
        requires
            old(self).wf(),
            series.wf(),
        ensures
            old(self).x_range is None ==> r == Err::<(), ChartError>(
                ChartError::AxisNotInitialized,
            ) && *final(self) == *old(self),
            r is Ok ==> {
                &&& old(self).x_range is Some
                &&& final(self).canvas.groups@.len() == old(self).canvas.groups@.len() + 1
                &&& forall|j: int|
                    0 <= j < old(self).canvas.groups@.len() ==> final(self).canvas.groups@[j]
                        == #[trigger] old(self).canvas.groups@[j]
                &&& spec_drawn_series(
                    series,
                    old(self).x_range->0,
                    old(self).canvas,
                    final(self).canvas.groups@.last(),
                )
            },
            r matches Err(er) ==> (old(self).x_range is Some ==> final(self).canvas.groups
                == old(self).canvas.groups && spec_drawn_series_err(
                series,
                old(self).x_range->0,
                old(self).canvas,
                er,
            )),
            final(self).canvas.x_axis == old(self).canvas.x_axis,
            final(self).canvas.y_axis == old(self).canvas.y_axis,
            final(self).colors == old(self).colors,
            final(self).x_range == old(self).x_range,
            final(self).y_range == old(self).y_range,
            final(self).series == old(self).series,
            final(self).finished == old(self).finished,
            final(self).custom_css == old(self).custom_css,
            final(self).xticks == old(self).xticks,
            final(self).yticks == old(self).yticks,
            final(self).wf(),
    {
        let xr = match &self.x_range {
            Some(x) => *x,
            None => {
                return Err(ChartError::AxisNotInitialized);
            },
        };
        proof {
            reveal(spec_drawn_series);
            reveal(spec_drawn_series_err);
        }
        let mut series = series;
        series.slice_x(xr.start, xr.end);
        match series.to_svg(&self.canvas) {
            Ok(g) => {
                self.canvas.push_layer(g);
                Ok(())
            },
            Err(er) => Err(er),
        }
    }

    /// Register one series under its label, slice it to the current
    /// x-window and render it into a new layer.
    pub fn add_series<S: PlotSeries>(&mut self, series: S) -> (r: Result<(), ChartError>)
        requires
            old(self).wf(),
            series.wf(),
        ensures
            old(self).x_range is None ==> r == Err::<(), ChartError>(
                ChartError::AxisNotInitialized,
            ) && *final(self) == *old(self),
            r is Ok ==> old(self).x_range is Some,
            old(self).x_range is Some ==> {
                let tag = spec_digits(
                    spec_bucket_len(old(self).series@, series.desc_spec().label@) + 1,
                );
                &&& spec_bucket_len(final(self).series@, series.desc_spec().label@)
                    == spec_bucket_len(old(self).series@, series.desc_spec().label@) + 1
                &&& (forall|k: Seq<char>|
                    k != series.desc_spec().label@ ==> spec_bucket_len(final(self).series@, k)
                        == spec_bucket_len(old(self).series@, k))
                &&& (r is Ok ==> final(self).canvas.groups@.len() == old(
                    self,
                ).canvas.groups@.len() + 1 && (forall|j: int|
                    0 <= j < old(self).canvas.groups@.len() ==> final(self).canvas.groups@[j]
                        == #[trigger] old(self).canvas.groups@[j]) && spec_pushed_series(
                    series,
                    tag,
                    old(self).x_range->0,
                    old(self).canvas,
                    final(self).canvas.groups@.last(),
                ))
                &&& (r matches Err(er) ==> final(self).canvas.groups == old(self).canvas.groups
                    && spec_pushed_series_err(
                    series,
                    tag,
                    old(self).x_range->0,
                    old(self).canvas,
                    er,
                ))
            },
            final(self).canvas.x_axis == old(self).canvas.x_axis,
            final(self).canvas.y_axis == old(self).canvas.y_axis,
            final(self).colors == old(self).colors,
            final(self).x_range == old(self).x_range,
            final(self).y_range == old(self).y_range,
            final(self).finished == old(self).finished,
            final(self).custom_css == old(self).custom_css,
            final(self).xticks == old(self).xticks,
            final(self).yticks == old(self).yticks,
            final(self).wf(),
    {
        let xr = match &self.x_range {
            Some(x) => *x,
            None => {
                return Err(ChartError::AxisNotInitialized);
            },
        };
        proof {
            reveal(spec_pushed_series);
            reveal(spec_pushed_series_err);
        }
        let mut series = series;
        let descr = series.description().duplicate();
        let tag = self.add_series_description(descr);
        series.set_tag(tag);
        series.slice_x(xr.start, xr.end);
        match series.to_svg(&self.canvas) {
            Ok(g) => {
                self.canvas.push_layer(g);
                Ok(())
            },
            Err(er) => Err(er),
        }
    }

    /// Convert a data source to its series, color it with the next
    /// palette color, and add it.
    pub fn add_as_series<T: AsSeries>(&mut self, t: &T) -> (r: Result<(), ChartError>)
        requires
            old(self).wf(),
            t.source_wf(),
        ensures
            final(self).colors.colors == old(self).colors.colors,
            final(self).colors.index == (old(self).colors.index + 1) % old(
                self,
            ).colors.colors@.len() as int,
            old(self).x_range is None ==> r == Err::<(), ChartError>(
                ChartError::AxisNotInitialized,
            ) && final(self).canvas.groups == old(self).canvas.groups && final(self).series
                == old(self).series,
            r is Ok ==> {
                &&& old(self).x_range is Some
                &&& final(self).canvas.groups@.len() == old(self).canvas.groups@.len() + 1
                &&& (forall|j: int|
                    0 <= j < old(self).canvas.groups@.len() ==> final(self).canvas.groups@[j]
                        == #[trigger] old(self).canvas.groups@[j])
                &&& exists|r0: T::Series, d0: SeriesDescription|
                    {
                        &&& t.series_ok(r0)
                        &&& d0.label == r0.desc_spec().label
                        &&& d0.tag == r0.desc_spec().tag
                        &&& d0.color@ == spec_cycle_color(old(self).colors, 0)
                        &&& #[trigger] spec_pushed_series(
                            r0.with_desc(d0),
                            spec_digits(
                                spec_bucket_len(old(self).series@, r0.desc_spec().label@) + 1,
                            ),
                            old(self).x_range->0,
                            old(self).canvas,
                            final(self).canvas.groups@.last(),
                        )
                    }
            },
            old(self).x_range is Some ==> (exists|r0: T::Series|
                {
                    &&& #[trigger] t.series_ok(r0)
                    &&& spec_bucket_len(final(self).series@, r0.desc_spec().label@)
                        == spec_bucket_len(old(self).series@, r0.desc_spec().label@) + 1
                    &&& (forall|k: Seq<char>|
                        k != r0.desc_spec().label@ ==> spec_bucket_len(final(self).series@, k)
                            == spec_bucket_len(old(self).series@, k))
                }),
            r matches Err(er) ==> (old(self).x_range is Some ==> final(self).canvas.groups
                == old(self).canvas.groups && (exists|r0: T::Series, d0: SeriesDescription|
                {
                    &&& t.series_ok(r0)
                    &&& d0.label == r0.desc_spec().label
                    &&& d0.tag == r0.desc_spec().tag
                    &&& d0.color@ == spec_cycle_color(old(self).colors, 0)
                    &&& #[trigger] spec_pushed_series_err(
                        r0.with_desc(d0),
                        spec_digits(
                            spec_bucket_len(old(self).series@, r0.desc_spec().label@) + 1,
                        ),
                        old(self).x_range->0,
                        old(self).canvas,
                        er,
                    )
                })),
            final(self).canvas.x_axis == old(self).canvas.x_axis,
            final(self).canvas.y_axis == old(self).canvas.y_axis,
            final(self).x_range == old(self).x_range,
            final(self).y_range == old(self).y_range,
            final(self).finished == old(self).finished,
            final(self).xticks == old(self).xticks,
            final(self).yticks == old(self).yticks,
            final(self).custom_css == old(self).custom_css,
            final(self).wf(),
    {
        let mut series = t.as_series();
        let ghost r0 = series;
        let color = match self.colors.next() {
            Some(c) => c,
            None => String::new(),
        };
        let cm = series.color_mut();
        *cm = color;
        let ghost modified = series;
        let ghost d0 = modified.desc_spec();
        proof {
            assert(modified == r0.with_desc(d0));
            assert(d0.label == r0.desc_spec().label);
            assert(d0.tag == r0.desc_spec().tag);
            assert(d0.color@ == spec_cycle_color(old(self).colors, 0));
        }
        let res = self.add_series(series);
        proof {
            if res is Ok {
                assert(spec_pushed_series(
                    r0.with_desc(d0),
                    spec_digits(spec_bucket_len(old(self).series@, r0.desc_spec().label@) + 1),
                    old(self).x_range->0,
                    old(self).canvas,
                    self.canvas.groups@.last(),
                ));
            }
            if res is Err && old(self).x_range is Some {
                assert(spec_pushed_series_err(
                    r0.with_desc(d0),
                    spec_digits(spec_bucket_len(old(self).series@, r0.desc_spec().label@) + 1),
                    old(self).x_range->0,
                    old(self).canvas,
                    res->Err_0,
                ));
            }
        }
        res
    }

    /// Whether the composed document's structure matches this chart's
    /// state before finishing.
    pub open spec fn document_ok(self, d: Element) -> bool {
        let n_style: int = if self.custom_css is Some {
            1
        } else {
            0
        };
        &&& d.name@ == "svg"@
        &&& d.text is None
        &&& d.attrs@.len() == 1
        &&& d.attrs@[0].name@ == "xmlns"@ && d.attrs@[0].value@ == "http://www.w3.org/2000/svg"@
        &&& d.children@.len() == 1 + n_style
        &&& (self.custom_css matches Some(css) ==> {
            let st = d.children@[0];
            &&& st.name@ == "style"@
            &&& st.text matches Some(t) && t@ == css@
            &&& st.attrs@.len() == 0
            &&& st.children@.len() == 0
        })
        &&& self.canvas.composed_ok(self.xticks, self.yticks, d.children@.last())
    }

    /// Mark the chart finished, closing the building state.
    /// Composition itself is pure ([`Self::make_document`]), so
    /// finishing alters nothing else, and finishing again changes
    /// nothing at all.
    pub fn finish(&mut self)
        ensures
            *final(self) == (Self { finished: true, ..*old(self) }),
    {
        self.finished = true;
    }

    /// Whether every tick of both axes transforms successfully on the
    /// current domains.
    pub open spec fn ticks_ok(self) -> bool {
        &&& (forall|i: int|
            0 <= i < self.xticks.spec_ticks(self.canvas.x_axis.scale.domain).len()
                ==> (#[trigger] self.canvas.x_axis.scale.spec_transform_result(
                self.xticks.spec_ticks(self.canvas.x_axis.scale.domain)[i],
            )) is Ok)
        &&& (forall|i: int|
            0 <= i < self.yticks.spec_ticks(self.canvas.y_axis.scale.domain).len()
                ==> (#[trigger] self.canvas.y_axis.scale.spec_transform_result(
                self.yticks.spec_ticks(self.canvas.y_axis.scale.domain)[i],
            )) is Ok)
    }

    /// Compose the document: the optional custom stylesheet, then the
    /// canvas frame with copies of the data layers and both axes.  The
    /// chart itself is untouched.  Succeeds exactly when the label
    /// styles can format against the current domains and every tick
    /// position transforms; a percentile style against a zero domain
    /// maximum is the degenerate-scale error.
    pub fn make_document(&self) -> (r: Result<Element, ChartError>)
        requires
            self.wf(),
        ensures
            r is Ok <==> (self.fmt_ok() && self.ticks_ok()),
            r matches Ok(d) ==> self.document_ok(d),
            r matches Err(er) ==> (!self.fmt_ok() && er == ChartError::DegenerateScale) || (
            self.fmt_ok() && ((exists|i: int|
                0 <= i < self.xticks.spec_ticks(self.canvas.x_axis.scale.domain).len()
                    && #[trigger] self.canvas.x_axis.scale.spec_transform_result(
                    self.xticks.spec_ticks(self.canvas.x_axis.scale.domain)[i],
                ) == Err::<Coord, ChartError>(er)) || (exists|i: int|
                0 <= i < self.yticks.spec_ticks(self.canvas.y_axis.scale.domain).len()
                    && #[trigger] self.canvas.y_axis.scale.spec_transform_result(
                    self.yticks.spec_ticks(self.canvas.y_axis.scale.domain)[i],
                ) == Err::<Coord, ChartError>(er)))),
    {
        let fx = match self.xticks.tick_format {
            AxisTickLabelStyle::Precision(p) => p <= 6,
            AxisTickLabelStyle::SciNot(p) => p <= 6,
            AxisTickLabelStyle::Percentile(p) => p <= 6
                && self.canvas.x_axis.scale.domain.max().micros != 0,
        };
        let fy = match self.yticks.tick_format {
            AxisTickLabelStyle::Precision(p) => p <= 6,
            AxisTickLabelStyle::SciNot(p) => p <= 6,
            AxisTickLabelStyle::Percentile(p) => p <= 6
                && self.canvas.y_axis.scale.domain.max().micros != 0,
        };
        if !(fx && fy) {
            return Err(ChartError::DegenerateScale);
        }
        let composed = match self.canvas.to_svg(&self.xticks, &self.yticks) {
            Ok(g) => g,
            Err(e) => {
                return Err(e);
            },
        };
        let mut doc = Element::new("svg").set(
            "xmlns",
            String::from_str("http://www.w3.org/2000/svg"),
        );
        match &self.custom_css {
            Some(css) => {
                doc = doc.add(Element::new("style").with_text(css.clone()));
            },
            None => {},
        }
        doc = doc.add(composed);
        Ok(doc)
    }

    /// The document text: compose and serialize, succeeding exactly
    /// when [`Self::make_document`] does.
    pub fn to_string(&self) -> (r: Result<String, ChartError>)
        requires
            self.wf(),
        ensures
            r is Ok <==> (self.fmt_ok() && self.ticks_ok()),
            r matches Ok(s) ==> exists|d: Element|
                #[trigger] self.document_ok(d) && s@ == spec_render_elem(d),
            r matches Err(_) ==> !self.fmt_ok() || !self.ticks_ok(),
    {
        match self.make_document() {
            Ok(d) => {
                let s = d.to_xml_string();
                proof {
                    assert(self.document_ok(d) && s@ == spec_render_elem(d));
                }
                Ok(s)
            },
            Err(e) => Err(e),
        }
    }
}

impl Default for FeatureSVG {
    /// The conventional full-width feature panel.
    fn default() -> (r: Self)
        ensures
            r.canvas.width == 1400,
            r.canvas.height == 600,
            r.x_range is None,
            r.y_range is None,
            r.finished == false,
            r.wf(),
    {
        Self::with_size(1400, 600)
    }
}

/// The greatest intensity of a well-formed feature is in bounds.
proof fn lemma_max_intensity_in_bounds(s: Seq<(Coord, Coord)>)
    requires
        s.len() > 0,
        forall|i: int|
            0 <= i < s.len() ==> window_coord_ok((#[trigger] s[i]).0) && s[i].1.in_bounds(),
    ensures
        spec_max_intensity(s).in_bounds(),
    decreases s.len(),
{
    if s.len() > 1 {
        assert(forall|i: int|
            0 <= i < s.len() - 1 ==> #[trigger] s.drop_last()[i] == s[i]);
        lemma_max_intensity_in_bounds(s.drop_last());
    }
}


} // verus!
