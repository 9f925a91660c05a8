//! The polymorphic series abstraction: typed scientific data turned into
//! positioned vector primitives, one renderable layer per series.

use vstd::prelude::*;
use vstd::seq_lib::*;
use vstd::string::StringExecFns;
use crate::coord::{ChartError, Coord, COORD_LIMIT};
use crate::svgdoc::Element;
use crate::chart_regions::{Canvas, TextProps};

verus! {

/// The palette a fresh [`ColorCycle`] starts with.
pub open spec fn spec_default_palette() -> Seq<Seq<char>> {
    seq![
        "black"@,
        "steelblue"@,
        "blueviolet"@,
        "midnightblue"@,
        "lightseagreen"@,
        "limegreen"@,
        "goldenrod"@,
        "firebrick"@,
        "crimson"@,
    ]
}

/// The default palette as owned strings.
pub fn default_color_cycle() -> (r: Vec<String>)
    ensures
        r.deep_view() == spec_default_palette(),
        r@.len() == 9,
{
    let mut v: Vec<String> = Vec::new();
    v.push(String::from_str("black"));
    v.push(String::from_str("steelblue"));
    v.push(String::from_str("blueviolet"));
    v.push(String::from_str("midnightblue"));
    v.push(String::from_str("lightseagreen"));
    v.push(String::from_str("limegreen"));
    v.push(String::from_str("goldenrod"));
    v.push(String::from_str("firebrick"));
    v.push(String::from_str("crimson"));
    proof {
        assert(v.deep_view() =~= spec_default_palette());
    }
    v
}

/// A fixed ordered palette and a cursor; colors are handed out
/// round-robin, wrapping back to the first, and never run out.
#[derive(Debug, Clone)]
pub struct ColorCycle {
    pub colors: Vec<String>,
    pub index: usize,
}

impl Default for ColorCycle {
    fn default() -> (r: Self)
        ensures
            r.colors.deep_view() == spec_default_palette(),
            r.index == 0,
            r.wf(),
    {
        let colors = default_color_cycle();
        ColorCycle { colors, index: 0 }
    }
}

/// The color the cycle yields on its `k+1`-th call from state `c`:
/// round-robin over the palette.
pub open spec fn spec_cycle_color(c: ColorCycle, k: nat) -> Seq<char> {
    c.colors@[(c.index as int + k as int) % (c.colors@.len() as int)]@
}

impl ColorCycle {
    pub open spec fn wf(self) -> bool {
        self.colors@.len() > 0 && self.index < self.colors@.len()
    }

    /// The next color, round-robin.  Never exhausted: always `Some`.
    pub fn next(&mut self) -> (r: Option<String>)
        requires
            old(self).wf(),
        ensures
            final(self).wf(),
            final(self).colors == old(self).colors,
            final(self).index == (old(self).index + 1) % old(self).colors@.len() as int,
            r matches Some(c) && c@ == spec_cycle_color(*old(self), 0),
    {
        let n = self.colors.len();
        let value = self.colors[self.index].clone();
        proof {
            vstd::arithmetic::div_mod::lemma_small_mod(self.index as nat, n as nat);
        }
        self.index = (self.index + 1) % n;
        Some(value)
    }
}

/// Wrapping law: starting anywhere, the color after one full turn of
/// the palette is the color the cycle started with, so the call at
/// position `len + 1` repeats the call at position 1.
pub proof fn law_color_cycle_wraps(c: ColorCycle)
    requires
        c.wf(),
    ensures
        spec_cycle_color(c, c.colors@.len() as nat) == spec_cycle_color(c, 0),
{
    let n = c.colors@.len() as int;
    vstd::arithmetic::div_mod::lemma_mod_multiples_vanish(1, c.index as int, n);
    assert((c.index as int + n) % n == c.index as int % n);
    vstd::arithmetic::div_mod::lemma_small_mod(c.index as nat, n as nat);
}

/// Identity and styling of one series: a CSS label, a stroke/fill
/// color, and a tag disambiguating repeated labels.
#[derive(Debug, Clone)]
pub struct SeriesDescription {
    pub label: String,
    pub color: String,
    pub tag: String,
}

/// The document id of a series: `label-tag`.
pub open spec fn spec_series_id(d: SeriesDescription) -> Seq<char> {
    d.label@ + "-"@ + d.tag@
}

impl SeriesDescription {
    pub fn new(label: String, color: String) -> (r: Self)
        ensures
            r.label == label,
            r.color == color,
            r.tag@ == Seq::<char>::empty(),
    {
        Self { label, color, tag: String::new() }
    }

    /// Replace the color (builder style).
    pub fn with_color(self, color: String) -> (r: Self)
        ensures
            r.label == self.label,
            r.tag == self.tag,
            r.color == color,
    {
        Self { color, ..self }
    }

    /// The CSS class of the series: its label.
    pub fn series_type(&self) -> (r: String)
        ensures
            r@ == self.label@,
    {
        self.label.clone()
    }

    /// The document id of the series: `label-tag`.
    pub fn id(&self) -> (r: String)
        ensures
            r@ == spec_series_id(*self),
    {
        let mut s = self.label.clone();
        s.append("-");
        s.append(self.tag.as_str());
        proof {
            assert(s@ =~= spec_series_id(*self));
        }
        s
    }

    /// An exact copy.
    pub fn duplicate(&self) -> (r: Self)
        ensures
            r == *self,
    {
        SeriesDescription {
            label: self.label.clone(),
            color: self.color.clone(),
            tag: self.tag.clone(),
        }
    }
}

impl From<String> for SeriesDescription {
    fn from(value: String) -> (r: Self) {
        SeriesDescription { label: value, color: String::from_str("black"), tag: String::new() }
    }
}

impl vstd::std_specs::convert::FromSpecImpl<String> for SeriesDescription {
    open spec fn obeys_from_spec() -> bool {
        false
    }

    open spec fn from_spec(value: String) -> Self {
        arbitrary()
    }
}

impl From<&str> for SeriesDescription {
    fn from(value: &str) -> (r: Self) {
        SeriesDescription {
            label: String::from_str(value),
            color: String::from_str("black"),
            tag: String::new(),
        }
    }
}

impl vstd::std_specs::convert::FromSpecImpl<&str> for SeriesDescription {
    open spec fn obeys_from_spec() -> bool {
        false
    }

    open spec fn from_spec(value: &str) -> Self {
        arbitrary()
    }
}

/// Make a description from a label, with the default black stroke.
pub fn description_from_label(label: &str) -> (r: SeriesDescription)
    ensures
        r.label@ == label@,
        r.color@ == "black"@,
        r.tag@ == Seq::<char>::empty(),
{
    SeriesDescription {
        label: String::from_str(label),
        color: String::from_str("black"),
        tag: String::new(),
    }
}

/// Whether a point's x-coordinate lies in the closed interval
/// `[start, end]`.
pub open spec fn in_x(p: (Coord, Coord), start: Coord, end: Coord) -> bool {
    start.micros <= p.0.micros <= end.micros
}

/// Whether a point's y-coordinate lies in the closed interval
/// `[start, end]`.
pub open spec fn in_y(p: (Coord, Coord), start: Coord, end: Coord) -> bool {
    start.micros <= p.1.micros <= end.micros
}

/// The points of `s` whose x lies in `[start, end]`, in order.
pub open spec fn spec_filter_x(s: Seq<(Coord, Coord)>, start: Coord, end: Coord) -> Seq<
    (Coord, Coord),
> {
    s.filter(|p: (Coord, Coord)| in_x(p, start, end))
}

/// The points of `s` whose y lies in `[start, end]`, in order.
pub open spec fn spec_filter_y(s: Seq<(Coord, Coord)>, start: Coord, end: Coord) -> Seq<
    (Coord, Coord),
> {
    s.filter(|p: (Coord, Coord)| in_y(p, start, end))
}

/// Keep exactly the points whose x lies in the closed interval.
pub fn filter_points_x(points: &Vec<(Coord, Coord)>, start: Coord, end: Coord) -> (r: Vec<
    (Coord, Coord),
>)
    ensures
        r@ == spec_filter_x(points@, start, end),
        points_wf(points@) ==> points_wf(r@),
{
    let ghost pred = |p: (Coord, Coord)| in_x(p, start, end);
    let mut r: Vec<(Coord, Coord)> = Vec::new();
    let n = points.len();
    let mut i: usize = 0;
    while i < n
        invariant
            n == points@.len(),
            0 <= i <= n,
            r@ == points@.take(i as int).filter(pred),
            pred == (|p: (Coord, Coord)| in_x(p, start, end)),
            points_wf(points@) ==> points_wf(r@),
        decreases n - i,
    {
        let p = points[i];
        if start.micros <= p.0.micros && p.0.micros <= end.micros {
            r.push(p);
        }
        proof {
            reveal(Seq::filter);
            let pre = points@.take(i as int);
            let cur = points@.take(i + 1 as int);
            assert(cur.drop_last() =~= pre);
            assert(cur.last() == p);
            assert(r@ =~= cur.filter(pred));
        }
        i = i + 1;
    }
    proof {
        assert(points@.take(n as int) =~= points@);
    }
    r
}

/// Keep exactly the points whose y lies in the closed interval.
pub fn filter_points_y(points: &Vec<(Coord, Coord)>, start: Coord, end: Coord) -> (r: Vec<
    (Coord, Coord),
>)
    ensures
        r@ == spec_filter_y(points@, start, end),
        points_wf(points@) ==> points_wf(r@),
{
    let ghost pred = |p: (Coord, Coord)| in_y(p, start, end);
    let mut r: Vec<(Coord, Coord)> = Vec::new();
    let n = points.len();
    let mut i: usize = 0;
    while i < n
        invariant
            n == points@.len(),
            0 <= i <= n,
            r@ == points@.take(i as int).filter(pred),
            pred == (|p: (Coord, Coord)| in_y(p, start, end)),
            points_wf(points@) ==> points_wf(r@),
        decreases n - i,
    {
        let p = points[i];
        if start.micros <= p.1.micros && p.1.micros <= end.micros {
            r.push(p);
        }
        proof {
            reveal(Seq::filter);
            let pre = points@.take(i as int);
            let cur = points@.take(i + 1 as int);
            assert(cur.drop_last() =~= pre);
            assert(cur.last() == p);
            assert(r@ =~= cur.filter(pred));
        }
        i = i + 1;
    }
    proof {
        assert(points@.take(n as int) =~= points@);
    }
    r
}

/// Filtering with a stronger predicate ignores an earlier filter with a
/// weaker one.
proof fn lemma_filter_subsumed<A>(s: Seq<A>, p1: spec_fn(A) -> bool, p2: spec_fn(A) -> bool)
    requires
        forall|x: A| #[trigger] p2(x) ==> p1(x),
    ensures
        s.filter(p1).filter(p2) == s.filter(p2),
    decreases s.len(),
{
    reveal(Seq::filter);
    if s.len() > 0 {
        let fs = s.drop_last();
        lemma_filter_subsumed(fs, p1, p2);
        if p1(s.last()) {
            assert(s.filter(p1) == fs.filter(p1).push(s.last()));
            assert(s.filter(p1).drop_last() =~= fs.filter(p1));
            assert(s.filter(p1).filter(p2) =~= s.filter(p2));
        } else {
            assert(s.filter(p1) =~= fs.filter(p1));
            assert(s.filter(p2) =~= fs.filter(p2));
        }
    }
}

/// Slicing law: slicing twice with shrinking x-bounds keeps exactly what
/// one slice with the narrower bounds keeps.
pub proof fn law_slice_x_twice(
    s: Seq<(Coord, Coord)>,
    a: Coord,
    b: Coord,
    c: Coord,
    d: Coord,
)
    requires
        a.micros <= c.micros,
        d.micros <= b.micros,
    ensures
        spec_filter_x(spec_filter_x(s, a, b), c, d) == spec_filter_x(s, c, d),
{
    lemma_filter_subsumed(
        s,
        |p: (Coord, Coord)| in_x(p, a, b),
        |p: (Coord, Coord)| in_x(p, c, d),
    );
}

/// Slicing law: slicing twice with shrinking y-bounds keeps exactly what
/// one slice with the narrower bounds keeps.
pub proof fn law_slice_y_twice(
    s: Seq<(Coord, Coord)>,
    a: Coord,
    b: Coord,
    c: Coord,
    d: Coord,
)
    requires
        a.micros <= c.micros,
        d.micros <= b.micros,
    ensures
        spec_filter_y(spec_filter_y(s, a, b), c, d) == spec_filter_y(s, c, d),
{
    lemma_filter_subsumed(
        s,
        |p: (Coord, Coord)| in_y(p, a, b),
        |p: (Coord, Coord)| in_y(p, c, d),
    );
}

/// All points of a series lie within the coordinate bounds.
pub open spec fn points_wf(s: Seq<(Coord, Coord)>) -> bool {
    forall|i: int| 0 <= i < s.len() ==> (#[trigger] s[i]).0.in_bounds() && s[i].1.in_bounds()
}

/// The contract shared by every series kind: identity and styling
/// through its description, destructive restriction to a sub-range
/// before rendering, and pure rendering against a canvas.
pub trait PlotSeries: Sized {
    /// The series' own well-formedness (its data in coordinate bounds).
    spec fn wf(&self) -> bool;

    /// The series' description value.
    spec fn desc_spec(&self) -> SeriesDescription;

    /// The same series with its description replaced.
    spec fn with_desc(&self, d: SeriesDescription) -> Self;

    /// What `slice_x` leaves behind.
    spec fn slice_x_post(&self, after: Self, start: Coord, end: Coord) -> bool;

    /// What `slice_y` leaves behind.
    spec fn slice_y_post(&self, after: Self, start: Coord, end: Coord) -> bool;

    /// Whether rendering on this canvas succeeds (every needed
    /// coordinate transform stays in range).
    spec fn renders(&self, canvas: Canvas) -> bool;

    /// The exact layer produced on success.
    spec fn rendered_ok(&self, canvas: Canvas, e: Element) -> bool;

    /// Which errors rendering can surface, and from where.
    spec fn render_err(&self, canvas: Canvas, er: ChartError) -> bool;

    fn description(&self) -> (r: &SeriesDescription)
        ensures
            *r == self.desc_spec(),
    ;

    fn description_mut(&mut self) -> (r: &mut SeriesDescription)
        ensures
            *r == old(self).desc_spec(),
            *final(self) == old(self).with_desc(*final(r)),
            final(self).desc_spec() == *final(r),
            old(self).wf() ==> final(self).wf(),
    ;

    /// The CSS class of the series: its label.
    fn series_type(&self) -> (r: String)
        ensures
            r@ == self.desc_spec().label@,
    {
        self.description().series_type()
    }

    /// The document id of the series: `label-tag`.
    fn series_id(&self) -> (r: String)
        ensures
            r@ == spec_series_id(self.desc_spec()),
    {
        self.description().id()
    }

    /// Replace the disambiguating tag.
    fn set_tag(&mut self, tag: String)
        ensures
            *final(self) == old(self).with_desc(
                SeriesDescription { tag, ..old(self).desc_spec() },
            ),
            final(self).desc_spec() == (SeriesDescription { tag, ..old(self).desc_spec() }),
            old(self).wf() ==> final(self).wf(),
    {
        let d = self.description_mut();
        d.tag = tag;
    }

    /// The stroke/fill color.
    fn color(&self) -> (r: String)
        ensures
            r@ == self.desc_spec().color@,
    {
        self.description().color.clone()
    }

    fn color_mut(&mut self) -> (r: &mut String)
        ensures
            *r == old(self).desc_spec().color,
            *final(self) == old(self).with_desc(
                SeriesDescription { color: *final(r), ..old(self).desc_spec() },
            ),
            final(self).desc_spec() == (SeriesDescription {
                color: *final(r),
                ..old(self).desc_spec()
            }),
            old(self).wf() ==> final(self).wf(),
    ;

    /// Render the (already sliced) series against the canvas's current
    /// scales into one layer.
    fn to_svg(&self, canvas: &Canvas) -> (r: Result<Element, ChartError>)
        requires
            self.wf(),
            canvas.wf(),
        ensures
            r is Ok <==> self.renders(*canvas),
            r matches Ok(e) ==> self.rendered_ok(*canvas, e),
            r matches Err(er) ==> self.render_err(*canvas, er),
    ;

    /// Destructively restrict the series' data to `[start, end]` on x
    /// (boundary points kept).
    fn slice_x(&mut self, start: Coord, end: Coord)
        requires
            old(self).wf(),
            start.in_bounds(),
            end.in_bounds(),
        ensures
            old(self).slice_x_post(*final(self), start, end),
            final(self).wf(),
    ;

    /// Destructively restrict the series' data to `[start, end]` on y
    /// (boundary points kept).
    fn slice_y(&mut self, start: Coord, end: Coord)
        requires
            old(self).wf(),
            start.in_bounds(),
            end.in_bounds(),
        ensures
            old(self).slice_y_post(*final(self), start, end),
            final(self).wf(),
    ;
}

/// The device position of a data point on the canvas (meaningful when
/// the canvas transform succeeds on it).
pub open spec fn spec_pixel(canvas: Canvas, p: (Coord, Coord)) -> (Coord, Coord) {
    match canvas.spec_transform_result(p.0, p.1) {
        Ok(q) => q,
        Err(_) => (Coord { micros: 0 }, Coord { micros: 0 }),
    }
}

/// Every point of `s` transforms successfully on the canvas.
pub open spec fn all_points_render(canvas: Canvas, s: Seq<(Coord, Coord)>) -> bool {
    forall|i: int|
        0 <= i < s.len() ==> (#[trigger] canvas.spec_transform_result(s[i].0, s[i].1)) is Ok
}

/// Some point of `s` fails with exactly this error.
pub open spec fn some_point_err(canvas: Canvas, s: Seq<(Coord, Coord)>, er: ChartError) -> bool {
    exists|i: int|
        0 <= i < s.len() && #[trigger] canvas.spec_transform_result(s[i].0, s[i].1) == Err::<
            (Coord, Coord),
            ChartError,
        >(er)
}

/// The text of one `x,y` pair in a polyline's `points` attribute.
pub open spec fn spec_pair_str(q: (Coord, Coord)) -> Seq<char> {
    crate::numfmt::spec_coord_str(q.0.micros as int) + ","@ + crate::numfmt::spec_coord_str(
        q.1.micros as int,
    )
}

/// The `points` attribute of a polyline: the device positions of the
/// data points, space-separated.
pub open spec fn spec_polyline_pts(canvas: Canvas, s: Seq<(Coord, Coord)>) -> Seq<char>
    decreases s.len(),
{
    if s.len() == 0 {
        Seq::empty()
    } else if s.len() == 1 {
        spec_pair_str(spec_pixel(canvas, s[0]))
    } else {
        spec_polyline_pts(canvas, s.drop_last()) + " "@ + spec_pair_str(
            spec_pixel(canvas, s.last()),
        )
    }
}

/// Append one `x,y` pair to a polyline `points` string.
fn push_pair(out: &mut String, q: (Coord, Coord))
    ensures
        final(out)@ == old(out)@ + spec_pair_str(q),
{
    crate::numfmt::push_coord_decimal(out, q.0.micros);
    out.append(",");
    crate::numfmt::push_coord_decimal(out, q.1.micros);
    proof {
        assert(final(out)@ =~= old(out)@ + spec_pair_str(q));
    }
}

/// The first point with the least x-coordinate (ties keep the earlier
/// point).
pub open spec fn spec_min_x(s: Seq<(Coord, Coord)>) -> Coord
    recommends
        s.len() > 0,
    decreases s.len(),
{
    if s.len() <= 1 {
        s[0].0
    } else {
        let m = spec_min_x(s.drop_last());
        if s.last().0.micros < m.micros {
            s.last().0
        } else {
            m
        }
    }
}

/// The last point with the greatest x-coordinate (ties keep the later
/// point).
pub open spec fn spec_max_x(s: Seq<(Coord, Coord)>) -> Coord
    recommends
        s.len() > 0,
    decreases s.len(),
{
    if s.len() <= 1 {
        s[0].0
    } else {
        let m = spec_max_x(s.drop_last());
        if s.last().0.micros >= m.micros {
            s.last().0
        } else {
            m
        }
    }
}

/// The least x-coordinate of a non-empty point list.
fn min_x_of(points: &Vec<(Coord, Coord)>) -> (r: Coord)
    requires
        points@.len() > 0,
    ensures
        r == spec_min_x(points@),
{
    let mut m = points[0].0;
    let n = points.len();
    let mut i: usize = 1;
    while i < n
        invariant
            n == points@.len(),
            1 <= i <= n,
            m == spec_min_x(points@.take(i as int)),
        decreases n - i,
    {
        if points[i].0.micros < m.micros {
            m = points[i].0;
        }
        proof {
            let cur = points@.take(i + 1 as int);
            assert(cur.drop_last() =~= points@.take(i as int));
            assert(cur.last() == points@[i as int]);
        }
        i = i + 1;
    }
    proof {
        assert(points@.take(n as int) =~= points@);
    }
    m
}

/// The greatest x-coordinate of a non-empty point list.
fn max_x_of(points: &Vec<(Coord, Coord)>) -> (r: Coord)
    requires
        points@.len() > 0,
    ensures
        r == spec_max_x(points@),
{
    let mut m = points[0].0;
    let n = points.len();
    let mut i: usize = 1;
    while i < n
        invariant
            n == points@.len(),
            1 <= i <= n,
            m == spec_max_x(points@.take(i as int)),
        decreases n - i,
    {
        if points[i].0.micros >= m.micros {
            m = points[i].0;
        }
        proof {
            let cur = points@.take(i + 1 as int);
            assert(cur.drop_last() =~= points@.take(i as int));
            assert(cur.last() == points@[i as int]);
        }
        i = i + 1;
    }
    proof {
        assert(points@.take(n as int) =~= points@);
    }
    m
}

/// An open polyline, no baseline closure: reference lines and simple
/// overlays.
#[derive(Debug, Clone)]
pub struct LineSeries {
    pub points: Vec<(Coord, Coord)>,
    pub description: SeriesDescription,
}

impl LineSeries {
    pub fn new(points: Vec<(Coord, Coord)>, description: SeriesDescription) -> (r: Self)
        ensures
            r.points == points,
            r.description == description,
    {
        Self { points, description }
    }

    /// Build from parallel x and y lists, pairing elementwise (the
    /// shorter list decides the length).
    pub fn from_iterators(
        xiter: &Vec<Coord>,
        yiter: &Vec<Coord>,
        description: SeriesDescription,
    ) -> (r: Self)
        ensures
            r.description == description,
            r.points@.len() == vstd::math::min(xiter@.len() as int, yiter@.len() as int),
            forall|i: int|
                0 <= i < r.points@.len() ==> #[trigger] r.points@[i] == (xiter@[i], yiter@[i]),
    {
        Self { points: zip_coords(xiter, yiter), description }
    }
}

/// Pair two coordinate lists elementwise.
pub fn zip_coords(xs: &Vec<Coord>, ys: &Vec<Coord>) -> (r: Vec<(Coord, Coord)>)
    ensures
        r@.len() == vstd::math::min(xs@.len() as int, ys@.len() as int),
        forall|i: int| 0 <= i < r@.len() ==> #[trigger] r@[i] == (xs@[i], ys@[i]),
{
    let n = if xs.len() < ys.len() {
        xs.len()
    } else {
        ys.len()
    };
    let mut r: Vec<(Coord, Coord)> = Vec::new();
    let mut i: usize = 0;
    while i < n
        invariant
            n == vstd::math::min(xs@.len() as int, ys@.len() as int),
            0 <= i <= n,
            r@.len() == i,
            forall|j: int| 0 <= j < i ==> #[trigger] r@[j] == (xs@[j], ys@[j]),
        decreases n - i,
    {
        r.push((xs[i], ys[i]));
        i = i + 1;
    }
    r
}

/// The content of a rendered polyline group: its class and id
/// attributes and its single polyline child (further attributes may
/// follow when a caller decorates the group).
pub open spec fn spec_line_group_content_ok(
    label: Seq<char>,
    color: Seq<char>,
    id: Seq<char>,
    canvas: Canvas,
    pts: Seq<(Coord, Coord)>,
    e: Element,
) -> bool {
    &&& e.name@ == "g"@
    &&& e.text is None
    &&& e.attrs@.len() >= 2
    &&& e.attrs@[0].name@ == "class"@ && e.attrs@[0].value@ == label
    &&& e.attrs@[1].name@ == "id"@ && e.attrs@[1].value@ == id
    &&& e.children@.len() == 1
    &&& {
        let pl = e.children@[0];
        &&& pl.name@ == "polyline"@
        &&& pl.text is None
        &&& pl.children@.len() == 0
        &&& pl.attrs@.len() == 4
        &&& pl.attrs@[0].name@ == "points"@ && pl.attrs@[0].value@ == spec_polyline_pts(
            canvas,
            pts,
        )
        &&& pl.attrs@[1].name@ == "fill"@ && pl.attrs@[1].value@ == "none"@
        &&& pl.attrs@[2].name@ == "stroke"@ && pl.attrs@[2].value@ == color
        &&& pl.attrs@[3].name@ == "stroke-width"@ && pl.attrs@[3].value@ == "1"@
    }
}

impl PlotSeries for LineSeries {
    open spec fn wf(&self) -> bool {
        points_wf(self.points@)
    }

    open spec fn desc_spec(&self) -> SeriesDescription {
        self.description
    }

    open spec fn with_desc(&self, d: SeriesDescription) -> Self {
        LineSeries { description: d, points: self.points }
    }

    open spec fn slice_x_post(&self, after: Self, start: Coord, end: Coord) -> bool {
        after.points@ == spec_filter_x(self.points@, start, end) && after.description
            == self.description
    }

    open spec fn slice_y_post(&self, after: Self, start: Coord, end: Coord) -> bool {
        after.points@ == spec_filter_y(self.points@, start, end) && after.description
            == self.description
    }

    open spec fn renders(&self, canvas: Canvas) -> bool {
        all_points_render(canvas, self.points@)
    }

    open spec fn rendered_ok(&self, canvas: Canvas, e: Element) -> bool {
        spec_line_group_content_ok(
            self.description.label@,
            self.description.color@,
            spec_series_id(self.description),
            canvas,
            self.points@,
            e,
        ) && e.attrs@.len() == 2
    }

    open spec fn render_err(&self, canvas: Canvas, er: ChartError) -> bool {
        some_point_err(canvas, self.points@, er)
    }

    fn description(&self) -> (r: &SeriesDescription) {
        &self.description
    }

    fn description_mut(&mut self) -> (r: &mut SeriesDescription) {
        &mut self.description
    }

    fn color_mut(&mut self) -> (r: &mut String) {
        &mut self.description.color
    }

    fn to_svg(&self, canvas: &Canvas) -> (r: Result<Element, ChartError>) {
        let mut pts = String::new();
        let n = self.points.len();
        let mut i: usize = 0;
        while i < n
            invariant
                n == self.points@.len(),
                0 <= i <= n,
                self.wf(),
                canvas.wf(),
                pts@ == spec_polyline_pts(*canvas, self.points@.take(i as int)),
                forall|j: int|
                    0 <= j < i ==> (#[trigger] canvas.spec_transform_result(
                        self.points@[j].0,
                        self.points@[j].1,
                    )) is Ok,
            decreases n - i,
        {
            let p = self.points[i];
            let q = match canvas.transform(p.0, p.1) {
                Ok(q) => q,
                Err(er) => {
                    return Err(er);
                },
            };
            if i > 0 {
                pts.append(" ");
            }
            push_pair(&mut pts, q);
            proof {
                reveal_strlit(" ");
                let cur = self.points@.take(i + 1 as int);
                assert(cur.drop_last() =~= self.points@.take(i as int));
                assert(cur.last() == p);
                assert(" "@ =~= seq![' ']);
                assert(pts@ =~= spec_polyline_pts(*canvas, cur));
            }
            i = i + 1;
        }
        proof {
            assert(self.points@.take(n as int) =~= self.points@);
        }
        let pl = Element::new("polyline").set("points", pts).set(
            "fill",
            String::from_str("none"),
        ).set("stroke", self.description.color.clone()).set(
            "stroke-width",
            String::from_str("1"),
        );
        let group = Element::new("g").add(pl).set("class", self.description.label.clone()).set(
            "id",
            self.description.id(),
        );
        proof {
            assert(self.rendered_ok(*canvas, group));
        }
        Ok(group)
    }

    fn slice_x(&mut self, start: Coord, end: Coord) {
        let points = filter_points_x(&self.points, start, end);
        self.points = points;
    }

    fn slice_y(&mut self, start: Coord, end: Coord) {
        let points = filter_points_y(&self.points, start, end);
        self.points = points;
    }
}


/// The absolute line commands visiting each point's device position, in
/// order.
pub open spec fn spec_line_cmds(canvas: Canvas, s: Seq<(Coord, Coord)>) -> Seq<
    crate::svgdoc::PathCmd,
> {
    Seq::new(
        s.len(),
        |i: int| crate::svgdoc::PathCmd::LineTo(
            spec_pixel(canvas, s[i]).0,
            spec_pixel(canvas, s[i]).1,
        ),
    )
}

/// The closed-silhouette path of a continuous trace: start at the
/// baseline below the least x, visit every point in list order, close
/// back to the start.
pub open spec fn spec_continuous_cmds(canvas: Canvas, s: Seq<(Coord, Coord)>) -> Seq<
    crate::svgdoc::PathCmd,
> {
    if s.len() == 0 {
        seq![crate::svgdoc::PathCmd::Close]
    } else {
        let b = spec_pixel(canvas, (spec_min_x(s), Coord { micros: 0 }));
        seq![crate::svgdoc::PathCmd::MoveTo(b.0, b.1)] + spec_line_cmds(canvas, s) + seq![
            crate::svgdoc::PathCmd::Close,
        ]
    }
}

/// The rendered layer of a closed-silhouette (continuous) trace: a
/// group holding one path, classed and identified by the description.
pub open spec fn spec_continuous_group_ok(
    desc: SeriesDescription,
    canvas: Canvas,
    pts: Seq<(Coord, Coord)>,
    e: Element,
) -> bool {
    &&& e.name@ == "g"@
    &&& e.text is None
    &&& e.attrs@.len() == 4
    &&& e.attrs@[0].name@ == "stroke"@ && e.attrs@[0].value@ == desc.color@
    &&& e.attrs@[1].name@ == "stroke-width"@ && e.attrs@[1].value@ == "1"@
    &&& e.attrs@[2].name@ == "class"@ && e.attrs@[2].value@ == desc.label@
    &&& e.attrs@[3].name@ == "id"@ && e.attrs@[3].value@ == spec_series_id(desc)
    &&& e.children@.len() == 1
    &&& {
        let pa = e.children@[0];
        &&& pa.name@ == "path"@
        &&& pa.text is None
        &&& pa.children@.len() == 0
        &&& pa.attrs@.len() == 2
        &&& pa.attrs@[0].name@ == "fill"@ && pa.attrs@[0].value@ == "none"@
        &&& pa.attrs@[1].name@ == "d"@ && pa.attrs@[1].value@ == crate::svgdoc::spec_render_path(
            spec_continuous_cmds(canvas, pts),
        )
    }
}

/// Whether a closed-silhouette trace over `pts` renders on the canvas.
pub open spec fn spec_continuous_renders(canvas: Canvas, pts: Seq<(Coord, Coord)>) -> bool {
    &&& (pts.len() > 0 ==> canvas.spec_transform_result(
        spec_min_x(pts),
        Coord { micros: 0 },
    ) is Ok)
    &&& all_points_render(canvas, pts)
}

/// Which errors a closed-silhouette trace over `pts` can surface.
pub open spec fn spec_continuous_err(
    canvas: Canvas,
    pts: Seq<(Coord, Coord)>,
    er: ChartError,
) -> bool {
    some_point_err(canvas, pts, er) || (pts.len() > 0 && canvas.spec_transform_result(
        spec_min_x(pts),
        Coord { micros: 0 },
    ) == Err::<(Coord, Coord), ChartError>(er))
}

/// An ordered point list drawn as a filled silhouette: one path from
/// the baseline through every point and back.
#[derive(Debug, Clone)]
pub struct ContinuousSeries {
    pub points: Vec<(Coord, Coord)>,
    pub description: SeriesDescription,
}

impl ContinuousSeries {
    pub fn new(points: Vec<(Coord, Coord)>, description: SeriesDescription) -> (r: Self)
        ensures
            r.points == points,
            r.description == description,
    {
        Self { points, description }
    }

    /// Build from parallel x and y lists, pairing elementwise (the
    /// shorter list decides the length).
    pub fn from_iterators(
        xiter: &Vec<Coord>,
        yiter: &Vec<Coord>,
        description: SeriesDescription,
    ) -> (r: Self)
        ensures
            r.description == description,
            r.points@.len() == vstd::math::min(xiter@.len() as int, yiter@.len() as int),
            forall|i: int|
                0 <= i < r.points@.len() ==> #[trigger] r.points@[i] == (xiter@[i], yiter@[i]),
    {
        Self { points: zip_coords(xiter, yiter), description }
    }
}

impl PlotSeries for ContinuousSeries {
    open spec fn wf(&self) -> bool {
        points_wf(self.points@)
    }

    open spec fn desc_spec(&self) -> SeriesDescription {
        self.description
    }

    open spec fn with_desc(&self, d: SeriesDescription) -> Self {
        ContinuousSeries { description: d, points: self.points }
    }

    open spec fn slice_x_post(&self, after: Self, start: Coord, end: Coord) -> bool {
        after.points@ == spec_filter_x(self.points@, start, end) && after.description
            == self.description
    }

    open spec fn slice_y_post(&self, after: Self, start: Coord, end: Coord) -> bool {
        after.points@ == spec_filter_y(self.points@, start, end) && after.description
            == self.description
    }

    open spec fn renders(&self, canvas: Canvas) -> bool {
        spec_continuous_renders(canvas, self.points@)
    }

    open spec fn rendered_ok(&self, canvas: Canvas, e: Element) -> bool {
        spec_continuous_group_ok(self.description, canvas, self.points@, e)
    }

    open spec fn render_err(&self, canvas: Canvas, er: ChartError) -> bool {
        spec_continuous_err(canvas, self.points@, er)
    }

    fn description(&self) -> (r: &SeriesDescription) {
        &self.description
    }

    fn description_mut(&mut self) -> (r: &mut SeriesDescription) {
        &mut self.description
    }

    fn color_mut(&mut self) -> (r: &mut String) {
        &mut self.description.color
    }

    fn to_svg(&self, canvas: &Canvas) -> (r: Result<Element, ChartError>) {
        let mut cmds: Vec<crate::svgdoc::PathCmd> = Vec::new();
        let n = self.points.len();
        if n > 0 {
            let mx = min_x_of(&self.points);
            proof {
                lemma_min_x_in_bounds(self.points@);
            }
            let b = match canvas.transform(mx, Coord::zero()) {
                Ok(q) => q,
                Err(er) => {
                    return Err(er);
                },
            };
            cmds.push(crate::svgdoc::PathCmd::MoveTo(b.0, b.1));
        }
        let mut i: usize = 0;
        while i < n
            invariant
                n == self.points@.len(),
                0 <= i <= n,
                self.wf(),
                canvas.wf(),
                n > 0 ==> canvas.spec_transform_result(
                    spec_min_x(self.points@),
                    Coord { micros: 0 },
                ) is Ok,
                n > 0 ==> cmds@ == seq![
                    crate::svgdoc::PathCmd::MoveTo(
                        spec_pixel(*canvas, (spec_min_x(self.points@), Coord { micros: 0 })).0,
                        spec_pixel(*canvas, (spec_min_x(self.points@), Coord { micros: 0 })).1,
                    ),
                ] + spec_line_cmds(*canvas, self.points@.take(i as int)),
                n == 0 ==> cmds@.len() == 0,
                forall|j: int|
                    0 <= j < i ==> (#[trigger] canvas.spec_transform_result(
                        self.points@[j].0,
                        self.points@[j].1,
                    )) is Ok,
            decreases n - i,
        {
            let p = self.points[i];
            let q = match canvas.transform(p.0, p.1) {
                Ok(q) => q,
                Err(er) => {
                    return Err(er);
                },
            };
            cmds.push(crate::svgdoc::PathCmd::LineTo(q.0, q.1));
            proof {
                assert(spec_line_cmds(*canvas, self.points@.take(i + 1 as int)) =~= spec_line_cmds(
                    *canvas,
                    self.points@.take(i as int),
                ).push(crate::svgdoc::PathCmd::LineTo(q.0, q.1)));
                assert(cmds@ =~= seq![
                    crate::svgdoc::PathCmd::MoveTo(
                        spec_pixel(*canvas, (spec_min_x(self.points@), Coord { micros: 0 })).0,
                        spec_pixel(*canvas, (spec_min_x(self.points@), Coord { micros: 0 })).1,
                    ),
                ] + spec_line_cmds(*canvas, self.points@.take(i + 1 as int)));
            }
            i = i + 1;
        }
        cmds.push(crate::svgdoc::PathCmd::Close);
        proof {
            assert(self.points@.take(n as int) =~= self.points@);
            assert(cmds@ =~= spec_continuous_cmds(*canvas, self.points@));
        }
        let dstr = crate::svgdoc::render_path_data(&cmds);
        let pa = Element::new("path").set("fill", String::from_str("none")).set("d", dstr);
        let group = Element::new("g").add(pa).set("stroke", self.description.color.clone()).set(
            "stroke-width",
            String::from_str("1"),
        ).set("class", self.series_type()).set("id", self.series_id());
        proof {
            assert(self.rendered_ok(*canvas, group));
        }
        Ok(group)
    }

    fn slice_x(&mut self, start: Coord, end: Coord) {
        let points = filter_points_x(&self.points, start, end);
        self.points = points;
    }

    fn slice_y(&mut self, start: Coord, end: Coord) {
        let points = filter_points_y(&self.points, start, end);
        self.points = points;
    }
}

/// The least-x point of a well-formed point list is itself in bounds.
proof fn lemma_min_x_in_bounds(s: Seq<(Coord, Coord)>)
    requires
        s.len() > 0,
        points_wf(s),
    ensures
        spec_min_x(s).in_bounds(),
    decreases s.len(),
{
    if s.len() > 1 {
        assert(points_wf(s.drop_last())) by {
            assert(forall|i: int|
                0 <= i < s.len() - 1 ==> #[trigger] s.drop_last()[i] == s[i]);
        }
        lemma_min_x_in_bounds(s.drop_last());
    }
}


/// One discrete peak: a location on the m/z axis and an intensity.
#[derive(Debug, Clone, Copy, PartialEq, Eq, Structural)]
pub struct CentroidPeak {
    pub mz: Coord,
    pub intensity: Coord,
}

/// A peak lies within the coordinate bounds, with enough margin on the
/// m/z side for the synthetic spike's half-width.
pub open spec fn peak_wf(p: CentroidPeak) -> bool {
    -(COORD_LIMIT - 100) <= p.mz.micros <= COORD_LIMIT - 100 && p.intensity.in_bounds()
}

/// All peaks are well-formed.
pub open spec fn peaks_wf(s: Seq<CentroidPeak>) -> bool {
    forall|i: int| 0 <= i < s.len() ==> peak_wf(#[trigger] s[i])
}

/// Half-width of the synthetic spike drawn for one peak, in micro-units
/// (one ten-thousandth of a unit).
pub const PEAK_EPSILON_MICROS: i64 = 100;

/// The synthetic baseline-peak-baseline triplet list: each peak becomes
/// `(mz - eps, 0), (mz, intensity), (mz + eps, 0)`.
pub open spec fn spec_peak_triples(s: Seq<CentroidPeak>) -> Seq<(Coord, Coord)> {
    Seq::new(
        3 * s.len(),
        |k: int|
            {
                let p = s[k / 3];
                if k % 3 == 0 {
                    (Coord { micros: (p.mz.micros - 100) as i64 }, Coord { micros: 0 })
                } else if k % 3 == 1 {
                    (p.mz, p.intensity)
                } else {
                    (Coord { micros: (p.mz.micros + 100) as i64 }, Coord { micros: 0 })
                }
            },
    )
}

/// Expand peaks into the synthetic spike points used for rendering.
pub fn peaks_to_arrays(peaks: &Vec<CentroidPeak>) -> (r: Vec<(Coord, Coord)>)
    requires
        peaks_wf(peaks@),
    ensures
        r@ == spec_peak_triples(peaks@),
        points_wf(r@),
{
    let mut r: Vec<(Coord, Coord)> = Vec::new();
    let n = peaks.len();
    let mut i: usize = 0;
    while i < n
        invariant
            n == peaks@.len(),
            0 <= i <= n,
            peaks_wf(peaks@),
            r@ == spec_peak_triples(peaks@.take(i as int)),
        decreases n - i,
    {
        let p = peaks[i];
        r.push((Coord { micros: p.mz.micros - PEAK_EPSILON_MICROS }, Coord { micros: 0 }));
        r.push((p.mz, p.intensity));
        r.push((Coord { micros: p.mz.micros + PEAK_EPSILON_MICROS }, Coord { micros: 0 }));
        proof {
            let pre = peaks@.take(i as int);
            let cur = peaks@.take(i + 1 as int);
            assert(forall|j: int| 0 <= j < i ==> cur[j] == #[trigger] pre[j]);
            assert(cur[i as int] == p);
            assert forall|k: int| 0 <= k < 3 * cur.len() implies r@[k] == spec_peak_triples(
                cur,
            )[k] by {
                vstd::arithmetic::div_mod::lemma_fundamental_div_mod(k, 3);
                vstd::arithmetic::div_mod::lemma_mod_bound(k, 3);
                if k < 3 * i {
                    assert(r@[k] == spec_peak_triples(pre)[k]);
                    assert(k / 3 < i) by (nonlinear_arith)
                        requires k == 3 * (k / 3) + k % 3, 0 <= k % 3 < 3, k < 3 * i;
                    assert(cur[k / 3] == pre[k / 3]);
                } else {
                    assert(k / 3 == i) by (nonlinear_arith)
                        requires
                            k == 3 * (k / 3) + k % 3,
                            0 <= k % 3 < 3,
                            3 * i <= k < 3 * i + 3,
                    ;
                    assert(k % 3 == k - 3 * i);
                }
            }
            assert(r@ =~= spec_peak_triples(cur));
        }
        i = i + 1;
    }
    proof {
        assert(peaks@.take(n as int) =~= peaks@);
        assert(points_wf(r@));
    }
    r
}

/// Keep exactly the peaks whose m/z lies in the closed interval.
pub fn filter_peaks_mz(peaks: &Vec<CentroidPeak>, start: Coord, end: Coord) -> (r: Vec<
    CentroidPeak,
>)
    ensures
        r@ == peaks@.filter(|p: CentroidPeak| start.micros <= p.mz.micros <= end.micros),
        peaks_wf(peaks@) ==> peaks_wf(r@),
{
    let ghost pred = |p: CentroidPeak| start.micros <= p.mz.micros <= end.micros;
    let mut r: Vec<CentroidPeak> = Vec::new();
    let n = peaks.len();
    let mut i: usize = 0;
    while i < n
        invariant
            n == peaks@.len(),
            0 <= i <= n,
            r@ == peaks@.take(i as int).filter(pred),
            pred == (|p: CentroidPeak| start.micros <= p.mz.micros <= end.micros),
            peaks_wf(peaks@) ==> peaks_wf(r@),
        decreases n - i,
    {
        let p = peaks[i];
        if start.micros <= p.mz.micros && p.mz.micros <= end.micros {
            r.push(p);
        }
        proof {
            reveal(Seq::filter);
            let pre = peaks@.take(i as int);
            let cur = peaks@.take(i + 1 as int);
            assert(cur.drop_last() =~= pre);
            assert(cur.last() == p);
            assert(r@ =~= cur.filter(pred));
        }
        i = i + 1;
    }
    proof {
        assert(peaks@.take(n as int) =~= peaks@);
    }
    r
}

/// Keep exactly the peaks whose intensity lies in the closed interval.
pub fn filter_peaks_intensity(peaks: &Vec<CentroidPeak>, start: Coord, end: Coord) -> (r: Vec<
    CentroidPeak,
>)
    ensures
        r@ == peaks@.filter(
            |p: CentroidPeak| start.micros <= p.intensity.micros <= end.micros,
        ),
        peaks_wf(peaks@) ==> peaks_wf(r@),
{
    let ghost pred = |p: CentroidPeak| start.micros <= p.intensity.micros <= end.micros;
    let mut r: Vec<CentroidPeak> = Vec::new();
    let n = peaks.len();
    let mut i: usize = 0;
    while i < n
        invariant
            n == peaks@.len(),
            0 <= i <= n,
            r@ == peaks@.take(i as int).filter(pred),
            pred == (|p: CentroidPeak| start.micros <= p.intensity.micros <= end.micros),
            peaks_wf(peaks@) ==> peaks_wf(r@),
        decreases n - i,
    {
        let p = peaks[i];
        if start.micros <= p.intensity.micros && p.intensity.micros <= end.micros {
            r.push(p);
        }
        proof {
            reveal(Seq::filter);
            let pre = peaks@.take(i as int);
            let cur = peaks@.take(i + 1 as int);
            assert(cur.drop_last() =~= pre);
            assert(cur.last() == p);
            assert(r@ =~= cur.filter(pred));
        }
        i = i + 1;
    }
    proof {
        assert(peaks@.take(n as int) =~= peaks@);
    }
    r
}

/// Insert `x` into an m/z-sorted list, after every element whose m/z is
/// not greater (a stable insertion).
pub open spec fn spec_sorted_insert(s: Seq<CentroidPeak>, x: CentroidPeak) -> Seq<CentroidPeak>
    decreases s.len(),
{
    if s.len() == 0 {
        seq![x]
    } else if x.mz.micros < s.last().mz.micros {
        spec_sorted_insert(s.drop_last(), x).push(s.last())
    } else {
        s.push(x)
    }
}

/// Stable insertion sort of peaks by m/z.
pub open spec fn spec_sort_by_mz(s: Seq<CentroidPeak>) -> Seq<CentroidPeak>
    decreases s.len(),
{
    if s.len() == 0 {
        Seq::empty()
    } else {
        spec_sorted_insert(spec_sort_by_mz(s.drop_last()), s.last())
    }
}

/// Sort peaks by m/z (stable insertion sort).
pub fn sort_peaks_by_mz(peaks: &Vec<CentroidPeak>) -> (r: Vec<CentroidPeak>)
    ensures
        r@ == spec_sort_by_mz(peaks@),
{
    let mut r: Vec<CentroidPeak> = Vec::new();
    let n = peaks.len();
    let mut i: usize = 0;
    while i < n
        invariant
            n == peaks@.len(),
            0 <= i <= n,
            r@ == spec_sort_by_mz(peaks@.take(i as int)),
        decreases n - i,
    {
        let x = peaks[i];
        let mut j: usize = r.len();
        proof {
            assert(r@.take(j as int) =~= r@);
            assert(r@.skip(j as int) =~= Seq::<CentroidPeak>::empty());
            assert(spec_sorted_insert(r@, x) =~= spec_sorted_insert(r@.take(j as int), x)
                + r@.skip(j as int));
        }
        while j > 0 && x.mz.micros < r[j - 1].mz.micros
            invariant
                0 <= j <= r@.len(),
                spec_sorted_insert(r@, x) == spec_sorted_insert(r@.take(j as int), x) + r@.skip(
                    j as int,
                ),
            decreases j,
        {
            proof {
                let pre = r@.take(j as int);
                assert(pre.drop_last() =~= r@.take(j - 1 as int));
                assert(pre.last() == r@[j - 1 as int]);
                assert(spec_sorted_insert(pre, x) == spec_sorted_insert(
                    r@.take(j - 1 as int),
                    x,
                ).push(r@[j - 1 as int]));
                assert(spec_sorted_insert(r@.take(j - 1 as int), x).push(r@[j - 1 as int])
                    + r@.skip(j as int) =~= spec_sorted_insert(r@.take(j - 1 as int), x)
                    + r@.skip(j - 1 as int));
            }
            j = j - 1;
        }
        proof {
            let pre = r@.take(j as int);
            if j > 0 {
                assert(pre.last() == r@[j - 1 as int]);
                assert(!(x.mz.micros < pre.last().mz.micros));
                assert(spec_sorted_insert(pre, x) == pre.push(x));
            } else {
                assert(pre =~= Seq::<CentroidPeak>::empty());
                assert(spec_sorted_insert(pre, x) =~= seq![x]);
                assert(spec_sorted_insert(pre, x) == pre.push(x)) by {
                    assert(pre.push(x) =~= seq![x]);
                }
            }
        }
        r.insert(j, x);
        proof {
            let cur = peaks@.take(i + 1 as int);
            assert(cur.drop_last() =~= peaks@.take(i as int));
            assert(cur.last() == x);
            assert(r@ =~= spec_sorted_insert(spec_sort_by_mz(peaks@.take(i as int)), x));
        }
        i = i + 1;
    }
    proof {
        assert(peaks@.take(n as int) =~= peaks@);
    }
    r
}


/// Stable insertion keeps every peak well-formed.
proof fn lemma_sorted_insert_wf(s: Seq<CentroidPeak>, x: CentroidPeak)
    requires
        peaks_wf(s),
        peak_wf(x),
    ensures
        peaks_wf(spec_sorted_insert(s, x)),
    decreases s.len(),
{
    if s.len() > 0 && x.mz.micros < s.last().mz.micros {
        assert(peaks_wf(s.drop_last())) by {
            assert(forall|i: int|
                0 <= i < s.len() - 1 ==> #[trigger] s.drop_last()[i] == s[i]);
        }
        lemma_sorted_insert_wf(s.drop_last(), x);
    }
}

/// Sorting keeps every peak well-formed.
proof fn lemma_sort_wf(s: Seq<CentroidPeak>)
    requires
        peaks_wf(s),
    ensures
        peaks_wf(spec_sort_by_mz(s)),
    decreases s.len(),
{
    if s.len() > 0 {
        assert(peaks_wf(s.drop_last())) by {
            assert(forall|i: int|
                0 <= i < s.len() - 1 ==> #[trigger] s.drop_last()[i] == s[i]);
        }
        lemma_sort_wf(s.drop_last());
        lemma_sorted_insert_wf(spec_sort_by_mz(s.drop_last()), s.last());
    }
}

/// Discrete peaks drawn as narrow spikes through the closed-path
/// silhouette renderer.
#[derive(Debug, Clone)]
pub struct CentroidSeries {
    pub peaks: Vec<CentroidPeak>,
    pub description: SeriesDescription,
}

impl CentroidSeries {
    pub fn new(peaks: Vec<CentroidPeak>, description: SeriesDescription) -> (r: Self)
        ensures
            r.peaks == peaks,
            r.description == description,
    {
        Self { peaks, description }
    }

    /// Build from a peak list (kept in its given order).
    pub fn from_iterator(peaks: Vec<CentroidPeak>, description: SeriesDescription) -> (r: Self)
        ensures
            r.peaks == peaks,
            r.description == description,
    {
        Self::new(peaks, description)
    }
}

impl PlotSeries for CentroidSeries {
    open spec fn wf(&self) -> bool {
        peaks_wf(self.peaks@)
    }

    open spec fn desc_spec(&self) -> SeriesDescription {
        self.description
    }

    open spec fn with_desc(&self, d: SeriesDescription) -> Self {
        CentroidSeries { description: d, peaks: self.peaks }
    }

    open spec fn slice_x_post(&self, after: Self, start: Coord, end: Coord) -> bool {
        after.peaks@ == self.peaks@.filter(
            |p: CentroidPeak| start.micros <= p.mz.micros <= end.micros,
        ) && after.description == self.description
    }

    open spec fn slice_y_post(&self, after: Self, start: Coord, end: Coord) -> bool {
        after.peaks@ == self.peaks@.filter(
            |p: CentroidPeak| start.micros <= p.intensity.micros <= end.micros,
        ) && after.description == self.description
    }

    open spec fn renders(&self, canvas: Canvas) -> bool {
        spec_continuous_renders(canvas, spec_peak_triples(self.peaks@))
    }

    open spec fn rendered_ok(&self, canvas: Canvas, e: Element) -> bool {
        spec_continuous_group_ok(self.description, canvas, spec_peak_triples(self.peaks@), e)
    }

    open spec fn render_err(&self, canvas: Canvas, er: ChartError) -> bool {
        spec_continuous_err(canvas, spec_peak_triples(self.peaks@), er)
    }

    fn description(&self) -> (r: &SeriesDescription) {
        &self.description
    }

    fn description_mut(&mut self) -> (r: &mut SeriesDescription) {
        &mut self.description
    }

    fn color_mut(&mut self) -> (r: &mut String) {
        &mut self.description.color
    }

    fn to_svg(&self, canvas: &Canvas) -> (r: Result<Element, ChartError>) {
        let points = peaks_to_arrays(&self.peaks);
        let proxy = ContinuousSeries::new(points, self.description.duplicate());
        proxy.to_svg(canvas)
    }

    fn slice_x(&mut self, start: Coord, end: Coord) {
        let peaks = filter_peaks_mz(&self.peaks, start, end);
        self.peaks = peaks;
    }

    fn slice_y(&mut self, start: Coord, end: Coord) {
        let peaks = filter_peaks_intensity(&self.peaks, start, end);
        self.peaks = peaks;
    }
}

/// Charge-deconvoluted peaks: the same spike rendering, after sorting
/// by m/z (deconvolution does not guarantee order).
#[derive(Debug, Clone)]
pub struct DeconvolutedCentroidSeries {
    pub peaks: Vec<CentroidPeak>,
    pub description: SeriesDescription,
}

impl DeconvolutedCentroidSeries {
    pub fn new(peaks: Vec<CentroidPeak>, description: SeriesDescription) -> (r: Self)
        ensures
            r.peaks == peaks,
            r.description == description,
    {
        Self { peaks, description }
    }

    /// Build from a peak list (kept in its given order; rendering
    /// sorts).
    pub fn from_iterator(peaks: Vec<CentroidPeak>, description: SeriesDescription) -> (r: Self)
        ensures
            r.peaks == peaks,
            r.description == description,
    {
        Self::new(peaks, description)
    }
}

impl PlotSeries for DeconvolutedCentroidSeries {
    open spec fn wf(&self) -> bool {
        peaks_wf(self.peaks@)
    }

    open spec fn desc_spec(&self) -> SeriesDescription {
        self.description
    }

    open spec fn with_desc(&self, d: SeriesDescription) -> Self {
        DeconvolutedCentroidSeries { description: d, peaks: self.peaks }
    }

    open spec fn slice_x_post(&self, after: Self, start: Coord, end: Coord) -> bool {
        after.peaks@ == self.peaks@.filter(
            |p: CentroidPeak| start.micros <= p.mz.micros <= end.micros,
        ) && after.description == self.description
    }

    open spec fn slice_y_post(&self, after: Self, start: Coord, end: Coord) -> bool {
        after.peaks@ == self.peaks@.filter(
            |p: CentroidPeak| start.micros <= p.intensity.micros <= end.micros,
        ) && after.description == self.description
    }

    open spec fn renders(&self, canvas: Canvas) -> bool {
        spec_continuous_renders(canvas, spec_peak_triples(spec_sort_by_mz(self.peaks@)))
    }

    open spec fn rendered_ok(&self, canvas: Canvas, e: Element) -> bool {
        spec_continuous_group_ok(
            self.description,
            canvas,
            spec_peak_triples(spec_sort_by_mz(self.peaks@)),
            e,
        )
    }

    open spec fn render_err(&self, canvas: Canvas, er: ChartError) -> bool {
        spec_continuous_err(canvas, spec_peak_triples(spec_sort_by_mz(self.peaks@)), er)
    }

    fn description(&self) -> (r: &SeriesDescription) {
        &self.description
    }

    fn description_mut(&mut self) -> (r: &mut SeriesDescription) {
        &mut self.description
    }

    fn color_mut(&mut self) -> (r: &mut String) {
        &mut self.description.color
    }

    fn to_svg(&self, canvas: &Canvas) -> (r: Result<Element, ChartError>) {
        let sorted = sort_peaks_by_mz(&self.peaks);
        proof {
            lemma_sort_wf(self.peaks@);
        }
        let points = peaks_to_arrays(&sorted);
        let proxy = ContinuousSeries::new(points, self.description.duplicate());
        proxy.to_svg(canvas)
    }

    fn slice_x(&mut self, start: Coord, end: Coord) {
        let peaks = filter_peaks_mz(&self.peaks, start, end);
        self.peaks = peaks;
    }

    fn slice_y(&mut self, start: Coord, end: Coord) {
        let peaks = filter_peaks_intensity(&self.peaks, start, end);
        self.peaks = peaks;
    }
}


/// The text `translate({x}, {y})` placing an annotation.
pub open spec fn spec_translate_pair(q: (Coord, Coord)) -> Seq<char> {
    "translate("@ + crate::numfmt::spec_coord_str(q.0.micros as int) + ", "@
        + crate::numfmt::spec_coord_str(q.1.micros as int) + ")"@
}

/// One placed annotation: a group translated to the point's device
/// position holding one styled text element.
pub open spec fn spec_annotation_entry_ok(
    tp: TextProps,
    canvas: Canvas,
    p: (Coord, Coord),
    content: Seq<char>,
    e: Element,
) -> bool {
    &&& e.name@ == "g"@
    &&& e.text is None
    &&& e.attrs@.len() == 1
    &&& e.attrs@[0].name@ == "transform"@ && e.attrs@[0].value@ == spec_translate_pair(
        spec_pixel(canvas, p),
    )
    &&& e.children@.len() == 1
    &&& tp.text_elem_ok(content, e.children@[0])
}

/// Text labels placed at data positions.
#[derive(Debug, Clone)]
pub struct AnnotationSeries {
    pub points: Vec<(Coord, Coord, String)>,
    pub description: SeriesDescription,
    pub text_props: TextProps,
}

/// All annotation positions lie within the coordinate bounds.
pub open spec fn annotations_wf(s: Seq<(Coord, Coord, String)>) -> bool {
    forall|i: int|
        0 <= i < s.len() ==> (#[trigger] s[i]).0.in_bounds() && s[i].1.in_bounds()
}

/// The x/y pair of one annotation.
pub open spec fn annotation_xy(p: (Coord, Coord, String)) -> (Coord, Coord) {
    (p.0, p.1)
}

impl AnnotationSeries {
    pub fn new(
        points: Vec<(Coord, Coord, String)>,
        description: SeriesDescription,
        text_props: TextProps,
    ) -> (r: Self)
        ensures
            r.points == points,
            r.description == description,
            r.text_props == text_props,
    {
        Self { points, description, text_props }
    }
}

impl PlotSeries for AnnotationSeries {
    open spec fn wf(&self) -> bool {
        annotations_wf(self.points@)
    }

    open spec fn desc_spec(&self) -> SeriesDescription {
        self.description
    }

    open spec fn with_desc(&self, d: SeriesDescription) -> Self {
        AnnotationSeries { description: d, points: self.points, text_props: self.text_props }
    }

    open spec fn slice_x_post(&self, after: Self, start: Coord, end: Coord) -> bool {
        after.points@ == self.points@.filter(
            |p: (Coord, Coord, String)| start.micros <= p.0.micros <= end.micros,
        ) && after.description == self.description && after.text_props == self.text_props
    }

    open spec fn slice_y_post(&self, after: Self, start: Coord, end: Coord) -> bool {
        after.points@ == self.points@.filter(
            |p: (Coord, Coord, String)| start.micros <= p.1.micros <= end.micros,
        ) && after.description == self.description && after.text_props == self.text_props
    }

    open spec fn renders(&self, canvas: Canvas) -> bool {
        forall|i: int|
            0 <= i < self.points@.len() ==> (#[trigger] canvas.spec_transform_result(
                self.points@[i].0,
                self.points@[i].1,
            )) is Ok
    }

    open spec fn rendered_ok(&self, canvas: Canvas, e: Element) -> bool {
        &&& e.name@ == "g"@
        &&& e.text is None
        &&& e.attrs@.len() == 0
        &&& e.children@.len() == self.points@.len()
        &&& forall|i: int|
            0 <= i < self.points@.len() ==> spec_annotation_entry_ok(
                self.text_props,
                canvas,
                annotation_xy(self.points@[i]),
                self.points@[i].2@,
                #[trigger] e.children@[i],
            )
    }

    open spec fn render_err(&self, canvas: Canvas, er: ChartError) -> bool {
        exists|i: int|
            0 <= i < self.points@.len() && #[trigger] canvas.spec_transform_result(
                self.points@[i].0,
                self.points@[i].1,
            ) == Err::<(Coord, Coord), ChartError>(er)
    }

    fn description(&self) -> (r: &SeriesDescription) {
        &self.description
    }

    fn description_mut(&mut self) -> (r: &mut SeriesDescription) {
        &mut self.description
    }

    fn color_mut(&mut self) -> (r: &mut String) {
        &mut self.description.color
    }

    fn to_svg(&self, canvas: &Canvas) -> (r: Result<Element, ChartError>) {
        let mut group = Element::new("g");
        let n = self.points.len();
        let mut i: usize = 0;
        while i < n
            invariant
                n == self.points@.len(),
                0 <= i <= n,
                self.wf(),
                canvas.wf(),
                group.name@ == "g"@,
                group.text is None,
                group.attrs@.len() == 0,
                group.children@.len() == i,
                forall|j: int|
                    0 <= j < i ==> spec_annotation_entry_ok(
                        self.text_props,
                        *canvas,
                        annotation_xy(self.points@[j]),
                        self.points@[j].2@,
                        #[trigger] group.children@[j],
                    ),
                forall|j: int|
                    0 <= j < i ==> (#[trigger] canvas.spec_transform_result(
                        self.points@[j].0,
                        self.points@[j].1,
                    )) is Ok,
            decreases n - i,
        {
            let x = self.points[i].0;
            let y = self.points[i].1;
            let q = match canvas.transform(x, y) {
                Ok(q) => q,
                Err(er) => {
                    return Err(er);
                },
            };
            let mut t = String::from_str("translate(");
            crate::numfmt::push_coord_decimal(&mut t, q.0.micros);
            t.append(", ");
            crate::numfmt::push_coord_decimal(&mut t, q.1.micros);
            t.append(")");
            proof {
                assert(t@ =~= spec_translate_pair(q));
            }
            let content = self.points[i].2.clone();
            let entry = Element::new("g").set("transform", t).add(
                self.text_props.text(content),
            );
            proof {
                assert(spec_annotation_entry_ok(
                    self.text_props,
                    *canvas,
                    annotation_xy(self.points@[i as int]),
                    self.points@[i as int].2@,
                    entry,
                ));
            }
            group = group.add(entry);
            i = i + 1;
        }
        Ok(group)
    }

    fn slice_x(&mut self, start: Coord, end: Coord) {
        let ghost pred = |p: (Coord, Coord, String)| start.micros <= p.0.micros <= end.micros;
        let mut r: Vec<(Coord, Coord, String)> = Vec::new();
        let n = self.points.len();
        let mut i: usize = 0;
        while i < n
            invariant
                n == self.points@.len(),
                0 <= i <= n,
                r@ == self.points@.take(i as int).filter(pred),
                pred == (|p: (Coord, Coord, String)| start.micros <= p.0.micros <= end.micros),
                annotations_wf(self.points@) ==> annotations_wf(r@),
            decreases n - i,
        {
            let x = self.points[i].0;
            let y = self.points[i].1;
            if start.micros <= x.micros && x.micros <= end.micros {
                let t = self.points[i].2.clone();
                r.push((x, y, t));
            }
            proof {
                reveal(Seq::filter);
                let pre = self.points@.take(i as int);
                let cur = self.points@.take(i + 1 as int);
                assert(cur.drop_last() =~= pre);
                assert(cur.last() == self.points@[i as int]);
                assert(r@ =~= cur.filter(pred));
            }
            i = i + 1;
        }
        proof {
            assert(self.points@.take(n as int) =~= self.points@);
        }
        self.points = r;
    }

    fn slice_y(&mut self, start: Coord, end: Coord) {
        let ghost pred = |p: (Coord, Coord, String)| start.micros <= p.1.micros <= end.micros;
        let mut r: Vec<(Coord, Coord, String)> = Vec::new();
        let n = self.points.len();
        let mut i: usize = 0;
        while i < n
            invariant
                n == self.points@.len(),
                0 <= i <= n,
                r@ == self.points@.take(i as int).filter(pred),
                pred == (|p: (Coord, Coord, String)| start.micros <= p.1.micros <= end.micros),
                annotations_wf(self.points@) ==> annotations_wf(r@),
            decreases n - i,
        {
            let x = self.points[i].0;
            let y = self.points[i].1;
            if start.micros <= y.micros && y.micros <= end.micros {
                let t = self.points[i].2.clone();
                r.push((x, y, t));
            }
            proof {
                reveal(Seq::filter);
                let pre = self.points@.take(i as int);
                let cur = self.points@.take(i + 1 as int);
                assert(cur.drop_last() =~= pre);
                assert(cur.last() == self.points@[i as int]);
                assert(r@ =~= cur.filter(pred));
            }
            i = i + 1;
        }
        proof {
            assert(self.points@.take(n as int) =~= self.points@);
        }
        self.points = r;
    }
}


/// Independent circles at data positions with a per-point radius (in
/// pixels).
#[derive(Debug, Clone)]
pub struct ScatterSeries {
    pub points: Vec<(Coord, Coord, Coord)>,
    pub description: SeriesDescription,
}

/// All scatter positions lie within the coordinate bounds.
pub open spec fn scatter_wf(s: Seq<(Coord, Coord, Coord)>) -> bool {
    forall|i: int|
        0 <= i < s.len() ==> (#[trigger] s[i]).0.in_bounds() && s[i].1.in_bounds()
}

/// One rendered scatter circle.
pub open spec fn spec_circle_ok(canvas: Canvas, p: (Coord, Coord, Coord), e: Element) -> bool {
    let q = spec_pixel(canvas, (p.0, p.1));
    &&& e.name@ == "circle"@
    &&& e.text is None
    &&& e.children@.len() == 0
    &&& e.attrs@.len() == 3
    &&& e.attrs@[0].name@ == "cx"@ && e.attrs@[0].value@ == crate::numfmt::spec_coord_str(
        q.0.micros as int,
    )
    &&& e.attrs@[1].name@ == "cy"@ && e.attrs@[1].value@ == crate::numfmt::spec_coord_str(
        q.1.micros as int,
    )
    &&& e.attrs@[2].name@ == "r"@ && e.attrs@[2].value@ == crate::numfmt::spec_coord_str(
        p.2.micros as int,
    )
}

impl ScatterSeries {
    pub fn new(points: Vec<(Coord, Coord, Coord)>, description: SeriesDescription) -> (r: Self)
        ensures
            r.points == points,
            r.description == description,
    {
        Self { points, description }
    }
}

impl PlotSeries for ScatterSeries {
    open spec fn wf(&self) -> bool {
        scatter_wf(self.points@)
    }

    open spec fn desc_spec(&self) -> SeriesDescription {
        self.description
    }

    open spec fn with_desc(&self, d: SeriesDescription) -> Self {
        ScatterSeries { description: d, points: self.points }
    }

    open spec fn slice_x_post(&self, after: Self, start: Coord, end: Coord) -> bool {
        after.points@ == self.points@.filter(
            |p: (Coord, Coord, Coord)| start.micros <= p.0.micros <= end.micros,
        ) && after.description == self.description
    }

    open spec fn slice_y_post(&self, after: Self, start: Coord, end: Coord) -> bool {
        after.points@ == self.points@.filter(
            |p: (Coord, Coord, Coord)| start.micros <= p.1.micros <= end.micros,
        ) && after.description == self.description
    }

    open spec fn renders(&self, canvas: Canvas) -> bool {
        forall|i: int|
            0 <= i < self.points@.len() ==> (#[trigger] canvas.spec_transform_result(
                self.points@[i].0,
                self.points@[i].1,
            )) is Ok
    }

    open spec fn rendered_ok(&self, canvas: Canvas, e: Element) -> bool {
        &&& e.name@ == "g"@
        &&& e.text is None
        &&& e.attrs@.len() == 4
        &&& e.attrs@[0].name@ == "class"@ && e.attrs@[0].value@ == self.description.label@
        &&& e.attrs@[1].name@ == "id"@ && e.attrs@[1].value@ == spec_series_id(self.description)
        &&& e.attrs@[2].name@ == "fill"@ && e.attrs@[2].value@ == self.description.color@
        &&& e.attrs@[3].name@ == "stroke"@ && e.attrs@[3].value@ == "black"@
        &&& e.children@.len() == self.points@.len()
        &&& forall|i: int|
            0 <= i < self.points@.len() ==> spec_circle_ok(
                canvas,
                self.points@[i],
                #[trigger] e.children@[i],
            )
    }

    open spec fn render_err(&self, canvas: Canvas, er: ChartError) -> bool {
        exists|i: int|
            0 <= i < self.points@.len() && #[trigger] canvas.spec_transform_result(
                self.points@[i].0,
                self.points@[i].1,
            ) == Err::<(Coord, Coord), ChartError>(er)
    }

    fn description(&self) -> (r: &SeriesDescription) {
        &self.description
    }

    fn description_mut(&mut self) -> (r: &mut SeriesDescription) {
        &mut self.description
    }

    fn color_mut(&mut self) -> (r: &mut String) {
        &mut self.description.color
    }

    fn to_svg(&self, canvas: &Canvas) -> (r: Result<Element, ChartError>) {
        let mut circles = Element::new("g");
        let n = self.points.len();
        let mut i: usize = 0;
        while i < n
            invariant
                n == self.points@.len(),
                0 <= i <= n,
                self.wf(),
                canvas.wf(),
                circles.name@ == "g"@,
                circles.text is None,
                circles.attrs@.len() == 0,
                circles.children@.len() == i,
                forall|j: int|
                    0 <= j < i ==> spec_circle_ok(
                        *canvas,
                        self.points@[j],
                        #[trigger] circles.children@[j],
                    ),
                forall|j: int|
                    0 <= j < i ==> (#[trigger] canvas.spec_transform_result(
                        self.points@[j].0,
                        self.points@[j].1,
                    )) is Ok,
            decreases n - i,
        {
            let p = self.points[i];
            let q = match canvas.transform(p.0, p.1) {
                Ok(q) => q,
                Err(er) => {
                    return Err(er);
                },
            };
            let c = Element::new("circle").set("cx", crate::numfmt::format_coord(q.0.micros)).set(
                "cy",
                crate::numfmt::format_coord(q.1.micros),
            ).set("r", crate::numfmt::format_coord(p.2.micros));
            circles = circles.add(c);
            i = i + 1;
        }
        let group = circles.set("class", self.series_type()).set("id", self.series_id()).set(
            "fill",
            self.color(),
        ).set("stroke", String::from_str("black"));
        proof {
            assert(self.rendered_ok(*canvas, group));
        }
        Ok(group)
    }

    fn slice_x(&mut self, start: Coord, end: Coord) {
        let ghost pred = |p: (Coord, Coord, Coord)| start.micros <= p.0.micros <= end.micros;
        let mut r: Vec<(Coord, Coord, Coord)> = Vec::new();
        let n = self.points.len();
        let mut i: usize = 0;
        while i < n
            invariant
                n == self.points@.len(),
                0 <= i <= n,
                r@ == self.points@.take(i as int).filter(pred),
                pred == (|p: (Coord, Coord, Coord)| start.micros <= p.0.micros <= end.micros),
                scatter_wf(self.points@) ==> scatter_wf(r@),
            decreases n - i,
        {
            let p = self.points[i];
            if start.micros <= p.0.micros && p.0.micros <= end.micros {
                r.push(p);
            }
            proof {
                reveal(Seq::filter);
                let pre = self.points@.take(i as int);
                let cur = self.points@.take(i + 1 as int);
                assert(cur.drop_last() =~= pre);
                assert(cur.last() == p);
                assert(r@ =~= cur.filter(pred));
            }
            i = i + 1;
        }
        proof {
            assert(self.points@.take(n as int) =~= self.points@);
        }
        self.points = r;
    }

    fn slice_y(&mut self, start: Coord, end: Coord) {
        let ghost pred = |p: (Coord, Coord, Coord)| start.micros <= p.1.micros <= end.micros;
        let mut r: Vec<(Coord, Coord, Coord)> = Vec::new();
        let n = self.points.len();
        let mut i: usize = 0;
        while i < n
            invariant
                n == self.points@.len(),
                0 <= i <= n,
                r@ == self.points@.take(i as int).filter(pred),
                pred == (|p: (Coord, Coord, Coord)| start.micros <= p.1.micros <= end.micros),
                scatter_wf(self.points@) ==> scatter_wf(r@),
            decreases n - i,
        {
            let p = self.points[i];
            if start.micros <= p.1.micros && p.1.micros <= end.micros {
                r.push(p);
            }
            proof {
                reveal(Seq::filter);
                let pre = self.points@.take(i as int);
                let cur = self.points@.take(i + 1 as int);
                assert(cur.drop_last() =~= pre);
                assert(cur.last() == p);
                assert(r@ =~= cur.filter(pred));
            }
            i = i + 1;
        }
        proof {
            assert(self.points@.take(n as int) =~= self.points@);
        }
        self.points = r;
    }
}

/// The closed filled area of a chromatographic/mobility trace: the
/// points in list order, closed back to the baseline at the greatest
/// and least time.
pub open spec fn spec_trace_cmds(canvas: Canvas, s: Seq<(Coord, Coord)>) -> Seq<
    crate::svgdoc::PathCmd,
> {
    let zero = Coord { micros: 0 };
    let st = if s.len() > 0 {
        spec_min_x(s)
    } else {
        zero
    };
    let en = if s.len() > 0 {
        spec_max_x(s)
    } else {
        zero
    };
    let bs = spec_pixel(canvas, (st, zero));
    let be = spec_pixel(canvas, (en, zero));
    let head: Seq<crate::svgdoc::PathCmd> = if s.len() > 0 {
        seq![crate::svgdoc::PathCmd::MoveTo(bs.0, bs.1)]
    } else {
        Seq::empty()
    };
    head + spec_line_cmds(canvas, s) + seq![
        crate::svgdoc::PathCmd::LineTo(be.0, be.1),
        crate::svgdoc::PathCmd::LineTo(bs.0, bs.1),
        crate::svgdoc::PathCmd::Close,
    ]
}

/// An ordered (time, intensity) point list closed into a filled polygon
/// under the trace.
#[derive(Debug, Clone)]
pub struct TraceSeries {
    pub points: Vec<(Coord, Coord)>,
    pub description: SeriesDescription,
}

impl TraceSeries {
    pub fn new(points: Vec<(Coord, Coord)>, description: SeriesDescription) -> (r: Self)
        ensures
            r.points == points,
            r.description == description,
    {
        Self { points, description }
    }
}

impl PlotSeries for TraceSeries {
    open spec fn wf(&self) -> bool {
        points_wf(self.points@)
    }

    open spec fn desc_spec(&self) -> SeriesDescription {
        self.description
    }

    open spec fn with_desc(&self, d: SeriesDescription) -> Self {
        TraceSeries { description: d, points: self.points }
    }

    open spec fn slice_x_post(&self, after: Self, start: Coord, end: Coord) -> bool {
        after.points@ == spec_filter_x(self.points@, start, end) && after.description
            == self.description
    }

    open spec fn slice_y_post(&self, after: Self, start: Coord, end: Coord) -> bool {
        after.points@ == spec_filter_y(self.points@, start, end) && after.description
            == self.description
    }

    open spec fn renders(&self, canvas: Canvas) -> bool {
        let zero = Coord { micros: 0 };
        let st = if self.points@.len() > 0 {
            spec_min_x(self.points@)
        } else {
            zero
        };
        let en = if self.points@.len() > 0 {
            spec_max_x(self.points@)
        } else {
            zero
        };
        &&& canvas.spec_transform_result(st, zero) is Ok
        &&& canvas.spec_transform_result(en, zero) is Ok
        &&& all_points_render(canvas, self.points@)
    }

    open spec fn rendered_ok(&self, canvas: Canvas, e: Element) -> bool {
        &&& e.name@ == "g"@
        &&& e.text is None
        &&& e.attrs@.len() == 4
        &&& e.attrs@[0].name@ == "stroke"@ && e.attrs@[0].value@ == "black"@
        &&& e.attrs@[1].name@ == "stroke-width"@ && e.attrs@[1].value@ == "1"@
        &&& e.attrs@[2].name@ == "class"@ && e.attrs@[2].value@ == self.description.label@
        &&& e.attrs@[3].name@ == "id"@ && e.attrs@[3].value@ == spec_series_id(self.description)
        &&& e.children@.len() == 1
        &&& {
            let pa = e.children@[0];
            &&& pa.name@ == "path"@
            &&& pa.text is None
            &&& pa.children@.len() == 0
            &&& pa.attrs@.len() == 3
            &&& pa.attrs@[0].name@ == "fill"@ && pa.attrs@[0].value@ == self.description.color@
            &&& pa.attrs@[1].name@ == "d"@ && pa.attrs@[1].value@
                == crate::svgdoc::spec_render_path(spec_trace_cmds(canvas, self.points@))
            &&& pa.attrs@[2].name@ == "fill-opacity"@ && pa.attrs@[2].value@ == "75%"@
        }
    }

    open spec fn render_err(&self, canvas: Canvas, er: ChartError) -> bool {
        let zero = Coord { micros: 0 };
        let st = if self.points@.len() > 0 {
            spec_min_x(self.points@)
        } else {
            zero
        };
        let en = if self.points@.len() > 0 {
            spec_max_x(self.points@)
        } else {
            zero
        };
        some_point_err(canvas, self.points@, er) || canvas.spec_transform_result(st, zero)
            == Err::<(Coord, Coord), ChartError>(er) || canvas.spec_transform_result(en, zero)
            == Err::<(Coord, Coord), ChartError>(er)
    }

    fn description(&self) -> (r: &SeriesDescription) {
        &self.description
    }

    fn description_mut(&mut self) -> (r: &mut SeriesDescription) {
        &mut self.description
    }

    fn color_mut(&mut self) -> (r: &mut String) {
        &mut self.description.color
    }

    fn to_svg(&self, canvas: &Canvas) -> (r: Result<Element, ChartError>) {
        let n = self.points.len();
        let zero = Coord::zero();
        let st = if n > 0 {
            let m = min_x_of(&self.points);
            proof {
                lemma_min_x_in_bounds(self.points@);
            }
            m
        } else {
            zero
        };
        let en = if n > 0 {
            let m = max_x_of(&self.points);
            proof {
                lemma_max_x_in_bounds(self.points@);
            }
            m
        } else {
            zero
        };
        let bs = match canvas.transform(st, zero) {
            Ok(q) => q,
            Err(er) => {
                return Err(er);
            },
        };
        let be = match canvas.transform(en, zero) {
            Ok(q) => q,
            Err(er) => {
                return Err(er);
            },
        };
        let mut cmds: Vec<crate::svgdoc::PathCmd> = Vec::new();
        if n > 0 {
            cmds.push(crate::svgdoc::PathCmd::MoveTo(bs.0, bs.1));
        }
        let mut i: usize = 0;
        while i < n
            invariant
                n == self.points@.len(),
                0 <= i <= n,
                self.wf(),
                canvas.wf(),
                n > 0 ==> cmds@ == seq![crate::svgdoc::PathCmd::MoveTo(bs.0, bs.1)]
                    + spec_line_cmds(*canvas, self.points@.take(i as int)),
                n == 0 ==> cmds@.len() == 0,
                forall|j: int|
                    0 <= j < i ==> (#[trigger] canvas.spec_transform_result(
                        self.points@[j].0,
                        self.points@[j].1,
                    )) is Ok,
            decreases n - i,
        {
            let p = self.points[i];
            let q = match canvas.transform(p.0, p.1) {
                Ok(q) => q,
                Err(er) => {
                    return Err(er);
                },
            };
            cmds.push(crate::svgdoc::PathCmd::LineTo(q.0, q.1));
            proof {
                assert(spec_line_cmds(*canvas, self.points@.take(i + 1 as int)) =~= spec_line_cmds(
                    *canvas,
                    self.points@.take(i as int),
                ).push(crate::svgdoc::PathCmd::LineTo(q.0, q.1)));
                if n > 0 {
                    assert(cmds@ =~= seq![crate::svgdoc::PathCmd::MoveTo(bs.0, bs.1)]
                        + spec_line_cmds(*canvas, self.points@.take(i + 1 as int)));
                }
            }
            i = i + 1;
        }
        cmds.push(crate::svgdoc::PathCmd::LineTo(be.0, be.1));
        cmds.push(crate::svgdoc::PathCmd::LineTo(bs.0, bs.1));
        cmds.push(crate::svgdoc::PathCmd::Close);
        proof {
            assert(self.points@.take(n as int) =~= self.points@);
            assert(cmds@ =~= spec_trace_cmds(*canvas, self.points@));
        }
        let dstr = crate::svgdoc::render_path_data(&cmds);
        let pa = Element::new("path").set("fill", self.color()).set("d", dstr).set(
            "fill-opacity",
            String::from_str("75%"),
        );
        let group = Element::new("g").add(pa).set("stroke", String::from_str("black")).set(
            "stroke-width",
            String::from_str("1"),
        ).set("class", self.series_type()).set("id", self.series_id());
        proof {
            assert(self.rendered_ok(*canvas, group));
        }
        Ok(group)
    }

    fn slice_x(&mut self, start: Coord, end: Coord) {
        let points = filter_points_x(&self.points, start, end);
        self.points = points;
    }

    fn slice_y(&mut self, start: Coord, end: Coord) {
        let points = filter_points_y(&self.points, start, end);
        self.points = points;
    }
}

/// The greatest-x point of a well-formed point list is itself in
/// bounds.
proof fn lemma_max_x_in_bounds(s: Seq<(Coord, Coord)>)
    requires
        s.len() > 0,
        points_wf(s),
    ensures
        spec_max_x(s).in_bounds(),
    decreases s.len(),
{
    if s.len() > 1 {
        assert(points_wf(s.drop_last())) by {
            assert(forall|i: int|
                0 <= i < s.len() - 1 ==> #[trigger] s.drop_last()[i] == s[i]);
        }
        lemma_max_x_in_bounds(s.drop_last());
    }
}


/// A precursor ion as plain values: location, intensity and optional
/// charge.
#[derive(Debug, Clone, Copy, PartialEq, Eq, Structural)]
pub struct PrecursorDescriptor {
    pub mz: Coord,
    pub intensity: Coord,
    pub charge: Option<i32>,
}

/// The annotation label drawn beside a precursor: the m/z to two
/// decimal places, a comma, and the charge (0 when unknown).
pub open spec fn spec_precursor_content(mz: Coord, charge: Option<i32>) -> Seq<char> {
    let z: int = match charge {
        Some(z) => z as int,
        None => 0,
    };
    crate::numfmt::spec_fixed(mz.micros as int, 2) + ", "@ + crate::numfmt::spec_int_str(z)
}

/// The styled label block beside a precursor: a translated group with
/// one sky-blue text element at 0.8 em.
pub open spec fn spec_precursor_label_ok(
    canvas: Canvas,
    p: (Coord, Coord),
    content: Seq<char>,
    e: Element,
) -> bool {
    &&& e.name@ == "g"@
    &&& e.text is None
    &&& e.attrs@.len() == 1
    &&& e.attrs@[0].name@ == "transform"@ && e.attrs@[0].value@ == spec_translate_pair(
        spec_pixel(canvas, p),
    )
    &&& e.children@.len() == 1
    &&& {
        let t = e.children@[0];
        &&& t.name@ == "text"@
        &&& t.text matches Some(c) && c@ == content
        &&& t.children@.len() == 0
        &&& t.attrs@.len() == 4
        &&& t.attrs@[0].name@ == "font-family"@ && t.attrs@[0].value@ == "serif"@
        &&& t.attrs@[1].name@ == "text-anchor"@ && t.attrs@[1].value@ == "middle"@
        &&& t.attrs@[2].name@ == "font-size"@ && t.attrs@[2].value@
            == crate::numfmt::spec_coord_str(800_000) + "em"@
        &&& t.attrs@[3].name@ == "fill"@ && t.attrs@[3].value@ == "skyblue"@
    }
}

/// A single selected-ion marker: an annotation (m/z and charge) and a
/// dashed drop-line from the baseline to just under the clamped
/// intensity; nothing at all when out of frame.
#[derive(Debug, Clone)]
pub struct PrecursorSeries {
    pub mz: Coord,
    pub intensity: Coord,
    pub charge: Option<i32>,
    pub in_frame: bool,
    pub description: SeriesDescription,
}

impl PrecursorSeries {
    pub fn new(
        mz: Coord,
        intensity: Coord,
        charge: Option<i32>,
        description: SeriesDescription,
    ) -> (r: Self)
        ensures
            r.mz == mz,
            r.intensity == intensity,
            r.charge == charge,
            r.description == description,
            r.in_frame == true,
    {
        Self { mz, intensity, charge, description, in_frame: true }
    }

    /// Build from a precursor's plain values, labelled `precursor`.
    pub fn from_precursor(precursor: &PrecursorDescriptor) -> (r: Self)
        ensures
            r.mz == precursor.mz,
            r.intensity == precursor.intensity,
            r.charge == precursor.charge,
            r.in_frame == true,
            r.description.label@ == "precursor"@,
            r.description.color@ == "black"@,
            r.description.tag@ == Seq::<char>::empty(),
    {
        Self::new(
            precursor.mz,
            precursor.intensity,
            precursor.charge,
            description_from_label("precursor"),
        )
    }

    /// The drawn tip height: the intensity clamped to the y-domain
    /// maximum, scaled to 95% (floored to micro-units).
    pub open spec fn spec_tip_y(self, canvas: Canvas) -> int {
        let m = vstd::math::min(
            self.intensity.micros as int,
            canvas.y_axis.scale.domain.spec_max(),
        );
        (m * 95) / 100
    }
}

impl PlotSeries for PrecursorSeries {
    open spec fn wf(&self) -> bool {
        self.mz.in_bounds() && self.intensity.in_bounds()
    }

    open spec fn desc_spec(&self) -> SeriesDescription {
        self.description
    }

    open spec fn with_desc(&self, d: SeriesDescription) -> Self {
        PrecursorSeries {
            description: d,
            mz: self.mz,
            intensity: self.intensity,
            charge: self.charge,
            in_frame: self.in_frame,
        }
    }

    open spec fn slice_x_post(&self, after: Self, start: Coord, end: Coord) -> bool {
        after == PrecursorSeries {
            in_frame: start.micros <= self.mz.micros <= end.micros,
            mz: self.mz,
            intensity: self.intensity,
            charge: self.charge,
            description: self.description,
        }
    }

    open spec fn slice_y_post(&self, after: Self, start: Coord, end: Coord) -> bool {
        after == PrecursorSeries {
            intensity: if start.micros >= end.micros {
                start
            } else {
                end
            },
            mz: self.mz,
            charge: self.charge,
            in_frame: self.in_frame,
            description: self.description,
        }
    }

    open spec fn renders(&self, canvas: Canvas) -> bool {
        !self.in_frame || {
            let y = Coord { micros: self.spec_tip_y(canvas) as i64 };
            &&& canvas.spec_transform_result(self.mz, y) is Ok
            &&& canvas.spec_transform_result(self.mz, Coord { micros: 0 }) is Ok
        }
    }

    open spec fn rendered_ok(&self, canvas: Canvas, e: Element) -> bool {
        if !self.in_frame {
            e.name@ == "g"@ && e.text is None && e.attrs@.len() == 0 && e.children@.len() == 0
        } else {
            let y = Coord { micros: self.spec_tip_y(canvas) as i64 };
            let zero = Coord { micros: 0 };
            &&& e.name@ == "g"@
            &&& e.text is None
            &&& e.attrs@.len() == 2
            &&& e.attrs@[0].name@ == "class"@ && e.attrs@[0].value@ == "precursor"@
            &&& e.attrs@[1].name@ == "id"@ && e.attrs@[1].value@ == spec_series_id(
                self.description,
            )
            &&& e.children@.len() == 2
            &&& {
                let ag = e.children@[0];
                &&& ag.name@ == "g"@
                &&& ag.text is None
                &&& ag.attrs@.len() == 2
                &&& ag.attrs@[0].name@ == "stroke"@ && ag.attrs@[0].value@ == "black"@
                &&& ag.attrs@[1].name@ == "stroke-width"@ && ag.attrs@[1].value@ == "0.1pt"@
                &&& ag.children@.len() == 1
                &&& spec_precursor_label_ok(
                    canvas,
                    (self.mz, y),
                    spec_precursor_content(self.mz, self.charge),
                    ag.children@[0],
                )
            }
            &&& spec_line_group_content_ok(
                "precursor-line"@,
                "black"@,
                "precursor-line"@ + "-"@ + Seq::<char>::empty(),
                canvas,
                seq![(self.mz, zero), (self.mz, y)],
                e.children@[1],
            )
            &&& e.children@[1].attrs@.len() == 5
            &&& e.children@[1].attrs@[2].name@ == "stroke-dasharray"@ && e.children@[1].attrs@[2].value@
                == "4"@
            &&& e.children@[1].attrs@[3].name@ == "stroke"@ && e.children@[1].attrs@[3].value@
                == self.description.color@
            &&& e.children@[1].attrs@[4].name@ == "stroke-width"@ && e.children@[1].attrs@[4].value@
                == "0.5pt"@
        }
    }

    open spec fn render_err(&self, canvas: Canvas, er: ChartError) -> bool {
        let y = Coord { micros: self.spec_tip_y(canvas) as i64 };
        self.in_frame && (canvas.spec_transform_result(self.mz, y) == Err::<
            (Coord, Coord),
            ChartError,
        >(er) || canvas.spec_transform_result(self.mz, Coord { micros: 0 }) == Err::<
            (Coord, Coord),
            ChartError,
        >(er))
    }

    fn description(&self) -> (r: &SeriesDescription) {
        &self.description
    }

    fn description_mut(&mut self) -> (r: &mut SeriesDescription) {
        &mut self.description
    }

    fn color_mut(&mut self) -> (r: &mut String) {
        &mut self.description.color
    }

    fn to_svg(&self, canvas: &Canvas) -> (r: Result<Element, ChartError>) {
        if !self.in_frame {
            return Ok(Element::new("g"));
        }
        let zero = Coord::zero();
        let ymax = canvas.y_axis.scale.domain.max();
        let m: i64 = if self.intensity.micros <= ymax.micros {
            self.intensity.micros
        } else {
            ymax.micros
        };
        let y95: i128 = crate::coord::div_floor_i128((m as i128) * 95, 100);
        proof {
            vstd::arithmetic::div_mod::lemma_fundamental_div_mod((m as i128 * 95) as int, 100);
            vstd::arithmetic::div_mod::lemma_mod_bound((m as i128 * 95) as int, 100);
        }
        let y = Coord { micros: y95 as i64 };
        proof {
            assert(y.micros as int == self.spec_tip_y(*canvas));
        }
        let z: i32 = match self.charge {
            Some(z) => z,
            None => 0,
        };
        let mut content = crate::numfmt::format_fixed(self.mz.micros, 2);
        content.append(", ");
        crate::numfmt::push_i128(&mut content, z as i128);
        proof {
            assert(content@ =~= spec_precursor_content(self.mz, self.charge));
        }
        let ghost content_view = content@;
        let mut tp = TextProps::default();
        tp.text_size = Coord { micros: 800_000 };
        tp.color = String::from_str("skyblue");
        let mut pts: Vec<(Coord, Coord, String)> = Vec::new();
        pts.push((self.mz, y, content));
        let annot = AnnotationSeries::new(pts, description_from_label("precursor-label"), tp);
        proof {
            assert(annot.points@.len() == 1);
            assert(annot.points@[0].0 == self.mz && annot.points@[0].1 == y);
            assert(annot.points@[0].2@ == content_view);
            if canvas.spec_transform_result(self.mz, y) is Ok {
                assert forall|i: int| 0 <= i < annot.points@.len() implies (
                    #[trigger] canvas.spec_transform_result(
                        annot.points@[i].0,
                        annot.points@[i].1,
                    )) is Ok by {
                    assert(i == 0);
                }
                assert(annot.renders(*canvas));
            }
        }
        let annot_group = match annot.to_svg(canvas) {
            Ok(g) => g,
            Err(er) => {
                return Err(er);
            },
        };
        proof {
            assert(y == Coord { micros: self.spec_tip_y(*canvas) as i64 });
            assert(canvas.spec_transform_result(annot.points@[0].0, annot.points@[0].1) is Ok);
            assert(canvas.spec_transform_result(self.mz, y) is Ok);
        }
        let annot_group = annot_group.set("stroke", String::from_str("black")).set(
            "stroke-width",
            String::from_str("0.1pt"),
        );
        let mut line_pts: Vec<(Coord, Coord)> = Vec::new();
        line_pts.push((self.mz, zero));
        line_pts.push((self.mz, y));
        let line = LineSeries::new(line_pts, description_from_label("precursor-line"));
        proof {
            assert(line.points@.len() == 2);
            assert(line.points@[0] == (self.mz, zero));
            assert(line.points@[1] == (self.mz, y));
            if canvas.spec_transform_result(self.mz, zero) is Ok
                && canvas.spec_transform_result(self.mz, y) is Ok {
                assert forall|i: int| 0 <= i < line.points@.len() implies (
                    #[trigger] canvas.spec_transform_result(
                        line.points@[i].0,
                        line.points@[i].1,
                    )) is Ok by {
                    assert(i == 0 || i == 1);
                }
                assert(line.renders(*canvas));
            }
        }
        let line_group = match line.to_svg(canvas) {
            Ok(g) => g,
            Err(er) => {
                return Err(er);
            },
        };
        proof {
            assert(canvas.spec_transform_result(line.points@[0].0, line.points@[0].1) is Ok);
            assert(canvas.spec_transform_result(self.mz, zero) is Ok);
        }
        let line_group = line_group.set("stroke-dasharray", String::from_str("4")).set(
            "stroke",
            self.description.color.clone(),
        ).set("stroke-width", String::from_str("0.5pt"));
        let root = Element::new("g").add(annot_group).add(line_group).set(
            "class",
            String::from_str("precursor"),
        ).set("id", self.description.id());
        proof {
            assert("precursor-line"@ + "-"@ + Seq::<char>::empty() =~= spec_series_id(
                line.description,
            ));
            assert(line.points@ =~= seq![(self.mz, zero), (self.mz, y)]);
            assert(spec_precursor_label_ok(
                *canvas,
                (self.mz, y),
                spec_precursor_content(self.mz, self.charge),
                root.children@[0].children@[0],
            ));
            assert(self.rendered_ok(*canvas, root));
        }
        Ok(root)
    }

    fn slice_x(&mut self, start: Coord, end: Coord) {
        self.in_frame = start.micros <= self.mz.micros && self.mz.micros <= end.micros;
    }

    fn slice_y(&mut self, start: Coord, end: Coord) {
        self.intensity = if start.micros >= end.micros {
            start
        } else {
            end
        };
    }
}


} // verus!
