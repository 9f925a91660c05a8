//! Axis orientation, tick-label styles, axis properties, text styling
//! and the canvas that composes layers into a coordinate frame.

use vstd::prelude::*;
use vstd::string::StringExecFns;
use crate::coord::{ChartError, Coord, COORD_LIMIT};
use crate::linear::{CoordinateRange, Scale};
use crate::numfmt::{push_coord_decimal, spec_coord_str, spec_fixed, spec_percentile, spec_scinot,
    format_fixed, format_percentile, format_scinot};
use crate::svgdoc::Element;

verus! {

/// The largest magnitude (in micro-units) allowed for styling sizes
/// (tick lengths, paddings, font sizes), so that the small products the
/// layout takes of them stay in coordinate bounds.
pub const STYLE_SIZE_LIMIT: i64 = 1_000_000_000_000;

/// Default tick-label font size, in micro-pixels.
pub const DEFAULT_TICK_LABEL_SIZE: i64 = 10_000_000;

/// Default axis-label font size, in micro-pixels.
pub const DEFAULT_AXIS_LABEL_SIZE: i64 = 14_000_000;

/// A marker for the engine's coordinate representation: an ordered,
/// finite-capable real-number type that an axis can render.
pub trait RenderCoordinate {
    /// The coordinate's exact value in micro-units.
    fn coordinate_micros(&self) -> i64;
}

impl RenderCoordinate for Coord {
    fn coordinate_micros(&self) -> (r: i64)
        ensures
            r == self.micros,
    {
        self.micros
    }
}

/// Which side of the plot an axis is drawn on.
#[derive(Debug, Clone, Copy, PartialEq, Eq, Structural)]
pub enum AxisOrientation {
    Top,
    Right,
    Bottom,
    Left,
}

impl AxisOrientation {
    pub open spec fn spec_is_horizontal(self) -> bool {
        self is Top || self is Bottom
    }

    pub fn is_horizontal(&self) -> (r: bool)
        ensures
            r == self.spec_is_horizontal(),
    {
        matches!(self, Self::Top | Self::Bottom)
    }

    pub fn is_vertical(&self) -> (r: bool)
        ensures
            r == !self.spec_is_horizontal(),
    {
        matches!(self, Self::Left | Self::Right)
    }
}

/// The text `translate({x},0)`.
pub open spec fn spec_translate_x(m: int) -> Seq<char> {
    "translate("@ + spec_coord_str(m) + ",0)"@
}

/// The text `translate(0, {y})`.
pub open spec fn spec_translate_y(m: int) -> Seq<char> {
    "translate(0, "@ + spec_coord_str(m) + ")"@
}

/// The horizontal translation transform for `x` micro-pixels.
pub fn translate_x(x: Coord) -> (s: String)
    ensures
        s@ == spec_translate_x(x.micros as int),
{
    let mut s = String::from_str("translate(");
    push_coord_decimal(&mut s, x.micros);
    s.append(",0)");
    proof {
        assert(s@ =~= spec_translate_x(x.micros as int));
    }
    s
}

/// The vertical translation transform for `y` micro-pixels.
pub fn translate_y(y: Coord) -> (s: String)
    ensures
        s@ == spec_translate_y(y.micros as int),
{
    let mut s = String::from_str("translate(0, ");
    push_coord_decimal(&mut s, y.micros);
    s.append(")");
    proof {
        assert(s@ =~= spec_translate_y(y.micros as int));
    }
    s
}

/// How a tick value is turned into label text: fixed decimal places,
/// scientific notation, or a percentage of the domain's maximum.
#[derive(Debug, Clone, Copy, PartialEq, Eq, Structural)]
pub enum AxisTickLabelStyle {
    Precision(usize),
    SciNot(usize),
    Percentile(usize),
}

impl Default for AxisTickLabelStyle {
    fn default() -> (r: Self)
        ensures
            r == AxisTickLabelStyle::Precision(2usize),
    {
        AxisTickLabelStyle::Precision(2)
    }
}

impl AxisTickLabelStyle {
    /// The style can format against the given domain: precision within
    /// the micro-unit resolution, and a percentile reference maximum
    /// that is not zero.
    pub open spec fn fmt_wf(self, domain: CoordinateRange) -> bool {
        match self {
            AxisTickLabelStyle::Precision(p) => p <= 6,
            AxisTickLabelStyle::SciNot(p) => p <= 6,
            AxisTickLabelStyle::Percentile(p) => p <= 6 && domain.spec_max() != 0,
        }
    }

    /// The exact label text for `value` against `domain`.
    pub open spec fn spec_format(self, value: Coord, domain: CoordinateRange) -> Seq<char> {
        match self {
            AxisTickLabelStyle::Precision(p) => spec_fixed(value.micros as int, p as nat),
            AxisTickLabelStyle::SciNot(p) => spec_scinot(value.micros as int, p as nat),
            AxisTickLabelStyle::Percentile(p) => spec_percentile(
                value.micros as int,
                domain.spec_max(),
                p as nat,
            ),
        }
    }

    /// Format one tick value as label text.
    pub fn format(&self, value: &Coord, scale: &CoordinateRange) -> (s: String)
        requires
            self.fmt_wf(*scale),
            value.in_bounds(),
            scale.wf(),
        ensures
            s@ == self.spec_format(*value, *scale),
    {
        match self {
            AxisTickLabelStyle::Precision(p) => format_fixed(value.micros, *p),
            AxisTickLabelStyle::SciNot(p) => format_scinot(value.micros, *p),
            AxisTickLabelStyle::Percentile(p) => {
                let m = scale.max();
                format_percentile(value.micros, m.micros, *p)
            },
        }
    }
}

/// Where text is anchored horizontally.
#[derive(Debug, Clone, Copy, PartialEq, Eq, Structural)]
pub enum HorizontalAlignment {
    Start,
    Middle,
    End,
}

impl Default for HorizontalAlignment {
    fn default() -> (r: Self)
        ensures
            r == HorizontalAlignment::Middle,
    {
        HorizontalAlignment::Middle
    }
}

impl HorizontalAlignment {
    pub open spec fn spec_render(self) -> Seq<char> {
        match self {
            HorizontalAlignment::Start => "start"@,
            HorizontalAlignment::Middle => "middle"@,
            HorizontalAlignment::End => "end"@,
        }
    }

    /// The SVG `text-anchor` keyword for this alignment.
    pub fn render(&self) -> (s: &'static str)
        ensures
            s@ == self.spec_render(),
    {
        match self {
            HorizontalAlignment::Start => "start",
            HorizontalAlignment::Middle => "middle",
            HorizontalAlignment::End => "end",
        }
    }
}

/// Margins on the four sides of a drawing, in micro-pixels.
#[derive(Debug, Clone, Copy, PartialEq, Eq, Structural)]
pub struct Sides {
    pub top: Coord,
    pub right: Coord,
    pub bottom: Coord,
    pub left: Coord,
}

impl Default for Sides {
    fn default() -> (r: Self)
        ensures
            r.top.micros == 0,
            r.right.micros == 0,
            r.bottom.micros == 0,
            r.left.micros == 0,
    {
        Sides {
            top: Coord { micros: 0 },
            right: Coord { micros: 0 },
            bottom: Coord { micros: 0 },
            left: Coord { micros: 0 },
        }
    }
}

/// Styling for a block of text placed on the chart.
#[derive(Debug, Clone)]
pub struct TextProps {
    /// Font size in micro-em.
    pub text_size: Coord,
    pub horizontal_alignment: HorizontalAlignment,
    pub font_family: String,
    pub color: String,
}

impl Default for TextProps {
    fn default() -> (r: Self)
        ensures
            r.text_size.micros == 1_000_000,
            r.horizontal_alignment == HorizontalAlignment::Middle,
            r.font_family@ == "serif"@,
            r.color@ == "black"@,
    {
        TextProps {
            text_size: Coord { micros: 1_000_000 },
            horizontal_alignment: HorizontalAlignment::Middle,
            font_family: String::from_str("serif"),
            color: String::from_str("black"),
        }
    }
}

impl TextProps {
    /// Whether a rendered text element carries exactly this styling and
    /// content.
    pub open spec fn text_elem_ok(self, content: Seq<char>, e: Element) -> bool {
        &&& e.name@ == "text"@
        &&& e.text matches Some(t) && t@ == content
        &&& e.children@.len() == 0
        &&& e.attrs@.len() == 4
        &&& e.attrs@[0].name@ == "font-family"@ && e.attrs@[0].value@ == self.font_family@
        &&& e.attrs@[1].name@ == "text-anchor"@ && e.attrs@[1].value@
            == self.horizontal_alignment.spec_render()
        &&& e.attrs@[2].name@ == "font-size"@ && e.attrs@[2].value@ == spec_coord_str(
            self.text_size.micros as int,
        ) + "em"@
        &&& e.attrs@[3].name@ == "fill"@ && e.attrs@[3].value@ == self.color@
    }

    /// Build a styled SVG text element holding `text`.
    pub fn text(&self, text: String) -> (e: Element)
        ensures
            self.text_elem_ok(text@, e),
    {
        let mut size = String::new();
        push_coord_decimal(&mut size, self.text_size.micros);
        size.append("em");
        let e = Element::new("text")
            .set("font-family", self.font_family.clone())
            .set("text-anchor", String::from_str(self.horizontal_alignment.render()))
            .set("font-size", size)
            .set("fill", self.color.clone())
            .with_text(text);
        proof {
            assert(size@ =~= spec_coord_str(self.text_size.micros as int) + "em"@);
        }
        e
    }
}

/// The horizontal axis of a canvas: a scale from data to pixels.
#[derive(Debug, Clone, Copy, PartialEq, Eq, Structural)]
pub struct XAxis {
    pub scale: Scale,
}

impl XAxis {
    pub fn new(scale: Scale) -> (r: Self)
        ensures
            r.scale == scale,
    {
        Self { scale }
    }

    pub fn domain(&self) -> (r: &CoordinateRange)
        ensures
            r == self.scale.domain,
    {
        &self.scale.domain
    }

    pub fn range(&self) -> (r: &CoordinateRange)
        ensures
            r == self.scale.range,
    {
        &self.scale.range
    }
}

/// The vertical axis of a canvas: a scale from data to pixels.
#[derive(Debug, Clone, Copy, PartialEq, Eq, Structural)]
pub struct YAxis {
    pub scale: Scale,
}

impl YAxis {
    pub fn new(scale: Scale) -> (r: Self)
        ensures
            r.scale == scale,
    {
        Self { scale }
    }

    pub fn domain(&self) -> (r: &CoordinateRange)
        ensures
            r == self.scale.domain,
    {
        &self.scale.domain
    }

    pub fn range(&self) -> (r: &CoordinateRange)
        ensures
            r == self.scale.range,
    {
        &self.scale.range
    }
}

/// Tick counts and font sizes for one axis (label styles included).
#[derive(Debug, Clone, Copy, PartialEq, Eq, Structural)]
pub struct AxisLabelOptions {
    pub tick_count: usize,
    pub tick_font_size: Coord,
    pub label_font_size: Coord,
    pub tick_style: AxisTickLabelStyle,
}

impl Default for AxisLabelOptions {
    fn default() -> (r: Self)
        ensures
            r.tick_count == 0,
            r.tick_font_size.micros == 0,
            r.label_font_size.micros == 0,
            r.tick_style == AxisTickLabelStyle::Precision(2usize),
    {
        AxisLabelOptions {
            tick_count: 0,
            tick_font_size: Coord { micros: 0 },
            label_font_size: Coord { micros: 0 },
            tick_style: AxisTickLabelStyle::Precision(2),
        }
    }
}

/// The central coordinate authority and layer compositor: two scales,
/// the device size in pixels, and the accumulated drawable layers in
/// draw order (later layers draw on top).
#[derive(Debug)]
pub struct Canvas {
    pub width: usize,
    pub height: usize,
    pub x_axis: XAxis,
    pub y_axis: YAxis,
    pub groups: Vec<Element>,
    pub subplot_offset: Option<(Coord, Coord)>,
}

impl Canvas {
    pub open spec fn wf(self) -> bool {
        &&& self.x_axis.scale.wf()
        &&& self.y_axis.scale.wf()
        &&& self.height <= 1_000_000_000
        &&& self.width <= 1_000_000_000
    }

    /// A fresh canvas: both domains and ranges initially span the pixel
    /// extent, no layers.
    pub fn new(width: usize, height: usize) -> (r: Self)
        requires
            width <= 1_000_000_000,
            height <= 1_000_000_000,
        ensures
            r.width == width,
            r.height == height,
            r.x_axis.scale.domain.start.micros == 0,
            r.x_axis.scale.domain.end.micros == width * 1_000_000,
            r.x_axis.scale.range == r.x_axis.scale.domain,
            r.y_axis.scale.domain.start.micros == 0,
            r.y_axis.scale.domain.end.micros == height * 1_000_000,
            r.y_axis.scale.range == r.y_axis.scale.domain,
            r.groups@.len() == 0,
            r.subplot_offset is None,
            r.wf(),
    {
        let x_domain = CoordinateRange::new(Coord::zero(), Coord::of_units(width as i64));
        let x_axis = XAxis::new(Scale::new(x_domain, x_domain));
        let y_domain = CoordinateRange::new(Coord::zero(), Coord::of_units(height as i64));
        let y_axis = YAxis::new(Scale::new(y_domain, y_domain));
        Canvas { width, height, x_axis, y_axis, groups: Vec::new(), subplot_offset: None }
    }

    /// Replace both data domains; the device ranges stay as built.
    pub fn update_scales(&mut self, x_range: CoordinateRange, y_range: CoordinateRange)
        ensures
            final(self).x_axis.scale.domain == x_range,
            final(self).x_axis.scale.range == old(self).x_axis.scale.range,
            final(self).y_axis.scale.domain == y_range,
            final(self).y_axis.scale.range == old(self).y_axis.scale.range,
            final(self).width == old(self).width,
            final(self).height == old(self).height,
            final(self).groups == old(self).groups,
            final(self).subplot_offset == old(self).subplot_offset,
    {
        self.x_axis.scale.domain = x_range;
        self.y_axis.scale.domain = y_range;
    }

    /// What `transform` returns: both device coordinates, or the first
    /// axis error.
    pub open spec fn spec_transform_result(self, x: Coord, y: Coord) -> Result<
        (Coord, Coord),
        ChartError,
    > {
        match self.x_axis.scale.spec_transform_result(x) {
            Err(e) => Err(e),
            Ok(px) => match self.y_axis.scale.spec_transform_result(y) {
                Err(e) => Err(e),
                Ok(py) => Ok((px, py)),
            },
        }
    }

    /// The single source of truth for the data-to-device mapping.
    pub fn transform(&self, x: Coord, y: Coord) -> (r: Result<(Coord, Coord), ChartError>)
        requires
            self.wf(),
            x.in_bounds(),
            y.in_bounds(),
        ensures
            r == self.spec_transform_result(x, y),
    {
        match self.x_axis.scale.transform(x) {
            Err(e) => Err(e),
            Ok(px) => match self.y_axis.scale.transform(y) {
                Err(e) => Err(e),
                Ok(py) => Ok((px, py)),
            },
        }
    }

    /// Append one rendered layer to the draw order.
    pub fn push_layer(&mut self, group: Element)
        ensures
            final(self).groups@ == old(self).groups@.push(group),
            final(self).width == old(self).width,
            final(self).height == old(self).height,
            final(self).x_axis == old(self).x_axis,
            final(self).y_axis == old(self).y_axis,
            final(self).subplot_offset == old(self).subplot_offset,
    {
        self.groups.push(group);
    }
}

/// A style size is small enough for the layout's products to stay in
/// coordinate bounds.
pub open spec fn style_small(c: Coord) -> bool {
    -STYLE_SIZE_LIMIT <= c.micros <= STYLE_SIZE_LIMIT
}

/// Orientation, tick generation and label formatting policy for one
/// axis.
#[derive(Debug, Clone)]
pub struct AxisProps {
    pub tick_padding: Coord,
    pub tick_size_outer: Coord,
    pub tick_size_inner: Coord,
    pub tick_format: AxisTickLabelStyle,
    pub axis_orientation: AxisOrientation,
    pub tick_values: Option<Vec<Coord>>,
    pub label: Option<String>,
    pub id: Option<String>,
    pub tick_label_size: Option<Coord>,
    pub axis_label_size: Option<Coord>,
}

impl AxisProps {
    pub open spec fn wf(self) -> bool {
        &&& style_small(self.tick_padding)
        &&& style_small(self.tick_size_outer)
        &&& style_small(self.tick_size_inner)
        &&& (self.tick_label_size matches Some(c) ==> style_small(c))
        &&& (self.axis_label_size matches Some(c) ==> style_small(c))
        &&& (self.tick_values matches Some(vs) ==> forall|i: int|
            0 <= i < vs@.len() ==> (#[trigger] vs@[i]).in_bounds())
    }

    /// Fresh axis properties for one orientation, with the default
    /// two-decimal tick labels and standard tick geometry.
    pub fn new(axis_orientation: AxisOrientation) -> (r: Self)
        ensures
            r.tick_format == AxisTickLabelStyle::Precision(2usize),
            r.tick_padding.micros == 3_000_000,
            r.tick_size_outer.micros == 6_000_000,
            r.tick_size_inner.micros == 6_000_000,
            r.axis_orientation == axis_orientation,
            r.tick_values is None,
            r.label is None,
            r.id is None,
            r.tick_label_size is None,
            r.axis_label_size is None,
            r.wf(),
    {
        AxisProps {
            tick_format: AxisTickLabelStyle::Precision(2),
            tick_padding: Coord { micros: 3_000_000 },
            tick_size_outer: Coord { micros: 6_000_000 },
            tick_size_inner: Coord { micros: 6_000_000 },
            axis_orientation,
            tick_values: None,
            label: None,
            id: None,
            tick_label_size: None,
            axis_label_size: None,
        }
    }

    /// Set the axis title (builder style).
    pub fn label(self, label: &str) -> (r: Self)
        ensures
            r == (Self { label: r.label, ..self }),
            r.label matches Some(l) && l@ == label@,
    {
        Self { label: Some(String::from_str(label)), ..self }
    }

    /// Set the axis title in place.
    pub fn set_label(&mut self, label: &str)
        ensures
            *final(self) == (Self { label: final(self).label, ..*old(self) }),
            final(self).label matches Some(l) && l@ == label@,
    {
        self.label = Some(String::from_str(label));
    }

    /// Set the tick-label style (builder style).
    pub fn tick_format(self, style: AxisTickLabelStyle) -> (r: Self)
        ensures
            r == (Self { tick_format: style, ..self }),
    {
        Self { tick_format: style, ..self }
    }

    /// Set the CSS class the axis group is tagged with (builder style).
    pub fn id(self, id: &str) -> (r: Self)
        ensures
            r == (Self { id: r.id, ..self }),
            r.id matches Some(l) && l@ == id@,
    {
        Self { id: Some(String::from_str(id)), ..self }
    }

    /// The translation transform that places something at position `x`
    /// along this axis.
    pub open spec fn spec_transform_str(self, x: Coord) -> Seq<char> {
        if self.axis_orientation.spec_is_horizontal() {
            spec_translate_x(x.micros as int)
        } else {
            spec_translate_y(x.micros as int)
        }
    }

    pub fn transform(&self, x: Coord) -> (s: String)
        ensures
            s@ == self.spec_transform_str(x),
    {
        match self.axis_orientation {
            AxisOrientation::Left | AxisOrientation::Right => translate_y(x),
            _ => translate_x(x),
        }
    }

    /// How far tick labels sit from the axis line, in micro-pixels.
    pub open spec fn spec_tick_spacing(self) -> int {
        self.tick_size_outer.micros + (if self.tick_size_inner.micros >= 0 {
            self.tick_size_inner.micros as int
        } else {
            0
        }) + self.tick_padding.micros
    }

    pub fn tick_spacing(&self) -> (r: Coord)
        requires
            self.wf(),
        ensures
            r.micros == self.spec_tick_spacing(),
    {
        let inner = if self.tick_size_inner.micros >= 0 {
            self.tick_size_inner.micros
        } else {
            0
        };
        Coord { micros: self.tick_size_outer.micros + inner + self.tick_padding.micros }
    }

    /// The tick values the axis draws: the explicit list when one was
    /// given, else six evenly spaced values spanning the domain,
    /// stepping from the lesser bound.
    pub open spec fn spec_ticks(self, d: CoordinateRange) -> Seq<Coord> {
        match self.tick_values {
            Some(vs) => vs@,
            None => Seq::new(6, |i: int| spec_gen_tick(d, i)),
        }
    }

    /// How many ticks the axis draws against any domain.
    pub fn num_ticks(&self) -> (n: usize)
        ensures
            n == (match self.tick_values {
                Some(vs) => vs@.len(),
                None => 6nat,
            }),
    {
        match &self.tick_values {
            Some(vs) => vs.len(),
            None => 6,
        }
    }

    /// The `i`-th tick value against domain `d`.
    pub fn tick_at(&self, d: &CoordinateRange, i: usize) -> (r: Coord)
        requires
            self.wf(),
            d.wf(),
            i < self.spec_ticks(*d).len(),
        ensures
            r == self.spec_ticks(*d)[i as int],
            r.in_bounds(),
    {
        match &self.tick_values {
            Some(vs) => vs[i],
            None => {
                if d.start.micros <= d.end.micros {
                    let span: u64 = (d.end.micros - d.start.micros) as u64;
                    let step: i64 = (span / 5) as i64;
                    proof {
                        lemma_gen_tick_bounds(*d, i as int);
                    }
                    Coord { micros: d.start.micros + (i as i64) * step }
                } else {
                    let span: u64 = (d.start.micros - d.end.micros) as u64;
                    let step: i64 = (span / 5) as i64;
                    proof {
                        lemma_gen_tick_bounds(*d, i as int);
                    }
                    Coord { micros: d.end.micros + (i as i64) * step }
                }
            },
        }
    }
}

/// The `i`-th generated tick: the lesser bound plus `i` fifths of the
/// span (floored to micro-units).
pub open spec fn spec_gen_tick(d: CoordinateRange, i: int) -> Coord {
    if d.start.micros <= d.end.micros {
        Coord { micros: (d.start.micros + i * ((d.end.micros - d.start.micros) / 5)) as i64 }
    } else {
        Coord { micros: (d.end.micros + i * ((d.start.micros - d.end.micros) / 5)) as i64 }
    }
}

/// Generated ticks stay between the domain bounds.
proof fn lemma_gen_tick_bounds(d: CoordinateRange, i: int)
    requires
        d.wf(),
        0 <= i <= 5,
    ensures
        ({
            let lo = d.spec_min();
            let hi = d.spec_max();
            let step = (hi - lo) / 5;
            &&& spec_gen_tick(d, i).micros == lo + i * step
            &&& lo <= lo + i * step <= hi
            &&& spec_gen_tick(d, i).in_bounds()
        }),
{
    let lo = d.spec_min();
    let hi = d.spec_max();
    let span = hi - lo;
    let step = span / 5;
    vstd::arithmetic::div_mod::lemma_fundamental_div_mod(span, 5);
    assert(5 * step <= span);
    assert(0 <= step);
    assert(0 <= i * step <= 5 * step) by (nonlinear_arith)
        requires 0 <= i <= 5, 0 <= step;
}


/// The `text-anchor` keyword an axis orientation uses.
pub open spec fn spec_anchor(o: AxisOrientation) -> Seq<char> {
    match o {
        AxisOrientation::Right => "start"@,
        AxisOrientation::Top => "middle"@,
        AxisOrientation::Bottom => "middle"@,
        AxisOrientation::Left => "end"@,
    }
}

impl AxisProps {
    /// The tick-label font size in force, in micro-pixels.
    pub open spec fn spec_tick_label_size(self) -> int {
        match self.tick_label_size {
            Some(c) => c.micros as int,
            None => DEFAULT_TICK_LABEL_SIZE as int,
        }
    }

    /// The axis-title font size in force, in micro-pixels.
    pub open spec fn spec_axis_label_size(self) -> int {
        match self.axis_label_size {
            Some(c) => c.micros as int,
            None => DEFAULT_AXIS_LABEL_SIZE as int,
        }
    }

    /// The axis line: a path one pixel beyond the range on either side,
    /// horizontal or vertical with the orientation.
    pub open spec fn domain_path_ok(self, scale: Scale, e: Element) -> bool {
        let r0 = Coord { micros: (scale.range.spec_min() - 1_000_000) as i64 };
        let r1 = Coord { micros: (scale.range.spec_max() + 1_000_000) as i64 };
        let zero = Coord { micros: 0 };
        let cmds: Seq<crate::svgdoc::PathCmd> = if self.axis_orientation.spec_is_horizontal() {
            seq![crate::svgdoc::PathCmd::MoveTo(r0, zero), crate::svgdoc::PathCmd::LineBy(r1, zero)]
        } else {
            seq![crate::svgdoc::PathCmd::MoveTo(zero, r0), crate::svgdoc::PathCmd::LineBy(zero, r1)]
        };
        &&& e.name@ == "path"@
        &&& e.text is None
        &&& e.children@.len() == 0
        &&& e.attrs@.len() == 5
        &&& e.attrs@[0].name@ == "fill"@ && e.attrs@[0].value@ == "none"@
        &&& e.attrs@[1].name@ == "stroke"@ && e.attrs@[1].value@ == "black"@
        &&& e.attrs@[2].name@ == "stroke-width"@ && e.attrs@[2].value@ == "0.75"@
        &&& e.attrs@[3].name@ == "class"@ && e.attrs@[3].value@ == "domain"@
        &&& e.attrs@[4].name@ == "d"@ && e.attrs@[4].value@ == crate::svgdoc::spec_render_path(
            cmds,
        )
    }

    /// One tick: a group translated to the tick's device position,
    /// holding the formatted label and the tick mark line.
    pub open spec fn tick_ok(self, scale: Scale, v: Coord, e: Element) -> bool {
        let pos = match scale.spec_transform_result(v) {
            Ok(c) => c,
            Err(_) => Coord { micros: 0 },
        };
        let spacing = self.spec_tick_spacing();
        let inner = self.tick_size_inner.micros as int;
        &&& scale.spec_transform_result(v) is Ok
        &&& e.name@ == "g"@
        &&& e.text is None
        &&& e.attrs@.len() == 2
        &&& e.attrs@[0].name@ == "class"@ && e.attrs@[0].value@ == "tick"@
        &&& e.attrs@[1].name@ == "transform"@ && e.attrs@[1].value@ == (
            if self.axis_orientation.spec_is_horizontal() {
                spec_translate_x(pos.micros as int)
            } else {
                spec_translate_y(pos.micros as int)
            })
        &&& e.children@.len() == 2
        &&& self.tick_label_ok(scale, v, e.children@[0])
        &&& self.tick_line_ok(e.children@[1])
    }

    /// One tick's label text element.
    pub open spec fn tick_label_ok(self, scale: Scale, v: Coord, e: Element) -> bool {
        let spacing = self.spec_tick_spacing();
        &&& e.name@ == "text"@
        &&& e.text matches Some(t) && t@ == self.tick_format.spec_format(v, scale.domain)
        &&& e.children@.len() == 0
        &&& e.attrs@.len() == 3
        &&& e.attrs@[0].name@ == "fill"@ && e.attrs@[0].value@ == "black"@
        &&& (match self.axis_orientation {
            AxisOrientation::Top => e.attrs@[1].name@ == "y"@ && e.attrs@[1].value@
                == spec_coord_str(-spacing) && e.attrs@[2].name@ == "dy"@ && e.attrs@[2].value@
                == "-0.32em"@,
            AxisOrientation::Right => e.attrs@[1].name@ == "x"@ && e.attrs@[1].value@
                == spec_coord_str(spacing) && e.attrs@[2].name@ == "dy"@ && e.attrs@[2].value@
                == "0.32em"@,
            AxisOrientation::Bottom => e.attrs@[1].name@ == "y"@ && e.attrs@[1].value@
                == spec_coord_str(spacing) && e.attrs@[2].name@ == "dy"@ && e.attrs@[2].value@
                == "0.32em"@,
            AxisOrientation::Left => e.attrs@[1].name@ == "x"@ && e.attrs@[1].value@
                == spec_coord_str(-spacing) && e.attrs@[2].name@ == "dy"@ && e.attrs@[2].value@
                == "0.32em"@,
        })
    }

    /// One tick's mark: a short line inward or outward of the axis.
    pub open spec fn tick_line_ok(self, e: Element) -> bool {
        let inner = self.tick_size_inner.micros as int;
        &&& e.name@ == "line"@
        &&& e.text is None
        &&& e.children@.len() == 0
        &&& e.attrs@.len() == 3
        &&& e.attrs@[0].name@ == "stroke"@ && e.attrs@[0].value@ == "black"@
        &&& e.attrs@[1].name@ == "stroke-width"@ && e.attrs@[1].value@ == "0.75"@
        &&& (match self.axis_orientation {
            AxisOrientation::Top => e.attrs@[2].name@ == "y2"@ && e.attrs@[2].value@
                == spec_coord_str(-inner),
            AxisOrientation::Right => e.attrs@[2].name@ == "x2"@ && e.attrs@[2].value@
                == spec_coord_str(inner),
            AxisOrientation::Bottom => e.attrs@[2].name@ == "y2"@ && e.attrs@[2].value@
                == spec_coord_str(inner),
            AxisOrientation::Left => e.attrs@[2].name@ == "x2"@ && e.attrs@[2].value@
                == spec_coord_str(-inner),
        })
    }

    /// The axis title block: a translated (and for vertical axes
    /// rotated) group holding one centered text element.
    pub open spec fn label_group_ok(self, scale: Scale, e: Element) -> bool {
        let mid = (scale.range.spec_max() - scale.range.spec_min()) / 2;
        let spacing = self.spec_tick_spacing();
        let y_off = if self.axis_orientation is Bottom {
            (spacing * 5) / 2
        } else {
            -4 * spacing
        };
        &&& e.name@ == "g"@
        &&& e.text is None
        &&& e.attrs@.len() == 1
        &&& e.attrs@[0].name@ == "transform"@ && e.attrs@[0].value@ == (
            if self.axis_orientation.spec_is_horizontal() {
                spec_translate_x(mid)
            } else {
                spec_translate_y(mid) + "rotate(-90)"@
            })
        &&& e.children@.len() == 1
        &&& {
            let t = e.children@[0];
            &&& t.name@ == "text"@
            &&& (self.label matches Some(l) && t.text matches Some(c) && c@ == l@)
            &&& t.children@.len() == 0
            &&& t.attrs@.len() == 4
            &&& t.attrs@[0].name@ == "y"@ && t.attrs@[0].value@ == spec_coord_str(y_off)
            &&& t.attrs@[1].name@ == "fill"@ && t.attrs@[1].value@ == "black"@
            &&& t.attrs@[2].name@ == "font-size"@ && t.attrs@[2].value@ == spec_coord_str(
                self.spec_axis_label_size(),
            )
            &&& t.attrs@[3].name@ == "text-anchor"@ && t.attrs@[3].value@ == "middle"@
        }
    }

    /// The whole rendered axis: styling attributes on the container, the
    /// axis line, one group per tick, and the optional title.
    pub open spec fn axis_elem_ok(self, scale: Scale, height: int, e: Element) -> bool {
        let ticks = self.spec_ticks(scale.domain);
        let nt = ticks.len() as int;
        let has_id = self.id is Some;
        let has_label = self.label is Some;
        let shift = self.axis_orientation is Bottom;
        let anchor_at = if has_id { 3int } else { 2int };
        &&& e.name@ == "g"@
        &&& e.text is None
        &&& e.attrs@.len() == 3 + (if has_id { 1int } else { 0 }) + (if shift { 1int } else { 0 })
        &&& e.attrs@[0].name@ == "fill"@ && e.attrs@[0].value@ == "none"@
        &&& e.attrs@[1].name@ == "font-size"@ && e.attrs@[1].value@ == spec_coord_str(
            self.spec_tick_label_size(),
        )
        &&& (self.id matches Some(idv) ==> e.attrs@[2].name@ == "class"@ && e.attrs@[2].value@
            == idv@)
        &&& e.attrs@[anchor_at].name@ == "text-anchor"@ && e.attrs@[anchor_at].value@
            == spec_anchor(self.axis_orientation)
        &&& (shift ==> e.attrs@.last().name@ == "transform"@ && e.attrs@.last().value@
            == spec_translate_y(height * 1_000_000))
        &&& e.children@.len() == 1 + nt + (if has_label { 1int } else { 0 })
        &&& self.domain_path_ok(scale, e.children@[0])
        &&& (forall|i: int| 0 <= i < nt ==> self.tick_ok(scale, ticks[i], #[trigger] e.children@[1 + i]))
        &&& (has_label ==> self.label_group_ok(scale, e.children@[1 + nt]))
    }
}


impl AxisProps {
    /// Render the axis: the line spanning the range, the tick marks and
    /// labels, and the optional title.
    ///
    /// The layout is scoped to bottom and left axes: a `Right` axis is
    /// not supported, and a `Top` axis only without a title.
    pub fn to_svg(&self, scale: &Scale, canvas: &Canvas) -> (r: Result<Element, ChartError>)
        requires
            self.wf(),
            scale.wf(),
            canvas.wf(),
            self.tick_format.fmt_wf(scale.domain),
            !(self.axis_orientation is Right),
            self.axis_orientation is Top ==> self.label is None,
        ensures
            r is Ok <==> (forall|i: int|
                0 <= i < self.spec_ticks(scale.domain).len() ==> (#[trigger] scale.spec_transform_result(
                    self.spec_ticks(scale.domain)[i],
                )) is Ok),
            r matches Ok(e) ==> self.axis_elem_ok(*scale, canvas.height as int, e),
            r matches Err(er) ==> exists|i: int|
                0 <= i < self.spec_ticks(scale.domain).len()
                    && #[trigger] scale.spec_transform_result(self.spec_ticks(scale.domain)[i])
                    == Err::<Coord, ChartError>(er),
    {
        let ghost ticks = self.spec_ticks(scale.domain);
        let d_range = scale.domain;
        let spacing = self.tick_spacing();
        let nt = self.num_ticks();

        let mut fs = String::new();
        let tls: i64 = match &self.tick_label_size {
            Some(c) => c.micros,
            None => DEFAULT_TICK_LABEL_SIZE,
        };
        push_coord_decimal(&mut fs, tls);
        let mut container = Element::new("g").set("fill", String::from_str("none")).set(
            "font-size",
            fs,
        );
        match &self.id {
            Some(idv) => {
                container = container.set("class", idv.clone());
            },
            None => {},
        }
        let anchor = match self.axis_orientation {
            AxisOrientation::Right => "start",
            AxisOrientation::Top => "middle",
            AxisOrientation::Bottom => "middle",
            AxisOrientation::Left => "end",
        };
        container = container.set("text-anchor", String::from_str(anchor));
        let ghost header_attrs = container.attrs@;

        let rmin = scale.range.min().micros;
        let rmax = scale.range.max().micros;
        let r0 = Coord { micros: rmin - 1_000_000 };
        let r1 = Coord { micros: rmax + 1_000_000 };
        let zero = Coord::zero();
        let mut cmds: Vec<crate::svgdoc::PathCmd> = Vec::new();
        if self.axis_orientation.is_horizontal() {
            cmds.push(crate::svgdoc::PathCmd::MoveTo(r0, zero));
            cmds.push(crate::svgdoc::PathCmd::LineBy(r1, zero));
        } else {
            cmds.push(crate::svgdoc::PathCmd::MoveTo(zero, r0));
            cmds.push(crate::svgdoc::PathCmd::LineBy(zero, r1));
        }
        let dstr = crate::svgdoc::render_path_data(&cmds);
        let path_el = Element::new("path").set("fill", String::from_str("none")).set(
            "stroke",
            String::from_str("black"),
        ).set("stroke-width", String::from_str("0.75")).set(
            "class",
            String::from_str("domain"),
        ).set("d", dstr);
        proof {
            if self.axis_orientation.spec_is_horizontal() {
                assert(cmds@ =~= seq![
                    crate::svgdoc::PathCmd::MoveTo(r0, zero),
                    crate::svgdoc::PathCmd::LineBy(r1, zero),
                ]);
            } else {
                assert(cmds@ =~= seq![
                    crate::svgdoc::PathCmd::MoveTo(zero, r0),
                    crate::svgdoc::PathCmd::LineBy(zero, r1),
                ]);
            }
            assert(self.domain_path_ok(*scale, path_el));
        }
        container = container.add(path_el);

        let mut i: usize = 0;
        while i < nt
            invariant
                ticks == self.spec_ticks(scale.domain),
                nt == ticks.len(),
                spacing.micros == self.spec_tick_spacing(),
                d_range == scale.domain,
                self.wf(),
                scale.wf(),
                self.tick_format.fmt_wf(scale.domain),
                !(self.axis_orientation is Right),
                0 <= i <= nt,
                container.name@ == "g"@,
                container.text is None,
                container.attrs@ == header_attrs,
                container.children@.len() == 1 + i,
                self.domain_path_ok(*scale, container.children@[0]),
                forall|j: int|
                    0 <= j < i ==> self.tick_ok(*scale, ticks[j], #[trigger] container.children@[
                        1 + j
                    ]),
                forall|j: int|
                    0 <= j < i ==> (#[trigger] scale.spec_transform_result(ticks[j])) is Ok,
            decreases nt - i,
        {
            let v = self.tick_at(&d_range, i);
            let pos = match scale.transform(v) {
                Ok(p) => p,
                Err(er) => {
                    proof {
                        assert(scale.spec_transform_result(ticks[i as int]) == Err::<
                            Coord,
                            ChartError,
                        >(er));
                    }
                    return Err(er);
                },
            };
            let tstr = if self.axis_orientation.is_horizontal() {
                translate_x(pos)
            } else {
                translate_y(pos)
            };
            let tick_g = Element::new("g").set("class", String::from_str("tick")).set(
                "transform",
                tstr,
            );
            let content = self.tick_format.format(&v, &d_range);
            let base_label = Element::new("text").with_text(content).set(
                "fill",
                String::from_str("black"),
            );
            let label_el = match self.axis_orientation {
                AxisOrientation::Top => base_label.set(
                    "y",
                    crate::numfmt::format_coord(-spacing.micros),
                ).set("dy", String::from_str("-0.32em")),
                AxisOrientation::Right => base_label.set(
                    "x",
                    crate::numfmt::format_coord(spacing.micros),
                ).set("dy", String::from_str("0.32em")),
                AxisOrientation::Bottom => base_label.set(
                    "y",
                    crate::numfmt::format_coord(spacing.micros),
                ).set("dy", String::from_str("0.32em")),
                AxisOrientation::Left => base_label.set(
                    "x",
                    crate::numfmt::format_coord(-spacing.micros),
                ).set("dy", String::from_str("0.32em")),
            };
            let line_base = Element::new("line").set("stroke", String::from_str("black")).set(
                "stroke-width",
                String::from_str("0.75"),
            );
            let line_el = match self.axis_orientation {
                AxisOrientation::Top => line_base.set(
                    "y2",
                    crate::numfmt::format_coord(-self.tick_size_inner.micros),
                ),
                AxisOrientation::Right => line_base.set(
                    "x2",
                    crate::numfmt::format_coord(self.tick_size_inner.micros),
                ),
                AxisOrientation::Bottom => line_base.set(
                    "y2",
                    crate::numfmt::format_coord(self.tick_size_inner.micros),
                ),
                AxisOrientation::Left => line_base.set(
                    "x2",
                    crate::numfmt::format_coord(-self.tick_size_inner.micros),
                ),
            };
            let tick_g = tick_g.add(label_el).add(line_el);
            proof {
                assert(self.tick_label_ok(*scale, v, tick_g.children@[0]));
                assert(self.tick_line_ok(tick_g.children@[1]));
                assert(self.tick_ok(*scale, v, tick_g));
            }
            container = container.add(tick_g);
            proof {
                assert(container.children@[1 + i as int] == tick_g);
                assert(forall|j: int|
                    0 <= j < i + 1 ==> self.tick_ok(*scale, ticks[j], #[trigger] container.children@[
                        1 + j
                    ]));
            }
            i = i + 1;
        }

        match self.axis_orientation {
            AxisOrientation::Bottom => {
                container = container.set(
                    "transform",
                    translate_y(Coord::of_units(canvas.height as i64)),
                );
            },
            _ => {},
        }

        let has_label = match &self.label {
            Some(_) => true,
            None => false,
        };
        if has_label {
            let l: String = match &self.label {
                Some(l) => l.clone(),
                None => String::new(),
            };
            let mid = Coord { micros: (((rmax - rmin) as u64) / 2) as i64 };
            let tstr2 = if self.axis_orientation.is_horizontal() {
                translate_x(mid)
            } else {
                let mut t = translate_y(mid);
                t.append("rotate(-90)");
                t
            };
            let y_off: i64 = if matches!(self.axis_orientation, AxisOrientation::Bottom) {
                crate::coord::div_floor_i128((spacing.micros as i128) * 5, 2) as i64
            } else {
                -4 * spacing.micros
            };
            let als: i64 = match &self.axis_label_size {
                Some(c) => c.micros,
                None => DEFAULT_AXIS_LABEL_SIZE,
            };
            let text_el = Element::new("text").with_text(l).set(
                "y",
                crate::numfmt::format_coord(y_off),
            ).set("fill", String::from_str("black")).set(
                "font-size",
                crate::numfmt::format_coord(als),
            ).set("text-anchor", String::from_str("middle"));
            let grp = Element::new("g").set("transform", tstr2).add(text_el);
            proof {
                assert(self.label_group_ok(*scale, grp));
            }
            container = container.add(grp);
        }
        proof {
            assert(self.axis_elem_ok(*scale, canvas.height as int, container));
        }
        Ok(container)
    }
}

impl Canvas {
    /// The composed chart frame: a translated group holding structural
    /// copies of the data layers (in draw order) and both rendered
    /// axes.
    pub open spec fn composed_ok(self, xp: AxisProps, yp: AxisProps, e: Element) -> bool {
        let t = "translate("@ + spec_coord_str(6 * yp.spec_tick_spacing()) + ", "@
            + spec_coord_str(4 * xp.spec_tick_spacing()) + ")"@;
        &&& e.name@ == "g"@
        &&& e.text is None
        &&& e.attrs@.len() == 2
        &&& e.attrs@[0].name@ == "transform"@ && e.attrs@[0].value@ == t
        &&& e.attrs@[1].name@ == "class"@ && e.attrs@[1].value@ == "canvas"@
        &&& e.children@.len() == 3
        &&& {
            let dg = e.children@[0];
            &&& dg.name@ == "g"@
            &&& dg.text is None
            &&& dg.attrs@.len() == 1
            &&& dg.attrs@[0].name@ == "class"@ && dg.attrs@[0].value@ == "data-canvas"@
            &&& dg.children@.len() == self.groups@.len()
            &&& forall|i: int|
                0 <= i < self.groups@.len() ==> crate::svgdoc::elem_like(
                    #[trigger] dg.children@[i],
                    self.groups@[i],
                )
        }
        &&& xp.axis_elem_ok(self.x_axis.scale, self.height as int, e.children@[1])
        &&& yp.axis_elem_ok(self.y_axis.scale, self.height as int, e.children@[2])
    }

    /// Compose the accumulated layers and both axes into the chart's
    /// root group.  The canvas itself is left untouched: the data group
    /// holds structural copies of the layers.
    pub fn to_svg(&self, x_axis_props: &AxisProps, y_axis_props: &AxisProps) -> (r: Result<
        Element,
        ChartError,
    >)
        requires
            self.wf(),
            x_axis_props.wf(),
            y_axis_props.wf(),
            x_axis_props.tick_format.fmt_wf(self.x_axis.scale.domain),
            y_axis_props.tick_format.fmt_wf(self.y_axis.scale.domain),
            !(x_axis_props.axis_orientation is Right),
            !(y_axis_props.axis_orientation is Right),
            x_axis_props.axis_orientation is Top ==> x_axis_props.label is None,
            y_axis_props.axis_orientation is Top ==> y_axis_props.label is None,
        ensures
            r is Ok <==> ((forall|i: int|
                0 <= i < x_axis_props.spec_ticks(self.x_axis.scale.domain).len()
                    ==> (#[trigger] self.x_axis.scale.spec_transform_result(
                    x_axis_props.spec_ticks(self.x_axis.scale.domain)[i],
                )) is Ok) && (forall|i: int|
                0 <= i < y_axis_props.spec_ticks(self.y_axis.scale.domain).len()
                    ==> (#[trigger] self.y_axis.scale.spec_transform_result(
                    y_axis_props.spec_ticks(self.y_axis.scale.domain)[i],
                )) is Ok)),
            r matches Ok(e) ==> self.composed_ok(*x_axis_props, *y_axis_props, e),
            r matches Err(er) ==> (exists|i: int|
                0 <= i < x_axis_props.spec_ticks(self.x_axis.scale.domain).len()
                    && #[trigger] self.x_axis.scale.spec_transform_result(
                    x_axis_props.spec_ticks(self.x_axis.scale.domain)[i],
                ) == Err::<Coord, ChartError>(er)) || (exists|i: int|
                0 <= i < y_axis_props.spec_ticks(self.y_axis.scale.domain).len()
                    && #[trigger] self.y_axis.scale.spec_transform_result(
                    y_axis_props.spec_ticks(self.y_axis.scale.domain)[i],
                ) == Err::<Coord, ChartError>(er)),
    {
        let x_el = match x_axis_props.to_svg(&self.x_axis.scale, self) {
            Ok(e) => e,
            Err(er) => {
                return Err(er);
            },
        };
        let y_el = match y_axis_props.to_svg(&self.y_axis.scale, self) {
            Ok(e) => e,
            Err(er) => {
                return Err(er);
            },
        };
        let mut data = Element::new("g").set("class", String::from_str("data-canvas"));
        let n = self.groups.len();
        let mut i: usize = 0;
        while i < n
            invariant
                n == self.groups@.len(),
                0 <= i <= n,
                data.name@ == "g"@,
                data.text is None,
                data.attrs@.len() == 1,
                data.attrs@[0].name@ == "class"@,
                data.attrs@[0].value@ == "data-canvas"@,
                data.children@.len() == i,
                forall|j: int|
                    0 <= j < i ==> crate::svgdoc::elem_like(
                        #[trigger] data.children@[j],
                        self.groups@[j],
                    ),
            decreases n - i,
        {
            let copy = self.groups[i].duplicate();
            data = data.add(copy);
            i = i + 1;
        }
        let ys = y_axis_props.tick_spacing();
        let xs = x_axis_props.tick_spacing();
        let mut t = String::from_str("translate(");
        push_coord_decimal(&mut t, 6 * ys.micros);
        t.append(", ");
        push_coord_decimal(&mut t, 4 * xs.micros);
        t.append(")");
        let e = Element::new("g").set("transform", t).set(
            "class",
            String::from_str("canvas"),
        ).add(data).add(x_el).add(y_el);
        proof {
            assert(self.composed_ok(*x_axis_props, *y_axis_props, e));
        }
        Ok(e)
    }
}


} // verus!
