//! One-dimensional coordinate intervals and the affine scales built from
//! them.
//!
//! A [`CoordinateRange`] maps values to exact unit-interval positions
//! ([`Frac`]); a [`Scale`] composes a domain range and a device range into
//! a full data-to-pixel mapping.  A range may be inverted (`start > end`),
//! which draws the axis in the reverse direction.

use vstd::prelude::*;
use vstd::arithmetic::div_mod::lemma_div_multiples_vanish;
use crate::coord::{ChartError, Coord, Frac, COORD_LIMIT, div_floor_i128, lemma_div_bounds, lemma_mul_abs_bound};

verus! {

/// A 1-D numeric interval with transform/inverse-transform between the
/// domain and the unit interval.  `size()` may be negative for inverted
/// axes.
#[derive(Debug, Clone, Copy, PartialEq, Eq, Structural)]
pub struct CoordinateRange {
    pub start: Coord,
    pub end: Coord,
}

impl CoordinateRange {
    /// Both bounds in the fixed-point analogue of "finite and not NaN".
    pub open spec fn wf(self) -> bool {
        self.start.in_bounds() && self.end.in_bounds()
    }

    /// Signed size `end - start` in micro-units.
    pub open spec fn spec_size(self) -> int {
        self.end.micros - self.start.micros
    }

    pub open spec fn spec_min(self) -> int {
        if self.start.micros <= self.end.micros {
            self.start.micros as int
        } else {
            self.end.micros as int
        }
    }

    pub open spec fn spec_max(self) -> int {
        if self.start.micros <= self.end.micros {
            self.end.micros as int
        } else {
            self.start.micros as int
        }
    }

    /// The exact unit-interval position of `value`, as a fraction with a
    /// positive denominator.  Meaningful only for a non-degenerate range.
    pub open spec fn spec_transform(self, value: Coord) -> Frac {
        if self.spec_size() > 0 {
            Frac {
                num: (value.micros - self.start.micros) as i128,
                den: self.spec_size() as i128,
            }
        } else {
            Frac {
                num: (self.start.micros - value.micros) as i128,
                den: (-self.spec_size()) as i128,
            }
        }
    }

    /// The exact value at unit-interval position `f`:
    /// `start + f * size`, with the division taken as a floor.
    pub open spec fn spec_inverse(self, f: Frac) -> int {
        self.start.micros + ((f.num as int) * self.spec_size()) / (f.den as int)
    }

    /// What `transform` returns: the exact position, or the
    /// degenerate-scale error for a zero-size range.
    pub open spec fn spec_transform_result(self, value: Coord) -> Result<Frac, ChartError> {
        if self.spec_size() == 0 {
            Err(ChartError::DegenerateScale)
        } else {
            Ok(self.spec_transform(value))
        }
    }

    /// What `inverse_transform` returns: the exact value, or the
    /// overflow error when it leaves the coordinate bound.
    pub open spec fn spec_inverse_result(self, f: Frac) -> Result<Coord, ChartError> {
        if Coord::fits(self.spec_inverse(f)) {
            Ok(Coord { micros: self.spec_inverse(f) as i64 })
        } else {
            Err(ChartError::CoordinateOverflow)
        }
    }

    pub fn new(start: Coord, end: Coord) -> (r: Self)
        ensures
            r.start == start,
            r.end == end,
    {
        Self { start, end }
    }

    pub fn is_well_formed(&self) -> (r: bool)
        ensures
            r == self.wf(),
    {
        -COORD_LIMIT <= self.start.micros && self.start.micros <= COORD_LIMIT
            && -COORD_LIMIT <= self.end.micros && self.end.micros <= COORD_LIMIT
    }

    /// Signed size as a coordinate difference (may exceed the well-formed
    /// coordinate bound, but always fits the representation).
    pub fn size(&self) -> (r: Coord)
        requires
            self.wf(),
        ensures
            r.micros == self.spec_size(),
    {
        Coord { micros: self.end.micros - self.start.micros }
    }

    /// Normalize `value` to its position in the unit interval:
    /// `(value - start) / size()`, exact.  A zero-size range is the
    /// degenerate-scale error.
    pub fn transform(&self, value: Coord) -> (r: Result<Frac, ChartError>)
        requires
            self.wf(),
            value.in_bounds(),
        ensures
            r == self.spec_transform_result(value),
            self.spec_size() == 0 <==> r == Err::<Frac, ChartError>(ChartError::DegenerateScale),
            r matches Ok(f) ==> f.wf(),
    {
        let size: i64 = self.end.micros - self.start.micros;
        if size == 0 {
            Err(ChartError::DegenerateScale)
        } else if size > 0 {
            Ok(Frac { num: (value.micros - self.start.micros) as i128, den: size as i128 })
        } else {
            Ok(Frac {
                num: (self.start.micros - value.micros) as i128,
                den: -(size as i128),
            })
        }
    }

    /// Denormalize a unit-interval position: `start + f * size()`, exact
    /// whenever the division is exact, floored otherwise.  Fails only
    /// when the result leaves the well-formed coordinate bound.
    pub fn inverse_transform(&self, f: Frac) -> (r: Result<Coord, ChartError>)
        requires
            self.wf(),
            f.wf(),
        ensures
            r == self.spec_inverse_result(f),
            r matches Ok(c) ==> c.in_bounds(),
    {
        let size: i64 = self.end.micros - self.start.micros;
        proof {
            lemma_mul_abs_bound(
                f.num as int,
                size as int,
                2 * (COORD_LIMIT as int),
                2 * (COORD_LIMIT as int),
            );
        }
        let prod: i128 = f.num * (size as i128);
        let q: i128 = div_floor_i128(prod, f.den);
        proof {
            lemma_div_bounds(prod as int, f.den as int);
        }
        let v: i128 = self.start.micros as i128 + q;
        if -(COORD_LIMIT as i128) <= v && v <= COORD_LIMIT as i128 {
            Ok(Coord { micros: v as i64 })
        } else {
            Err(ChartError::CoordinateOverflow)
        }
    }

    /// The lesser bound, regardless of orientation.
    pub fn min(&self) -> (r: Coord)
        ensures
            r.micros == self.spec_min(),
    {
        if self.start.micros <= self.end.micros {
            self.start
        } else {
            self.end
        }
    }

    /// The greater bound, regardless of orientation.
    pub fn max(&self) -> (r: Coord)
        ensures
            r.micros == self.spec_max(),
    {
        if self.start.micros <= self.end.micros {
            self.end
        } else {
            self.start
        }
    }

    /// Restrict `value` to `[min(start, end), max(start, end)]`,
    /// regardless of the range's orientation.
    pub fn clamp(&self, value: Coord) -> (r: Coord)
        ensures
            r.micros == if value.micros < self.spec_min() {
                self.spec_min()
            } else if value.micros > self.spec_max() {
                self.spec_max()
            } else {
                value.micros as int
            },
            self.spec_min() <= r.micros <= self.spec_max(),
    {
        let (lo, hi) = if self.start.micros < self.end.micros {
            (self.start, self.end)
        } else {
            (self.end, self.start)
        };
        if value.micros < lo.micros {
            lo
        } else if value.micros > hi.micros {
            hi
        } else {
            value
        }
    }
}

impl From<(Coord, Coord)> for CoordinateRange {
    fn from(value: (Coord, Coord)) -> (r: Self) {
        CoordinateRange { start: value.0, end: value.1 }
    }
}

impl vstd::std_specs::convert::FromSpecImpl<(Coord, Coord)> for CoordinateRange {
    open spec fn obeys_from_spec() -> bool {
        true
    }

    open spec fn from_spec(value: (Coord, Coord)) -> Self {
        CoordinateRange { start: value.0, end: value.1 }
    }
}

/// For every well-formed, non-degenerate range, denormalizing the
/// normalized position of a value gives that value back exactly.
pub proof fn law_transform_inverse_round_trip(c: CoordinateRange, v: Coord)
    requires
        c.wf(),
        v.in_bounds(),
        c.spec_size() != 0,
    ensures
        c.spec_inverse(c.spec_transform(v)) == v.micros as int,
{
    let s = c.spec_size();
    let f = c.spec_transform(v);
    let n = f.num as int;
    let d = f.den as int;
    if s > 0 {
        assert(n == v.micros - c.start.micros && d == s);
        lemma_div_multiples_vanish(v.micros - c.start.micros, s);
        assert((n * s) / d == v.micros - c.start.micros);
    } else {
        assert(n == c.start.micros - v.micros && d == -s);
        assert(n * s == (v.micros - c.start.micros) * (-s)) by (nonlinear_arith)
            requires n == c.start.micros - v.micros, s < 0;
        lemma_div_multiples_vanish(v.micros - c.start.micros, -s);
        assert((n * s) / d == v.micros - c.start.micros);
    }
}

/// Composition of a data-domain range and a device-pixel range: the full
/// affine mapping for one axis.
#[derive(Debug, Clone, Copy, PartialEq, Eq, Structural)]
pub struct Scale {
    pub domain: CoordinateRange,
    pub range: CoordinateRange,
}

impl Scale {
    pub open spec fn wf(self) -> bool {
        self.domain.wf() && self.range.wf()
    }

    /// The exact device position of a data value: normalize through the
    /// domain, denormalize through the range.
    pub open spec fn spec_transform(self, value: Coord) -> int {
        self.range.spec_inverse(self.domain.spec_transform(value))
    }

    /// The exact data value of a device position: normalize through the
    /// range, denormalize through the domain.
    pub open spec fn spec_inverse_transform(self, value: Coord) -> int {
        self.domain.spec_inverse(self.range.spec_transform(value))
    }

    /// What `transform` returns: normalize through the domain, then
    /// denormalize through the range, propagating the first error.
    pub open spec fn spec_transform_result(self, value: Coord) -> Result<Coord, ChartError> {
        match self.domain.spec_transform_result(value) {
            Ok(f) => self.range.spec_inverse_result(f),
            Err(e) => Err(e),
        }
    }

    /// What `inverse_transform` returns.
    pub open spec fn spec_inverse_transform_result(self, value: Coord) -> Result<
        Coord,
        ChartError,
    > {
        match self.range.spec_transform_result(value) {
            Ok(f) => self.domain.spec_inverse_result(f),
            Err(e) => Err(e),
        }
    }

    pub fn new(domain: CoordinateRange, range: CoordinateRange) -> (r: Self)
        ensures
            r.domain == domain,
            r.range == range,
    {
        Self { domain, range }
    }

    pub fn is_well_formed(&self) -> (r: bool)
        ensures
            r == self.wf(),
    {
        self.domain.is_well_formed() && self.range.is_well_formed()
    }

    /// Map a data value to its device coordinate.  Errors: a zero-size
    /// domain is degenerate; a result out of coordinate bounds overflows.
    pub fn transform(&self, value: Coord) -> (r: Result<Coord, ChartError>)
        requires
            self.wf(),
            value.in_bounds(),
        ensures
            r == self.spec_transform_result(value),
            self.domain.spec_size() == 0 ==> r == Err::<Coord, ChartError>(
                ChartError::DegenerateScale,
            ),
            self.domain.spec_size() != 0 && Coord::fits(self.spec_transform(value)) ==> r
                == Ok::<Coord, ChartError>(Coord { micros: self.spec_transform(value) as i64 }),
            self.domain.spec_size() != 0 && !Coord::fits(self.spec_transform(value)) ==> r
                == Err::<Coord, ChartError>(ChartError::CoordinateOverflow),
            r matches Ok(c) ==> c.in_bounds(),
    {
        match self.domain.transform(value) {
            Ok(f) => self.range.inverse_transform(f),
            Err(e) => Err(e),
        }
    }

    /// Map a device coordinate back to its data value.
    pub fn inverse_transform(&self, value: Coord) -> (r: Result<Coord, ChartError>)
        requires
            self.wf(),
            value.in_bounds(),
        ensures
            r == self.spec_inverse_transform_result(value),
            self.range.spec_size() == 0 ==> r == Err::<Coord, ChartError>(
                ChartError::DegenerateScale,
            ),
            self.range.spec_size() != 0 && Coord::fits(self.spec_inverse_transform(value)) ==> r
                == Ok::<Coord, ChartError>(
                Coord { micros: self.spec_inverse_transform(value) as i64 },
            ),
            self.range.spec_size() != 0 && !Coord::fits(self.spec_inverse_transform(value)) ==> r
                == Err::<Coord, ChartError>(ChartError::CoordinateOverflow),
            r matches Ok(c) ==> c.in_bounds(),
    {
        match self.range.transform(value) {
            Ok(f) => self.domain.inverse_transform(f),
            Err(e) => Err(e),
        }
    }
}

} // verus!
