//! The numeric foundation of the chart engine: an exact fixed-point
//! coordinate representation.
//!
//! Every data or device coordinate is a [`Coord`]: a signed count of
//! micro-units (one millionth of a unit).  All geometry is therefore exact
//! integer arithmetic, and the coordinate transforms can promise exact
//! round trips instead of "within floating-point tolerance".
//!
//! A [`Frac`] is an exact rational position, used for the normalized
//! (unit-interval) output of a range transform.

use vstd::prelude::*;
use vstd::arithmetic::div_mod::{lemma_fundamental_div_mod, lemma_mod_bound};
use vstd::math::abs;

verus! {

/// Number of micro-units per whole unit of a coordinate.
pub const MICROS_PER_UNIT: i64 = 1_000_000;

/// Largest magnitude (in micro-units) a coordinate may have while staying
/// well-formed.  Differences of two well-formed coordinates fit in `i64`,
/// and products of two such differences fit in `i128`.
pub const COORD_LIMIT: i64 = 1_000_000_000_000_000_000;

/// One coordinate value: `micros` micro-units, i.e. `micros / 1_000_000`
/// units.  The analogue of a finite real number on an axis.
#[derive(Debug, Clone, Copy, PartialEq, Eq, Structural)]
pub struct Coord {
    pub micros: i64,
}

impl Coord {
    /// A coordinate is in bounds when its magnitude does not exceed
    /// [`COORD_LIMIT`] micro-units; this is the fixed-point analogue of a
    /// float being finite.
    pub open spec fn in_bounds(self) -> bool {
        -(COORD_LIMIT as int) <= self.micros as int <= COORD_LIMIT as int
    }

    pub fn from_micros(micros: i64) -> (r: Self)
        ensures
            r.micros == micros,
    {
        Coord { micros }
    }

    /// The coordinate for a whole number of units.
    pub fn of_units(units: i64) -> (r: Self)
        requires
            -1_000_000_000_000 <= units <= 1_000_000_000_000,
        ensures
            r.micros == units * 1_000_000,
            r.in_bounds(),
    {
        Coord { micros: units * MICROS_PER_UNIT }
    }

    pub fn zero() -> (r: Self)
        ensures
            r.micros == 0,
            r.in_bounds(),
    {
        Coord { micros: 0 }
    }

    pub fn micros(self) -> (r: i64)
        ensures
            r == self.micros,
    {
        self.micros
    }

    /// Whether an exact mathematical value (in micro-units) fits a
    /// well-formed coordinate.
    pub open spec fn fits(v: int) -> bool {
        -(COORD_LIMIT as int) <= v <= COORD_LIMIT as int
    }
}

/// An exact rational number `num / den` with a positive denominator;
/// the result type of a normalized range transform.
#[derive(Debug, Clone, Copy, PartialEq, Eq, Structural)]
pub struct Frac {
    pub num: i128,
    pub den: i128,
}

impl Frac {
    /// Well-formed fractions have a positive denominator and both parts
    /// bounded by twice [`COORD_LIMIT`], the largest size a well-formed
    /// coordinate range can have.
    pub open spec fn wf(self) -> bool {
        &&& 0 < self.den <= 2 * (COORD_LIMIT as int)
        &&& -2 * (COORD_LIMIT as int) <= self.num <= 2 * (COORD_LIMIT as int)
    }

    pub fn new(num: i128, den: i128) -> (r: Self)
        ensures
            r.num == num,
            r.den == den,
    {
        Frac { num, den }
    }

    pub fn num(self) -> (r: i128)
        ensures
            r == self.num,
    {
        self.num
    }

    pub fn den(self) -> (r: i128)
        ensures
            r == self.den,
    {
        self.den
    }
}

/// The error conditions of the chart engine.
///
/// - `DegenerateScale`: a transform was asked of a range whose size is
///   zero (division by zero).
/// - `AxisNotInitialized`: a chart operation needed an axis domain before
///   one had been established.
/// - `CoordinateOverflow`: an exact result left the fixed-point capacity
///   of [`Coord`].
#[derive(Debug, Clone, Copy, PartialEq, Eq, Structural)]
pub enum ChartError {
    DegenerateScale,
    AxisNotInitialized,
    CoordinateOverflow,
}

/// A product of bounded factors is bounded by the product of the bounds.
pub proof fn lemma_mul_abs_bound(a: int, b: int, m: int, n: int)
    requires
        -m <= a <= m,
        -n <= b <= n,
        0 <= m,
        0 <= n,
    ensures
        -(m * n) <= a * b <= m * n,
{
    assert(-(m * n) <= a * b <= m * n) by (nonlinear_arith)
        requires -m <= a <= m, -n <= b <= n, 0 <= m, 0 <= n;
}

/// Bounds on a floor (Euclidean) quotient: dividing by a positive number
/// never grows the magnitude.
pub proof fn lemma_div_bounds(a: int, b: int)
    requires
        b >= 1,
    ensures
        -abs(a) <= a / b <= abs(a),
        a >= 0 ==> 0 <= a / b <= a,
        a < 0 ==> a <= a / b <= 0,
{
    let q = a / b;
    let r = a % b;
    lemma_fundamental_div_mod(a, b);
    lemma_mod_bound(a, b);
    assert(a == b * q + r);
    assert(0 <= r < b);
    assert(b * q <= a);
    if q > 0 {
        assert(b * q >= q) by (nonlinear_arith)
            requires q > 0, b >= 1;
        assert(q <= a);
    }
    if q < 0 {
        assert(b * (q + 1) <= q + 1) by (nonlinear_arith)
            requires q + 1 <= 0, b >= 1;
        assert(a < b * q + b);
        assert(b * q + b == b * (q + 1)) by (nonlinear_arith);
        assert(a < q + 1);
        assert(a <= q);
    }
}

/// Floor division of `i128` values by a positive divisor; the executable
/// form of the mathematical `/` used throughout the contracts.
pub fn div_floor_i128(a: i128, b: i128) -> (q: i128)
    requires
        b >= 1,
    ensures
        q == a as int / b as int,
{
    proof {
        lemma_div_bounds(a as int, b as int);
    }
    a.checked_div_euclid(b).unwrap()
}

} // verus!
