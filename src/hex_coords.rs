use vstd::arithmetic::div_mod::{lemma_fundamental_div_mod, lemma_mod_bound};
use vstd::prelude::*;

verus! {

/// Width, in pixels, of one hex tile's bounding box in the flat-top layout.
pub const HEX_WIDTH: i64 = 128;

/// Bound, in pixels, on each coordinate of a position that can be mapped to
/// a cell: at this width its fractional axial coordinates stay within
/// `FRACTION_LIMIT`.
pub const PIXEL_LIMIT: i64 = 34359738368;

/// Bound on the denominator of a position that can be mapped to a cell: it
/// keeps the numerators of its fractional axial coordinates inside `i64`.
pub const PIXEL_DEN_LIMIT: i64 = 16777216;

/// Bound, in cell units, on each axis of a fractional coordinate that can be
/// rounded: it keeps every rounded and every rederived axis inside `i32`.
pub const FRACTION_LIMIT: i64 = 1073741824;

/// Discrete address of one hex cell in the axial layout.
#[derive(Clone, Copy, Debug, PartialEq, Eq, Structural)]
pub struct AxialCoord {
    pub q: i32,
    pub r: i32,
}

/// Discrete address of one hex cell in the cube layout, where the third
/// axis is redundant: `q + r + s == 0`.
#[derive(Clone, Copy, Debug, PartialEq, Eq, Structural)]
pub struct CubeCoord {
    pub q: i32,
    pub r: i32,
    pub s: i32,
}

/// A continuous position in the axial basis, held exactly as the fractions
/// `q / den` and `r / den`.
#[derive(Clone, Copy, Debug, PartialEq, Eq, Structural)]
pub struct AxialCoordFloating {
    pub q: i64,
    pub r: i64,
    pub den: i64,
}

/// A continuous position in the cube basis, held exactly as the fractions
/// `q / den`, `r / den` and `s / den`.
#[derive(Clone, Copy, Debug, PartialEq, Eq, Structural)]
pub struct CubeCoordFloating {
    pub q: i64,
    pub r: i64,
    pub s: i64,
    pub den: i64,
}

impl CubeCoord {
    /// The cube invariant.
    pub open spec fn wf(self) -> bool {
        self.q + self.r + self.s == 0
    }

    /// The cube form of an axial cell: `s = -q - r`.
    pub fn from_axial(value: AxialCoord) -> (c: CubeCoord)
        requires
            i32::MIN <= -value.q - value.r <= i32::MAX,
        ensures
            c.wf(),
            c.q == value.q,
            c.r == value.r,
            c.s == -value.q - value.r,
    {
        let s = -(value.q as i64) - (value.r as i64);
        CubeCoord { q: value.q, r: value.r, s: s as i32 }
    }
}

impl AxialCoordFloating {
    /// A positive denominator, a third cube axis `-q - r` that an `i64`
    /// holds, and every cube axis within the rounding limit.
    pub open spec fn wf(self) -> bool {
        &&& self.den > 0
        &&& i64::MIN <= -(self.q + self.r) <= i64::MAX
        &&& abs(self.q as int) <= FRACTION_LIMIT * self.den
        &&& abs(self.r as int) <= FRACTION_LIMIT * self.den
        &&& abs(self.q + self.r) <= FRACTION_LIMIT * self.den
    }
}

impl CubeCoordFloating {
    /// A positive denominator, the cube invariant, and every axis within the
    /// rounding limit.
    pub open spec fn wf(self) -> bool {
        &&& self.den > 0
        &&& self.q + self.r + self.s == 0
        &&& abs(self.q as int) <= FRACTION_LIMIT * self.den
        &&& abs(self.r as int) <= FRACTION_LIMIT * self.den
        &&& abs(self.s as int) <= FRACTION_LIMIT * self.den
    }

    /// The cube form of a fractional axial position: `s = -q - r`, over the
    /// same denominator.
    pub fn from_axial(value: AxialCoordFloating) -> (c: CubeCoordFloating)
        requires
            value.wf(),
        ensures
            c.wf(),
            c.q == value.q,
            c.r == value.r,
            c.s == -value.q - value.r,
            c.den == value.den,
    {
        let s = -(value.q as i128) - (value.r as i128);
        CubeCoordFloating { q: value.q, r: value.r, s: s as i64, den: value.den }
    }
}

impl From<CubeCoord> for AxialCoord {
    /// Drops the redundant axis.
    fn from(value: CubeCoord) -> (a: AxialCoord) {
        AxialCoord { q: value.q, r: value.r }
    }
}

impl vstd::std_specs::convert::FromSpecImpl<CubeCoord> for AxialCoord {
    open spec fn obeys_from_spec() -> bool {
        true
    }

    open spec fn from_spec(v: CubeCoord) -> AxialCoord {
        AxialCoord { q: v.q, r: v.r }
    }
}

impl From<CubeCoordFloating> for AxialCoordFloating {
    /// Drops the redundant axis, keeping the denominator.
    fn from(value: CubeCoordFloating) -> (a: AxialCoordFloating) {
        AxialCoordFloating { q: value.q, r: value.r, den: value.den }
    }
}

impl vstd::std_specs::convert::FromSpecImpl<CubeCoordFloating> for AxialCoordFloating {
    open spec fn obeys_from_spec() -> bool {
        true
    }

    open spec fn from_spec(v: CubeCoordFloating) -> AxialCoordFloating {
        AxialCoordFloating { q: v.q, r: v.r, den: v.den }
    }
}

/// A position in pixel space, held exactly as `(x / den, y / den)`.
#[derive(Clone, Copy, Debug, PartialEq, Eq, Structural)]
pub struct Pixel {
    pub x: i64,
    pub y: i64,
    pub den: i64,
}

impl Pixel {
    /// A position that can be mapped to a cell: a positive denominator up to
    /// `PIXEL_DEN_LIMIT`, and both coordinates within `PIXEL_LIMIT` pixels of
    /// the origin.
    pub open spec fn wf(self) -> bool {
        &&& 0 < self.den <= PIXEL_DEN_LIMIT
        &&& abs(self.x as int) <= PIXEL_LIMIT * self.den
        &&& abs(self.y as int) <= PIXEL_LIMIT * self.den
    }
}

/// The absolute value of `x`.
pub open spec fn abs(x: int) -> int {
    if x < 0 {
        -x
    } else {
        x
    }
}

/// The integer nearest to `n / d` (for `d > 0`); a value exactly halfway
/// between two integers goes away from zero.
pub open spec fn round_half_away(n: int, d: int) -> int
    recommends
        d > 0,
{
    if n >= 0 {
        (2 * n + d) / (2 * d)
    } else {
        -((d - 2 * n) / (2 * d))
    }
}

/// `round_half_away(n, d)` is within half a unit of `n / d`, and it lies
/// exactly half a unit away only on the side away from zero.
pub proof fn lemma_round_half_away(n: int, d: int)
    requires
        d > 0,
    ensures
        -d <= 2 * (round_half_away(n, d) * d - n) <= d,
        2 * (round_half_away(n, d) * d - n) == d ==> n > 0,
        2 * (round_half_away(n, d) * d - n) == -d ==> n < 0,
{
    let k = round_half_away(n, d);
    if n >= 0 {
        let a = 2 * n + d;
        lemma_fundamental_div_mod(a, 2 * d);
        lemma_mod_bound(a, 2 * d);
        let m = a % (2 * d);
        assert(a == (2 * d) * k + m);
        assert(2 * (k * d - n) == d - m) by (nonlinear_arith)
            requires
                a == 2 * n + d,
                a == (2 * d) * k + m,
        ;
        if m == 0 && n == 0 {
            assert(false) by (nonlinear_arith)
                requires
                    d == (2 * d) * k,
                    d > 0,
            ;
        }
    } else {
        let a = d - 2 * n;
        let j = a / (2 * d);
        lemma_fundamental_div_mod(a, 2 * d);
        lemma_mod_bound(a, 2 * d);
        let m = a % (2 * d);
        assert(k == -j);
        assert(2 * (k * d - n) == m - d) by (nonlinear_arith)
            requires
                a == d - 2 * n,
                a == (2 * d) * j + m,
                k == -j,
        ;
    }
}

/// A fraction within `limit` units of zero rounds to an integer within
/// `limit` of zero.
proof fn lemma_round_within(n: int, d: int, limit: int)
    requires
        d > 0,
        limit >= 0,
        abs(n) <= limit * d,
    ensures
        abs(round_half_away(n, d)) <= limit,
{
    lemma_round_half_away(n, d);
    let k = round_half_away(n, d);
    assert(abs(k) <= limit) by (nonlinear_arith)
        requires
            d > 0,
            -d <= 2 * (k * d - n) <= d,
            -(limit * d) <= n <= limit * d,
    ;
}

/// A fraction whose value is the integer `k` rounds to `k`.
pub proof fn lemma_round_exact(k: int, d: int)
    requires
        d > 0,
    ensures
        round_half_away(k * d, d) == k,
{
    lemma_round_half_away(k * d, d);
    let j = round_half_away(k * d, d);
    assert(j == k) by (nonlinear_arith)
        requires
            d > 0,
            -d <= 2 * (j * d - k * d) <= d,
            2 * (j * d - k * d) == d ==> k * d > 0,
            2 * (j * d - k * d) == -d ==> k * d < 0,
    ;
}

/// Rounds `n / d` to the nearest integer, halves away from zero.
fn round_ratio(n: i64, d: i64) -> (k: i64)
    requires
        d > 0,
        abs(n as int) <= FRACTION_LIMIT * d,
    ensures
        k == round_half_away(n as int, d as int),
        abs(k as int) <= FRACTION_LIMIT,
{
    proof {
        lemma_round_within(n as int, d as int, FRACTION_LIMIT as int);
    }
    let d1 = d as i128;
    let d2 = (2 * d1) as u128;
    if n >= 0 {
        let a = (2 * (n as i128) + d1) as u128;
        (a / d2) as i64
    } else {
        let a = (d1 - 2 * (n as i128)) as u128;
        -((a / d2) as i64)
    }
}

/// The rounding of the fractional cube position `(q, r, s) / d`: each axis
/// is rounded on its own, then the axis whose rounding moved it furthest is
/// rederived from the other two. `q` wins only when its error is strictly the
/// largest, `r` only when its error strictly exceeds that of `s`, and `s` is
/// rederived in every other case.
pub open spec fn rounded_cube(q: int, r: int, s: int, d: int) -> (int, int, int) {
    let rq = round_half_away(q, d);
    let rr = round_half_away(r, d);
    let rs = round_half_away(s, d);
    let eq = abs(rq * d - q);
    let er = abs(rr * d - r);
    let es = abs(rs * d - s);
    if eq > er && eq > es {
        (-rr - rs, rr, rs)
    } else if er > es {
        (rq, -rq - rs, rs)
    } else {
        (rq, rr, -rq - rr)
    }
}

/// The rounding of the fractional axial position `(q, r) / d`, through its
/// cube form with `s = -q - r`.
pub open spec fn rounded_axial(q: int, r: int, d: int) -> (int, int) {
    let c = rounded_cube(q, r, -q - r, d);
    (c.0, c.1)
}

/// Every rounded cube position lies on the plane `q + r + s == 0`.
pub proof fn lemma_rounded_cube_on_plane(q: int, r: int, s: int, d: int)
    ensures
        rounded_cube(q, r, s, d).0 + rounded_cube(q, r, s, d).1 + rounded_cube(q, r, s, d).2 == 0,
{
}

/// An axial position that already names a cell, at any positive
/// denominator, rounds to that cell.
pub proof fn lemma_axial_round_integral(a: AxialCoord, d: int)
    requires
        d > 0,
    ensures
        rounded_axial(a.q * d, a.r * d, d) == (a.q as int, a.r as int),
{
    let q = a.q as int;
    let r = a.r as int;
    lemma_round_exact(q, d);
    lemma_round_exact(r, d);
    lemma_round_exact(-q - r, d);
    assert(-(q * d) - r * d == (-q - r) * d) by (nonlinear_arith);
}

/// A rederived axis stays within one unit of the limit of the fractional
/// axis it replaces.
proof fn lemma_rederived_within(a: int, b: int, na: int, nb: int, nc: int, d: int)
    requires
        d > 0,
        -d <= 2 * (a * d - na) <= d,
        -d <= 2 * (b * d - nb) <= d,
        na + nb + nc == 0,
        abs(nc) <= FRACTION_LIMIT * d,
    ensures
        abs(a + b) <= FRACTION_LIMIT + 1,
{
    let limit = FRACTION_LIMIT as int;
    assert(abs(a + b) <= limit + 1) by (nonlinear_arith)
        requires
            d > 0,
            -d <= 2 * (a * d - na) <= d,
            -d <= 2 * (b * d - nb) <= d,
            na + nb + nc == 0,
            -(limit * d) <= nc <= limit * d,
    ;
}

/// `|k * d - n|`: the error of the rounding `k` of `n / d`, scaled by `d`.
fn scaled_error(k: i64, n: i64, d: i64) -> (e: i128)
    requires
        d > 0,
        abs(k as int) <= FRACTION_LIMIT,
    ensures
        e == abs(k * d - n),
{
    assert(abs(k * d) <= FRACTION_LIMIT * d) by (nonlinear_arith)
        requires
            d > 0,
            abs(k as int) <= FRACTION_LIMIT,
    ;
    let diff = (k as i128) * (d as i128) - (n as i128);
    if diff < 0 {
        -diff
    } else {
        diff
    }
}

/// Snaps a fractional cube position to the nearest cell: each axis is
/// rounded, then the axis with the largest rounding error is rederived from
/// the other two, so that the result lies on the cube plane.
pub fn cube_round(float_cube: CubeCoordFloating) -> (c: CubeCoord)
    requires
        float_cube.wf(),
    ensures
        c.wf(),
        (c.q as int, c.r as int, c.s as int) == rounded_cube(
            float_cube.q as int,
            float_cube.r as int,
            float_cube.s as int,
            float_cube.den as int,
        ),
{
    let d = float_cube.den;
    let mut q = round_ratio(float_cube.q, d);
    let mut r = round_ratio(float_cube.r, d);
    let mut s = round_ratio(float_cube.s, d);

    let q_diff = scaled_error(q, float_cube.q, d);
    let r_diff = scaled_error(r, float_cube.r, d);
    let s_diff = scaled_error(s, float_cube.s, d);

    proof {
        let (nq, nr, ns, dd) = (float_cube.q as int, float_cube.r as int, float_cube.s as int, d as int);
        lemma_round_half_away(nq, dd);
        lemma_round_half_away(nr, dd);
        lemma_round_half_away(ns, dd);
        lemma_rederived_within(r as int, s as int, nr, ns, nq, dd);
        lemma_rederived_within(q as int, s as int, nq, ns, nr, dd);
        lemma_rederived_within(q as int, r as int, nq, nr, ns, dd);
    }

    if q_diff > r_diff && q_diff > s_diff {
        q = -r - s;
    } else if r_diff > s_diff {
        r = -q - s;
    } else {
        s = -q - r;
    }

    CubeCoord { q: q as i32, r: r as i32, s: s as i32 }
}

/// Snaps a fractional axial position to the nearest cell, through its cube
/// form.
pub fn axial_round(float_axial: AxialCoordFloating) -> (a: AxialCoord)
    requires
        float_axial.wf(),
    ensures
        (a.q as int, a.r as int) == rounded_axial(
            float_axial.q as int,
            float_axial.r as int,
            float_axial.den as int,
        ),
{
    AxialCoord::from(cube_round(CubeCoordFloating::from_axial(float_axial)))
}

/// The pixel position of cell `(q, r)` for tiles `w` pixels wide, as the
/// numerators over the denominator 4 of `x = w * 0.75 * q` and
/// `y = w * (0.25 * q + 0.5 * r)`.
pub open spec fn cell_pixel(w: int, q: int, r: int) -> (int, int) {
    (3 * w * q, w * q + 2 * w * r)
}

/// The cell under the pixel position `(x, y) / d` for tiles `w` pixels wide:
/// the rounding of `q = 4 * x / (3 * w)` and `r = (6 * y - 2 * x) / (3 * w)`.
pub open spec fn pixel_cell(w: int, x: int, y: int, d: int) -> (int, int) {
    rounded_axial(4 * x, 6 * y - 2 * x, 3 * w * d)
}

/// Mapping a cell to pixel space and back gives the same cell, for every
/// positive tile width.
pub proof fn lemma_pixel_round_trip(w: int, a: AxialCoord)
    requires
        w > 0,
    ensures
        pixel_cell(w, cell_pixel(w, a.q as int, a.r as int).0, cell_pixel(w, a.q as int, a.r as int).1, 4)
            == (a.q as int, a.r as int),
{
    let (q, r) = (a.q as int, a.r as int);
    let (x, y) = cell_pixel(w, q, r);
    let d = 12 * w;
    assert(4 * x == q * d && 6 * y - 2 * x == r * d && 3 * w * 4 == d) by (nonlinear_arith)
        requires
            x == 3 * w * q,
            y == w * q + 2 * w * r,
            d == 12 * w,
    ;
    lemma_axial_round_integral(a, d);
}

/// The origin cell sits at the pixel origin, for every tile width.
pub proof fn lemma_origin_pixel(w: int)
    ensures
        cell_pixel(w, 0, 0) == (0int, 0int),
{
}

/// The pixel position of a cell, exact over the denominator 4.
pub fn axial_to_pixel(axial: AxialCoord) -> (pixel: Pixel)
    ensures
        pixel.den == 4,
        (pixel.x as int, pixel.y as int) == cell_pixel(HEX_WIDTH as int, axial.q as int, axial.r as int),
{
    let q = axial.q as i64;
    let r = axial.r as i64;
    assert(abs(3 * HEX_WIDTH * q) < 0x10000000000 && abs(HEX_WIDTH * q) < 0x10000000000 && abs(2
        * HEX_WIDTH * r) < 0x10000000000) by (nonlinear_arith)
        requires
            i32::MIN <= q <= i32::MAX,
            i32::MIN <= r <= i32::MAX,
            HEX_WIDTH == 128,
    ;
    Pixel { x: 3 * HEX_WIDTH * q, y: HEX_WIDTH * q + 2 * HEX_WIDTH * r, den: 4 }
}

/// The cell under a pixel position.
pub fn pixel_to_axial(pixel: Pixel) -> (axial: AxialCoord)
    requires
        pixel.wf(),
    ensures
        (axial.q as int, axial.r as int) == pixel_cell(
            HEX_WIDTH as int,
            pixel.x as int,
            pixel.y as int,
            pixel.den as int,
        ),
{
    let (x, y, d) = (pixel.x, pixel.y, pixel.den);
    let ghost limit = PIXEL_LIMIT as int;
    assert(abs(4 * x) <= FRACTION_LIMIT * (3 * HEX_WIDTH * d) && abs(6 * y - 2 * x) <= FRACTION_LIMIT * (3
        * HEX_WIDTH * d) && abs(2 * x + 6 * y) <= FRACTION_LIMIT * (3 * HEX_WIDTH * d) && abs(x as int)
        <= limit * PIXEL_DEN_LIMIT && abs(y as int) <= limit * PIXEL_DEN_LIMIT) by (nonlinear_arith)
        requires
            0 < d <= PIXEL_DEN_LIMIT,
            abs(x as int) <= limit * d,
            abs(y as int) <= limit * d,
            limit == PIXEL_LIMIT,
    ;
    assert(3 * HEX_WIDTH * d <= 0x200000000) by (nonlinear_arith)
        requires
            0 < d <= PIXEL_DEN_LIMIT,
            HEX_WIDTH == 128,
    ;
    axial_round(AxialCoordFloating { q: 4 * x, r: 6 * y - 2 * x, den: 3 * HEX_WIDTH * d })
}

} // verus!
