//! 3D vectors over the fixed-point scalars.
//!
//! The frame is right-handed with the z axis pointing up.  Every operation
//! returns a new value; a vector's view is the triple of its components as
//! unbounded integers.

use vstd::prelude::*;
use crate::fixed::CAP;
use crate::fixed::ONE;
use crate::fixed::abs_int;
use crate::fixed::fx_add;
use crate::fixed::fx_div;
use crate::fixed::fx_mul;
use crate::fixed::fx_neg;
use crate::fixed::fx_sqrt;
use crate::fixed::fx_sub;
use crate::fixed::spec_fx_add;
use crate::fixed::spec_fx_div;
use crate::fixed::spec_fx_mul;
use crate::fixed::spec_fx_neg;
use crate::fixed::spec_fx_sqrt;
use crate::fixed::spec_fx_sub;
use vstd::arithmetic::mul::lemma_mul_is_commutative;
use vstd::arithmetic::mul::lemma_mul_upper_bound;
use vstd::arithmetic::div_mod::lemma_div_pos_is_pos;
use vstd::arithmetic::div_mod::lemma_div_is_ordered;
use vstd::arithmetic::div_mod::lemma_fundamental_div_mod;
use vstd::arithmetic::div_mod::lemma_mod_bound;

verus! {

/// Largest deviation of a squared norm from `ONE` that still counts as
/// unit length: the unit-length tolerance of the kernel.  Derivation: for
/// inputs inside the world band with squared norm at least one,
/// `lemma_normalize_is_unit` bounds the drift of a normalized vector's
/// squared norm by 15 raw steps; the camera's unit-length check must also
/// accept renormalizations of gazes rebuilt from the circular-function
/// approximations, whose pre-normalization norm can sit a few thousandths
/// below one, so the tolerance carries two orders of magnitude of headroom
/// over the proven bound while staying far below any visible error.
pub const NORM_TOL: i64 = 2_000;

/// A vector in the right-handed, z-up world frame.
#[derive(Clone, Copy, Debug, PartialEq, Eq, Structural)]
pub struct Vec3 {
    pub x: i64,
    pub y: i64,
    pub z: i64,
}

impl View for Vec3 {
    type V = (int, int, int);

    open spec fn view(&self) -> (int, int, int) {
        (self.x as int, self.y as int, self.z as int)
    }
}

pub open spec fn spec_v3_add(a: (int, int, int), b: (int, int, int)) -> (int, int, int) {
    (spec_fx_add(a.0, b.0), spec_fx_add(a.1, b.1), spec_fx_add(a.2, b.2))
}

pub open spec fn spec_v3_sub(a: (int, int, int), b: (int, int, int)) -> (int, int, int) {
    (spec_fx_sub(a.0, b.0), spec_fx_sub(a.1, b.1), spec_fx_sub(a.2, b.2))
}

pub open spec fn spec_v3_neg(a: (int, int, int)) -> (int, int, int) {
    (spec_fx_neg(a.0), spec_fx_neg(a.1), spec_fx_neg(a.2))
}

pub open spec fn spec_v3_scale(a: (int, int, int), s: int) -> (int, int, int) {
    (spec_fx_mul(a.0, s), spec_fx_mul(a.1, s), spec_fx_mul(a.2, s))
}

pub open spec fn spec_v3_div(a: (int, int, int), s: int) -> (int, int, int) {
    (spec_fx_div(a.0, s), spec_fx_div(a.1, s), spec_fx_div(a.2, s))
}

pub open spec fn spec_v3_dot(a: (int, int, int), b: (int, int, int)) -> int {
    spec_fx_add(
        spec_fx_add(spec_fx_mul(a.0, b.0), spec_fx_mul(a.1, b.1)),
        spec_fx_mul(a.2, b.2),
    )
}

pub open spec fn spec_v3_cross(a: (int, int, int), b: (int, int, int)) -> (int, int, int) {
    (
        spec_fx_sub(spec_fx_mul(a.1, b.2), spec_fx_mul(a.2, b.1)),
        spec_fx_sub(spec_fx_mul(a.2, b.0), spec_fx_mul(a.0, b.2)),
        spec_fx_sub(spec_fx_mul(a.0, b.1), spec_fx_mul(a.1, b.0)),
    )
}

pub open spec fn spec_v3_magnitude(a: (int, int, int)) -> int {
    spec_fx_sqrt(spec_v3_dot(a, a))
}

pub open spec fn spec_v3_normalize(a: (int, int, int)) -> (int, int, int) {
    spec_v3_div(a, spec_v3_magnitude(a))
}

/// All components are below the zero tolerance of one raw step.
pub open spec fn spec_v3_is_zero(a: (int, int, int)) -> bool {
    a.0 == 0 && a.1 == 0 && a.2 == 0
}

/// The squared norm is within `NORM_TOL` of one.
pub open spec fn spec_v3_is_normalized(a: (int, int, int)) -> bool {
    abs_int(spec_fx_sub(spec_v3_dot(a, a), ONE as int)) < NORM_TOL as int
}

/// All components sit inside the saturation band.
pub open spec fn spec_v3_in_cap(a: (int, int, int)) -> bool {
    -(CAP as int) <= a.0 <= CAP as int && -(CAP as int) <= a.1 <= CAP as int && -(CAP as int)
        <= a.2 <= CAP as int
}

impl Vec3 {
    pub fn new(x: i64, y: i64, z: i64) -> (r: Self)
        ensures
            r@ == (x as int, y as int, z as int),
    {
        Vec3 { x, y, z }
    }

    pub fn new_const(x: i64, y: i64, z: i64) -> (r: Self)
        ensures
            r@ == (x as int, y as int, z as int),
    {
        Vec3 { x, y, z }
    }

    pub fn zero() -> (r: Self)
        ensures
            r@ == (0int, 0int, 0int),
    {
        Vec3 { x: 0, y: 0, z: 0 }
    }

    pub fn unit_x() -> (r: Self)
        ensures
            r@ == (ONE as int, 0int, 0int),
    {
        Vec3 { x: ONE, y: 0, z: 0 }
    }

    pub fn unit_y() -> (r: Self)
        ensures
            r@ == (0int, ONE as int, 0int),
    {
        Vec3 { x: 0, y: ONE, z: 0 }
    }

    pub fn unit_z() -> (r: Self)
        ensures
            r@ == (0int, 0int, ONE as int),
    {
        Vec3 { x: 0, y: 0, z: ONE }
    }

    pub fn add(self, rhs: Self) -> (r: Self)
        ensures
            r@ == spec_v3_add(self@, rhs@),
    {
        Vec3 { x: fx_add(self.x, rhs.x), y: fx_add(self.y, rhs.y), z: fx_add(self.z, rhs.z) }
    }

    pub fn sub(self, rhs: Self) -> (r: Self)
        ensures
            r@ == spec_v3_sub(self@, rhs@),
    {
        Vec3 { x: fx_sub(self.x, rhs.x), y: fx_sub(self.y, rhs.y), z: fx_sub(self.z, rhs.z) }
    }

    pub fn neg(self) -> (r: Self)
        ensures
            r@ == spec_v3_neg(self@),
    {
        Vec3 { x: fx_neg(self.x), y: fx_neg(self.y), z: fx_neg(self.z) }
    }

    /// Scale by a fixed-point scalar.
    pub fn scale(self, s: i64) -> (r: Self)
        ensures
            r@ == spec_v3_scale(self@, s as int),
    {
        Vec3 { x: fx_mul(self.x, s), y: fx_mul(self.y, s), z: fx_mul(self.z, s) }
    }

    /// Divide by a fixed-point scalar; a zero scalar yields the zero vector.
    pub fn div_scale(self, s: i64) -> (r: Self)
        ensures
            r@ == spec_v3_div(self@, s as int),
    {
        Vec3 { x: fx_div(self.x, s), y: fx_div(self.y, s), z: fx_div(self.z, s) }
    }

    pub fn dot(self, rhs: Self) -> (r: i64)
        ensures
            r as int == spec_v3_dot(self@, rhs@),
    {
        fx_add(fx_add(fx_mul(self.x, rhs.x), fx_mul(self.y, rhs.y)), fx_mul(self.z, rhs.z))
    }

    pub fn cross(self, rhs: Self) -> (r: Self)
        ensures
            r@ == spec_v3_cross(self@, rhs@),
    {
        Vec3 {
            x: fx_sub(fx_mul(self.y, rhs.z), fx_mul(self.z, rhs.y)),
            y: fx_sub(fx_mul(self.z, rhs.x), fx_mul(self.x, rhs.z)),
            z: fx_sub(fx_mul(self.x, rhs.y), fx_mul(self.y, rhs.x)),
        }
    }

    pub fn magnitude(self) -> (r: i64)
        ensures
            r as int == spec_v3_magnitude(self@),
    {
        fx_sqrt(self.dot(self))
    }

    /// Whether every component is below the zero tolerance.
    pub fn is_zero(self) -> (r: bool)
        ensures
            r == spec_v3_is_zero(self@),
    {
        self.x == 0 && self.y == 0 && self.z == 0
    }

    /// Whether the squared norm is within `NORM_TOL` of one.
    pub fn is_normalized(self) -> (r: bool)
        ensures
            r == spec_v3_is_normalized(self@),
    {
        let d: i64 = self.dot(self);
        let dev: i64 = crate::fixed::fx_abs(fx_sub(d, ONE));
        dev < NORM_TOL
    }

    /// Divide by the magnitude.  The zero vector maps to itself: the
    /// degenerate-input fallback in place of a non-finite result.
    pub fn normalize(self) -> (r: Self)
        ensures
            r@ == spec_v3_normalize(self@),
    {
        let m: i64 = self.magnitude();
        self.div_scale(m)
    }

    /// Cosine similarity: the dot product over both magnitudes.
    pub fn cos(self, rhs: Self) -> (r: i64)
        ensures
            r as int == spec_fx_div(
                spec_fx_div(spec_v3_dot(self@, rhs@), spec_v3_magnitude(self@)),
                spec_v3_magnitude(rhs@),
            ),
    {
        let d: i64 = self.dot(rhs);
        let m1: i64 = self.magnitude();
        let m2: i64 = rhs.magnitude();
        fx_div(fx_div(d, m1), m2)
    }
}

/// Commutativity of the fixed-point product.
pub proof fn lemma_fx_mul_commutes(a: int, b: int)
    ensures
        spec_fx_mul(a, b) == spec_fx_mul(b, a),
{
    lemma_mul_is_commutative(a, b);
}

/// Swapping the operands of the cross product negates every component.
pub proof fn lemma_cross_antisymmetric(a: Vec3, b: Vec3)
    ensures
        spec_v3_cross(a@, b@) == spec_v3_neg(spec_v3_cross(b@, a@)),
{
    lemma_fx_mul_commutes(a@.0, b@.1);
    lemma_fx_mul_commutes(a@.0, b@.2);
    lemma_fx_mul_commutes(a@.1, b@.0);
    lemma_fx_mul_commutes(a@.1, b@.2);
    lemma_fx_mul_commutes(a@.2, b@.0);
    lemma_fx_mul_commutes(a@.2, b@.1);
}

/// The dot product is symmetric in its operands.
pub proof fn lemma_dot_symmetric(a: Vec3, b: Vec3)
    ensures
        spec_v3_dot(a@, b@) == spec_v3_dot(b@, a@),
{
    lemma_fx_mul_commutes(a@.0, b@.0);
    lemma_fx_mul_commutes(a@.1, b@.1);
    lemma_fx_mul_commutes(a@.2, b@.2);
}

/// A vector plus its own negation is the zero vector, for every vector whose
/// components sit inside the saturation band.
pub proof fn lemma_add_neg_is_zero(a: Vec3)
    requires
        spec_v3_in_cap(a@),
    ensures
        spec_v3_is_zero(spec_v3_add(a@, spec_v3_neg(a@))),
{
}

/// Every vector of squared norm at least one, with components inside the
/// world band, normalizes to a unit vector within the tolerance.  The proof
/// walks the truncation error of the squared components, of the integer
/// square root, and of the three divisions, and bounds the total drift of
/// the squared norm by a few raw steps.
pub proof fn lemma_normalize_is_unit(a: (int, int, int))
    requires
        abs_int(a.0) <= 1_000_000_000_000,
        abs_int(a.1) <= 1_000_000_000_000,
        abs_int(a.2) <= 1_000_000_000_000,
        spec_v3_dot(a, a) >= ONE as int,
    ensures
        spec_v3_is_normalized(spec_v3_normalize(a)),
{
    let s = ONE as int;
    let x = a.0;
    let y = a.1;
    let z = a.2;

    // The squared components divide exactly as non-negative integers.
    crate::fixed::lemma_abs_mul(x, x);
    crate::fixed::lemma_abs_mul(y, y);
    crate::fixed::lemma_abs_mul(z, z);
    assert(x * x >= 0 && y * y >= 0 && z * z >= 0);
    lemma_mul_upper_bound(abs_int(x), 1_000_000_000_000, abs_int(x), 1_000_000_000_000);
    lemma_mul_upper_bound(abs_int(y), 1_000_000_000_000, abs_int(y), 1_000_000_000_000);
    lemma_mul_upper_bound(abs_int(z), 1_000_000_000_000, abs_int(z), 1_000_000_000_000);
    let nn = x * x + y * y + z * z;
    lemma_div_pos_is_pos(x * x, s);
    lemma_div_pos_is_pos(y * y, s);
    lemma_div_pos_is_pos(z * z, s);
    lemma_div_is_ordered(x * x, 1_000_000_000_000_000_000_000_000, s);
    lemma_div_is_ordered(y * y, 1_000_000_000_000_000_000_000_000, s);
    lemma_div_is_ordered(z * z, 1_000_000_000_000_000_000_000_000, s);
    let d = spec_v3_dot(a, a);
    assert(d == x * x / s + y * y / s + z * z / s);
    lemma_fundamental_div_mod(x * x, s);
    lemma_fundamental_div_mod(y * y, s);
    lemma_fundamental_div_mod(z * z, s);
    lemma_mod_bound(x * x, s);
    lemma_mod_bound(y * y, s);
    lemma_mod_bound(z * z, s);
    assert(s * d <= nn && s * d > nn - 3 * s);

    // The magnitude and its bracketing.
    let m = spec_v3_magnitude(a);
    assert(d >= s);
    crate::fixed::lemma_isqrt_spec(d * s);
    assert(m == crate::fixed::spec_isqrt(d * s));
    assert(m >= 0 && m * m <= d * s && d * s < (m + 1) * (m + 1));
    assert(d * s <= nn && d * s > nn - 3 * s) by (nonlinear_arith)
        requires
            s * d <= nn,
            s * d > nn - 3 * s,
            d * s == s * d,
    ;
    assert(d * s == s * d) by (nonlinear_arith);
    assert(d * s >= s * s) by (nonlinear_arith)
        requires
            d >= s,
            s > 0,
    ;
    assert(m >= s) by (nonlinear_arith)
        requires
            (m + 1) * (m + 1) > s * s,
            m >= 0,
            s > 0,
    ;
    assert(nn >= m * m);
    assert(nn < (m + 1) * (m + 1) + 3 * s);
    assert((m + 1) * (m + 1) + 3 * s <= (m + 2 * s) * (m + 2 * s)) by (nonlinear_arith)
        requires
            m >= s,
            s == 1_000_000,
    ;

    // Each normalized component divides the scaled component by `m`.
    let ss = s * s;
    let mm = m * m;
    let u0 = abs_int(x) * s;
    let u1 = abs_int(y) * s;
    let u2 = abs_int(z) * s;
    crate::fixed::lemma_abs_mul(x, s);
    crate::fixed::lemma_abs_mul(y, s);
    crate::fixed::lemma_abs_mul(z, s);
    let p0 = u0 / m;
    let p1 = u1 / m;
    let p2 = u2 / m;
    lemma_div_pos_is_pos(u0, m);
    lemma_div_pos_is_pos(u1, m);
    lemma_div_pos_is_pos(u2, m);
    vstd::arithmetic::div_mod::lemma_div_is_ordered_by_denominator(u0, s, m);
    vstd::arithmetic::div_mod::lemma_div_is_ordered_by_denominator(u1, s, m);
    vstd::arithmetic::div_mod::lemma_div_is_ordered_by_denominator(u2, s, m);
    vstd::arithmetic::div_mod::lemma_div_by_multiple(abs_int(x), s);
    vstd::arithmetic::div_mod::lemma_div_by_multiple(abs_int(y), s);
    vstd::arithmetic::div_mod::lemma_div_by_multiple(abs_int(z), s);
    assert(p0 <= abs_int(x) && p1 <= abs_int(y) && p2 <= abs_int(z));
    let nrm = spec_v3_normalize(a);
    assert(nrm.0 == crate::fixed::tdiv(x * s, m) && nrm.1 == crate::fixed::tdiv(y * s, m)
        && nrm.2 == crate::fixed::tdiv(z * s, m));
    assert(abs_int(nrm.0) == p0 && abs_int(nrm.1) == p1 && abs_int(nrm.2) == p2);

    // The squared normalized components against the scaled squares.
    lemma_fundamental_div_mod(u0, m);
    lemma_fundamental_div_mod(u1, m);
    lemma_fundamental_div_mod(u2, m);
    lemma_mod_bound(u0, m);
    lemma_mod_bound(u1, m);
    lemma_mod_bound(u2, m);
    let q = nrm.0 * nrm.0 + nrm.1 * nrm.1 + nrm.2 * nrm.2;
    assert(nrm.0 * nrm.0 == p0 * p0 && nrm.1 * nrm.1 == p1 * p1 && nrm.2 * nrm.2 == p2 * p2)
        by (nonlinear_arith)
        requires
            abs_int(nrm.0) == p0,
            abs_int(nrm.1) == p1,
            abs_int(nrm.2) == p2,
            abs_int(nrm.0) == if nrm.0 < 0 { -nrm.0 } else { nrm.0 },
            abs_int(nrm.1) == if nrm.1 < 0 { -nrm.1 } else { nrm.1 },
            abs_int(nrm.2) == if nrm.2 < 0 { -nrm.2 } else { nrm.2 },
    ;
    assert(u0 * u0 == (x * x) * ss) by (nonlinear_arith)
        requires
            u0 == abs_int(x) * s,
            abs_int(x) * abs_int(x) == x * x,
            ss == s * s,
    ;
    assert(u1 * u1 == (y * y) * ss) by (nonlinear_arith)
        requires
            u1 == abs_int(y) * s,
            abs_int(y) * abs_int(y) == y * y,
            ss == s * s,
    ;
    assert(u2 * u2 == (z * z) * ss) by (nonlinear_arith)
        requires
            u2 == abs_int(z) * s,
            abs_int(z) * abs_int(z) == z * z,
            ss == s * s,
    ;
    assert((x * x) * ss + (y * y) * ss + (z * z) * ss == ss * nn) by (nonlinear_arith)
        requires
            nn == x * x + y * y + z * z,
    ;
    assert(u0 * u0 + u1 * u1 + u2 * u2 == ss * nn);
    assert(p0 * p0 * mm <= u0 * u0 && u0 * u0 - p0 * p0 * mm <= 2 * m * u0)
        by (nonlinear_arith)
        requires
            0 <= p0 * m <= u0,
            u0 - p0 * m < m,
            m > 0,
            mm == m * m,
    ;
    assert(p1 * p1 * mm <= u1 * u1 && u1 * u1 - p1 * p1 * mm <= 2 * m * u1)
        by (nonlinear_arith)
        requires
            0 <= p1 * m <= u1,
            u1 - p1 * m < m,
            m > 0,
            mm == m * m,
    ;
    assert(p2 * p2 * mm <= u2 * u2 && u2 * u2 - p2 * p2 * mm <= 2 * m * u2)
        by (nonlinear_arith)
        requires
            0 <= p2 * m <= u2,
            u2 - p2 * m < m,
            m > 0,
            mm == m * m,
    ;
    let aa = abs_int(x) + abs_int(y) + abs_int(z);
    assert(aa * aa <= 3 * nn) by (nonlinear_arith)
        requires
            aa == abs_int(x) + abs_int(y) + abs_int(z),
            abs_int(x) * abs_int(x) == x * x,
            abs_int(y) * abs_int(y) == y * y,
            abs_int(z) * abs_int(z) == z * z,
            nn == x * x + y * y + z * z,
            abs_int(x) >= 0,
            abs_int(y) >= 0,
            abs_int(z) >= 0,
    ;
    assert(aa < 2 * m + 4 * s) by (nonlinear_arith)
        requires
            aa >= 0,
            aa * aa <= 3 * nn,
            nn < (m + 2 * s) * (m + 2 * s),
            m >= s,
            s > 0,
    ;
    assert(aa <= 6 * m - 1) by (nonlinear_arith)
        requires
            aa < 2 * m + 4 * s,
            m >= s,
            s > 0,
    ;
    assert(u0 + u1 + u2 == aa * s) by (nonlinear_arith)
        requires
            u0 == abs_int(x) * s,
            u1 == abs_int(y) * s,
            u2 == abs_int(z) * s,
            aa == abs_int(x) + abs_int(y) + abs_int(z),
    ;
    assert(q * mm == p0 * p0 * mm + p1 * p1 * mm + p2 * p2 * mm) by (nonlinear_arith)
        requires
            q == nrm.0 * nrm.0 + nrm.1 * nrm.1 + nrm.2 * nrm.2,
            nrm.0 * nrm.0 == p0 * p0,
            nrm.1 * nrm.1 == p1 * p1,
            nrm.2 * nrm.2 == p2 * p2,
    ;
    assert(q * mm <= u0 * u0 + u1 * u1 + u2 * u2);
    assert(q * mm <= ss * nn);
    assert(u0 * u0 + u1 * u1 + u2 * u2 - q * mm <= 2 * m * u0 + 2 * m * u1 + 2 * m * u2);
    assert(2 * m * u0 + 2 * m * u1 + 2 * m * u2 == 2 * m * (aa * s)) by (nonlinear_arith)
        requires
            u0 + u1 + u2 == aa * s,
    ;
    assert(2 * m * (aa * s) <= 12 * s * mm) by (nonlinear_arith)
        requires
            aa <= 6 * m - 1,
            m > 0,
            s > 0,
            mm == m * m,
    ;
    assert(ss * nn - q * mm <= 12 * s * mm);

    // The squared norm of the normalized vector sits beside `s * s`.
    assert(q <= s * s + 6 * s) by (nonlinear_arith)
        requires
            q * mm <= ss * nn,
            nn < (m + 1) * (m + 1) + 3 * s,
            m >= s,
            s == 1_000_000,
            mm == m * m,
            ss == s * s,
    ;
    assert(q >= s * s - 12 * s) by (nonlinear_arith)
        requires
            ss * nn - q * mm <= 12 * s * mm,
            nn >= m * m,
            m > 0,
            s > 0,
            mm == m * m,
            ss == s * s,
    ;

    // The dot product of the normalized vector, truncations included.
    assert(p0 <= 1_000_000_000_000 && p1 <= 1_000_000_000_000 && p2 <= 1_000_000_000_000);
    lemma_mul_upper_bound(p0, 1_000_000_000_000, p0, 1_000_000_000_000);
    lemma_mul_upper_bound(p1, 1_000_000_000_000, p1, 1_000_000_000_000);
    lemma_mul_upper_bound(p2, 1_000_000_000_000, p2, 1_000_000_000_000);
    lemma_div_pos_is_pos(nrm.0 * nrm.0, s);
    lemma_div_pos_is_pos(nrm.1 * nrm.1, s);
    lemma_div_pos_is_pos(nrm.2 * nrm.2, s);
    lemma_div_is_ordered(nrm.0 * nrm.0, 1_000_000_000_000_000_000_000_000, s);
    lemma_div_is_ordered(nrm.1 * nrm.1, 1_000_000_000_000_000_000_000_000, s);
    lemma_div_is_ordered(nrm.2 * nrm.2, 1_000_000_000_000_000_000_000_000, s);
    let dotn = spec_v3_dot(nrm, nrm);
    assert(dotn == nrm.0 * nrm.0 / s + nrm.1 * nrm.1 / s + nrm.2 * nrm.2 / s);
    lemma_fundamental_div_mod(nrm.0 * nrm.0, s);
    lemma_fundamental_div_mod(nrm.1 * nrm.1, s);
    lemma_fundamental_div_mod(nrm.2 * nrm.2, s);
    lemma_mod_bound(nrm.0 * nrm.0, s);
    lemma_mod_bound(nrm.1 * nrm.1, s);
    lemma_mod_bound(nrm.2 * nrm.2, s);
    assert(s * dotn <= q && s * dotn > q - 3 * s);
    assert(dotn <= s + 6) by (nonlinear_arith)
        requires
            s * dotn <= q,
            q <= s * s + 6 * s,
            s > 0,
    ;
    assert(dotn > s - 15) by (nonlinear_arith)
        requires
            s * dotn > q - 3 * s,
            q >= s * s - 12 * s,
            s > 0,
    ;
    assert(abs_int(spec_fx_sub(dotn, s)) < NORM_TOL as int);
}

} // verus!
