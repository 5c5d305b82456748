//! Fixed-point circular functions for the camera controller.
//!
//! Angles are fixed-point radians.  The sine uses the classical rational
//! approximation `16 x (pi - x) / (5 pi^2 - 4 x (pi - x))` on `[0, pi]` after
//! range reduction; the arctangent uses a first-order polynomial on one
//! octant with quadrant fix-up.  Each function's contract pins the computed
//! value exactly.

use vstd::prelude::*;
use crate::fixed::ONE;
use crate::fixed::fx_abs;
use crate::fixed::fx_add;
use crate::fixed::fx_div;
use crate::fixed::fx_emod;
use crate::fixed::fx_mul;
use crate::fixed::fx_neg;
use crate::fixed::fx_sub;
use crate::fixed::spec_fx_abs;
use crate::fixed::spec_fx_add;
use crate::fixed::spec_fx_div;
use crate::fixed::spec_fx_mul;
use crate::fixed::spec_fx_neg;
use crate::fixed::spec_fx_sub;

verus! {

/// Pi in fixed-point radians.
pub const PI_FX: i64 = 3_141_593;

/// Two pi in fixed-point radians.
pub const TAU_FX: i64 = 6_283_185;

/// Half pi in fixed-point radians.
pub const HALF_PI_FX: i64 = 1_570_796;

/// Quarter pi in fixed-point radians.
pub const QUARTER_PI_FX: i64 = 785_398;

/// The linear correction weight of the one-octant arctangent.
pub const ATAN_K_FX: i64 = 273_000;

/// The rational sine approximation on `[0, pi]`.
pub open spec fn spec_sin_half_turn(x: int) -> int {
    let t = spec_fx_mul(x, spec_fx_sub(PI_FX as int, x));
    spec_fx_div(
        spec_fx_mul(16 * ONE as int, t),
        spec_fx_sub(spec_fx_mul(5 * ONE as int, spec_fx_mul(PI_FX as int, PI_FX as int)), spec_fx_mul(4 * ONE as int, t)),
    )
}

/// Sine of any fixed-point angle, by reduction modulo a full turn.
pub open spec fn spec_sin(x: int) -> int {
    let m = x % TAU_FX as int;
    if m <= PI_FX as int {
        spec_sin_half_turn(m)
    } else {
        spec_fx_neg(spec_sin_half_turn(m - PI_FX as int))
    }
}

/// Cosine as the sine of the angle shifted by a quarter turn.
pub open spec fn spec_cos(x: int) -> int {
    spec_sin(spec_fx_add(x, HALF_PI_FX as int))
}

/// The one-octant arctangent polynomial, for ratios in `[0, ONE]`.
pub open spec fn spec_atan_octant(z: int) -> int {
    spec_fx_mul(z, spec_fx_add(QUARTER_PI_FX as int, spec_fx_mul(ATAN_K_FX as int, spec_fx_sub(ONE as int, z))))
}

/// Arctangent of `y / x`, placed into the proper quadrant of `(-pi, pi]`.
pub open spec fn spec_atan2(y: int, x: int) -> int {
    let ax = spec_fx_abs(x);
    let ay = spec_fx_abs(y);
    let base = if ax >= ay {
        spec_atan_octant(spec_fx_div(ay, ax))
    } else {
        spec_fx_sub(HALF_PI_FX as int, spec_atan_octant(spec_fx_div(ax, ay)))
    };
    let swung = if x < 0 {
        spec_fx_sub(PI_FX as int, base)
    } else {
        base
    };
    if y < 0 {
        spec_fx_neg(swung)
    } else {
        swung
    }
}

fn sin_half_turn(x: i64) -> (r: i64)
    ensures
        r as int == spec_sin_half_turn(x as int),
{
    let t: i64 = fx_mul(x, fx_sub(PI_FX, x));
    let num: i64 = fx_mul(16 * ONE, t);
    let den: i64 = fx_sub(fx_mul(5 * ONE, fx_mul(PI_FX, PI_FX)), fx_mul(4 * ONE, t));
    fx_div(num, den)
}

/// Sine of a fixed-point angle in radians.
pub fn fx_sin(x: i64) -> (r: i64)
    ensures
        r as int == spec_sin(x as int),
{
    let m: i64 = fx_emod(x, TAU_FX);
    if m <= PI_FX {
        sin_half_turn(m)
    } else {
        fx_neg(sin_half_turn(m - PI_FX))
    }
}

/// Cosine of a fixed-point angle in radians.
pub fn fx_cos(x: i64) -> (r: i64)
    ensures
        r as int == spec_cos(x as int),
{
    fx_sin(fx_add(x, HALF_PI_FX))
}

fn atan_octant(z: i64) -> (r: i64)
    ensures
        r as int == spec_atan_octant(z as int),
{
    fx_mul(z, fx_add(QUARTER_PI_FX, fx_mul(ATAN_K_FX, fx_sub(ONE, z))))
}

/// Arctangent of `y / x` in the proper quadrant of `(-pi, pi]`.
pub fn fx_atan2(y: i64, x: i64) -> (r: i64)
    ensures
        r as int == spec_atan2(y as int, x as int),
{
    let ax: i64 = fx_abs(x);
    let ay: i64 = fx_abs(y);
    let base: i64 = if ax >= ay {
        atan_octant(fx_div(ay, ax))
    } else {
        fx_sub(HALF_PI_FX, atan_octant(fx_div(ax, ay)))
    };
    let swung: i64 = if x < 0 {
        fx_sub(PI_FX, base)
    } else {
        base
    };
    if y < 0 {
        fx_neg(swung)
    } else {
        swung
    }
}

} // verus!
