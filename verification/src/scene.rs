//! Scene primitives: reflective spheres, point lights, and the result of a
//! ray cast.

use vstd::prelude::*;
use crate::fixed::ONE;
use crate::fixed::abs_int;
use crate::fixed::fx_add;
use crate::fixed::fx_mul;
use crate::fixed::fx_neg;
use crate::fixed::fx_sqrt;
use crate::fixed::fx_sub;
use crate::fixed::is_sqrt_of;
use crate::fixed::lemma_isqrt_spec;
use crate::fixed::spec_fx_add;
use crate::fixed::spec_fx_mul;
use crate::fixed::spec_fx_neg;
use crate::fixed::spec_fx_sqrt;
use crate::fixed::spec_fx_sub;
use crate::fixed::spec_isqrt;
use crate::vector::Vec3;
use crate::vector::spec_v3_add;
use crate::vector::spec_v3_dot;
use crate::vector::spec_v3_neg;
use crate::vector::spec_v3_normalize;
use crate::vector::spec_v3_scale;
use crate::vector::spec_v3_sub;
use vstd::arithmetic::div_mod::lemma_div_is_ordered;
use vstd::arithmetic::div_mod::lemma_div_pos_is_pos;
use vstd::arithmetic::div_mod::lemma_fundamental_div_mod;
use vstd::arithmetic::div_mod::lemma_mod_bound;
use vstd::arithmetic::mul::lemma_mul_is_commutative;
use vstd::arithmetic::mul::lemma_mul_upper_bound;

verus! {

/// What a ray hit: open sky, the ground plane, or a sphere.
#[derive(Debug, Clone, Copy, PartialEq, Eq, Structural)]
pub enum IntersectKind {
    Sky,
    Ground,
    Sphere,
}

/// The distance that stands for "no hit anywhere".
pub const FAR_DISTANCE: i64 = i64::MAX;

/// The nearest thing a ray met.  A sky result carries neither a hit point
/// nor a normal; every other kind carries both.
#[derive(Debug, Clone, Copy)]
pub struct Intersect {
    pub distance: i64,
    pub hit_point: Option<Vec3>,
    pub normal: Option<Vec3>,
    pub kind: IntersectKind,
}

impl Intersect {
    /// Exactly one of "sky" and "hit point with normal present" holds, and
    /// every real hit lies at a strictly positive distance.
    pub open spec fn wf(self) -> bool {
        &&& (self.kind == IntersectKind::Sky <==> self.hit_point is None)
        &&& (self.kind == IntersectKind::Sky <==> self.normal is None)
        &&& (self.kind == IntersectKind::Sky ==> self.distance == FAR_DISTANCE)
        &&& (self.kind != IntersectKind::Sky ==> self.distance > 0)
    }
}

/// What intersecting a ray with one sphere yields, at the level of the
/// mathematical model.
pub ghost struct SphereHit {
    pub distance: int,
    pub hit_point: (int, int, int),
    pub normal: (int, int, int),
}

/// A mirror sphere.
#[derive(Debug, Clone, Copy)]
pub struct Sphere {
    pub center: Vec3,
    /// Sphere radius, in world units.
    pub radius: i64,
}

/// Ray/sphere intersection: `b` and `c` are the half-slope and offset of the
/// quadratic; a positive quarter-discriminant means the ray meets the
/// sphere.  The near root is preferred; a ray starting inside or on the
/// sphere takes the far root — the exit point — and flips the normal
/// inward.  The hit point is `origin + direction * distance` at whichever
/// root is taken, and a root at distance zero is no candidate at all: only
/// strictly positive distances count.
pub open spec fn spec_sphere_intersect(
    center: (int, int, int),
    radius: int,
    origin: (int, int, int),
    direction: (int, int, int),
) -> Option<SphereHit> {
    let v = spec_v3_sub(origin, center);
    let b = spec_v3_dot(direction, v);
    let c = spec_fx_sub(spec_v3_dot(v, v), spec_fx_mul(radius, radius));
    let disc = spec_fx_sub(spec_fx_mul(b, b), c);
    if disc > 0 {
        let sq = spec_fx_sqrt(disc);
        let near = spec_fx_sub(spec_fx_neg(b), sq);
        if near > 0 {
            let hit = spec_v3_add(spec_v3_scale(direction, near), origin);
            Some(
                SphereHit {
                    distance: near,
                    hit_point: hit,
                    normal: spec_v3_normalize(spec_v3_sub(hit, center)),
                },
            )
        } else {
            let far = spec_fx_add(spec_fx_neg(b), sq);
            if far <= 0 {
                None
            } else {
                let hit = spec_v3_add(spec_v3_scale(direction, far), origin);
                Some(
                    SphereHit {
                        distance: far,
                        hit_point: hit,
                        normal: spec_v3_neg(spec_v3_normalize(spec_v3_sub(hit, center))),
                    },
                )
            }
        }
    } else {
        None
    }
}

/// Whether an intersection value realises a modelled sphere hit.
pub open spec fn spec_matches_sphere_hit(r: Option<Intersect>, h: Option<SphereHit>) -> bool {
    match h {
        None => r is None,
        Some(hh) => {
            &&& r is Some
            &&& r.unwrap().kind == IntersectKind::Sphere
            &&& r.unwrap().distance as int == hh.distance
            &&& r.unwrap().hit_point is Some
            &&& r.unwrap().normal is Some
            &&& r.unwrap().hit_point.unwrap()@ == hh.hit_point
            &&& r.unwrap().normal.unwrap()@ == hh.normal
            &&& r.unwrap().wf()
        },
    }
}

impl Sphere {
    pub fn new(center: Vec3, radius: i64) -> (r: Self)
        ensures
            r.center == center,
            r.radius == radius,
    {
        Sphere { center, radius }
    }

    /// Cast a ray from `origin` along `direction` against this sphere.  The
    /// origin may sit inside or outside the sphere; a hit is reported only
    /// at a strictly positive distance, at the point
    /// `origin + direction * distance`.
    pub fn intersect(self, origin: Vec3, direction: Vec3) -> (r: Option<Intersect>)
        ensures
            spec_matches_sphere_hit(
                r,
                spec_sphere_intersect(self.center@, self.radius as int, origin@, direction@),
            ),
    {
        let v: Vec3 = origin.sub(self.center);
        let b: i64 = direction.dot(v);
        let c: i64 = fx_sub(v.dot(v), fx_mul(self.radius, self.radius));
        let disc: i64 = fx_sub(fx_mul(b, b), c);
        if disc > 0 {
            let sq: i64 = fx_sqrt(disc);
            let near: i64 = fx_sub(fx_neg(b), sq);
            if near > 0 {
                let hit_point: Vec3 = direction.scale(near).add(origin);
                let normal: Vec3 = hit_point.sub(self.center).normalize();
                Some(
                    Intersect {
                        distance: near,
                        hit_point: Some(hit_point),
                        normal: Some(normal),
                        kind: IntersectKind::Sphere,
                    },
                )
            } else {
                // The ray starts inside or on the sphere: take the far
                // root, the exit point, and let the normal point inward.
                let far: i64 = fx_add(fx_neg(b), sq);
                if far <= 0 {
                    return None;
                }
                let hit_point: Vec3 = direction.scale(far).add(origin);
                let normal: Vec3 = hit_point.sub(self.center).normalize().neg();
                Some(
                    Intersect {
                        distance: far,
                        hit_point: Some(hit_point),
                        normal: Some(normal),
                        kind: IntersectKind::Sphere,
                    },
                )
            }
        } else {
            None
        }
    }
}

/// A point light.
#[derive(Debug, Clone, Copy)]
pub struct Light {
    /// Where the light sits.
    pub pos: Vec3,
    /// Signed light strength; a negative value subtracts light.
    pub strength: i64,
}

impl Light {
    pub fn new(pos: Vec3, strength: i64) -> (r: Self)
        ensures
            r.pos == pos,
            r.strength == strength,
    {
        Light { pos, strength }
    }
}

/// A ray that starts strictly inside a sphere — with a couple of raw steps
/// of margin to the surface, scaled with the ray's slope — always hits it:
/// the quadratic offset `c` is negative, the quarter-discriminant is
/// positive, and the far root is strictly ahead of the origin.  The
/// reported normal is the inward-flipped one at the exit point.  The scale
/// bounds keep every intermediate value inside the saturation band.
pub proof fn lemma_inside_sphere_always_hits(
    center: (int, int, int),
    radius: int,
    origin: (int, int, int),
    direction: (int, int, int),
)
    requires
        ({
            let v = spec_v3_sub(origin, center);
            spec_fx_sub(spec_v3_dot(v, v), spec_fx_mul(radius, radius)) <= -1
        }),
        ({
            let v = spec_v3_sub(origin, center);
            abs_int(spec_v3_dot(direction, v)) <= 1_000_000_000_000
        }),
        ({
            let v = spec_v3_sub(origin, center);
            abs_int(spec_fx_sub(spec_v3_dot(v, v), spec_fx_mul(radius, radius)))
                <= 1_000_000_000_000_000_000
        }),
        ({
            let v = spec_v3_sub(origin, center);
            let b = spec_v3_dot(direction, v);
            let c = spec_fx_sub(spec_v3_dot(v, v), spec_fx_mul(radius, radius));
            (-c) * ONE as int >= 2 * abs_int(b) + 2 * ONE as int
        }),
    ensures
        spec_sphere_intersect(center, radius, origin, direction) is Some,
        spec_sphere_intersect(center, radius, origin, direction).unwrap().distance > 0,
        ({
            let v = spec_v3_sub(origin, center);
            let b = spec_v3_dot(direction, v);
            let c = spec_fx_sub(spec_v3_dot(v, v), spec_fx_mul(radius, radius));
            let disc = spec_fx_sub(spec_fx_mul(b, b), c);
            let sq = spec_fx_sqrt(disc);
            let near = spec_fx_sub(spec_fx_neg(b), sq);
            let far = spec_fx_add(spec_fx_neg(b), sq);
            let hit = spec_v3_add(spec_v3_scale(direction, far), origin);
            near <= 0 ==> spec_sphere_intersect(center, radius, origin, direction).unwrap().normal
                == spec_v3_neg(spec_v3_normalize(spec_v3_sub(hit, center)))
        }),
{
    let v = spec_v3_sub(origin, center);
    let b = spec_v3_dot(direction, v);
    let c = spec_fx_sub(spec_v3_dot(v, v), spec_fx_mul(radius, radius));
    assert(b * b >= 0 && b * b == abs_int(b) * abs_int(b)) by (nonlinear_arith);
    lemma_mul_upper_bound(abs_int(b), 1_000_000_000_000, abs_int(b), 1_000_000_000_000);
    lemma_div_pos_is_pos(b * b, ONE as int);
    lemma_div_is_ordered(b * b, 1_000_000_000_000_000_000_000_000, ONE as int);
    let fxb2 = spec_fx_mul(b, b);
    assert(fxb2 == (b * b) / ONE as int);
    assert(0 <= fxb2 <= 1_000_000_000_000_000_000);
    let disc = spec_fx_sub(fxb2, c);
    assert(disc == fxb2 - c && disc >= 1);
    let sq = spec_fx_sqrt(disc);
    lemma_isqrt_spec(disc * ONE as int);
    assert(sq == spec_isqrt(disc * ONE as int));
    assert(is_sqrt_of(disc * ONE as int, sq));
    assert(disc * ONE as int >= ONE as int) by (nonlinear_arith)
        requires
            disc >= 1,
    ;
    if sq == 0 {
        assert((sq + 1) * (sq + 1) == 1) by (nonlinear_arith)
            requires
                sq == 0,
        ;
        assert(false);
    }
    if b > 0 {
        // The far root clears the origin: `disc * ONE` exceeds `(b + 1)^2`.
        lemma_fundamental_div_mod(b * b, ONE as int);
        lemma_mod_bound(b * b, ONE as int);
        lemma_mul_is_commutative(ONE as int, fxb2);
        assert(fxb2 * ONE as int >= b * b - ONE as int + 1);
        assert(disc * ONE as int == fxb2 * ONE as int + (-c) * ONE as int)
            by (nonlinear_arith)
            requires
                disc == fxb2 - c,
        ;
        assert((-c) * ONE as int >= 2 * b + 2 * ONE as int);
        assert(disc * ONE as int >= (b + 1) * (b + 1) + 1) by (nonlinear_arith)
            requires
                disc * ONE as int >= b * b - ONE as int + 1 + 2 * b + 2 * ONE as int,
        ;
        if sq <= b {
            assert((sq + 1) * (sq + 1) <= (b + 1) * (b + 1)) by (nonlinear_arith)
                requires
                    0 <= sq,
                    sq + 1 <= b + 1,
            ;
            assert(false);
        }
    }
    let near = spec_fx_sub(spec_fx_neg(b), sq);
    if near <= 0 {
        let far = spec_fx_add(spec_fx_neg(b), sq);
        assert(far >= 1);
    }
}

} // verus!
