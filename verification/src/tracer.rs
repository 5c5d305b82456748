//! The renderer: scene state, camera control, ray casting against the whole
//! scene, recursive shading, per-pixel sampling and frame assembly.
//!
//! The ground is the plane `z = 0`.

use vstd::prelude::*;
use crate::action::Action;
use crate::action::ActionManager;
use crate::fixed::CAP;
use crate::fixed::ONE;
use crate::fixed::abs_int;
use crate::fixed::fx_add;
use crate::fixed::fx_div;
use crate::fixed::fx_fdiv;
use crate::fixed::fx_even;
use crate::fixed::fx_mul;
use crate::fixed::fx_neg;
use crate::fixed::fx_pow;
use crate::fixed::fx_sub;
use crate::fixed::spec_fx_add;
use crate::fixed::spec_fx_abs;
use crate::fixed::spec_fx_div;
use crate::fixed::spec_fx_mul;
use crate::fixed::spec_fx_neg;
use crate::fixed::spec_fx_pow;
use crate::fixed::spec_fx_sub;
use crate::rng::SampleRng;
use crate::rng::spec_rng_advance;
use crate::rng::spec_rng_sample;
use crate::scene::FAR_DISTANCE;
use crate::scene::Intersect;
use crate::scene::IntersectKind;
use crate::scene::Light;
use crate::scene::Sphere;
use crate::scene::spec_sphere_intersect;
use crate::time::Instant;
use crate::trig::spec_atan2;
use crate::trig::spec_cos;
use crate::trig::spec_sin;
use crate::trig::fx_atan2;
use crate::trig::fx_cos;
use crate::trig::fx_sin;
use crate::trig::TAU_FX;
use crate::vector::Vec3;
use crate::vector::spec_v3_add;
use crate::vector::spec_v3_dot;
use crate::vector::spec_v3_is_normalized;
use crate::vector::spec_v3_is_zero;
use crate::vector::spec_v3_neg;
use crate::vector::spec_v3_normalize;
use crate::vector::spec_v3_scale;
use crate::vector::spec_v3_sub;
use crate::vector::spec_v3_div;
use crate::color::rgbf;
use crate::color::spec_rgb;
use crate::color::spec_channel;

verus! {

/// Largest accepted frame edge, in pixels: a machine limit on buffer size.
pub const MAX_DIM: usize = 10_000;

/// Camera speed in world units per second.
pub const CAMERA_SPEED: i64 = 1_000_000;

/// Camera turn rate: thirty degrees per second, in fixed-point radians.
pub const CAMERA_ROTATION_SPEED: i64 = 523_599;

/// Edge length of one checkerboard cell.
pub const GROUND_GRID_SIZE: i64 = 300_000;

/// Brightness lost at each mirror bounce.
pub const REFLECTION_DECAY: i64 = 400_000;

/// The shininess exponent of the specular highlight.
pub const SPECULAR_POW: u32 = 80;

/// Edge length of the focal plane.
pub const FOCAL_SIZE: i64 = 2_500_000;

/// Anti-aliasing samples per pixel.
pub const AA_SAMPLES: u16 = 5;

/// Deepest mirror recursion.
pub const MAX_REFLECTION: u32 = 3;

/// Light reaching shadowed ground, so it never renders black.
pub const AMBIENT_BIAS: i64 = 100_000;

/// Offset along the normal that keeps a reflected ray off its own sphere.
pub const NORMAL_OFFSET: i64 = 10_000;

/// Pitch clamp of eighty degrees, away from the gimbal poles.
pub const PITCH_LIMIT_FX: i64 = 1_396_263;

/// The pretended elapsed time of the very first frame, in microseconds.
pub const FIRST_FRAME_DT_MICROS: u64 = 1;

/// Width of the depth-of-field origin jitter.
pub const DOF_RANGE: i64 = 1_000;

pub open spec fn spec_sky_color() -> (int, int, int) {
    (700_000, 600_000, 1_000_000)
}

pub open spec fn spec_ground_color_1() -> (int, int, int) {
    (900_000, 100_000, 100_000)
}

pub open spec fn spec_ground_color_2() -> (int, int, int) {
    (900_000, 900_000, 900_000)
}

/// What a ray cast against the whole scene yields, at the level of the
/// mathematical model.
pub ghost struct RayHit {
    pub distance: int,
    pub hit_point: Option<(int, int, int)>,
    pub normal: Option<(int, int, int)>,
    pub kind: IntersectKind,
}

/// The model value that an intersection result realises.
pub open spec fn spec_ray_hit_of(r: Intersect) -> RayHit {
    RayHit {
        distance: r.distance as int,
        hit_point: match r.hit_point {
            Some(p) => Some(p@),
            None => None,
        },
        normal: match r.normal {
            Some(n) => Some(n@),
            None => None,
        },
        kind: r.kind,
    }
}

/// The ground-plane candidate, or sky when the ray never reaches `z = 0`
/// at a positive distance.
pub open spec fn spec_initial_hit(o: (int, int, int), d: (int, int, int)) -> RayHit {
    let t = spec_fx_div(spec_fx_neg(o.2), d.2);
    if t > 0 {
        RayHit {
            distance: t,
            hit_point: Some(spec_v3_add(o, spec_v3_scale(d, t))),
            normal: Some((0, 0, ONE as int)),
            kind: IntersectKind::Ground,
        }
    } else {
        RayHit { distance: FAR_DISTANCE as int, hit_point: None, normal: None, kind: IntersectKind::Sky }
    }
}

/// Walk the spheres in scene order, keeping the strictly nearest hit.
pub open spec fn spec_scan_spheres(
    spheres: Seq<Sphere>,
    o: (int, int, int),
    d: (int, int, int),
    acc: RayHit,
) -> RayHit
    decreases spheres.len(),
{
    if spheres.len() == 0 {
        acc
    } else {
        let acc2 = match spec_sphere_intersect(spheres[0].center@, spheres[0].radius as int, o, d) {
            None => acc,
            Some(h) => {
                if h.distance < acc.distance {
                    RayHit {
                        distance: h.distance,
                        hit_point: Some(h.hit_point),
                        normal: Some(h.normal),
                        kind: IntersectKind::Sphere,
                    }
                } else {
                    acc
                }
            },
        };
        spec_scan_spheres(spheres.drop_first(), o, d, acc2)
    }
}

/// The nearest candidate over the ground plane and every sphere.
pub open spec fn spec_intersect(
    spheres: Seq<Sphere>,
    o: (int, int, int),
    d: (int, int, int),
) -> RayHit {
    spec_scan_spheres(spheres, o, d, spec_initial_hit(o, d))
}

/// Renders a 3D scene of spheres over the ground plane by ray tracing.
#[derive(Debug)]
pub struct RayTracing {
    pub width: usize,
    pub height: usize,
    pub last_frame_time: Option<Instant>,
    /// Camera position in world coordinates.
    pub camera_pos: Vec3,
    /// Camera gaze direction.
    pub camera_gaze: Vec3,
    pub spheres: Vec<Sphere>,
    pub lights: Vec<Light>,
    pub am: ActionManager,
    pub rng: SampleRng,
    pub withdraw_actions_on_render: bool,
}

impl RayTracing {
    /// The machine limit on frame dimensions.
    pub open spec fn wf(self) -> bool {
        self.width <= MAX_DIM && self.height <= MAX_DIM
    }

    /// A fresh renderer: camera at the origin gazing along positive x, an
    /// empty scene, an empty action set, and the generator seeded.
    pub fn new(width: usize, height: usize, seed: u32) -> (r: Self)
        requires
            width <= MAX_DIM,
            height <= MAX_DIM,
        ensures
            r.wf(),
            r.width == width,
            r.height == height,
            r.last_frame_time is None,
            r.camera_pos@ == (0int, 0int, 0int),
            r.camera_gaze@ == (ONE as int, 0int, 0int),
            r.spheres@ =~= Seq::<Sphere>::empty(),
            r.lights@ =~= Seq::<Light>::empty(),
            r.am.spec_is_empty(),
            r.rng.state == seed as u64,
            r.withdraw_actions_on_render,
    {
        let gaze: Vec3 = Vec3::new(ONE, 0, 0).normalize();
        proof {
            let v = (ONE as int, 0int, 0int);
            assert(1_000_000int * 1_000_000 == 1_000_000_000_000) by (nonlinear_arith);
            assert(1_000_001int * 1_000_001 == 1_000_002_000_001) by (nonlinear_arith);
            assert(1_000_000_000_000int / 1_000_000int == 1_000_000);
            assert(crate::fixed::abs_int(1_000_000_000_000) == 1_000_000_000_000);
            assert(crate::fixed::abs_int(1_000_000) == 1_000_000);
            assert(crate::fixed::tdiv(1_000_000_000_000, 1_000_000) == 1_000_000);
            assert(crate::fixed::tdiv(0, 1_000_000) == 0);
            assert(crate::fixed::spec_fx_mul(1_000_000, 1_000_000) == 1_000_000);
            assert(crate::fixed::spec_fx_mul(0, 0) == 0);
            assert(spec_v3_dot(v, v) == ONE as int);
            crate::fixed::lemma_isqrt_spec(1_000_000_000_000);
            assert(crate::fixed::is_sqrt_of(1_000_000_000_000, 1_000_000));
            crate::fixed::lemma_sqrt_unique(
                1_000_000_000_000,
                1_000_000,
                crate::fixed::spec_isqrt(1_000_000_000_000),
            );
            assert(crate::fixed::spec_fx_sqrt(ONE as int) == 1_000_000);
            assert(spec_v3_normalize(v) == v);
        }
        RayTracing {
            width,
            height,
            last_frame_time: None,
            camera_pos: Vec3::new(0, 0, 0),
            camera_gaze: gaze,
            spheres: Vec::new(),
            lights: Vec::new(),
            am: ActionManager::new(),
            rng: SampleRng::new(seed as u64),
            withdraw_actions_on_render: true,
        }
    }

    /// Append a sphere to the scene.
    pub fn put_sphere(&mut self, sphere: Sphere)
        ensures
            final(self).spheres@ == old(self).spheres@.push(sphere),
            final(self).lights == old(self).lights,
            final(self).width == old(self).width,
            final(self).height == old(self).height,
            final(self).last_frame_time == old(self).last_frame_time,
            final(self).camera_pos == old(self).camera_pos,
            final(self).camera_gaze == old(self).camera_gaze,
            final(self).am == old(self).am,
            final(self).rng == old(self).rng,
            final(self).withdraw_actions_on_render == old(self).withdraw_actions_on_render,
    {
        self.spheres.push(sphere);
    }

    /// Append a light to the scene.
    pub fn put_light(&mut self, light: Light)
        ensures
            final(self).lights@ == old(self).lights@.push(light),
            final(self).spheres == old(self).spheres,
            final(self).width == old(self).width,
            final(self).height == old(self).height,
            final(self).last_frame_time == old(self).last_frame_time,
            final(self).camera_pos == old(self).camera_pos,
            final(self).camera_gaze == old(self).camera_gaze,
            final(self).am == old(self).am,
            final(self).rng == old(self).rng,
            final(self).withdraw_actions_on_render == old(self).withdraw_actions_on_render,
    {
        self.lights.push(light);
    }

    /// Teleport the camera.
    pub fn move_camera_to(&mut self, pos: Vec3)
        ensures
            final(self).camera_pos == pos,
            final(self).camera_gaze == old(self).camera_gaze,
            final(self).spheres == old(self).spheres,
            final(self).lights == old(self).lights,
            final(self).width == old(self).width,
            final(self).height == old(self).height,
            final(self).last_frame_time == old(self).last_frame_time,
            final(self).am == old(self).am,
            final(self).rng == old(self).rng,
            final(self).withdraw_actions_on_render == old(self).withdraw_actions_on_render,
    {
        self.camera_pos = pos;
    }

    /// Point the camera along a direction, normalizing it first.
    pub fn rotate_camera_to(&mut self, gaze: Vec3)
        ensures
            final(self).camera_gaze@ == spec_v3_normalize(gaze@),
            final(self).camera_pos == old(self).camera_pos,
            final(self).spheres == old(self).spheres,
            final(self).lights == old(self).lights,
            final(self).width == old(self).width,
            final(self).height == old(self).height,
            final(self).last_frame_time == old(self).last_frame_time,
            final(self).am == old(self).am,
            final(self).rng == old(self).rng,
            final(self).withdraw_actions_on_render == old(self).withdraw_actions_on_render,
    {
        self.camera_gaze = gaze.normalize();
    }

    /// Assert an action.  Passing `RequestRender` forces the next `render`
    /// call to draw a frame although the scene did not change.
    pub fn trigger_action(&mut self, action: Action)
        ensures
            forall|a: Action|
                final(self).am.spec_triggered(a) == (a == action || old(self).am.spec_triggered(
                    a,
                )),
            final(self).camera_pos == old(self).camera_pos,
            final(self).camera_gaze == old(self).camera_gaze,
            final(self).spheres == old(self).spheres,
            final(self).lights == old(self).lights,
            final(self).width == old(self).width,
            final(self).height == old(self).height,
            final(self).last_frame_time == old(self).last_frame_time,
            final(self).rng == old(self).rng,
            final(self).withdraw_actions_on_render == old(self).withdraw_actions_on_render,
    {
        self.am.trigger(action);
    }

    /// Withdraw an action.
    pub fn withdraw_action(&mut self, action: Action)
        ensures
            forall|a: Action|
                final(self).am.spec_triggered(a) == (a != action && old(self).am.spec_triggered(
                    a,
                )),
            final(self).camera_pos == old(self).camera_pos,
            final(self).camera_gaze == old(self).camera_gaze,
            final(self).spheres == old(self).spheres,
            final(self).lights == old(self).lights,
            final(self).width == old(self).width,
            final(self).height == old(self).height,
            final(self).last_frame_time == old(self).last_frame_time,
            final(self).rng == old(self).rng,
            final(self).withdraw_actions_on_render == old(self).withdraw_actions_on_render,
    {
        self.am.withdraw(action);
    }

    /// Choose whether `render` drains the action set after a real frame.
    pub fn set_withdraw_actions_on_render(&mut self, value: bool)
        ensures
            final(self).withdraw_actions_on_render == value,
            final(self).camera_pos == old(self).camera_pos,
            final(self).camera_gaze == old(self).camera_gaze,
            final(self).spheres == old(self).spheres,
            final(self).lights == old(self).lights,
            final(self).width == old(self).width,
            final(self).height == old(self).height,
            final(self).last_frame_time == old(self).last_frame_time,
            final(self).am == old(self).am,
            final(self).rng == old(self).rng,
    {
        self.withdraw_actions_on_render = value;
    }

    /// Cast a ray against the ground plane and every sphere; the nearest
    /// strictly-positive candidate wins, the ground first and then the
    /// spheres in scene order.
    #[verifier::rlimit(100)]
    pub fn intersect(&self, origin: Vec3, direction: Vec3) -> (r: Intersect)
        ensures
            spec_ray_hit_of(r) == spec_intersect(self.spheres@, origin@, direction@),
            r.wf(),
    {
        let t: i64 = fx_div(fx_neg(origin.z), direction.z);
        let mut best: Intersect = if t > 0 {
            Intersect {
                distance: t,
                normal: Some(Vec3::unit_z()),
                hit_point: Some(origin.add(direction.scale(t))),
                kind: IntersectKind::Ground,
            }
        } else {
            Intersect {
                distance: FAR_DISTANCE,
                hit_point: None,
                normal: None,
                kind: IntersectKind::Sky,
            }
        };
        proof {
            assert(spec_ray_hit_of(best) == spec_initial_hit(origin@, direction@));
            assert(self.spheres@.skip(0) =~= self.spheres@);
        }
        let n: usize = self.spheres.len();
        let mut i: usize = 0;
        while i < n
            invariant
                n == self.spheres@.len(),
                i <= n,
                best.wf(),
                spec_scan_spheres(
                    self.spheres@.skip(i as int),
                    origin@,
                    direction@,
                    spec_ray_hit_of(best),
                ) == spec_intersect(self.spheres@, origin@, direction@),
            decreases n - i,
        {
            let sphere: Sphere = self.spheres[i];
            let ghost pre = spec_ray_hit_of(best);
            if let Some(it) = sphere.intersect(origin, direction) {
                if it.distance < best.distance {
                    best = it;
                }
            }
            proof {
                let rest = self.spheres@.skip(i as int);
                assert(rest[0] == self.spheres@[i as int]);
                assert(rest.drop_first() =~= self.spheres@.skip(i as int + 1));
            }
            i = i + 1;
        }
        proof {
            assert(self.spheres@.skip(n as int) =~= Seq::<Sphere>::empty());
        }
        best
    }
}

/// A count of lights as a fixed-point scalar.
pub open spec fn spec_count_fx(n: int) -> int {
    crate::fixed::clamp_cap(n * ONE as int)
}

/// Zero when negative, the value itself otherwise.
pub open spec fn spec_max0(x: int) -> int {
    if x < 0 {
        0
    } else {
        x
    }
}

/// Clamp into `[0, ONE]`.
pub open spec fn spec_clamp01(x: int) -> int {
    if x < 0 {
        0
    } else if x > ONE as int {
        ONE as int
    } else {
        x
    }
}

/// One light's diffuse contribution at a hit point: the Lambert coefficient
/// scaled by the light's strength, or exactly zero when an opaque sphere
/// stands between the point and the light.
pub open spec fn spec_light_term(
    spheres: Seq<Sphere>,
    hit: (int, int, int),
    normal: (int, int, int),
    l: Light,
) -> int {
    let to_light = spec_v3_normalize(spec_v3_sub(l.pos@, hit));
    let lam = spec_v3_dot(to_light, normal);
    if spec_intersect(spheres, hit, to_light).kind == IntersectKind::Sphere {
        0
    } else {
        spec_fx_mul(lam, l.strength as int)
    }
}

/// The diffuse contributions of a light list, summed in order.
pub open spec fn spec_lambert_sum(
    spheres: Seq<Sphere>,
    lights: Seq<Light>,
    hit: (int, int, int),
    normal: (int, int, int),
) -> int
    decreases lights.len(),
{
    if lights.len() == 0 {
        0
    } else {
        spec_fx_add(
            spec_lambert_sum(spheres, lights.drop_last(), hit, normal),
            spec_light_term(spheres, hit, normal, lights.last()),
        )
    }
}

/// The per-light average of the diffuse contributions, never negative.
pub open spec fn spec_lambert(
    spheres: Seq<Sphere>,
    lights: Seq<Light>,
    hit: (int, int, int),
    normal: (int, int, int),
) -> int {
    spec_max0(
        spec_fx_div(spec_lambert_sum(spheres, lights, hit, normal), spec_count_fx(lights.len() as int)),
    )
}

/// The summed specular highlight of a light list: the alignment of the
/// mirror direction with each light, raised to the shininess power and
/// scaled by the light's strength.
pub open spec fn spec_specular_sum(
    lights: Seq<Light>,
    hit: (int, int, int),
    reflect: (int, int, int),
) -> int
    decreases lights.len(),
{
    if lights.len() == 0 {
        0
    } else {
        let to_light = spec_v3_normalize(spec_v3_sub(lights.last().pos@, hit));
        spec_fx_add(
            spec_specular_sum(lights.drop_last(), hit, reflect),
            spec_fx_mul(
                spec_fx_pow(spec_max0(spec_v3_dot(reflect, to_light)), SPECULAR_POW as nat),
                lights.last().strength as int,
            ),
        )
    }
}

/// How many more mirror bounces may happen below this recursion depth.
pub open spec fn spec_depth_budget(depth: int) -> nat {
    if depth > MAX_REFLECTION as int {
        0
    } else {
        (MAX_REFLECTION as int + 1 - depth) as nat
    }
}

/// The color returned by shading a ray.  Sky fades by the fourth power of
/// the height of the direction; ground takes a checkerboard color under the
/// diffuse average plus an ambient bias; a sphere adds a gray specular
/// highlight and, while the recursion depth allows, the mirrored radiance
/// dimmed by the reflection decay.
pub open spec fn spec_radiance(
    spheres: Seq<Sphere>,
    lights: Seq<Light>,
    o: (int, int, int),
    d: (int, int, int),
    depth: u32,
) -> (int, int, int)
    decreases spec_depth_budget(depth as int),
{
    let it = spec_intersect(spheres, o, d);
    if it.kind == IntersectKind::Sky {
        spec_v3_scale(
            spec_sky_color(),
            spec_fx_pow(spec_fx_sub(ONE as int, spec_fx_abs(d.2)), 4),
        )
    } else {
        let hit = it.hit_point.unwrap();
        let normal = it.normal.unwrap();
        let lam = spec_lambert(spheres, lights, hit, normal);
        if it.kind == IntersectKind::Ground {
            let gx = hit.0 / GROUND_GRID_SIZE as int;
            let gy = hit.1 / GROUND_GRID_SIZE as int;
            let color = if spec_fx_add(gx, gy) % 2 == 0 {
                spec_ground_color_1()
            } else {
                spec_ground_color_2()
            };
            spec_v3_scale(color, spec_fx_add(lam, AMBIENT_BIAS as int))
        } else {
            let k = spec_v3_dot(normal, spec_v3_neg(d));
            let reflect = spec_v3_add(spec_v3_scale(normal, spec_fx_add(k, k)), d);
            let s = if lam > 0 {
                spec_clamp01(spec_specular_sum(lights, hit, reflect))
            } else {
                0
            };
            if depth <= MAX_REFLECTION {
                spec_v3_add(
                    (s, s, s),
                    spec_v3_scale(
                        spec_radiance(
                            spheres,
                            lights,
                            spec_v3_add(hit, spec_v3_scale(normal, NORMAL_OFFSET as int)),
                            reflect,
                            (depth + 1) as u32,
                        ),
                        spec_fx_sub(ONE as int, REFLECTION_DECAY as int),
                    ),
                )
            } else {
                (s, s, s)
            }
        }
    }
}

impl RayTracing {
    /// The per-light diffuse average at a hit point, shadows included.
    fn lambert(&self, hit: Vec3, normal: Vec3) -> (r: i64)
        ensures
            r as int == spec_lambert(self.spheres@, self.lights@, hit@, normal@),
    {
        let n: usize = self.lights.len();
        let mut sum: i64 = 0;
        let mut i: usize = 0;
        while i < n
            invariant
                n == self.lights@.len(),
                i <= n,
                sum as int == spec_lambert_sum(
                    self.spheres@,
                    self.lights@.take(i as int),
                    hit@,
                    normal@,
                ),
            decreases n - i,
        {
            let l: Light = self.lights[i];
            let to_light: Vec3 = l.pos.sub(hit).normalize();
            let lam_i: i64 = to_light.dot(normal);
            let it: Intersect = self.intersect(hit, to_light);
            let term: i64 = if it.kind == IntersectKind::Sphere {
                0
            } else {
                fx_mul(lam_i, l.strength)
            };
            sum = fx_add(sum, term);
            proof {
                assert(self.lights@.take(i as int + 1).drop_last() =~= self.lights@.take(
                    i as int,
                ));
                assert(self.lights@.take(i as int + 1).last() == self.lights@[i as int]);
            }
            i = i + 1;
        }
        proof {
            assert(self.lights@.take(n as int) =~= self.lights@);
        }
        let cnt: i64 = crate::fixed::fx_from_count(n);
        let q: i64 = fx_div(sum, cnt);
        if q < 0 {
            0
        } else {
            q
        }
    }

    /// The summed specular highlight, clamped into `[0, ONE]`.
    fn specular(&self, hit: Vec3, reflect: Vec3) -> (r: i64)
        ensures
            r as int == spec_clamp01(spec_specular_sum(self.lights@, hit@, reflect@)),
    {
        let n: usize = self.lights.len();
        let mut sum: i64 = 0;
        let mut i: usize = 0;
        while i < n
            invariant
                n == self.lights@.len(),
                i <= n,
                sum as int == spec_specular_sum(self.lights@.take(i as int), hit@, reflect@),
            decreases n - i,
        {
            let l: Light = self.lights[i];
            let to_light: Vec3 = l.pos.sub(hit).normalize();
            let aligned: i64 = crate::fixed::fx_max(reflect.dot(to_light), 0);
            let term: i64 = fx_mul(fx_pow(aligned, SPECULAR_POW), l.strength);
            sum = fx_add(sum, term);
            proof {
                assert(self.lights@.take(i as int + 1).drop_last() =~= self.lights@.take(
                    i as int,
                ));
                assert(self.lights@.take(i as int + 1).last() == self.lights@[i as int]);
            }
            i = i + 1;
        }
        proof {
            assert(self.lights@.take(n as int) =~= self.lights@);
        }
        if sum < 0 {
            0
        } else if sum > ONE {
            ONE
        } else {
            sum
        }
    }

    /// Shade a ray: the recursive rendering core.
    pub fn radiance(&self, origin: Vec3, direction: Vec3, reflection_count: u32) -> (r: Vec3)
        ensures
            r@ == spec_radiance(
                self.spheres@,
                self.lights@,
                origin@,
                direction@,
                reflection_count,
            ),
        decreases spec_depth_budget(reflection_count as int),
    {
        let it: Intersect = self.intersect(origin, direction);
        if it.kind == IntersectKind::Sky {
            let fade: i64 = fx_pow(fx_sub(ONE, crate::fixed::fx_abs(direction.z)), 4);
            return Vec3::new(700_000, 600_000, 1_000_000).scale(fade);
        }
        let intersect_point: Vec3 = it.hit_point.unwrap();
        let normal: Vec3 = it.normal.unwrap();
        let lam: i64 = self.lambert(intersect_point, normal);
        if it.kind == IntersectKind::Ground {
            let gx: i64 = fx_fdiv(intersect_point.x, GROUND_GRID_SIZE);
            let gy: i64 = fx_fdiv(intersect_point.y, GROUND_GRID_SIZE);
            let ground_color: Vec3 = if fx_even(fx_add(gx, gy)) {
                Vec3::new(900_000, 100_000, 100_000)
            } else {
                Vec3::new(900_000, 900_000, 900_000)
            };
            ground_color.scale(fx_add(lam, AMBIENT_BIAS))
        } else {
            let k: i64 = normal.dot(direction.neg());
            let reflect_direction: Vec3 = normal.scale(fx_add(k, k)).add(direction);
            let specular: i64 = if lam > 0 {
                self.specular(intersect_point, reflect_direction)
            } else {
                0
            };
            let base: Vec3 = Vec3::new(specular, specular, specular);
            if reflection_count <= MAX_REFLECTION {
                // The offset along the normal keeps the bounced ray from
                // meeting this sphere again at distance zero.
                let bounce_origin: Vec3 = intersect_point.add(normal.scale(NORMAL_OFFSET));
                let bounced: Vec3 = self.radiance(
                    bounce_origin,
                    reflect_direction,
                    reflection_count + 1,
                );
                base.add(bounced.scale(fx_sub(ONE, REFLECTION_DECAY)))
            } else {
                base
            }
        }
    }
}

/// A light whose shadow ray meets a sphere contributes exactly zero to the
/// diffuse sum at that point.
pub proof fn lemma_shadowed_light_contributes_nothing(
    spheres: Seq<Sphere>,
    hit: (int, int, int),
    normal: (int, int, int),
    l: Light,
)
    requires
        spec_intersect(spheres, hit, spec_v3_normalize(spec_v3_sub(l.pos@, hit))).kind
            == IntersectKind::Sphere,
    ensures
        spec_light_term(spheres, hit, normal, l) == 0,
{
}

/// Beyond the recursion cap the shade of a ray no longer depends on the
/// depth at all: no further reflection is gathered.
pub proof fn lemma_radiance_depth_capped(
    spheres: Seq<Sphere>,
    lights: Seq<Light>,
    o: (int, int, int),
    d: (int, int, int),
    d1: u32,
    d2: u32,
)
    requires
        d1 > MAX_REFLECTION,
        d2 > MAX_REFLECTION,
    ensures
        spec_radiance(spheres, lights, o, d, d1) == spec_radiance(spheres, lights, o, d, d2),
{
}

/// Elapsed microseconds as a fixed-point count of seconds: one microsecond
/// is one raw step.
pub open spec fn spec_dt_fx(dt: u64) -> int {
    if dt as int > CAP as int {
        CAP as int
    } else {
        dt as int
    }
}

/// The rotation deltas accumulated from the four rotation actions:
/// yaw on the first axis, pitch on the second.
pub open spec fn spec_delta_angle(am: ActionManager) -> (int, int, int) {
    let a0 = (0int, 0int, 0int);
    let a1 = if am.spec_triggered(Action::CameraRotationDown) {
        spec_v3_sub(a0, (0int, ONE as int, 0int))
    } else {
        a0
    };
    let a2 = if am.spec_triggered(Action::CameraRotationUp) {
        spec_v3_add(a1, (0int, ONE as int, 0int))
    } else {
        a1
    };
    let a3 = if am.spec_triggered(Action::CameraRotationCCW) {
        spec_v3_sub(a2, (ONE as int, 0int, 0int))
    } else {
        a2
    };
    if am.spec_triggered(Action::CameraRotationCW) {
        spec_v3_add(a3, (ONE as int, 0int, 0int))
    } else {
        a3
    }
}

/// The gaze after one action pass: yaw and pitch are derived fresh from the
/// current gaze, moved by the normalized rotation delta at the turn rate,
/// the yaw wrapped modulo a full turn and the pitch clamped away from the
/// poles, and the gaze rebuilt from the two angles.  The rebuilt direction
/// is renormalized once — a documented deviation that absorbs the drift of
/// the circular-function approximations — and adopted only if it passes the
/// unit-length check; otherwise the turn is skipped, so a unit gaze always
/// stays unit.
pub open spec fn spec_new_gaze(am: ActionManager, gaze: (int, int, int), dt_fx: int) -> (
    int,
    int,
    int,
) {
    let da = spec_delta_angle(am);
    if spec_v3_is_zero(da) {
        gaze
    } else {
        let current_yaw = spec_atan2(gaze.1, gaze.0);
        let horizontal_mag = crate::vector::spec_v3_magnitude((gaze.0, gaze.1, 0int));
        let current_pitch = spec_atan2(gaze.2, horizontal_mag);
        let delta = spec_v3_scale(
            spec_v3_scale(spec_v3_normalize(da), CAMERA_ROTATION_SPEED as int),
            dt_fx,
        );
        let yaw = crate::fixed::spec_trem(spec_fx_add(current_yaw, delta.0), TAU_FX as int);
        let pitch_raw = spec_fx_add(current_pitch, delta.1);
        let pitch = if pitch_raw < -PITCH_LIMIT_FX as int {
            -PITCH_LIMIT_FX as int
        } else if pitch_raw > PITCH_LIMIT_FX as int {
            PITCH_LIMIT_FX as int
        } else {
            pitch_raw
        };
        let rebuilt = (
            spec_fx_mul(spec_cos(yaw), spec_cos(pitch)),
            spec_fx_mul(spec_sin(yaw), spec_cos(pitch)),
            spec_sin(pitch),
        );
        let renormalized = spec_v3_normalize(rebuilt);
        if crate::vector::spec_v3_is_normalized(renormalized) {
            renormalized
        } else {
            gaze
        }
    }
}

/// An action pass never breaks the camera's unit-gaze invariant: the gaze
/// either stays as it was or becomes a vector that passed the unit-length
/// check.
pub proof fn lemma_new_gaze_stays_unit(am: ActionManager, gaze: (int, int, int), dt_fx: int)
    requires
        crate::vector::spec_v3_is_normalized(gaze),
    ensures
        crate::vector::spec_v3_is_normalized(spec_new_gaze(am, gaze, dt_fx)),
{
}

/// The movement direction accumulated from the six movement actions, in the
/// frame of the given gaze.
pub open spec fn spec_move_direction(am: ActionManager, gaze: (int, int, int)) -> (int, int, int) {
    let right = crate::vector::spec_v3_cross((0int, 0int, ONE as int), gaze);
    let d0 = (0int, 0int, 0int);
    let d1 = if am.spec_triggered(Action::CameraMoveForward) {
        spec_v3_add(d0, gaze)
    } else {
        d0
    };
    let d2 = if am.spec_triggered(Action::CameraMoveBackward) {
        spec_v3_sub(d1, gaze)
    } else {
        d1
    };
    let d3 = if am.spec_triggered(Action::CameraMoveLeft) {
        spec_v3_sub(d2, right)
    } else {
        d2
    };
    let d4 = if am.spec_triggered(Action::CameraMoveRight) {
        spec_v3_add(d3, right)
    } else {
        d3
    };
    let d5 = if am.spec_triggered(Action::CameraMoveUp) {
        spec_v3_add(d4, (0int, 0int, ONE as int))
    } else {
        d4
    };
    if am.spec_triggered(Action::CameraMoveDown) {
        spec_v3_sub(d5, (0int, 0int, ONE as int))
    } else {
        d5
    }
}

/// The camera position after one action pass: the accumulated direction,
/// normalized, applied at the camera speed over the elapsed time.  The
/// movement frame is the already-rotated gaze.
pub open spec fn spec_new_pos(
    am: ActionManager,
    gaze: (int, int, int),
    pos: (int, int, int),
    dt_fx: int,
) -> (int, int, int) {
    let dir = spec_move_direction(am, gaze);
    if spec_v3_is_zero(dir) {
        pos
    } else {
        let delta_distance = spec_fx_mul(CAMERA_SPEED as int, dt_fx);
        spec_v3_add(pos, spec_v3_scale(spec_v3_normalize(dir), delta_distance))
    }
}

impl RayTracing {
    /// Rotate the gaze by the asserted rotation actions.
    fn apply_rotation(&mut self, dt_fx: i64)
        ensures
            final(self).camera_gaze@ == spec_new_gaze(
                old(self).am,
                old(self).camera_gaze@,
                dt_fx as int,
            ),
            spec_v3_is_normalized(old(self).camera_gaze@) ==> spec_v3_is_normalized(
                final(self).camera_gaze@,
            ),
            final(self).camera_pos == old(self).camera_pos,
            final(self).width == old(self).width,
            final(self).height == old(self).height,
            final(self).last_frame_time == old(self).last_frame_time,
            final(self).spheres == old(self).spheres,
            final(self).lights == old(self).lights,
            final(self).am == old(self).am,
            final(self).rng == old(self).rng,
            final(self).withdraw_actions_on_render == old(self).withdraw_actions_on_render,
    {
        let mut delta_angle: Vec3 = Vec3::zero();
        if self.am.is_triggerred(Action::CameraRotationDown) {
            delta_angle = delta_angle.sub(Vec3::unit_y());
        }
        if self.am.is_triggerred(Action::CameraRotationUp) {
            delta_angle = delta_angle.add(Vec3::unit_y());
        }
        if self.am.is_triggerred(Action::CameraRotationCCW) {
            delta_angle = delta_angle.sub(Vec3::unit_x());
        }
        if self.am.is_triggerred(Action::CameraRotationCW) {
            delta_angle = delta_angle.add(Vec3::unit_x());
        }
        proof {
            assert(delta_angle@ == spec_delta_angle(self.am));
        }
        if !delta_angle.is_zero() {
            let horizontal_gaze: Vec3 = Vec3::new(self.camera_gaze.x, self.camera_gaze.y, 0);
            let current_yaw: i64 = fx_atan2(self.camera_gaze.y, self.camera_gaze.x);
            let current_pitch: i64 = fx_atan2(self.camera_gaze.z, horizontal_gaze.magnitude());
            let delta: Vec3 = delta_angle.normalize().scale(CAMERA_ROTATION_SPEED).scale(dt_fx);
            let yaw: i64 = crate::fixed::fx_trem(fx_add(current_yaw, delta.x), TAU_FX);
            let pitch_raw: i64 = fx_add(current_pitch, delta.y);
            // The pitch clamp keeps the gaze away from the gimbal poles.
            let pitch: i64 = if pitch_raw < -PITCH_LIMIT_FX {
                -PITCH_LIMIT_FX
            } else if pitch_raw > PITCH_LIMIT_FX {
                PITCH_LIMIT_FX
            } else {
                pitch_raw
            };
            let rebuilt: Vec3 = Vec3::new(
                fx_mul(fx_cos(yaw), fx_cos(pitch)),
                fx_mul(fx_sin(yaw), fx_cos(pitch)),
                fx_sin(pitch),
            );
            // Renormalize once and adopt the result only if it really is
            // unit length; otherwise skip the turn, keeping the invariant.
            let renormalized: Vec3 = rebuilt.normalize();
            if renormalized.is_normalized() {
                self.camera_gaze = renormalized;
            }
        }
    }

    /// Move the camera by the asserted movement actions, in the frame of
    /// the current gaze.
    fn apply_translation(&mut self, dt_fx: i64)
        ensures
            final(self).camera_pos@ == spec_new_pos(
                old(self).am,
                old(self).camera_gaze@,
                old(self).camera_pos@,
                dt_fx as int,
            ),
            final(self).camera_gaze == old(self).camera_gaze,
            final(self).width == old(self).width,
            final(self).height == old(self).height,
            final(self).last_frame_time == old(self).last_frame_time,
            final(self).spheres == old(self).spheres,
            final(self).lights == old(self).lights,
            final(self).am == old(self).am,
            final(self).rng == old(self).rng,
            final(self).withdraw_actions_on_render == old(self).withdraw_actions_on_render,
    {
        let delta_distance: i64 = fx_mul(CAMERA_SPEED, dt_fx);
        let mut direction: Vec3 = Vec3::zero();
        let right_direction: Vec3 = Vec3::unit_z().cross(self.camera_gaze);
        if self.am.is_triggerred(Action::CameraMoveForward) {
            direction = direction.add(self.camera_gaze);
        }
        if self.am.is_triggerred(Action::CameraMoveBackward) {
            direction = direction.sub(self.camera_gaze);
        }
        if self.am.is_triggerred(Action::CameraMoveLeft) {
            direction = direction.sub(right_direction);
        }
        if self.am.is_triggerred(Action::CameraMoveRight) {
            direction = direction.add(right_direction);
        }
        if self.am.is_triggerred(Action::CameraMoveUp) {
            direction = direction.add(Vec3::unit_z());
        }
        if self.am.is_triggerred(Action::CameraMoveDown) {
            direction = direction.sub(Vec3::unit_z());
        }
        proof {
            assert(direction@ == spec_move_direction(self.am, self.camera_gaze@));
        }
        if !direction.is_zero() {
            self.camera_pos = self.camera_pos.add(direction.normalize().scale(delta_distance));
        }
    }

    /// Apply the asserted actions to the camera over the elapsed time:
    /// rotation first, then translation in the frame of the rotated gaze.
    pub fn handle_actions(&mut self, dt_micros: u64)
        ensures
            final(self).camera_gaze@ == spec_new_gaze(
                old(self).am,
                old(self).camera_gaze@,
                spec_dt_fx(dt_micros),
            ),
            spec_v3_is_normalized(old(self).camera_gaze@) ==> spec_v3_is_normalized(
                final(self).camera_gaze@,
            ),
            final(self).camera_pos@ == spec_new_pos(
                old(self).am,
                final(self).camera_gaze@,
                old(self).camera_pos@,
                spec_dt_fx(dt_micros),
            ),
            final(self).width == old(self).width,
            final(self).height == old(self).height,
            final(self).last_frame_time == old(self).last_frame_time,
            final(self).spheres == old(self).spheres,
            final(self).lights == old(self).lights,
            final(self).am == old(self).am,
            final(self).rng == old(self).rng,
            final(self).withdraw_actions_on_render == old(self).withdraw_actions_on_render,
    {
        let dt_fx: i64 = if dt_micros > CAP as u64 {
            CAP
        } else {
            dt_micros as i64
        };
        self.apply_rotation(dt_fx);
        self.apply_translation(dt_fx);
    }
}

/// One anti-aliasing sample: two depth-of-field draws perturb the ray's
/// origin along the frame axes, two jitter draws perturb its direction
/// within half a pixel, and the ray is shaded from depth zero.
pub open spec fn spec_sample(
    spheres: Seq<Sphere>,
    lights: Seq<Light>,
    pos: (int, int, int),
    right: (int, int, int),
    down: (int, int, int),
    top_left: (int, int, int),
    px: int,
    py: int,
    ix: int,
    iy: int,
    s: u64,
) -> ((int, int, int), u64) {
    let r1 = spec_rng_sample(s, 0, DOF_RANGE as int);
    let s1 = spec_rng_advance(s);
    let r2 = spec_rng_sample(s1, 0, DOF_RANGE as int);
    let s2 = spec_rng_advance(s1);
    let r3 = spec_rng_sample(s2, -ix, ix);
    let s3 = spec_rng_advance(s2);
    let r4 = spec_rng_sample(s3, -iy, iy);
    let s4 = spec_rng_advance(s3);
    let dof_src = spec_v3_add(spec_v3_scale(right, r1), spec_v3_scale(down, r2));
    let direction = spec_v3_normalize(
        spec_v3_add(
            spec_v3_add(
                spec_v3_sub(top_left, dof_src),
                spec_v3_scale(right, spec_fx_add(px, r3)),
            ),
            spec_v3_scale(down, spec_fx_add(py, r4)),
        ),
    );
    (spec_radiance(spheres, lights, spec_v3_add(pos, dof_src), direction, 0), s4)
}

/// The sum of the first `k` anti-aliasing samples, threading the generator.
pub open spec fn spec_aa(
    spheres: Seq<Sphere>,
    lights: Seq<Light>,
    pos: (int, int, int),
    right: (int, int, int),
    down: (int, int, int),
    top_left: (int, int, int),
    px: int,
    py: int,
    ix: int,
    iy: int,
    k: nat,
    s: u64,
) -> ((int, int, int), u64)
    decreases k,
{
    if k == 0 {
        ((0int, 0int, 0int), s)
    } else {
        let prev = spec_aa(
            spheres,
            lights,
            pos,
            right,
            down,
            top_left,
            px,
            py,
            ix,
            iy,
            (k - 1) as nat,
            s,
        );
        let smp = spec_sample(spheres, lights, pos, right, down, top_left, px, py, ix, iy, prev.1);
        (spec_v3_add(prev.0, smp.0), smp.1)
    }
}

/// One pixel: its normalized coordinates on the focal plane, the averaged
/// anti-aliasing samples, and the packing of the average into a pixel.
pub open spec fn spec_render_pixel(
    spheres: Seq<Sphere>,
    lights: Seq<Light>,
    pos: (int, int, int),
    w: int,
    h: int,
    i: int,
    right: (int, int, int),
    down: (int, int, int),
    top_left: (int, int, int),
    ix: int,
    iy: int,
    s: u64,
) -> (int, u64) {
    let x = i % w;
    let y = i / w;
    let rx = (x * ONE as int) / w;
    let ry = (y * ONE as int) / h;
    let px = spec_fx_mul(rx, FOCAL_SIZE as int);
    let py = spec_fx_mul(ry, FOCAL_SIZE as int);
    let aa = spec_aa(
        spheres,
        lights,
        pos,
        right,
        down,
        top_left,
        px,
        py,
        ix,
        iy,
        AA_SAMPLES as nat,
        s,
    );
    let avg = spec_v3_div(aa.0, 5 * ONE as int);
    (spec_rgb(spec_channel(avg.0), spec_channel(avg.1), spec_channel(avg.2)), aa.1)
}

/// The first `n` pixels of a frame in row-major order, threading the
/// generator from pixel to pixel.
pub open spec fn spec_pixels(
    spheres: Seq<Sphere>,
    lights: Seq<Light>,
    pos: (int, int, int),
    w: int,
    h: int,
    right: (int, int, int),
    down: (int, int, int),
    top_left: (int, int, int),
    ix: int,
    iy: int,
    n: nat,
    s: u64,
) -> (Seq<int>, u64)
    decreases n,
{
    if n == 0 {
        (Seq::<int>::empty(), s)
    } else {
        let prev = spec_pixels(
            spheres,
            lights,
            pos,
            w,
            h,
            right,
            down,
            top_left,
            ix,
            iy,
            (n - 1) as nat,
            s,
        );
        let px = spec_render_pixel(
            spheres,
            lights,
            pos,
            w,
            h,
            n - 1,
            right,
            down,
            top_left,
            ix,
            iy,
            prev.1,
        );
        (prev.0.push(px.0), px.1)
    }
}

/// The whole frame from a camera state: the frame basis vectors, the focal
/// top-left corner, the sub-pixel jitter widths, and every pixel in
/// row-major order.
#[verifier::opaque]
pub open spec fn spec_frame(
    spheres: Seq<Sphere>,
    lights: Seq<Light>,
    pos: (int, int, int),
    gaze: (int, int, int),
    w: int,
    h: int,
    s: u64,
) -> (Seq<int>, u64) {
    let right = spec_v3_normalize(crate::vector::spec_v3_cross((0int, 0int, ONE as int), gaze));
    let down = spec_v3_normalize(crate::vector::spec_v3_cross(right, gaze));
    let top_left = spec_v3_add(
        spec_v3_sub(
            spec_v3_div(spec_v3_scale(spec_v3_neg(right), FOCAL_SIZE as int), 2 * ONE as int),
            spec_v3_div(spec_v3_scale(down, FOCAL_SIZE as int), 2 * ONE as int),
        ),
        gaze,
    );
    let ix = spec_fx_div(500_000, spec_count_fx(w));
    let iy = spec_fx_div(500_000, spec_count_fx(h));
    spec_pixels(spheres, lights, pos, w, h, right, down, top_left, ix, iy, (w * h) as nat, s)
}

/// Everything one forced frame does to the renderer: the camera moves by
/// the action pass, the action set drains when so configured, the frame
/// timestamp is taken, the generator ends in the state the pixel stream
/// left it, and the buffer is exactly the modelled frame.
pub open spec fn spec_frame_step(
    pre: RayTracing,
    post: RayTracing,
    buf: Seq<u32>,
    dt_micros: u64,
) -> bool {
    let dtf = spec_dt_fx(dt_micros);
    let gaze2 = spec_new_gaze(pre.am, pre.camera_gaze@, dtf);
    let pos2 = spec_new_pos(pre.am, gaze2, pre.camera_pos@, dtf);
    let frame = spec_frame(
        pre.spheres@,
        pre.lights@,
        pos2,
        gaze2,
        pre.width as int,
        pre.height as int,
        pre.rng.state,
    );
    &&& post.width == pre.width
    &&& post.height == pre.height
    &&& post.spheres@ == pre.spheres@
    &&& post.lights@ == pre.lights@
    &&& post.withdraw_actions_on_render == pre.withdraw_actions_on_render
    &&& post.camera_gaze@ == gaze2
    &&& post.camera_pos@ == pos2
    &&& (pre.withdraw_actions_on_render ==> post.am.spec_is_empty())
    &&& (!pre.withdraw_actions_on_render ==> post.am == pre.am)
    &&& post.last_frame_time is Some
    &&& post.rng.state == frame.1
    &&& buf.len() == pre.width * pre.height
    &&& buf.map_values(|p: u32| p as int) == frame.0
}

impl RayTracing {
    /// One anti-aliasing sample of one pixel.
    fn render_sample(
        &self,
        right: Vec3,
        down: Vec3,
        top_left: Vec3,
        px: i64,
        py: i64,
        interval_x: i64,
        interval_y: i64,
        rng: &mut SampleRng,
    ) -> (smp: Vec3)
        requires
            1 <= interval_x <= ONE,
            1 <= interval_y <= ONE,
        ensures
            smp@ == spec_sample(
                self.spheres@,
                self.lights@,
                self.camera_pos@,
                right@,
                down@,
                top_left@,
                px as int,
                py as int,
                interval_x as int,
                interval_y as int,
                old(rng).state,
            ).0,
            final(rng).state == spec_sample(
                self.spheres@,
                self.lights@,
                self.camera_pos@,
                right@,
                down@,
                top_left@,
                px as int,
                py as int,
                interval_x as int,
                interval_y as int,
                old(rng).state,
            ).1,
    {
        let r1: i64 = rng.next_range(0, DOF_RANGE);
        let r2: i64 = rng.next_range(0, DOF_RANGE);
        let dof_src: Vec3 = right.scale(r1).add(down.scale(r2));
        let r3: i64 = rng.next_range(-interval_x, interval_x);
        let r4: i64 = rng.next_range(-interval_y, interval_y);
        let direction: Vec3 = top_left.sub(dof_src).add(right.scale(fx_add(px, r3))).add(
            down.scale(fx_add(py, r4)),
        );
        let direction: Vec3 = direction.normalize();
        self.radiance(self.camera_pos.add(dof_src), direction, 0)
    }

    /// Shade one pixel: its anti-aliasing samples averaged and packed.
    #[verifier::rlimit(100)]
    fn render_pixel(
        &self,
        i: usize,
        right: Vec3,
        down: Vec3,
        top_left: Vec3,
        interval_x: i64,
        interval_y: i64,
        rng: &mut SampleRng,
    ) -> (c: u32)
        requires
            self.wf(),
            self.width >= 1,
            self.height >= 1,
            i <= 100_000_000,
            1 <= interval_x <= ONE,
            1 <= interval_y <= ONE,
        ensures
            c as int == spec_render_pixel(
                self.spheres@,
                self.lights@,
                self.camera_pos@,
                self.width as int,
                self.height as int,
                i as int,
                right@,
                down@,
                top_left@,
                interval_x as int,
                interval_y as int,
                old(rng).state,
            ).0,
            final(rng).state == spec_render_pixel(
                self.spheres@,
                self.lights@,
                self.camera_pos@,
                self.width as int,
                self.height as int,
                i as int,
                right@,
                down@,
                top_left@,
                interval_x as int,
                interval_y as int,
                old(rng).state,
            ).1,
    {
        let x: usize = i % self.width;
        let y: usize = i / self.width;
        proof {
            vstd::arithmetic::div_mod::lemma_div_nonincreasing(i as int, self.width as int);
            vstd::arithmetic::div_mod::lemma_mod_bound(i as int, self.width as int);
        }
        let rx: i64 = ((x as u64 * 1_000_000) / (self.width as u64)) as i64;
        let ry: i64 = ((y as u64 * 1_000_000) / (self.height as u64)) as i64;
        let px: i64 = fx_mul(rx, FOCAL_SIZE);
        let py: i64 = fx_mul(ry, FOCAL_SIZE);
        let mut pixel_color: Vec3 = Vec3::zero();
        let mut k: u16 = 0;
        while k < AA_SAMPLES
            invariant
                self.wf(),
                1 <= interval_x <= ONE,
                1 <= interval_y <= ONE,
                k <= AA_SAMPLES,
                pixel_color@ == spec_aa(
                    self.spheres@,
                    self.lights@,
                    self.camera_pos@,
                    right@,
                    down@,
                    top_left@,
                    px as int,
                    py as int,
                    interval_x as int,
                    interval_y as int,
                    k as nat,
                    old(rng).state,
                ).0,
                rng.state == spec_aa(
                    self.spheres@,
                    self.lights@,
                    self.camera_pos@,
                    right@,
                    down@,
                    top_left@,
                    px as int,
                    py as int,
                    interval_x as int,
                    interval_y as int,
                    k as nat,
                    old(rng).state,
                ).1,
            decreases AA_SAMPLES as int - k as int,
        {
            let smp: Vec3 = self.render_sample(
                right,
                down,
                top_left,
                px,
                py,
                interval_x,
                interval_y,
                rng,
            );
            pixel_color = pixel_color.add(smp);
            k = k + 1;
        }
        let avg: Vec3 = pixel_color.div_scale(5_000_000);
        rgbf(avg.x, avg.y, avg.z)
    }

    /// Shade every pixel of the frame in row-major order, threading one
    /// generator through all of them.
    fn render_pixels(
        &self,
        right: Vec3,
        down: Vec3,
        top_left: Vec3,
        interval_x: i64,
        interval_y: i64,
        rng: &mut SampleRng,
    ) -> (buf: Vec<u32>)
        requires
            self.wf(),
            self.width * self.height > 0 ==> (1 <= interval_x <= ONE && 1 <= interval_y
                <= ONE),
        ensures
            buf@.len() == self.width * self.height,
            buf@.map_values(|p: u32| p as int) == spec_pixels(
                self.spheres@,
                self.lights@,
                self.camera_pos@,
                self.width as int,
                self.height as int,
                right@,
                down@,
                top_left@,
                interval_x as int,
                interval_y as int,
                (self.width * self.height) as nat,
                old(rng).state,
            ).0,
            final(rng).state == spec_pixels(
                self.spheres@,
                self.lights@,
                self.camera_pos@,
                self.width as int,
                self.height as int,
                right@,
                down@,
                top_left@,
                interval_x as int,
                interval_y as int,
                (self.width * self.height) as nat,
                old(rng).state,
            ).1,
    {
        proof {
            assert(self.width as int * self.height as int <= 100_000_000) by (nonlinear_arith)
                requires
                    self.width <= MAX_DIM,
                    self.height <= MAX_DIM,
            ;
            assert((self.width as int * self.height as int > 0) ==> (self.width >= 1
                && self.height >= 1)) by (nonlinear_arith);
        }
        let wh: usize = self.width * self.height;
        let mut buf: Vec<u32> = Vec::new();
        let mut i: usize = 0;
        while i < wh
            invariant
                self.wf(),
                wh <= 100_000_000,
                wh > 0 ==> (1 <= interval_x <= ONE && 1 <= interval_y <= ONE),
                wh == self.width * self.height,
                wh > 0 ==> (self.width >= 1 && self.height >= 1),
                i <= wh,
                buf@.len() == i,
                buf@.map_values(|p: u32| p as int) == spec_pixels(
                    self.spheres@,
                    self.lights@,
                    self.camera_pos@,
                    self.width as int,
                    self.height as int,
                    right@,
                    down@,
                    top_left@,
                    interval_x as int,
                    interval_y as int,
                    i as nat,
                    old(rng).state,
                ).0,
                rng.state == spec_pixels(
                    self.spheres@,
                    self.lights@,
                    self.camera_pos@,
                    self.width as int,
                    self.height as int,
                    right@,
                    down@,
                    top_left@,
                    interval_x as int,
                    interval_y as int,
                    i as nat,
                    old(rng).state,
                ).1,
            decreases wh - i,
        {
            let ghost prev_pixels = buf@.map_values(|p: u32| p as int);
            let c: u32 = self.render_pixel(i, right, down, top_left, interval_x, interval_y, rng);
            buf.push(c);
            proof {
                assert(buf@.map_values(|p: u32| p as int) =~= prev_pixels.push(c as int));
            }
            i = i + 1;
        }
        buf
    }

    /// Draw one frame after applying the asserted actions over the given
    /// elapsed time, regardless of whether any action is asserted.
    #[verifier::rlimit(100)]
    pub fn render_with_delta(&mut self, dt_micros: u64) -> (buf: Vec<u32>)
        requires
            old(self).wf(),
        ensures
            final(self).wf(),
            spec_frame_step(*old(self), *final(self), buf@, dt_micros),
    {
        proof {
            reveal(spec_frame);
        }
        self.handle_actions(dt_micros);
        if self.withdraw_actions_on_render {
            self.am.clear();
        }
        self.last_frame_time = Some(Instant::now());
        let right: Vec3 = Vec3::unit_z().cross(self.camera_gaze).normalize();
        let down: Vec3 = right.cross(self.camera_gaze).normalize();
        // The focal-plane top-left corner.
        let top_left: Vec3 = right.neg().scale(FOCAL_SIZE).div_scale(2_000_000).sub(
            down.scale(FOCAL_SIZE).div_scale(2_000_000),
        ).add(self.camera_gaze);
        let wfx: i64 = crate::fixed::fx_from_count(self.width);
        let hfx: i64 = crate::fixed::fx_from_count(self.height);
        let interval_x: i64 = fx_div(500_000, wfx);
        let interval_y: i64 = fx_div(500_000, hfx);
        proof {
            if self.width >= 1 && self.height >= 1 {
                lemma_interval_in_band(self.width as int);
                lemma_interval_in_band(self.height as int);
            } else {
                assert(self.width as int * self.height as int == 0) by (nonlinear_arith)
                    requires
                        self.width == 0 || self.height == 0,
                ;
            }
        }
        let mut rng: SampleRng = self.rng;
        let buf: Vec<u32> = self.render_pixels(
            right,
            down,
            top_left,
            interval_x,
            interval_y,
            &mut rng,
        );
        self.rng = rng;
        buf
    }

    /// Draw a frame when at least one action is asserted; with an empty
    /// action set nothing changed on screen, so no buffer is produced and
    /// only the frame timestamp advances.
    #[verifier::rlimit(100)]
    pub fn render(&mut self) -> (r: Option<Vec<u32>>)
        requires
            old(self).wf(),
        ensures
            final(self).wf(),
            (r is Some) == !old(self).am.spec_is_empty(),
            r is None ==> final(self).last_frame_time is Some,
            r is None ==> final(self).camera_pos == old(self).camera_pos
                && final(self).camera_gaze == old(self).camera_gaze && final(self).spheres
                == old(self).spheres && final(self).lights == old(self).lights && final(self).am
                == old(self).am && final(self).rng == old(self).rng && final(self).width == old(
                self,
            ).width && final(self).height == old(self).height
                && final(self).withdraw_actions_on_render == old(
                self,
            ).withdraw_actions_on_render,
            r is Some ==> exists|dt: u64|
                spec_frame_step(*old(self), *final(self), r.unwrap()@, dt),
    {
        if !self.am.has_actions() {
            // Nothing happened; pretend a frame was drawn so that the next
            // real frame's elapsed time stays accurate.
            self.last_frame_time = Some(Instant::now());
            return None;
        }
        let dt: u64 = match &self.last_frame_time {
            None => FIRST_FRAME_DT_MICROS,
            Some(t) => t.elapsed(),
        };
        let buf: Vec<u32> = self.render_with_delta(dt);
        let r: Option<Vec<u32>> = Some(buf);
        proof {
            assert(spec_frame_step(*old(self), *self, r.unwrap()@, dt));
        }
        r
    }
}

/// The sub-pixel jitter width of an edge of at most `MAX_DIM` pixels stays
/// within `[1, ONE]`.
pub proof fn lemma_interval_in_band(w: int)
    requires
        1 <= w <= MAX_DIM as int,
    ensures
        1 <= spec_fx_div(500_000, spec_count_fx(w)) <= ONE as int,
        spec_count_fx(w) == w * ONE as int,
{
    assert(ONE as int <= w * ONE as int <= 10_000_000_000) by (nonlinear_arith)
        requires
            1 <= w <= 10_000,
    ;
    vstd::arithmetic::div_mod::lemma_div_is_ordered_by_denominator(
        500_000_000_000,
        ONE as int,
        w * ONE as int,
    );
    vstd::arithmetic::div_mod::lemma_div_is_ordered_by_denominator(
        500_000_000_000,
        w * ONE as int,
        10_000_000_000,
    );
    vstd::arithmetic::div_mod::lemma_div_pos_is_pos(500_000_000_000, w * ONE as int);
}

/// The four bytes of one packed pixel in web order: red, green, blue, alpha.
pub open spec fn spec_pixel_bytes(c: u32) -> Seq<u8> {
    seq![
        ((c as int / 0x1_0000) % 0x100) as u8,
        ((c as int / 0x100) % 0x100) as u8,
        (c as int % 0x100) as u8,
        (c as int / 0x100_0000) as u8,
    ]
}

/// A pixel buffer flattened to bytes, pixel by pixel in order.
pub open spec fn spec_web_bytes(s: Seq<u32>) -> Seq<u8>
    decreases s.len(),
{
    if s.len() == 0 {
        Seq::<u8>::empty()
    } else {
        spec_web_bytes(s.drop_last()) + spec_pixel_bytes(s.last())
    }
}

/// Flatten packed pixels to red, green, blue and alpha bytes.
fn web_bytes(buf: &Vec<u32>) -> (bytes: Vec<u8>)
    ensures
        bytes@ == spec_web_bytes(buf@),
{
    let mut bytes: Vec<u8> = Vec::new();
    let n: usize = buf.len();
    proof {
        assert(buf@.take(0) =~= Seq::<u32>::empty());
    }
    let mut i: usize = 0;
    while i < n
        invariant
            n == buf@.len(),
            i <= n,
            bytes@ == spec_web_bytes(buf@.take(i as int)),
        decreases n - i,
    {
        let web: [u8; 4] = crate::color::to_web_color(buf[i]);
        bytes.push(web[0]);
        bytes.push(web[1]);
        bytes.push(web[2]);
        bytes.push(web[3]);
        proof {
            assert(buf@.take(i as int + 1).drop_last() =~= buf@.take(i as int));
            assert(buf@.take(i as int + 1).last() == buf@[i as int]);
            assert(bytes@ =~= spec_web_bytes(buf@.take(i as int)) + spec_pixel_bytes(
                buf@[i as int],
            ));
        }
        i = i + 1;
    }
    proof {
        assert(buf@.take(n as int) =~= buf@);
    }
    bytes
}

impl RayTracing {
    /// Draw a frame as in `render`, flattened to red, green, blue and alpha
    /// bytes per pixel.
    pub fn render_to_web_color(&mut self) -> (r: Option<Vec<u8>>)
        requires
            old(self).wf(),
        ensures
            final(self).wf(),
            (r is Some) == !old(self).am.spec_is_empty(),
            r is Some ==> exists|pix: Seq<u32>, dt: u64|
                spec_frame_step(*old(self), *final(self), pix, dt) && r.unwrap()@
                    == spec_web_bytes(pix),
    {
        let buf: Vec<u32> = match self.render() {
            None => {
                return None;
            },
            Some(b) => b,
        };
        let bytes: Vec<u8> = web_bytes(&buf);
        let r: Option<Vec<u8>> = Some(bytes);
        proof {
            let dt = choose|dt: u64| spec_frame_step(*old(self), *self, buf@, dt);
            assert(spec_frame_step(*old(self), *self, buf@, dt) && r.unwrap()@ == spec_web_bytes(
                buf@,
            ));
        }
        r
    }
}

/// A ray cast from above the ground with a falling direction never reports
/// sky: the ground candidate exists, and a sphere can only replace it.
/// Over an empty sphere list the report is the ground itself, with the hit
/// point on the plane up to the quantisation of one step per unit of slope.
pub proof fn lemma_downward_ray_hits_ground(
    spheres: Seq<Sphere>,
    o: (int, int, int),
    d: (int, int, int),
)
    requires
        0 < o.2 <= 1_000_000_000_000,
        d.2 < 0,
        -d.2 <= o.2 * ONE as int,
        abs_int(d.2) <= 2 * ONE as int,
    ensures
        spec_intersect(spheres, o, d).kind != IntersectKind::Sky,
        spec_initial_hit(o, d).kind == IntersectKind::Ground,
        spec_initial_hit(o, d).hit_point is Some,
        0 <= spec_initial_hit(o, d).hit_point.unwrap().2 <= 2,
        spec_intersect(Seq::<Sphere>::empty(), o, d) == spec_initial_hit(o, d),
{
    let oz = o.2;
    let dz = d.2;
    let x = -oz * ONE as int;
    crate::fixed::lemma_abs_mul(-oz, ONE as int);
    assert(abs_int(x) == oz * ONE as int);
    let q = abs_int(x) / abs_int(dz);
    vstd::arithmetic::div_mod::lemma_fundamental_div_mod(abs_int(x), abs_int(dz));
    vstd::arithmetic::div_mod::lemma_mod_bound(abs_int(x), abs_int(dz));
    vstd::arithmetic::div_mod::lemma_div_pos_is_pos(abs_int(x), abs_int(dz));
    assert(abs_int(dz) * q > oz * ONE as int - abs_int(dz));
    assert(q >= 1) by (nonlinear_arith)
        requires
            abs_int(dz) * q > oz * ONE as int - abs_int(dz),
            abs_int(dz) <= oz * ONE as int,
            abs_int(dz) >= 1,
            q >= 0,
    ;
    assert(q <= oz * ONE as int) by (nonlinear_arith)
        requires
            abs_int(dz) * q <= oz * ONE as int,
            abs_int(dz) >= 1,
            q >= 0,
    ;
    let t = crate::fixed::spec_fx_div(spec_fx_neg(oz), dz);
    assert(spec_fx_neg(oz) == -oz);
    assert(t == q);
    assert(spec_initial_hit(o, d).kind == IntersectKind::Ground);

    // The height of the reported hit point.
    let p = dz * t;
    crate::fixed::lemma_abs_mul(dz, t);
    assert(abs_int(p) == abs_int(dz) * t);
    assert(p <= 0);
    let m = crate::fixed::tdiv(p, ONE as int);
    assert(m == -(abs_int(p) / ONE as int));
    vstd::arithmetic::div_mod::lemma_fundamental_div_mod(abs_int(p), ONE as int);
    vstd::arithmetic::div_mod::lemma_mod_bound(abs_int(p), ONE as int);
    assert(abs_int(dz) * t <= oz * ONE as int);
    assert(abs_int(dz) * t > oz * ONE as int - abs_int(dz) >= oz * ONE as int - 2 * ONE as int);
    vstd::arithmetic::div_mod::lemma_div_is_ordered(abs_int(p), oz * ONE as int, ONE as int);
    vstd::arithmetic::div_mod::lemma_div_multiples_vanish(oz, ONE as int);
    vstd::arithmetic::mul::lemma_mul_is_commutative(oz, ONE as int);
    assert(abs_int(p) / ONE as int <= oz);
    vstd::arithmetic::div_mod::lemma_div_is_ordered(
        oz * ONE as int - 2 * ONE as int + 1,
        abs_int(p),
        ONE as int,
    );
    vstd::arithmetic::div_mod::lemma_div_multiples_vanish_fancy(oz - 2, 1, ONE as int);
    assert((oz - 2) * ONE as int + 1 == oz * ONE as int - 2 * ONE as int + 1) by (nonlinear_arith);
    assert(abs_int(p) / ONE as int >= oz - 2);
    let hz = spec_fx_add(oz, spec_fx_mul(dz, t));
    assert(spec_fx_mul(dz, t) == m);
    assert(0 <= hz <= 2);

    // A sphere candidate can replace the ground, never restore the sky.
    lemma_scan_keeps_hit(spheres, o, d, spec_initial_hit(o, d));
    assert(spec_intersect(Seq::<Sphere>::empty(), o, d) == spec_initial_hit(o, d));
}

/// Scanning the sphere list never turns a ground or sphere report back into
/// sky.
pub proof fn lemma_scan_keeps_hit(
    spheres: Seq<Sphere>,
    o: (int, int, int),
    d: (int, int, int),
    acc: RayHit,
)
    requires
        acc.kind != IntersectKind::Sky,
    ensures
        spec_scan_spheres(spheres, o, d, acc).kind != IntersectKind::Sky,
    decreases spheres.len(),
{
    if spheres.len() > 0 {
        let acc2 = match spec_sphere_intersect(
            spheres[0].center@,
            spheres[0].radius as int,
            o,
            d,
        ) {
            None => acc,
            Some(h) => {
                if h.distance < acc.distance {
                    RayHit {
                        distance: h.distance,
                        hit_point: Some(h.hit_point),
                        normal: Some(h.normal),
                        kind: IntersectKind::Sphere,
                    }
                } else {
                    acc
                }
            },
        };
        lemma_scan_keeps_hit(spheres.drop_first(), o, d, acc2);
    }
}

/// Rendering is deterministic: two renderers in identical states, drawing a
/// frame over the same elapsed time, produce identical buffers and end in
/// identical camera and generator states.
pub proof fn lemma_render_deterministic(
    pre1: RayTracing,
    post1: RayTracing,
    buf1: Seq<u32>,
    pre2: RayTracing,
    post2: RayTracing,
    buf2: Seq<u32>,
    dt: u64,
)
    requires
        spec_frame_step(pre1, post1, buf1, dt),
        spec_frame_step(pre2, post2, buf2, dt),
        pre1.width == pre2.width,
        pre1.height == pre2.height,
        pre1.spheres@ == pre2.spheres@,
        pre1.lights@ == pre2.lights@,
        pre1.camera_pos@ == pre2.camera_pos@,
        pre1.camera_gaze@ == pre2.camera_gaze@,
        pre1.am == pre2.am,
        pre1.rng.state == pre2.rng.state,
    ensures
        buf1 == buf2,
        post1.camera_pos@ == post2.camera_pos@,
        post1.camera_gaze@ == post2.camera_gaze@,
        post1.rng.state == post2.rng.state,
{
    let m1 = buf1.map_values(|p: u32| p as int);
    let m2 = buf2.map_values(|p: u32| p as int);
    assert(m1 == m2);
    assert(buf1 =~= buf2) by {
        assert(buf1.len() == m1.len() && buf2.len() == m2.len());
        assert(forall|j: int| 0 <= j < buf1.len() ==> m1[j] == #[trigger] buf1[j] as int);
        assert(forall|j: int| 0 <= j < buf2.len() ==> m2[j] == #[trigger] buf2[j] as int);
    }
}

} // verus!
