use vstd::prelude::*;

use crate::camera::Camera;
use crate::color::Color;
use crate::fx::{
    fx_div, fx_mul, fx_sqrt, fx_sqrt_s, fxdiv, fxmul, sat_add, sat_sub, satadd, FX_LIM, FX_ONE,
};
use crate::material::Material;
use crate::rng::rng_signed_unit;
use crate::vector::{ray_of_s, vclamp_s, vdot_s, vnorm_s, vnormsq_s, vsub_s, vunit_s, Ray, Vec3};

verus! {

/// Intersections closer than this along the ray are ignored, so a ray leaving
/// a surface does not immediately hit it again.
pub const MIN_DIST: i64 = 4294967;

/// The density of uniform sphere sampling: `1 / (4 pi)` in fixed point,
/// rounded down.
pub const INV_4PI: i64 = 341782637;

/// An analytic surface.
#[derive(Clone, Debug)]
pub enum Shape {
    Sphere { center: Vec3, radius: i64 },
    Plane { center: Vec3, normal: Vec3 },
}

/// A surface paired with its scattering model.
#[derive(Clone, Debug)]
pub struct Object {
    pub material: Material,
    pub shape: Shape,
}

/// A point light: a position and an emitted color.
#[derive(Clone, Debug)]
pub struct Light {
    pub pos: Vec3,
    pub color: Color,
}

/// The scene: the camera, the surfaces and the lights, all fixed for the
/// whole render.
#[derive(Clone, Debug)]
pub struct Scene {
    pub camera: Camera,
    pub objects: Vec<Object>,
    pub lights: Vec<Light>,
}

/// What casting a ray at a sphere returns: the nearer admissible root of the
/// fixed-point quadratic with the outward normal, the farther root with the
/// inward normal when the origin is inside, or nothing.  A root whose hit
/// point cannot be normalized is degenerate and counts as a miss.
pub open spec fn cast_sphere_s(center: Vec3, radius: i64, ray: Ray) -> Option<(i64, Vec3)> {
    let a = vnormsq_s(ray.dir);
    let oc = vsub_s(ray.start, center);
    let d = vdot_s(ray.dir, oc);
    let b = satadd(d, d);
    let cc = satadd(vnormsq_s(oc), -fxmul(radius as int, radius as int));
    let discr = satadd(fxmul(b, b), -fxmul(4 * (FX_ONE as int), fxmul(a, cc)));
    if discr >= 0 {
        let sq = fx_sqrt_s(discr);
        let denom = satadd(a, a);
        if denom != 0 {
            let t1 = fxdiv(satadd(satadd(0, -b), -sq), denom, FX_LIM as int);
            if t1 > MIN_DIST as int {
                let diff = vsub_s(ray_of_s(ray, t1), center);
                if vnorm_s(diff) != 0 {
                    Some((t1 as i64, vunit_s(diff)))
                } else {
                    None
                }
            } else {
                let t2 = fxdiv(satadd(satadd(0, -b), sq), denom, FX_LIM as int);
                if t2 > MIN_DIST as int {
                    Some((t2 as i64, vsub_s(center, ray_of_s(ray, t2))))
                } else {
                    None
                }
            }
        } else {
            None
        }
    } else {
        None
    }
}

/// What casting a ray at a plane returns: the crossing parameter with the
/// plane's normal, or nothing for a parallel (or too close) ray.
pub open spec fn cast_plane_s(center: Vec3, normal: Vec3, ray: Ray) -> Option<(i64, Vec3)> {
    let denom = vdot_s(normal, ray.dir);
    if denom != 0 {
        let t = fxdiv(vdot_s(normal, vsub_s(center, ray.start)), denom, FX_LIM as int);
        if t > MIN_DIST as int {
            Some((t as i64, vclamp_s(normal)))
        } else {
            None
        }
    } else {
        None
    }
}

/// What `Shape::cast` returns.
#[verifier::opaque]
pub open spec fn shape_cast_s(s: Shape, ray: Ray) -> Option<(i64, Vec3)> {
    match s {
        Shape::Sphere { center, radius } => cast_sphere_s(center, radius, ray),
        Shape::Plane { center, normal } => cast_plane_s(center, normal, ray),
    }
}

/// The nearest hit among the first `n` surfaces: a fold that replaces the
/// best hit only on a strictly nearer one, so the first of equally near
/// surfaces wins.
pub open spec fn scene_cast_upto_s(objects: Seq<Object>, ray: Ray, n: int) -> Option<
    (i64, Vec3, usize),
>
    decreases n,
{
    if n <= 0 {
        None
    } else {
        let prev = scene_cast_upto_s(objects, ray, n - 1);
        match shape_cast_s(objects[n - 1].shape, ray) {
            None => prev,
            Some(hit) => match prev {
                None => Some((hit.0, hit.1, (n - 1) as usize)),
                Some(cur) => if hit.0 < cur.0 {
                    Some((hit.0, hit.1, (n - 1) as usize))
                } else {
                    prev
                },
            },
        }
    }
}

/// What `Scene::cast` returns: the nearest hit over every surface.
#[verifier::opaque]
pub open spec fn scene_cast_s(scene: Scene, ray: Ray) -> Option<(i64, Vec3, usize)> {
    scene_cast_upto_s(scene.objects@, ray, scene.objects@.len() as int)
}

impl Shape {
    /// Cast a ray at this surface alone: the intersection parameter past
    /// `MIN_DIST` and the surface normal there, or `None` on a miss.  A
    /// degenerate configuration (zero direction, parallel plane, hit point
    /// that cannot be normalized) is a miss, never a fault.
    pub fn cast(&self, ray: Ray) -> (r: Option<(i64, Vec3)>)
        ensures
            r == shape_cast_s(*self, ray),
            r matches Some(hit) ==> hit.0 > MIN_DIST && hit.1.fits(),
    {
        proof {
            reveal(crate::scene::shape_cast_s);
        }
        match self {
            Shape::Sphere { center, radius } => {
                let a = ray.dir.norm_squared();
                let oc = ray.start.sub(*center);
                let d = ray.dir.dot(oc);
                let b = sat_add(d, d);
                let cc = sat_sub(oc.norm_squared(), fx_mul(*radius, *radius));
                let four: i64 = 4 * FX_ONE;
                let discr = sat_sub(fx_mul(b, b), fx_mul(four, fx_mul(a, cc)));
                if discr >= 0 {
                    let sq = fx_sqrt(discr);
                    let denom = sat_add(a, a);
                    if denom != 0 {
                        let t1 = fx_div(sat_sub(sat_sub(0, b), sq), denom, FX_LIM);
                        if t1 > MIN_DIST {
                            match ray.of(t1).sub(*center).unit() {
                                Some(n) => Some((t1, n)),
                                None => None,
                            }
                        } else {
                            let t2 = fx_div(sat_add(sat_sub(0, b), sq), denom, FX_LIM);
                            if t2 > MIN_DIST {
                                // the origin is inside the sphere; the inward
                                // normal is left unnormalized, as every
                                // consumer normalizes both directions
                                Some((t2, center.sub(ray.of(t2))))
                            } else {
                                None
                            }
                        }
                    } else {
                        None
                    }
                } else {
                    None
                }
            },
            Shape::Plane { center, normal } => {
                let denom = normal.dot(ray.dir);
                if denom != 0 {
                    let t = fx_div(normal.dot(center.sub(ray.start)), denom, FX_LIM);
                    if t > MIN_DIST {
                        Some((t, normal.clamped()))
                    } else {
                        None
                    }
                } else {
                    None
                }
            },
        }
    }
}

impl Scene {
    /// Every scattering model in the scene is well formed.
    pub open spec fn wf(self) -> bool {
        forall|i: int| 0 <= i < self.objects@.len() ==> (#[trigger] self.objects@[i]).material.wf()
    }

    /// Cast a ray at every surface and keep the nearest hit: the parameter,
    /// the normal there, and the index of the surface hit.  `None` exactly
    /// when every surface misses; on a hit, no surface is hit strictly
    /// nearer, and among equally near hits the first surface wins.
    #[verifier::rlimit(60)]
    pub fn cast(&self, ray: Ray) -> (r: Option<(i64, Vec3, usize)>)
        ensures
            r == scene_cast_s(*self, ray),
            r is None ==> forall|j: int|
                0 <= j < self.objects@.len() ==> shape_cast_s(
                    (#[trigger] self.objects@[j]).shape,
                    ray,
                ) is None,
            r matches Some(hit) ==> {
                &&& hit.2 < self.objects@.len()
                &&& shape_cast_s(self.objects@[hit.2 as int].shape, ray) == Some((hit.0, hit.1))
                &&& hit.0 > MIN_DIST
                &&& hit.1.fits()
                &&& forall|j: int|
                    0 <= j < self.objects@.len() ==> match shape_cast_s(
                        (#[trigger] self.objects@[j]).shape,
                        ray,
                    ) {
                        Some(other) => hit.0 <= other.0,
                        None => true,
                    }
                &&& forall|j: int|
                    0 <= j < hit.2 ==> match shape_cast_s(
                        (#[trigger] self.objects@[j]).shape,
                        ray,
                    ) {
                        Some(other) => hit.0 < other.0,
                        None => true,
                    }
            },
    {
        proof {
            reveal(crate::scene::scene_cast_s);
        }
        let mut best: Option<(i64, Vec3, usize)> = None;
        let mut i: usize = 0;
        let n = self.objects.len();
        while i < n
            invariant
                0 <= i <= n,
                n == self.objects@.len(),
                best == scene_cast_upto_s(self.objects@, ray, i as int),
                best is None ==> forall|j: int|
                    0 <= j < i ==> shape_cast_s((#[trigger] self.objects@[j]).shape, ray) is None,
                best matches Some(hit) ==> {
                    &&& hit.2 < i
                    &&& shape_cast_s(self.objects@[hit.2 as int].shape, ray) == Some(
                        (hit.0, hit.1),
                    )
                    &&& hit.0 > MIN_DIST
                    &&& hit.1.fits()
                    &&& forall|j: int|
                        0 <= j < i ==> match shape_cast_s(
                            (#[trigger] self.objects@[j]).shape,
                            ray,
                        ) {
                            Some(other) => hit.0 <= other.0,
                            None => true,
                        }
                    &&& forall|j: int|
                        0 <= j < hit.2 ==> match shape_cast_s(
                            (#[trigger] self.objects@[j]).shape,
                            ray,
                        ) {
                            Some(other) => hit.0 < other.0,
                            None => true,
                        }
                },
            decreases n - i,
        {
            let obj = &self.objects[i];
            if let Some((t, norm)) = obj.shape.cast(ray) {
                let better: bool = match &best {
                    None => true,
                    Some(cur) => t < cur.0,
                };
                if better {
                    best = Some((t, norm, i));
                }
            }
            i = i + 1;
        }
        best
    }
}

/// That `dir` is a hat-box sphere sample: for some height in `[-1, 1)` and
/// some rim point, the direction is the rim scaled by the matching radius
/// with the height as third coordinate.
pub open spec fn sphere_dir_s(z: i64, du: i64, dv: i64, dir: Vec3) -> bool {
    let rad = fx_sqrt_s(satadd(FX_ONE as int, -fxmul(z as int, z as int)));
    &&& -FX_ONE <= z < FX_ONE
    &&& crate::material::rim_point_s(du, dv)
    &&& dir == (Vec3 {
        x: fxmul(du as int, rad) as i64,
        y: fxmul(dv as int, rad) as i64,
        z,
    })
}

/// That `dir` is some genuine hat-box sphere sample.
pub open spec fn sphere_sample_s(dir: Vec3) -> bool {
    exists|z: i64, du: i64, dv: i64| #[trigger] sphere_dir_s(z, du, dv, dir)
}

impl Light {
    /// A direction uniform over the whole sphere, drawn by the hat-box
    /// method: a uniform height in `[-1, 1)` and a uniform azimuth.  The
    /// returned density is the constant `1 / (4 pi)`, whatever direction was
    /// drawn; the direction is always a genuine assembly of such draws.
    pub fn propose(&self, rng: &mut rand::rngs::ThreadRng) -> (r: (i64, Vec3))
        ensures
            r.0 == INV_4PI,
            r.1.fits(),
            sphere_sample_s(r.1),
    {
        let z = rng_signed_unit(rng);
        let rad = fx_sqrt(sat_sub(FX_ONE, fx_mul(z, z)));
        let (u, v) = crate::material::disk_point(rng);
        let dir = Vec3 { x: fx_mul(u, rad), y: fx_mul(v, rad), z };
        proof {
            assert(sphere_dir_s(z, u, v, dir));
            assert(sphere_sample_s(dir));
        }
        (INV_4PI, dir)
    }
}

} // verus!
