use vstd::prelude::*;

use crate::fx::{
    fx_div, fx_mul, fx_sqrt, fx_sqrt_s, fxdiv, fxmul, sabs, sat_add, sat_sub, satadd, FX_LIM,
    FX_ONE,
};

verus! {

/// A point or direction in space, each coordinate a fixed-point scalar.
#[derive(Clone, Copy, Debug, PartialEq, Eq, Structural)]
pub struct Vec3 {
    pub x: i64,
    pub y: i64,
    pub z: i64,
}

/// What `Vec3::add` returns.
pub open spec fn vadd_s(a: Vec3, b: Vec3) -> Vec3 {
    Vec3 {
        x: satadd(a.x as int, b.x as int) as i64,
        y: satadd(a.y as int, b.y as int) as i64,
        z: satadd(a.z as int, b.z as int) as i64,
    }
}

/// What `Vec3::sub` returns.
pub open spec fn vsub_s(a: Vec3, b: Vec3) -> Vec3 {
    Vec3 {
        x: satadd(a.x as int, -(b.x as int)) as i64,
        y: satadd(a.y as int, -(b.y as int)) as i64,
        z: satadd(a.z as int, -(b.z as int)) as i64,
    }
}

/// What `Vec3::scale` returns.
pub open spec fn vscale_s(a: Vec3, t: int) -> Vec3 {
    Vec3 {
        x: fxmul(a.x as int, t) as i64,
        y: fxmul(a.y as int, t) as i64,
        z: fxmul(a.z as int, t) as i64,
    }
}

/// What `Vec3::dot` returns.
pub open spec fn vdot_s(a: Vec3, b: Vec3) -> int {
    satadd(
        satadd(fxmul(a.x as int, b.x as int), fxmul(a.y as int, b.y as int)),
        fxmul(a.z as int, b.z as int),
    )
}

/// What `Vec3::norm_squared` returns.
pub open spec fn vnormsq_s(a: Vec3) -> int {
    vdot_s(a, a)
}

/// What `Vec3::norm` returns.
pub open spec fn vnorm_s(a: Vec3) -> int {
    fx_sqrt_s(vnormsq_s(a))
}

/// What `Vec3::unit` returns when the magnitude is not zero.
pub open spec fn vunit_s(a: Vec3) -> Vec3 {
    Vec3 {
        x: fxdiv(a.x as int, vnorm_s(a), FX_ONE as int) as i64,
        y: fxdiv(a.y as int, vnorm_s(a), FX_ONE as int) as i64,
        z: fxdiv(a.z as int, vnorm_s(a), FX_ONE as int) as i64,
    }
}

/// What `Vec3::clamped` returns: each coordinate pinned to the range.
pub open spec fn vclamp_s(a: Vec3) -> Vec3 {
    Vec3 {
        x: satadd(a.x as int, 0) as i64,
        y: satadd(a.y as int, 0) as i64,
        z: satadd(a.z as int, 0) as i64,
    }
}

/// What `Vec3::cross` returns.
pub open spec fn vcross_s(a: Vec3, b: Vec3) -> Vec3 {
    Vec3 {
        x: satadd(fxmul(a.y as int, b.z as int), -fxmul(a.z as int, b.y as int)) as i64,
        y: satadd(fxmul(a.z as int, b.x as int), -fxmul(a.x as int, b.z as int)) as i64,
        z: satadd(fxmul(a.x as int, b.y as int), -fxmul(a.y as int, b.x as int)) as i64,
    }
}

impl Vec3 {
    /// The vector with the given fixed-point coordinates.
    pub fn new(x: i64, y: i64, z: i64) -> (r: Vec3)
        ensures
            r == (Vec3 { x, y, z }),
    {
        Vec3 { x, y, z }
    }

    /// Every coordinate within the saturation range.
    pub open spec fn fits(self) -> bool {
        sabs(self.x as int) <= FX_LIM as int && sabs(self.y as int) <= FX_LIM as int && sabs(
            self.z as int,
        ) <= FX_LIM as int
    }

    /// Pin each coordinate to the saturation range (for values built from raw parts).
    pub fn clamped(self) -> (r: Vec3)
        ensures
            r == vclamp_s(self),
            r.fits(),
            self.fits() ==> r == self,
    {
        let zero = Vec3 { x: 0, y: 0, z: 0 };
        self.add(zero)
    }

    /// Componentwise saturating sum.
    pub fn add(self, o: Vec3) -> (r: Vec3)
        ensures
            r == vadd_s(self, o),
            r.fits(),
    {
        Vec3 { x: sat_add(self.x, o.x), y: sat_add(self.y, o.y), z: sat_add(self.z, o.z) }
    }

    /// Componentwise saturating difference.
    pub fn sub(self, o: Vec3) -> (r: Vec3)
        ensures
            r == vsub_s(self, o),
            r.fits(),
    {
        Vec3 { x: sat_sub(self.x, o.x), y: sat_sub(self.y, o.y), z: sat_sub(self.z, o.z) }
    }

    /// The vector scaled by the fixed-point factor `t`.
    pub fn scale(self, t: i64) -> (r: Vec3)
        ensures
            r == vscale_s(self, t as int),
            r.fits(),
    {
        Vec3 { x: fx_mul(self.x, t), y: fx_mul(self.y, t), z: fx_mul(self.z, t) }
    }

    /// The fixed-point inner product.
    pub fn dot(self, o: Vec3) -> (r: i64)
        ensures
            r == vdot_s(self, o),
            sabs(r as int) <= FX_LIM as int,
    {
        sat_add(sat_add(fx_mul(self.x, o.x), fx_mul(self.y, o.y)), fx_mul(self.z, o.z))
    }

    /// The squared magnitude.
    pub fn norm_squared(self) -> (r: i64)
        ensures
            r == vnormsq_s(self),
            0 <= r <= FX_LIM,
    {
        let a = fx_mul(self.x, self.x);
        let b = fx_mul(self.y, self.y);
        let c = fx_mul(self.z, self.z);
        sat_add(sat_add(a, b), c)
    }

    /// The magnitude: the square root of the inner product with itself.
    pub fn norm(self) -> (r: i64)
        ensures
            r == vnorm_s(self),
            r >= 0,
    {
        fx_sqrt(self.norm_squared())
    }

    /// The direction of the vector with magnitude one, or `None` when the
    /// magnitude rounds to zero (a degenerate direction, treated as absent).
    pub fn unit(self) -> (r: Option<Vec3>)
        ensures
            vnorm_s(self) == 0 ==> r is None,
            vnorm_s(self) != 0 ==> r == Some(vunit_s(self)),
            r matches Some(u) ==> u.fits(),
    {
        let n = self.norm();
        if n == 0 {
            None
        } else {
            Some(
                Vec3 {
                    x: fx_div(self.x, n, FX_ONE),
                    y: fx_div(self.y, n, FX_ONE),
                    z: fx_div(self.z, n, FX_ONE),
                },
            )
        }
    }

    /// The cross product.
    pub fn cross(self, o: Vec3) -> (r: Vec3)
        ensures
            r == vcross_s(self, o),
            r.fits(),
    {
        Vec3 {
            x: sat_sub(fx_mul(self.y, o.z), fx_mul(self.z, o.y)),
            y: sat_sub(fx_mul(self.z, o.x), fx_mul(self.x, o.z)),
            z: sat_sub(fx_mul(self.x, o.y), fx_mul(self.y, o.x)),
        }
    }
}

/// What `cos_between` returns: the inner product of the two unit directions,
/// pinned to `[-1, 1]`; zero when either magnitude rounds to zero.
pub open spec fn cos_between_s(a: Vec3, b: Vec3) -> int {
    if vnorm_s(a) == 0 || vnorm_s(b) == 0 {
        0
    } else {
        crate::fx::clip(vdot_s(vunit_s(a), vunit_s(b)), FX_ONE as int)
    }
}

/// What `sin_from_cos` returns: `sqrt(1 - c * c)` in fixed point.
pub open spec fn sin_from_cos_s(c: int) -> int {
    fx_sqrt_s(satadd(FX_ONE as int, -fxmul(c, c)))
}

/// What `plane_part` returns: the part of `v` perpendicular to `n`, which is
/// `v - (v . n / |n|^2) n`; `v` itself when the magnitude of `n` rounds to
/// zero.
pub open spec fn plane_part_s(v: Vec3, n: Vec3) -> Vec3 {
    if vnormsq_s(n) == 0 {
        v
    } else {
        vsub_s(v, vscale_s(n, fxdiv(vdot_s(v, n), vnormsq_s(n), FX_LIM as int)))
    }
}

/// The cosine of the angle between two directions, pinned to `[-1, 1]`; a
/// degenerate direction gives zero.
pub fn cos_between(a: Vec3, b: Vec3) -> (r: i64)
    ensures
        r == cos_between_s(a, b),
        -FX_ONE <= r <= FX_ONE,
{
    match a.unit() {
        None => 0,
        Some(ua) => match b.unit() {
            None => 0,
            Some(ub) => {
                let d = ua.dot(ub);
                if d > FX_ONE {
                    FX_ONE
                } else if d < -FX_ONE {
                    -FX_ONE
                } else {
                    d
                }
            },
        },
    }
}

/// The sine matching a cosine: `sqrt(1 - c * c)`, which is not negative since
/// an angle between directions lies in the upper half turn.
pub fn sin_from_cos(c: i64) -> (r: i64)
    requires
        -FX_ONE <= c <= FX_ONE,
    ensures
        r == sin_from_cos_s(c as int),
        0 <= r <= FX_ONE,
{
    fx_sqrt(sat_sub(FX_ONE, fx_mul(c, c)))
}

/// The part of `v` perpendicular to `n`: `v` less its component along `n`.
pub fn plane_part(v: Vec3, n: Vec3) -> (r: Vec3)
    ensures
        r == plane_part_s(v, n),
        v.fits() ==> r.fits(),
{
    let nn = n.norm_squared();
    if nn == 0 {
        v
    } else {
        v.sub(n.scale(fx_div(v.dot(n), nn, FX_LIM)))
    }
}

/// A ray: an origin and a direction, both in fixed point.
#[derive(Clone, Copy, Debug, PartialEq, Eq, Structural)]
pub struct Ray {
    pub start: Vec3,
    pub dir: Vec3,
}

/// What `Ray::of` returns: the point at parameter `t` along the ray.
pub open spec fn ray_of_s(r: Ray, t: int) -> Vec3 {
    vadd_s(r.start, vscale_s(r.dir, t))
}

impl Ray {
    /// The ray from `start` in direction `dir`.
    pub fn new(start: Vec3, dir: Vec3) -> (r: Ray)
        ensures
            r == (Ray { start, dir }),
    {
        Ray { start, dir }
    }

    /// The point at parameter `t` along the ray.
    pub fn of(&self, t: i64) -> (r: Vec3)
        ensures
            r == ray_of_s(*self, t as int),
            r.fits(),
    {
        self.start.add(self.dir.scale(t))
    }
}

} // verus!
