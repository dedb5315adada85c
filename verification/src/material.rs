use vstd::prelude::*;

use crate::color::{cadd_s, cscale_s, lum_s, Color};
use crate::fx::{fx_mul, fxmul, sabs, sat_add, sat_sub, satadd, FX_LIM, FX_ONE};
use crate::rng::{rng_signed_unit, rng_unit};
use crate::vector::Vec3;

verus! {

/// The density returned by hemisphere sampling is the model's brightness over
/// the hemisphere's solid angle: `luminance / (2 pi)`.  This is `1 / (2 pi)`
/// in fixed point, rounded down.
pub const INV_2PI: i64 = 683565275;

/// A scattering model without sub-models.
#[derive(Clone, Debug)]
pub enum BaseMaterial {
    /// A constant response, independent of every angle.
    Diffuse(Color),
    /// A lobe around the mirror direction: the color scaled by
    /// `|cos(theta) sin(phi_in) sin(phi_out) - cos(phi_in) cos(phi_out)|^alpha`.
    Specular(Color, u32),
}

/// A scattering model: a base response, or a weighted combination of base
/// responses (the weights need not sum to one, only to at most one).
#[derive(Clone, Debug)]
pub enum Material {
    Diffuse(Color),
    Specular(Color, u32),
    Combined(Vec<(i64, BaseMaterial)>),
}

/// What `fx_pow` returns: the `e`-fold fixed-point product of `x`.
pub open spec fn pow_s(x: int, e: nat) -> int
    decreases e,
{
    if e == 0 {
        FX_ONE as int
    } else {
        fxmul(pow_s(x, (e - 1) as nat), x)
    }
}

/// The specular lobe's projection term before the exponent: the magnitude of
/// `cos(phi_in) cos(phi_out) - cos(theta) sin(phi_in) sin(phi_out)`, pinned to 1.
pub open spec fn lobe_s(ci: int, si: int, ct: int, co: int, so: int) -> int {
    let d = satadd(fxmul(ci, co), -fxmul(ct, fxmul(si, so)));
    if sabs(d) > FX_ONE as int {
        FX_ONE as int
    } else {
        sabs(d)
    }
}

/// What a base model's `bsdf` returns.
pub open spec fn base_bsdf_s(m: BaseMaterial, ci: int, si: int, ct: int, co: int, so: int) -> Color {
    match m {
        BaseMaterial::Diffuse(c) => c,
        BaseMaterial::Specular(c, alpha) => cscale_s(c, pow_s(lobe_s(ci, si, ct, co, so), alpha as nat)),
    }
}

/// What a base model's `color` returns.
pub open spec fn base_color_s(m: BaseMaterial) -> Color {
    match m {
        BaseMaterial::Diffuse(c) => c,
        BaseMaterial::Specular(c, _) => c,
    }
}

/// The sum of the weights of a combination.
pub open spec fn wsum_s(mats: Seq<(i64, BaseMaterial)>) -> int
    decreases mats.len(),
{
    if mats.len() == 0 {
        0
    } else {
        wsum_s(mats.drop_last()) + mats.last().0
    }
}

/// The weighted sum of the base responses of a combination.
pub open spec fn comb_bsdf_s(
    mats: Seq<(i64, BaseMaterial)>,
    ci: int,
    si: int,
    ct: int,
    co: int,
    so: int,
) -> Color
    decreases mats.len(),
{
    if mats.len() == 0 {
        Color { r: 0, g: 0, b: 0 }
    } else {
        cadd_s(
            comb_bsdf_s(mats.drop_last(), ci, si, ct, co, so),
            cscale_s(base_bsdf_s(mats.last().1, ci, si, ct, co, so), mats.last().0 as int),
        )
    }
}

/// The weighted sum of the base colors of a combination.
pub open spec fn comb_color_s(mats: Seq<(i64, BaseMaterial)>) -> Color
    decreases mats.len(),
{
    if mats.len() == 0 {
        Color { r: 0, g: 0, b: 0 }
    } else {
        cadd_s(
            comb_color_s(mats.drop_last()),
            cscale_s(base_color_s(mats.last().1), mats.last().0 as int),
        )
    }
}

/// What `Material::bsdf` returns.
pub open spec fn bsdf_s(m: Material, ci: int, si: int, ct: int, co: int, so: int) -> Color {
    match m {
        Material::Diffuse(c) => c,
        Material::Specular(c, alpha) => cscale_s(c, pow_s(lobe_s(ci, si, ct, co, so), alpha as nat)),
        Material::Combined(mats) => comb_bsdf_s(mats@, ci, si, ct, co, so),
    }
}

/// What `Material::color` returns.
pub open spec fn color_s(m: Material) -> Color {
    match m {
        Material::Diffuse(c) => c,
        Material::Specular(c, _) => c,
        Material::Combined(mats) => comb_color_s(mats@),
    }
}

impl BaseMaterial {
    /// Channels at most one, so a response never amplifies light.
    pub open spec fn wf(self) -> bool {
        match self {
            BaseMaterial::Diffuse(c) => c.wf() && c.r <= FX_ONE && c.g <= FX_ONE && c.b <= FX_ONE,
            BaseMaterial::Specular(c, _) => c.wf() && c.r <= FX_ONE && c.g <= FX_ONE && c.b
                <= FX_ONE,
        }
    }
}

impl Material {
    /// Channels at most one, weights not negative and summing to at most one:
    /// a well-formed model never amplifies light.
    pub open spec fn wf(self) -> bool {
        match self {
            Material::Diffuse(c) => c.wf() && c.r <= FX_ONE && c.g <= FX_ONE && c.b <= FX_ONE,
            Material::Specular(c, _) => c.wf() && c.r <= FX_ONE && c.g <= FX_ONE && c.b <= FX_ONE,
            Material::Combined(mats) => (forall|i: int|
                0 <= i < mats@.len() ==> 0 <= (#[trigger] mats@[i]).0 <= FX_ONE && mats@[i].1.wf())
                && wsum_s(mats@) <= FX_ONE,
        }
    }
}

/// A channel bound for a well-formed color: within `[0, lim]`.
pub open spec fn color_le(c: Color, lim: int) -> bool {
    0 <= c.r <= lim && 0 <= c.g <= lim && 0 <= c.b <= lim
}

/// A prefix of a combination with nonnegative weights has a weight sum at most
/// the whole combination's.
proof fn lemma_wsum_prefix(mats: Seq<(i64, BaseMaterial)>, i: int)
    requires
        0 <= i <= mats.len(),
        forall|j: int| 0 <= j < mats.len() ==> (#[trigger] mats[j]).0 >= 0,
    ensures
        wsum_s(mats.take(i)) <= wsum_s(mats),
        wsum_s(mats.take(i)) >= 0,
    decreases mats.len(),
{
    if mats.len() == 0 {
        assert(mats.take(i) =~= mats);
    } else if i == mats.len() {
        assert(mats.take(i) =~= mats);
        lemma_wsum_prefix(mats.drop_last(), i - 1);
    } else {
        lemma_wsum_prefix(mats.drop_last(), i);
        assert(mats.take(i) =~= mats.drop_last().take(i));
        assert(wsum_s(mats) == wsum_s(mats.drop_last()) + mats.last().0);
    }
}

/// The `e`-fold fixed-point product of `x`, by repeated multiplication.
pub fn fx_pow(x: i64, e: u32) -> (r: i64)
    requires
        0 <= x <= FX_ONE,
    ensures
        r == pow_s(x as int, e as nat),
        0 <= r <= FX_ONE,
{
    let mut acc: i64 = FX_ONE;
    let mut i: u32 = 0;
    while i < e
        invariant
            0 <= i <= e,
            0 <= x <= FX_ONE,
            acc == pow_s(x as int, i as nat),
            0 <= acc <= FX_ONE,
        decreases e - i,
    {
        acc = fx_mul(acc, x);
        i = i + 1;
    }
    acc
}

/// The specular projection term: computed and pinned to `[0, 1]`.
fn lobe(ci: i64, si: i64, ct: i64, co: i64, so: i64) -> (r: i64)
    ensures
        r == lobe_s(ci as int, si as int, ct as int, co as int, so as int),
        0 <= r <= FX_ONE,
{
    let d: i64 = sat_sub(fx_mul(ci, co), fx_mul(ct, fx_mul(si, so)));
    let m: i64 = if d >= 0 {
        d
    } else {
        -d
    };
    if m > FX_ONE {
        FX_ONE
    } else {
        m
    }
}

impl BaseMaterial {
    /// The scattering value of a base model, from the cosines and sines of the
    /// polar angles and the cosine of the azimuthal angle between the
    /// projections of the two directions.
    pub fn bsdf(&self, ci: i64, si: i64, ct: i64, co: i64, so: i64) -> (c: Color)
        ensures
            c == base_bsdf_s(*self, ci as int, si as int, ct as int, co as int, so as int),
            self.wf() ==> color_le(c, FX_ONE as int),
    {
        match self {
            BaseMaterial::Diffuse(color) => *color,
            BaseMaterial::Specular(color, alpha) => {
                let l = lobe(ci, si, ct, co, so);
                let p = fx_pow(l, *alpha);
                color.scale(p)
            },
        }
    }

    /// The base model's color.
    pub fn color(&self) -> (c: Color)
        ensures
            c == base_color_s(*self),
    {
        match self {
            BaseMaterial::Diffuse(color) => *color,
            BaseMaterial::Specular(color, _) => *color,
        }
    }
}

impl Material {
    /// The bidirectional scattering value: how much light entering at polar
    /// angle `phi_in` from the normal leaves at polar angle `phi_out`, with
    /// `theta` the azimuthal angle between the projections of the two
    /// directions onto the surface plane.  The angles are given by cosine and
    /// sine, which is all the response uses.
    pub fn bsdf(&self, ci: i64, si: i64, ct: i64, co: i64, so: i64) -> (c: Color)
        ensures
            c == bsdf_s(*self, ci as int, si as int, ct as int, co as int, so as int),
            self.wf() ==> color_le(c, FX_ONE as int),
    {
        match self {
            Material::Diffuse(color) => *color,
            Material::Specular(color, alpha) => {
                let l = lobe(ci, si, ct, co, so);
                let p = fx_pow(l, *alpha);
                color.scale(p)
            },
            Material::Combined(mats) => {
                let mut acc = Color { r: 0, g: 0, b: 0 };
                let mut i: usize = 0;
                while i < mats.len()
                    invariant
                        0 <= i <= mats@.len(),
                        acc == comb_bsdf_s(mats@.take(i as int), ci as int, si as int, ct as int, co as int, so as int),
                        self.wf() ==> color_le(acc, wsum_s(mats@.take(i as int))),
                        self == Material::Combined(*mats),
                    decreases mats@.len() - i,
                {
                    let pair = &mats[i];
                    proof {
                        assert(*pair == mats@[i as int]);
                    }
                    let part = pair.1.bsdf(ci, si, ct, co, so).scale(pair.0);
                    let next = acc.add(part);
                    proof {
                        let pre = mats@.take(i as int);
                        let post = mats@.take(i as int + 1);
                        assert(post.drop_last() =~= pre);
                        assert(post.last() == mats@[i as int]);
                        assert(part == cscale_s(
                            base_bsdf_s(mats@[i as int].1, ci as int, si as int, ct as int, co as int, so as int),
                            mats@[i as int].0 as int,
                        ));
                        assert(comb_bsdf_s(post, ci as int, si as int, ct as int, co as int, so as int) == cadd_s(
                            comb_bsdf_s(pre, ci as int, si as int, ct as int, co as int, so as int),
                            part,
                        ));
                        if self.wf() {
                            assert(mats@[i as int].0 >= 0 && mats@[i as int].1.wf());
                            lemma_wsum_prefix(mats@, i as int);
                            lemma_wsum_prefix(mats@, i as int + 1);
                            assert(wsum_s(post) == wsum_s(pre) + mats@[i as int].0);
                            assert(0 <= part.r <= mats@[i as int].0);
                            assert(0 <= part.g <= mats@[i as int].0);
                            assert(0 <= part.b <= mats@[i as int].0);
                            assert(wsum_s(post) <= FX_ONE as int);
                            assert(next.r == acc.r + part.r);
                            assert(next.g == acc.g + part.g);
                            assert(next.b == acc.b + part.b);
                        }
                    }
                    acc = next;
                    i = i + 1;
                }
                proof {
                    assert(mats@.take(mats@.len() as int) =~= mats@);
                    if self.wf() {
                        lemma_wsum_prefix(mats@, mats@.len() as int);
                    }
                }
                acc
            },
        }
    }

    /// The model's overall color: base colors weighted and summed.
    pub fn color(&self) -> (c: Color)
        ensures
            c == color_s(*self),
            self.wf() ==> color_le(c, FX_ONE as int),
    {
        match self {
            Material::Diffuse(color) => *color,
            Material::Specular(color, _) => *color,
            Material::Combined(mats) => {
                let mut acc = Color { r: 0, g: 0, b: 0 };
                let mut i: usize = 0;
                while i < mats.len()
                    invariant
                        0 <= i <= mats@.len(),
                        acc == comb_color_s(mats@.take(i as int)),
                        self.wf() ==> color_le(acc, wsum_s(mats@.take(i as int))),
                        self == Material::Combined(*mats),
                    decreases mats@.len() - i,
                {
                    let pair = &mats[i];
                    proof {
                        assert(*pair == mats@[i as int]);
                    }
                    let part = pair.1.color().scale(pair.0);
                    let next = acc.add(part);
                    proof {
                        let pre = mats@.take(i as int);
                        let post = mats@.take(i as int + 1);
                        assert(post.drop_last() =~= pre);
                        assert(post.last() == mats@[i as int]);
                        assert(part == cscale_s(base_color_s(mats@[i as int].1), mats@[i as int].0 as int));
                        assert(comb_color_s(post) == cadd_s(comb_color_s(pre), part));
                        if self.wf() {
                            assert(mats@[i as int].0 >= 0 && mats@[i as int].1.wf());
                            lemma_wsum_prefix(mats@, i as int);
                            lemma_wsum_prefix(mats@, i as int + 1);
                            assert(wsum_s(post) == wsum_s(pre) + mats@[i as int].0);
                            assert(0 <= part.r <= mats@[i as int].0);
                            assert(0 <= part.g <= mats@[i as int].0);
                            assert(0 <= part.b <= mats@[i as int].0);
                            assert(wsum_s(post) <= FX_ONE as int);
                            assert(next.r == acc.r + part.r);
                            assert(next.g == acc.g + part.g);
                            assert(next.b == acc.b + part.b);
                        }
                    }
                    acc = next;
                    i = i + 1;
                }
                proof {
                    assert(mats@.take(mats@.len() as int) =~= mats@);
                    if self.wf() {
                        lemma_wsum_prefix(mats@, mats@.len() as int);
                    }
                }
                acc
            },
        }
    }

    /// A random direction over the hemisphere around `normal`, drawn by the
    /// hat-box method: a uniform height and a uniform azimuth, so the
    /// direction is uniform on the hemisphere.  Returned with the sampling
    /// density, which is the model's brightness over the hemisphere's solid
    /// angle: `luminance(color) / (2 pi)`, whatever direction was drawn.
    pub fn propose(&self, normal: Vec3, rng: &mut rand::rngs::ThreadRng) -> (r: (i64, Vec3))
        ensures
            r.0 == fxmul(lum_s(color_s(*self)), INV_2PI as int),
            self.wf() ==> 0 <= r.0 <= INV_2PI,
            r.1.fits(),
            hemi_sample_s(normal, r.1),
    {
        let c = self.color();
        let l = c.luminance();
        proof {
            if self.wf() {
                let sum = satadd(satadd(c.r as int, c.g as int), c.b as int);
                assert(sum == c.r + c.g + c.b);
                crate::fx::lemma_tdiv_pos(sum, 3);
                assert(0 <= l <= FX_ONE as int);
            }
        }
        let density = fx_mul(l, INV_2PI);
        let dir = hemisphere_dir(normal, rng);
        (density, dir)
    }
}

/// A direction on the hemisphere around `normal`: a uniform height `z` in
/// `[0, 1)` and a uniform azimuth on the disk, rotated into a frame whose
/// third axis follows the normal.
fn hemisphere_dir(normal: Vec3, rng: &mut rand::rngs::ThreadRng) -> (dir: Vec3)
    ensures
        dir.fits(),
        hemi_sample_s(normal, dir),
{
    let z = rng_unit(rng);
    let rad = crate::fx::fx_sqrt(sat_sub(FX_ONE, fx_mul(z, z)));
    let (u, v) = disk_point(rng);
    let (t1, t2, n3) = frame(normal);
    let dir = t1.scale(fx_mul(u, rad)).add(t2.scale(fx_mul(v, rad))).add(n3.scale(z));
    proof {
        assert(hemi_dir_s(normal, z, u, v, dir));
        assert(hemi_sample_s(normal, dir));
    }
    dir
}

/// That `(u2, v2)` is a drawn pair pushed out to the rim: for some accepted
/// square sample whose squared magnitude lies in the annulus between one
/// quarter and one, each coordinate is that sample over the magnitude.  The
/// annulus floor keeps the normalization sound: a division by a magnitude
/// near zero would tear the rounding apart.
pub open spec fn rim_pair_s(u: i64, v: i64, u2: i64, v2: i64) -> bool {
    let d2 = satadd(fxmul(u as int, u as int), fxmul(v as int, v as int));
    &&& -FX_ONE <= u < FX_ONE && -FX_ONE <= v < FX_ONE
    &&& 0x4000_0000 <= d2 <= FX_ONE
    &&& u2 == crate::fx::fxdiv(u as int, crate::fx::fx_sqrt_s(d2), FX_ONE as int)
    &&& v2 == crate::fx::fxdiv(v as int, crate::fx::fx_sqrt_s(d2), FX_ONE as int)
}

/// What `disk_point` returns: a genuine rim point, or the first axis when
/// every bounded try was rejected.
pub open spec fn rim_point_s(u2: i64, v2: i64) -> bool {
    (u2 == FX_ONE && v2 == 0) || exists|u: i64, v: i64| #[trigger] rim_pair_s(u, v, u2, v2)
}

/// A point on the rim of the unit disk, drawn by rejection from the square:
/// fresh pairs until one lands in the annulus between half and full radius,
/// then pushed out to magnitude one.  Each pair is accepted with chance near
/// `3 pi / 16`, so the bounded number of tries fails only with vanishing
/// chance; on that failure the first axis stands in.
pub(crate) fn disk_point(rng: &mut rand::rngs::ThreadRng) -> (r: (i64, i64))
    ensures
        crate::fx::sabs(r.0 as int) <= FX_ONE as int,
        crate::fx::sabs(r.1 as int) <= FX_ONE as int,
        rim_point_s(r.0, r.1),
{
    let mut tries: u32 = 0;
    while tries < 64
        decreases 64 - tries,
    {
        let u = rng_signed_unit(rng);
        let v = rng_signed_unit(rng);
        let d2 = sat_add(fx_mul(u, u), fx_mul(v, v));
        if 0x4000_0000 <= d2 && d2 <= FX_ONE {
            let n = crate::fx::fx_sqrt(d2);
            if n > 0 {
                let ru = crate::fx::fx_div(u, n, FX_ONE);
                let rv = crate::fx::fx_div(v, n, FX_ONE);
                proof {
                    assert(rim_pair_s(u, v, ru, rv));
                }
                return (ru, rv);
            }
        }
        tries = tries + 1;
    }
    (FX_ONE, 0)
}

/// What `frame` returns: the normalized normal as third axis with two
/// orthogonal companions, or the identity frame for a degenerate pose.
pub open spec fn frame_s(normal: Vec3) -> (Vec3, Vec3, Vec3) {
    let ex = Vec3 { x: FX_ONE, y: 0, z: 0 };
    let ey = Vec3 { x: 0, y: FX_ONE, z: 0 };
    let ez = Vec3 { x: 0, y: 0, z: FX_ONE };
    if crate::vector::vnorm_s(normal) == 0 {
        (ex, ey, ez)
    } else {
        let n3 = crate::vector::vunit_s(normal);
        if crate::vector::vnorm_s(crate::vector::vcross_s(n3, ex)) != 0 {
            let t1 = crate::vector::vunit_s(crate::vector::vcross_s(n3, ex));
            (t1, crate::vector::vcross_s(n3, t1), n3)
        } else if crate::vector::vnorm_s(crate::vector::vcross_s(n3, ey)) != 0 {
            let t1 = crate::vector::vunit_s(crate::vector::vcross_s(n3, ey));
            (t1, crate::vector::vcross_s(n3, t1), n3)
        } else {
            (ex, ey, ez)
        }
    }
}

/// That `dir` is a hat-box hemisphere sample: for some height in `[0, 1)`
/// and some rim point, the direction is their assembly in the normal's
/// frame.
pub open spec fn hemi_dir_s(normal: Vec3, z: i64, du: i64, dv: i64, dir: Vec3) -> bool {
    let f = frame_s(normal);
    let rad = crate::fx::fx_sqrt_s(satadd(FX_ONE as int, -fxmul(z as int, z as int)));
    &&& 0 <= z < FX_ONE
    &&& rim_point_s(du, dv)
    &&& dir == crate::vector::vadd_s(
        crate::vector::vadd_s(
            crate::vector::vscale_s(f.0, fxmul(du as int, rad)),
            crate::vector::vscale_s(f.1, fxmul(dv as int, rad)),
        ),
        crate::vector::vscale_s(f.2, z as int),
    )
}

/// That `dir` is some genuine hat-box hemisphere sample around `normal`.
pub open spec fn hemi_sample_s(normal: Vec3, dir: Vec3) -> bool {
    exists|z: i64, du: i64, dv: i64| #[trigger] hemi_dir_s(normal, z, du, dv, dir)
}

/// An orthogonal frame whose third axis follows `normal`; the identity frame
/// when the normal is degenerate (too short to normalize).
fn frame(normal: Vec3) -> (r: (Vec3, Vec3, Vec3))
    ensures
        r == frame_s(normal),
        r.0.fits(),
        r.1.fits(),
        r.2.fits(),
{
    let ex = Vec3 { x: FX_ONE, y: 0, z: 0 };
    let ey = Vec3 { x: 0, y: FX_ONE, z: 0 };
    let ez = Vec3 { x: 0, y: 0, z: FX_ONE };
    match normal.unit() {
        None => (ex, ey, ez),
        Some(n3) => {
            let c = n3.cross(ex);
            match c.unit() {
                Some(t1) => {
                    let t2 = n3.cross(t1);
                    (t1, t2, n3)
                },
                None => {
                    // the normal is along the first axis; use the second
                    let c2 = n3.cross(ey);
                    match c2.unit() {
                        Some(t1) => {
                            let t2 = n3.cross(t1);
                            (t1, t2, n3)
                        },
                        None => (ex, ey, ez),
                    }
                },
            }
        },
    }
}

} // verus!
