use vstd::prelude::*;

use crate::camera::{accum_add_s, to_camera_s, Camera, ImageBuffer};
use crate::color::{cmul_s, cscale_s, lum_s, Color};
use crate::fx::{fx_div, fx_mul, fxdiv, fxmul, sabs, sat_add, satadd, FX_LIM, FX_ONE};
use crate::material::bsdf_s;
use crate::rng::{rng_below, rng_coin, rng_unit};
use crate::scene::{scene_cast_s, Scene, INV_4PI};
use crate::vector::{
    cos_between_s, plane_part_s, ray_of_s, sin_from_cos_s, vnormsq_s, vsub_s, Ray, Vec3,
};

verus! {

/// Light attenuation over distance: the geometric falloff divides by
/// `1 + DISTANCE_FACTOR * distance^2`.  This is a tenth in fixed point.
pub const DISTANCE_FACTOR: i64 = 429496729;

/// The chance of growing a traced chain by one more vertex: one half, in
/// fixed point, matching the fair coin that gates each extension.
pub const CONTINUE_CHANCE: i64 = 0x8000_0000;

/// A light-transport path: an ordered chain of positions from a light to the
/// camera, with the surface normal and the surface (an index into the scene's
/// object list) at each interior vertex.  A path is immutable once built:
/// mutation yields a fresh path, so a rejected candidate can be dropped
/// without touching the chain's current state.
#[derive(Clone, Debug)]
pub struct Path {
    /// Index of the anchoring light in the scene's light list.
    pub light: usize,
    /// One surface index per interior vertex.
    pub objects: Vec<usize>,
    /// The vertex positions, light end first, camera position last.
    pub points: Vec<Vec3>,
    /// One surface normal per interior vertex.
    pub normals: Vec<Vec3>,
}

impl Path {
    /// The path's shape invariant: exactly two more positions than interior
    /// surfaces, one normal per interior surface, and every index naming a
    /// light or surface the scene has.
    pub open spec fn wf(self, scene: Scene) -> bool {
        &&& self.points@.len() == self.objects@.len() + 2
        &&& self.normals@.len() == self.objects@.len()
        &&& self.light < scene.lights@.len()
        &&& forall|i: int|
            0 <= i < self.objects@.len() ==> (#[trigger] self.objects@[i]) < scene.objects@.len()
    }
}

/// The geometric falloff of a segment: `1 / (1 + DISTANCE_FACTOR * |v|^2)`.
pub open spec fn falloff_s(v: Vec3) -> int {
    fxdiv(
        FX_ONE as int,
        satadd(FX_ONE as int, fxmul(DISTANCE_FACTOR as int, vnormsq_s(v))),
        FX_ONE as int,
    )
}

/// The incoming segment of interior vertex `i`: toward the light neighbor.
pub open spec fn vert_in_s(p: Path, i: int) -> Vec3 {
    vsub_s(p.points@[i], p.points@[i + 1])
}

/// The outgoing segment of interior vertex `i`: toward the camera neighbor.
pub open spec fn vert_out_s(p: Path, i: int) -> Vec3 {
    vsub_s(p.points@[i + 2], p.points@[i + 1])
}

/// Whether the segment from interior vertex `i` toward its light-side
/// neighbor is blocked: some surface stands strictly before the neighbor.
pub open spec fn occluded_s(p: Path, scene: Scene, i: int) -> bool {
    match scene_cast_s(scene, Ray { start: p.points@[i + 1], dir: vert_in_s(p, i) }) {
        Some(hit) => hit.0 < FX_ONE,
        None => false,
    }
}

/// The geometry factor of a segment against a normal: the falloff of the
/// segment times the cosine it makes with the normal.  A negative cosine (a
/// segment arriving behind the surface) is pinned to zero: such a segment
/// carries no light, and must never subtract any.
pub open spec fn geomf_s(inc: Vec3, n: Vec3) -> int {
    let c = cos_between_s(inc, n);
    fxmul(falloff_s(inc), if c < 0 { 0 } else { c })
}

/// The geometry factor at interior vertex `i`.
pub open spec fn geom_s(p: Path, i: int) -> int {
    geomf_s(vert_in_s(p, i), p.normals@[i])
}

/// A surface's scattering value for a segment pair against its normal: the
/// response at the angles the two segments make with the normal, and the
/// azimuthal angle between their projections onto the surface plane.
pub open spec fn surface_bsdf_s(m: crate::material::Material, inc: Vec3, out: Vec3, n: Vec3) -> Color {
    let ci = cos_between_s(inc, n);
    let co = cos_between_s(out, n);
    let ct = cos_between_s(plane_part_s(inc, n), plane_part_s(out, n));
    bsdf_s(m, ci, sin_from_cos_s(ci), ct, co, sin_from_cos_s(co))
}

/// The scattering value at interior vertex `i`.
pub open spec fn bsdf_at_s(p: Path, scene: Scene, i: int) -> Color {
    surface_bsdf_s(
        scene.objects@[p.objects@[i] as int].material,
        vert_in_s(p, i),
        vert_out_s(p, i),
        p.normals@[i],
    )
}

/// The geometry factor, computed: falloff times the cosine pinned at zero.
pub fn geom_factor(inc: Vec3, n: Vec3) -> (g: i64)
    ensures
        g == geomf_s(inc, n),
        0 <= g <= FX_ONE,
{
    let fall = fx_div(
        FX_ONE,
        sat_add(FX_ONE, fx_mul(DISTANCE_FACTOR, inc.norm_squared())),
        FX_ONE,
    );
    let ci = crate::vector::cos_between(inc, n);
    let ci = if ci < 0 {
        0
    } else {
        ci
    };
    fx_mul(fall, ci)
}

/// A surface's scattering value for a segment pair, computed.
pub fn surface_bsdf(m: &crate::material::Material, inc: Vec3, out: Vec3, n: Vec3) -> (c: Color)
    ensures
        c == surface_bsdf_s(*m, inc, out, n),
        m.wf() ==> crate::material::color_le(c, FX_ONE as int),
{
    let ci = crate::vector::cos_between(inc, n);
    let co = crate::vector::cos_between(out, n);
    let si = crate::vector::sin_from_cos(ci);
    let so = crate::vector::sin_from_cos(co);
    let ct = crate::vector::cos_between(
        crate::vector::plane_part(inc, n),
        crate::vector::plane_part(out, n),
    );
    m.bsdf(ci, si, ct, co, so)
}

/// The scattering brightness at interior vertex `i`, pinned at zero from
/// below: a response never carries negative light.
pub open spec fn lum_at_s(p: Path, scene: Scene, i: int) -> int {
    let l = lum_s(bsdf_at_s(p, scene, i));
    if l < 0 {
        0
    } else {
        l
    }
}

/// The measure after the first `k` interior vertices: the light-sampling
/// density, then per vertex the geometry factor and the scattering
/// brightness; an occluded vertex zeroes everything.  Both per-vertex
/// factors are nonnegative, so the measure never drops below zero.
pub open spec fn measure_upto_s(p: Path, scene: Scene, k: int) -> int
    decreases k,
{
    if k <= 0 {
        INV_4PI as int
    } else {
        let prev = measure_upto_s(p, scene, k - 1);
        if occluded_s(p, scene, k - 1) {
            0
        } else {
            fxmul(fxmul(prev, geom_s(p, k - 1)), lum_at_s(p, scene, k - 1))
        }
    }
}

/// What `Path::measure` returns.
pub open spec fn measure_s(p: Path, scene: Scene) -> int {
    measure_upto_s(p, scene, p.objects@.len() as int)
}

impl Path {
    /// The measure's step at one interior vertex: zero when the vertex's
    /// light-side segment is blocked, else the running value times the
    /// geometry factor and the scattering brightness there.
    #[verifier::rlimit(100)]
    fn measure_step(&self, scene: &Scene, prob: i64, i: usize) -> (r: i64)
        requires
            self.wf(*scene),
            i < self.objects@.len(),
        ensures
            r == if occluded_s(*self, *scene, i as int) {
                0int
            } else {
                fxmul(
                    fxmul(prob as int, geom_s(*self, i as int)),
                    lum_at_s(*self, *scene, i as int),
                )
            },
            0 <= prob ==> 0 <= r <= FX_LIM,
            scene.wf() && 0 <= prob <= FX_ONE ==> r <= FX_ONE,
    {
        let plen = self.points.len();
        proof {
            assert(plen == self.objects@.len() + 2);
            assert(i + 2 <= plen);
        }
        let x0 = self.points[i];
        let x1 = self.points[i + 1];
        let x2 = self.points[i + 2];
        let inc = x0.sub(x1);
        let out = x2.sub(x1);
        let nm = self.normals[i];
        let occ: bool = match scene.cast(Ray { start: x1, dir: inc }) {
            Some(hit) => hit.0 < FX_ONE,
            None => false,
        };
        if occ {
            return 0;
        }
        let part = fx_mul(prob, geom_factor(inc, nm));
        let oi = self.objects[i];
        let lum = surface_bsdf(&scene.objects[oi].material, inc, out, nm).luminance();
        let lum = if lum < 0 {
            0
        } else {
            lum
        };
        fx_mul(part, lum)
    }

    /// The unnormalized importance of the path: the product of the
    /// light-sampling density and, at every interior vertex, the mutual
    /// visibility of its light-side segment, the geometric falloff and cosine
    /// of that segment, and the surface's scattering brightness at the
    /// segment pair's angles.  Zero whenever a segment is blocked.
    pub fn measure(&self, scene: &Scene) -> (r: i64)
        requires
            self.wf(*scene),
        ensures
            r == measure_s(*self, *scene),
            0 <= r <= FX_LIM,
            scene.wf() ==> r <= FX_ONE,
    {
        let mut prob: i64 = INV_4PI;
        let n = self.objects.len();
        let mut i: usize = 0;
        while i < n
            invariant
                0 <= i <= n,
                self.wf(*scene),
                n == self.objects@.len(),
                prob == measure_upto_s(*self, *scene, i as int),
                0 <= prob <= FX_LIM,
                scene.wf() ==> prob <= FX_ONE,
            decreases n - i,
        {
            prob = self.measure_step(scene, prob, i);
            i = i + 1;
        }
        prob
    }
}

/// Append `src[from..to]` to `dst`.
fn push_range<T: Copy>(dst: &mut Vec<T>, src: &Vec<T>, from: usize, to: usize)
    requires
        from <= to <= src@.len(),
    ensures
        final(dst)@ == old(dst)@ + src@.subrange(from as int, to as int),
{
    let mut i: usize = from;
    while i < to
        invariant
            from <= i <= to,
            to <= src@.len(),
            dst@ == old(dst)@ + src@.subrange(from as int, i as int),
        decreases to - i,
    {
        let v: T = src[i];
        dst.push(v);
        proof {
            assert(old(dst)@ + src@.subrange(from as int, i + 1 as int) =~= (old(dst)@
                + src@.subrange(from as int, i as int)).push(src@[i as int]));
        }
        i = i + 1;
    }
}

/// Append the elements of `src`, last first.
fn push_rev<T: Copy>(dst: &mut Vec<T>, src: &Vec<T>)
    ensures
        final(dst)@ == old(dst)@ + src@.reverse(),
{
    let n = src.len();
    let mut i: usize = 0;
    while i < n
        invariant
            0 <= i <= n,
            n == src@.len(),
            dst@ == old(dst)@ + src@.reverse().subrange(0, i as int),
        decreases n - i,
    {
        let v: T = src[n - 1 - i];
        dst.push(v);
        proof {
            assert(src@.reverse()[i as int] == src@[n - 1 - i as int]);
            assert(old(dst)@ + src@.reverse().subrange(0, i + 1 as int) =~= (old(dst)@
                + src@.reverse().subrange(0, i as int)).push(src@.reverse()[i as int]));
        }
        i = i + 1;
    }
    proof {
        assert(src@.reverse().subrange(0, n as int) =~= src@.reverse());
    }
}

impl Path {
    /// The spliced path of a bidirectional mutation: this path up to and
    /// including interior vertex `start`, then the fresh light-side vertices,
    /// then the fresh camera-side vertices in reverse, then this path again
    /// from interior vertex `end + 1` on.  Everything outside `[start, end]`
    /// is carried over unchanged.
    pub fn splice(
        &self,
        scene: &Scene,
        start: usize,
        end: usize,
        lp: &Vec<Vec3>,
        ln: &Vec<Vec3>,
        lo: &Vec<usize>,
        cp: &Vec<Vec3>,
        cn: &Vec<Vec3>,
        co: &Vec<usize>,
    ) -> (r: Path)
        requires
            self.wf(*scene),
            start <= end < self.objects@.len(),
            lp@.len() == ln@.len() && ln@.len() == lo@.len(),
            cp@.len() == cn@.len() && cn@.len() == co@.len(),
            forall|i: int| 0 <= i < lo@.len() ==> (#[trigger] lo@[i]) < scene.objects@.len(),
            forall|i: int| 0 <= i < co@.len() ==> (#[trigger] co@[i]) < scene.objects@.len(),
        ensures
            r.light == self.light,
            r.points@ == self.points@.subrange(0, start + 2) + lp@ + cp@.reverse()
                + self.points@.subrange(end + 1, self.points@.len() as int),
            r.normals@ == self.normals@.subrange(0, start + 1) + ln@ + cn@.reverse()
                + self.normals@.subrange(end as int, self.normals@.len() as int),
            r.objects@ == self.objects@.subrange(0, start + 1) + lo@ + co@.reverse()
                + self.objects@.subrange(end as int, self.objects@.len() as int),
            r.wf(*scene),
    {
        let plen = self.points.len();
        let nlen = self.normals.len();
        let olen = self.objects.len();
        proof {
            assert(plen == self.objects@.len() + 2);
            assert(nlen == self.objects@.len());
        }
        let mut points: Vec<Vec3> = Vec::new();
        push_range(&mut points, &self.points, 0, start + 2);
        push_range(&mut points, lp, 0, lp.len());
        push_rev(&mut points, cp);
        push_range(&mut points, &self.points, end + 1, plen);
        let mut normals: Vec<Vec3> = Vec::new();
        push_range(&mut normals, &self.normals, 0, start + 1);
        push_range(&mut normals, ln, 0, ln.len());
        push_rev(&mut normals, cn);
        push_range(&mut normals, &self.normals, end, nlen);
        let mut objects: Vec<usize> = Vec::new();
        push_range(&mut objects, &self.objects, 0, start + 1);
        push_range(&mut objects, lo, 0, lo.len());
        push_rev(&mut objects, co);
        push_range(&mut objects, &self.objects, end, olen);
        proof {
            assert(lp@.subrange(0, lp@.len() as int) =~= lp@);
            assert(ln@.subrange(0, ln@.len() as int) =~= ln@);
            assert(lo@.subrange(0, lo@.len() as int) =~= lo@);
        }
        Path { light: self.light, objects, points, normals }
    }
}

/// One third in fixed point, the chance of each extension count.
pub const THIRD: i64 = 1431655765;

/// The reciprocal of a count, in fixed point.
fn inv_count(n: usize) -> (r: i64)
    requires
        n >= 1,
    ensures
        r == fxdiv(FX_ONE as int, n as int, FX_ONE as int),
        0 < r <= FX_ONE,
{
    let q: u128 = 0x1_0000_0000_0000_0000u128 / (n as u128);
    let lim: u128 = FX_ONE as u128;
    let qc: u128 = if q > lim {
        lim
    } else {
        q
    };
    proof {
        let ni = n as int;
        let s = FX_ONE as int;
        crate::fx::lemma_tdiv_pos(s * s, ni);
        assert(q == s * s / ni);
        assert(q >= 1) by (nonlinear_arith)
            requires
                q == 0x1_0000_0000_0000_0000int / (n as int),
                1 <= n as int,
                (n as int) < 0x1_0000_0000_0000_0000,
        ;
    }
    qc as i64
}

/// Whether a mutated path keeps everything outside `[start, end]`: the
/// leading positions through interior vertex `start + 1`, and the trailing
/// positions from interior vertex `end + 1` on, with normals and surfaces
/// alongside, stand unchanged at both ends.
pub open spec fn keeps_outside_s(before: Path, after: Path, start: int, end: int) -> bool {
    let bp = before.points@;
    let ap = after.points@;
    let bn = before.normals@;
    let an = after.normals@;
    let bo = before.objects@;
    let ao = after.objects@;
    &&& ap.len() >= start + 2 && ap.len() >= bp.len() - end - 1
    &&& an.len() >= start + 1 && an.len() >= bn.len() - end
    &&& ao.len() >= start + 1 && ao.len() >= bo.len() - end
    &&& ap.subrange(0, start + 2) == bp.subrange(0, start + 2)
    &&& ap.subrange(ap.len() - (bp.len() - end - 1), ap.len() as int) == bp.subrange(
        end + 1,
        bp.len() as int,
    )
    &&& an.subrange(0, start + 1) == bn.subrange(0, start + 1)
    &&& an.subrange(an.len() - (bn.len() - end), an.len() as int) == bn.subrange(
        end as int,
        bn.len() as int,
    )
    &&& ao.subrange(0, start + 1) == bo.subrange(0, start + 1)
    &&& ao.subrange(ao.len() - (bo.len() - end), ao.len() as int) == bo.subrange(
        end as int,
        bo.len() as int,
    )
}

/// Whether a freshly grown mutation segment is genuine: every entry is a
/// geometry hit extended from its predecessor, the first anchored at the
/// position just past interior vertex `anchor` of the path being mutated.
#[verifier::opaque]
pub open spec fn grown_s(
    scene: Scene,
    p: Path,
    anchor: int,
    pts: Seq<Vec3>,
    nms: Seq<Vec3>,
    obs: Seq<usize>,
) -> bool {
    &&& pts.len() == nms.len() && nms.len() == obs.len()
    &&& forall|i: int|
        0 <= i < pts.len() ==> from_cast_s(
            scene,
            if i == 0 {
                p.points@[anchor + 1]
            } else {
                pts[i - 1]
            },
            #[trigger] pts[i],
            nms[i],
            obs[i],
        )
}

/// The joint density of the first `k` scattering draws of a mutation
/// segment, folded onto `acc`: each draw's density is the sampling density
/// of the surface it was anchored at -- the surface at `first` for the first
/// draw, then the surface each cast handed back.
#[verifier::opaque]
pub open spec fn densities_s(scene: Scene, first: usize, obs: Seq<usize>, k: int, acc: int) -> int
    decreases k,
{
    if k <= 0 {
        acc
    } else {
        let at = if k == 1 {
            first
        } else {
            obs[k - 2]
        };
        fxmul(
            densities_s(scene, first, obs, k - 1, acc),
            fxmul(
                lum_s(crate::material::color_s(scene.objects@[at as int].material)),
                crate::material::INV_2PI as int,
            ),
        )
    }
}

/// The fold only reads surface indices before `k - 1`, so two segment lists
/// that agree there fold alike.
proof fn lemma_densities_prefix(
    scene: Scene,
    first: usize,
    obs1: Seq<usize>,
    obs2: Seq<usize>,
    k: int,
    acc: int,
)
    requires
        forall|i: int| 0 <= i < k - 1 ==> obs1[i] == obs2[i],
    ensures
        densities_s(scene, first, obs1, k, acc) == densities_s(scene, first, obs2, k, acc),
    decreases k,
{
    reveal(crate::mlt::densities_s);
    if k > 0 {
        lemma_densities_prefix(scene, first, obs1, obs2, k - 1, acc);
    }
}

/// Appending one genuinely grown vertex keeps a segment genuine, and folds
/// exactly one more density factor.
proof fn lemma_grow_push(
    scene: Scene,
    p: Path,
    anchor: int,
    pts0: Seq<Vec3>,
    nms0: Seq<Vec3>,
    obs0: Seq<usize>,
    pt: Vec3,
    nm: Vec3,
    ob: usize,
    first: usize,
    base: int,
)
    requires
        pts0.len() == nms0.len() && nms0.len() == obs0.len(),
        grown_s(scene, p, anchor, pts0, nms0, obs0),
        from_cast_s(
            scene,
            if pts0.len() == 0 {
                p.points@[anchor + 1]
            } else {
                pts0.last()
            },
            pt,
            nm,
            ob,
        ),
    ensures
        grown_s(scene, p, anchor, pts0.push(pt), nms0.push(nm), obs0.push(ob)),
        densities_s(scene, first, obs0.push(ob), pts0.len() as int + 1, base) == fxmul(
            densities_s(scene, first, obs0, pts0.len() as int, base),
            fxmul(
                lum_s(
                    crate::material::color_s(
                        scene.objects@[(if obs0.len() == 0 {
                            first
                        } else {
                            obs0.last()
                        }) as int].material,
                    ),
                ),
                crate::material::INV_2PI as int,
            ),
        ),
{
    reveal(crate::mlt::grown_s);
    reveal(crate::mlt::densities_s);
    let pts1 = pts0.push(pt);
    let nms1 = nms0.push(nm);
    let obs1 = obs0.push(ob);
    assert forall|i: int| 0 <= i < pts1.len() implies from_cast_s(
        scene,
        if i == 0 {
            p.points@[anchor + 1]
        } else {
            pts1[i - 1]
        },
        #[trigger] pts1[i],
        nms1[i],
        obs1[i],
    ) by {
        if i < pts0.len() {
            assert(pts1[i] == pts0[i] && nms1[i] == nms0[i] && obs1[i] == obs0[i]);
            if i > 0 {
                assert(pts1[i - 1] == pts0[i - 1]);
            }
        } else {
            assert(pts1[i] == pt && nms1[i] == nm && obs1[i] == ob);
            if i > 0 {
                assert(pts1[i - 1] == pts0.last());
            }
        }
    }
    lemma_densities_prefix(scene, first, obs0, obs1, pts0.len() as int, base);
}

/// Everything a successful mutation hands back: bounds for `start` and
/// `end`, up to two genuinely grown vertices per side, the spliced path, and
/// the probability equal to the joint density of every random choice -- the
/// two uniform index draws, the two uniform count draws, and each
/// scattering draw's density.
/// That `fresh` at probability `prob` is a genuine bidirectional mutation
/// of `p`: for some bounds and grown segments, it is the splice and the
/// probability is the joint density of every random choice.
pub open spec fn mutated_from_s(p: Path, scene: Scene, prob: i64, fresh: Path) -> bool {
    exists|
        start: int,
        end: int,
        lp: Seq<Vec3>,
        ln: Seq<Vec3>,
        lo: Seq<usize>,
        cp: Seq<Vec3>,
        cn: Seq<Vec3>,
        co: Seq<usize>,
    |
        #[trigger] mutation_shape_s(p, scene, prob, fresh, start, end, lp, ln, lo, cp, cn, co)
}

#[verifier::opaque]
pub open spec fn mutation_shape_s(
    p: Path,
    scene: Scene,
    prob: i64,
    fresh: Path,
    start: int,
    end: int,
    lp: Seq<Vec3>,
    ln: Seq<Vec3>,
    lo: Seq<usize>,
    cp: Seq<Vec3>,
    cn: Seq<Vec3>,
    co: Seq<usize>,
) -> bool {
    let olen = p.objects@.len() as int;
    let base = fxmul(
        fxmul(
            fxmul(FX_ONE as int, fxdiv(FX_ONE as int, olen, FX_ONE as int)),
            fxdiv(FX_ONE as int, olen - start, FX_ONE as int),
        ),
        THIRD as int,
    );
    let light_grown = densities_s(scene, p.objects@[start], lo, lp.len() as int, base);
    let camera_base = fxmul(light_grown, THIRD as int);
    &&& 0 <= start <= end < olen
    &&& lp.len() <= 2 && cp.len() <= 2
    &&& grown_s(scene, p, start, lp, ln, lo)
    &&& grown_s(scene, p, end, cp, cn, co)
    &&& fresh.light == p.light
    &&& fresh.points@ == p.points@.subrange(0, start + 2) + lp + cp.reverse()
        + p.points@.subrange(end + 1, p.points@.len() as int)
    &&& fresh.normals@ == p.normals@.subrange(0, start + 1) + ln + cn.reverse()
        + p.normals@.subrange(end as int, p.normals@.len() as int)
    &&& fresh.objects@ == p.objects@.subrange(0, start + 1) + lo + co.reverse()
        + p.objects@.subrange(end as int, p.objects@.len() as int)
    &&& prob == densities_s(scene, p.objects@[end], co, cp.len() as int, camera_base)
}

impl Path {
    /// Grow a fresh chain of up to two vertices for a mutation: from the
    /// anchor, scatter and cast repeatedly; a miss aborts the whole attempt.
    /// On success the chain's vectors are filled and the joint density of the
    /// scattering draws is multiplied into the probability.
    /// One growth step of a mutation segment: a scattering draw from the
    /// current tip's surface folded into the density, then a cast; a hit is
    /// appended, a miss aborts.
    #[verifier::rlimit(100)]
    fn grow_step(
        &self,
        scene: &Scene,
        anchor: usize,
        acc: i64,
        pts: &mut Vec<Vec3>,
        nms: &mut Vec<Vec3>,
        obs: &mut Vec<usize>,
        rng: &mut rand::rngs::ThreadRng,
    ) -> (r: Option<i64>)
        requires
            self.wf(*scene),
            anchor < self.objects@.len(),
            old(pts)@.len() == old(nms)@.len() && old(nms)@.len() == old(obs)@.len(),
            forall|j: int|
                0 <= j < old(obs)@.len() ==> (#[trigger] old(obs)@[j]) < scene.objects@.len(),
            sabs(acc as int) <= FX_LIM as int,
        ensures
            r is None ==> final(pts)@ == old(pts)@ && final(nms)@ == old(nms)@ && final(obs)@
                == old(obs)@,
            r matches Some(p2) ==> {
                &&& final(pts)@ == old(pts)@.push(final(pts)@.last())
                &&& final(nms)@ == old(nms)@.push(final(nms)@.last())
                &&& final(obs)@ == old(obs)@.push(final(obs)@.last())
                &&& final(pts)@.drop_last() == old(pts)@ && final(nms)@.drop_last() == old(nms)@
                    && final(obs)@.drop_last() == old(obs)@
                &&& final(obs)@.last() < scene.objects@.len()
                &&& from_cast_s(
                    *scene,
                    if old(pts)@.len() == 0 {
                        self.points@[anchor + 1]
                    } else {
                        old(pts)@.last()
                    },
                    final(pts)@.last(),
                    final(nms)@.last(),
                    final(obs)@.last(),
                )
                &&& p2 == fxmul(
                    acc as int,
                    fxmul(
                        lum_s(
                            crate::material::color_s(
                                scene.objects@[(if old(obs)@.len() == 0 {
                                    self.objects@[anchor as int]
                                } else {
                                    old(obs)@.last()
                                }) as int].material,
                            ),
                        ),
                        crate::material::INV_2PI as int,
                    ),
                )
                &&& sabs(p2 as int) <= FX_LIM as int
                &&& scene.wf() && 0 <= acc <= FX_ONE ==> 0 <= p2 <= FX_ONE
            },
    {
        let plen = self.points.len();
        proof {
            assert(plen == self.objects@.len() + 2);
        }
        let i = pts.len();
        let (x0, normal, oi): (Vec3, Vec3, usize) = if i == 0 {
            (self.points[anchor + 1], self.normals[anchor], self.objects[anchor])
        } else {
            (pts[i - 1], nms[i - 1], obs[i - 1])
        };
        proof {
            if scene.wf() {
                assert(scene.objects@[oi as int].material.wf());
            }
        }
        let (p, dir) = scene.objects[oi].material.propose(normal, rng);
        let next = fx_mul(acc, p);
        let ray = Ray { start: x0, dir };
        match scene.cast(ray) {
            Some((t, n, hit_obj)) => {
                pts.push(ray.of(t));
                nms.push(n);
                obs.push(hit_obj);
                proof {
                    assert(pts@.drop_last() =~= old(pts)@);
                    assert(nms@.drop_last() =~= old(nms)@);
                    assert(obs@.drop_last() =~= old(obs)@);
                    assert(from_cast_s(*scene, x0, pts@.last(), n, hit_obj)) by {
                        assert(match scene_cast_s(*scene, Ray { start: x0, dir }) {
                            Some(hit) => hit.1 == n && hit.2 == hit_obj && pts@.last()
                                == ray_of_s(Ray { start: x0, dir }, hit.0 as int),
                            None => false,
                        });
                    }
                }
                Some(next)
            },
            None => None,
        }
    }

    /// Grow a fresh chain of up to two vertices for a mutation: from the
    /// anchor, scatter and cast repeatedly; a miss aborts the whole attempt.
    /// On success the chain's vectors hold genuinely grown vertices and the
    /// returned value is the joint density of the scattering draws folded
    /// onto `prob`.
    #[verifier::rlimit(100)]
    fn grow_segment(
        &self,
        scene: &Scene,
        count: usize,
        anchor: usize,
        prob: i64,
        pts: &mut Vec<Vec3>,
        nms: &mut Vec<Vec3>,
        obs: &mut Vec<usize>,
        rng: &mut rand::rngs::ThreadRng,
    ) -> (r: Option<i64>)
        requires
            self.wf(*scene),
            anchor < self.objects@.len(),
            old(pts)@.len() == 0 && old(nms)@.len() == 0 && old(obs)@.len() == 0,
            sabs(prob as int) <= FX_LIM as int,
        ensures
            r matches Some(p2) ==> {
                &&& sabs(p2 as int) <= FX_LIM as int
                &&& scene.wf() && 0 <= prob <= FX_ONE ==> 0 <= p2 <= FX_ONE
                &&& final(pts)@.len() == count && final(nms)@.len() == count && final(obs)@.len()
                    == count
                &&& forall|i: int|
                    0 <= i < count ==> (#[trigger] final(obs)@[i]) < scene.objects@.len()
                &&& grown_s(*scene, *self, anchor as int, final(pts)@, final(nms)@, final(obs)@)
                &&& p2 == densities_s(
                    *scene,
                    self.objects@[anchor as int],
                    final(obs)@,
                    count as int,
                    prob as int,
                )
            },
    {
        proof {
            // the empty segment is trivially genuine with nothing folded
            reveal(crate::mlt::grown_s);
            reveal(crate::mlt::densities_s);
        }
        let mut acc = prob;
        let mut i: usize = 0;
        while i < count
            invariant
                self.wf(*scene),
                anchor < self.objects@.len(),
                0 <= i <= count,
                pts@.len() == i && nms@.len() == i && obs@.len() == i,
                forall|j: int| 0 <= j < i ==> (#[trigger] obs@[j]) < scene.objects@.len(),
                grown_s(*scene, *self, anchor as int, pts@, nms@, obs@),
                acc == densities_s(
                    *scene,
                    self.objects@[anchor as int],
                    obs@,
                    i as int,
                    prob as int,
                ),
                sabs(acc as int) <= FX_LIM as int,
                scene.wf() && 0 <= prob <= FX_ONE ==> 0 <= acc <= FX_ONE,
            decreases count - i,
        {
            let stepped = self.grow_step(scene, anchor, acc, pts, nms, obs, rng);
            acc = match stepped {
                Some(p2) => p2,
                None => {
                    return None;
                },
            };
            proof {
                lemma_grow_push(
                    *scene,
                    *self,
                    anchor as int,
                    pts@.drop_last(),
                    nms@.drop_last(),
                    obs@.drop_last(),
                    pts@.last(),
                    nms@.last(),
                    obs@.last(),
                    self.objects@[anchor as int],
                    prob as int,
                );
            }
            i = i + 1;
        }
        Some(acc)
    }

    /// Propose a local bidirectional mutation: pick `start` and `end`
    /// uniformly among the interior vertices, regenerate up to two vertices
    /// outward from each boundary by scattering draws, and splice.  `None`
    /// when the path has no interior vertex, or when a regenerated ray
    /// escapes the scene (the attempt is abandoned and the path stands).  A
    /// successful mutation returns the joint density of every random choice
    /// with the fresh path, which keeps everything outside `[start, end]`.
    #[verifier::rlimit(100)]
    #[verifier::spinoff_prover]
    pub fn mutate(&self, scene: &Scene, rng: &mut rand::rngs::ThreadRng) -> (r: Option<(i64, Path)>)
        requires
            self.wf(*scene),
        ensures
            self.objects@.len() == 0 ==> r is None,
            r matches Some(pr) ==> {
                &&& pr.1.wf(*scene)
                &&& pr.1.light == self.light
                &&& sabs(pr.0 as int) <= FX_LIM as int
                &&& scene.wf() ==> 0 <= pr.0 <= FX_ONE
                &&& exists|start: int, end: int|
                    0 <= start <= end < self.objects@.len() && #[trigger] keeps_outside_s(
                        *self,
                        pr.1,
                        start,
                        end,
                    )
                &&& mutated_from_s(*self, *scene, pr.0, pr.1)
            },
    {
        let olen = self.objects.len();
        if olen == 0 {
            return None;
        }
        let mut prob: i64 = FX_ONE;
        let start = rng_below(rng, olen);
        prob = fx_mul(prob, inv_count(olen));
        let end = start + rng_below(rng, olen - start);
        prob = fx_mul(prob, inv_count(olen - start));
        let new_light_len = rng_below(rng, 3);
        prob = fx_mul(prob, THIRD);
        let mut lp: Vec<Vec3> = Vec::new();
        let mut ln: Vec<Vec3> = Vec::new();
        let mut lo: Vec<usize> = Vec::new();
        let grown = self.grow_segment(scene, new_light_len, start, prob, &mut lp, &mut ln, &mut lo, rng);
        prob = match grown {
            Some(p) => p,
            None => {
                return None;
            },
        };
        let new_camera_len = rng_below(rng, 3);
        prob = fx_mul(prob, THIRD);
        let mut cp: Vec<Vec3> = Vec::new();
        let mut cn: Vec<Vec3> = Vec::new();
        let mut co: Vec<usize> = Vec::new();
        let grown = self.grow_segment(scene, new_camera_len, end, prob, &mut cp, &mut cn, &mut co, rng);
        prob = match grown {
            Some(p) => p,
            None => {
                return None;
            },
        };
        let fresh = self.splice(scene, start, end, &lp, &ln, &lo, &cp, &cn, &co);
        proof {
            assert(mutation_shape_s(
                *self,
                *scene,
                prob,
                fresh,
                start as int,
                end as int,
                lp@,
                ln@,
                lo@,
                cp@,
                cn@,
                co@,
            )) by {
                reveal(crate::mlt::mutation_shape_s);
            }
            assert(mutated_from_s(*self, *scene, prob, fresh));
            let si = start as int;
            let ei = end as int;
            let bp = self.points@;
            let ap = fresh.points@;
            assert(ap.subrange(0, si + 2) =~= bp.subrange(0, si + 2));
            assert(ap.subrange(ap.len() - (bp.len() - ei - 1), ap.len() as int) =~= bp.subrange(
                ei + 1,
                bp.len() as int,
            ));
            let bn = self.normals@;
            let an = fresh.normals@;
            assert(an.subrange(0, si + 1) =~= bn.subrange(0, si + 1));
            assert(an.subrange(an.len() - (bn.len() - ei), an.len() as int) =~= bn.subrange(
                ei,
                bn.len() as int,
            ));
            let bo = self.objects@;
            let ao = fresh.objects@;
            assert(ao.subrange(0, si + 1) =~= bo.subrange(0, si + 1));
            assert(ao.subrange(ao.len() - (bo.len() - ei), ao.len() as int) =~= bo.subrange(
                ei,
                bo.len() as int,
            ));
            assert(keeps_outside_s(*self, fresh, si, ei));
        }
        Some((prob, fresh))
    }
}

/// The hard cap on alternating chain growth: the continue coin makes long
/// chains geometrically unlikely, and this bound keeps the loop finite.
pub const MAX_DEPTH: usize = 16;

/// The primary camera ray for image-plane coordinates `(x, y)`.
pub open spec fn primary_ray_s(scene: Scene, x: int, y: int) -> Ray {
    Ray { start: scene.camera.pos, dir: crate::camera::propose_s(scene.camera, x, y) }
}

/// Whether `(pt, nm, ob)` is a hit the scene's geometry handed back for some
/// cast anchored at `anchor`: the nearest hit of a ray from `anchor` carries
/// exactly this normal and surface index, and `pt` is the point at its
/// parameter.
pub open spec fn from_cast_s(scene: Scene, anchor: Vec3, pt: Vec3, nm: Vec3, ob: usize) -> bool {
    exists|dir: Vec3|
        match #[trigger] scene_cast_s(scene, Ray { start: anchor, dir }) {
            Some(hit) => hit.1 == nm && hit.2 == ob && pt == ray_of_s(
                Ray { start: anchor, dir },
                hit.0 as int,
            ),
            None => false,
        }
}

/// Every interior vertex of the path is a geometry hit extended from one of
/// its two chain neighbors, carrying that hit's normal and surface index.
pub open spec fn chained_s(p: Path, scene: Scene) -> bool {
    forall|j: int|
        1 <= j <= p.objects@.len() ==> from_cast_s(
            scene,
            p.points@[j - 1],
            #[trigger] p.points@[j],
            p.normals@[j - 1],
            p.objects@[j - 1],
        ) || from_cast_s(scene, p.points@[j + 1], p.points@[j], p.normals@[j - 1], p.objects@[j - 1])
}


/// What assembling the two chains gives: the path starts at the light
/// anchor, ends at the camera anchor, keeps the first camera hit as its
/// second-to-last position, and every interior vertex is a geometry hit
/// extended from a chain neighbor.
proof fn lemma_assembly(
    scene: Scene,
    lp: Seq<Vec3>,
    lnm: Seq<Vec3>,
    lob: Seq<usize>,
    cpts: Seq<Vec3>,
    cnm: Seq<Vec3>,
    cob: Seq<usize>,
    p: Path,
)
    requires
        lp.len() == lob.len() + 1 && lnm.len() == lob.len(),
        cpts.len() == cob.len() + 1 && cnm.len() == cob.len(),
        forall|k: int|
            1 <= k < lp.len() ==> from_cast_s(
                scene,
                lp[k - 1],
                #[trigger] lp[k],
                lnm[k - 1],
                lob[k - 1],
            ),
        forall|k: int|
            1 <= k < cpts.len() ==> from_cast_s(
                scene,
                cpts[k - 1],
                #[trigger] cpts[k],
                cnm[k - 1],
                cob[k - 1],
            ),
        p.points@ == lp + cpts.reverse(),
        p.normals@ == lnm + cnm.reverse(),
        p.objects@ == lob + cob.reverse(),
    ensures
        p.points@[0] == lp[0],
        p.points@.last() == cpts[0],
        chained_s(p, scene),
        cpts.len() >= 2 ==> p.points@.len() >= 3 && p.points@[p.points@.len() - 2] == cpts[1]
            && p.normals@.last() == cnm[0] && p.objects@.last() == cob[0],
{
    let ll = lp.len() as int;
    let cc = cpts.len() as int;
    let olen = p.objects@.len() as int;
    assert(p.points@[0] == lp[0]);
    assert(p.points@.last() == cpts.reverse()[cc - 1]);
    assert(cpts.reverse()[cc - 1] == cpts[0]);
    if cc >= 2 {
        assert(p.points@[p.points@.len() - 2] == cpts.reverse()[cc - 2]);
        assert(cpts.reverse()[cc - 2] == cpts[1]);
        assert(p.normals@.last() == cnm.reverse()[cc - 2]);
        assert(cnm.reverse()[cc - 2] == cnm[0]);
        assert(p.objects@.last() == cob.reverse()[cc - 2]);
        assert(cob.reverse()[cc - 2] == cob[0]);
    }
    assert forall|j: int| 1 <= j <= olen implies from_cast_s(
        scene,
        p.points@[j - 1],
        #[trigger] p.points@[j],
        p.normals@[j - 1],
        p.objects@[j - 1],
    ) || from_cast_s(
        scene,
        p.points@[j + 1],
        p.points@[j],
        p.normals@[j - 1],
        p.objects@[j - 1],
    ) by {
        if j < ll {
            // a light-chain vertex: extended from its left neighbor
            assert(p.points@[j] == lp[j]);
            assert(p.points@[j - 1] == lp[j - 1]);
            assert(p.normals@[j - 1] == lnm[j - 1]);
            assert(p.objects@[j - 1] == lob[j - 1]);
            assert(from_cast_s(scene, lp[j - 1], lp[j], lnm[j - 1], lob[j - 1]));
        } else {
            // a camera-chain vertex: extended from its right neighbor
            let k = ll + cc - 1 - j;
            assert(1 <= k < cc);
            assert(p.points@[j] == cpts.reverse()[j - ll]);
            assert(cpts.reverse()[j - ll] == cpts[k]);
            assert(p.points@[j + 1] == cpts.reverse()[j + 1 - ll]);
            assert(cpts.reverse()[j + 1 - ll] == cpts[k - 1]);
            assert(p.normals@[j - 1] == cnm.reverse()[j - ll]);
            assert(cnm.reverse()[j - ll] == cnm[k - 1]);
            assert(p.objects@[j - 1] == cob.reverse()[j - ll]);
            assert(cob.reverse()[j - ll] == cob[k - 1]);
            assert(from_cast_s(scene, cpts[k - 1], cpts[k], cnm[k - 1], cob[k - 1]));
        }
    }
}

impl Scene {
    /// Join the two chains into a path: the light chain, then the camera
    /// chain reversed, so the order runs light to camera.
    fn assemble_path(
        &self,
        light: usize,
        lp: &Vec<Vec3>,
        lnm: &Vec<Vec3>,
        lob: &Vec<usize>,
        cpts: &Vec<Vec3>,
        cnm: &Vec<Vec3>,
        cob: &Vec<usize>,
    ) -> (r: Path)
        requires
            light < self.lights@.len(),
            lp@.len() == lob@.len() + 1 && lnm@.len() == lob@.len(),
            cpts@.len() == cob@.len() + 1 && cnm@.len() == cob@.len(),
            forall|j: int| 0 <= j < lob@.len() ==> (#[trigger] lob@[j]) < self.objects@.len(),
            forall|j: int| 0 <= j < cob@.len() ==> (#[trigger] cob@[j]) < self.objects@.len(),
            forall|k: int|
                1 <= k < lp@.len() ==> from_cast_s(
                    *self,
                    lp@[k - 1],
                    #[trigger] lp@[k],
                    lnm@[k - 1],
                    lob@[k - 1],
                ),
            forall|k: int|
                1 <= k < cpts@.len() ==> from_cast_s(
                    *self,
                    cpts@[k - 1],
                    #[trigger] cpts@[k],
                    cnm@[k - 1],
                    cob@[k - 1],
                ),
        ensures
            r.wf(*self),
            r.light == light,
            r.points@.len() == lp@.len() + cpts@.len(),
            r.points@[0] == lp@[0],
            r.points@.last() == cpts@[0],
            chained_s(r, *self),
            cpts@.len() >= 2 ==> r.points@.len() >= 3 && r.points@[r.points@.len() - 2]
                == cpts@[1] && r.normals@.last() == cnm@[0] && r.objects@.last() == cob@[0],
            cpts@.len() == 1 && lp@.len() == 1 ==> r.objects@.len() == 0 && r.points@ == seq![
                lp@[0],
                cpts@[0],
            ],
    {
        let mut points: Vec<Vec3> = Vec::new();
        push_range(&mut points, lp, 0, lp.len());
        push_rev(&mut points, cpts);
        let mut normals: Vec<Vec3> = Vec::new();
        push_range(&mut normals, lnm, 0, lnm.len());
        push_rev(&mut normals, cnm);
        let mut objects: Vec<usize> = Vec::new();
        push_range(&mut objects, lob, 0, lob.len());
        push_rev(&mut objects, cob);
        let path = Path { light, objects, points, normals };
        proof {
            assert(lp@.subrange(0, lp@.len() as int) =~= lp@);
            assert(lnm@.subrange(0, lnm@.len() as int) =~= lnm@);
            assert(lob@.subrange(0, lob@.len() as int) =~= lob@);
            assert(path.points@ =~= lp@ + cpts@.reverse());
            assert(path.normals@ =~= lnm@ + cnm@.reverse());
            assert(path.objects@ =~= lob@ + cob@.reverse());
            lemma_assembly(*self, lp@, lnm@, lob@, cpts@, cnm@, cob@, path);
            if cpts@.len() == 1 && lp@.len() == 1 {
                assert(path.points@ =~= seq![lp@[0], cpts@[0]]);
            }
        }
        path
    }
}

impl Scene {
    /// Alternately extend the camera chain and the light chain, each step
    /// gated by a fair continue coin and a cast, until a coin fails, a ray
    /// escapes, or the hard depth cap is met.  Both chains only grow: their
    /// existing entries stay exactly as handed in, and every appended vertex
    /// is a geometry hit extended from its chain's old tip.
    fn grow_chains(
        &self,
        prob: i64,
        lp: &mut Vec<Vec3>,
        lnm: &mut Vec<Vec3>,
        lob: &mut Vec<usize>,
        cpts: &mut Vec<Vec3>,
        cnm: &mut Vec<Vec3>,
        cob: &mut Vec<usize>,
        rng: &mut rand::rngs::ThreadRng,
    ) -> (r: i64)
        requires
            old(lp)@.len() == old(lob)@.len() + 1 && old(lnm)@.len() == old(lob)@.len(),
            old(cpts)@.len() == old(cob)@.len() + 1 && old(cnm)@.len() == old(cob)@.len(),
            old(lob)@.len() >= 1 && old(cob)@.len() >= 1,
            forall|j: int| 0 <= j < old(lob)@.len() ==> (#[trigger] old(lob)@[j]) < self.objects@.len(),
            forall|j: int| 0 <= j < old(cob)@.len() ==> (#[trigger] old(cob)@[j]) < self.objects@.len(),
            forall|k: int|
                1 <= k < old(lp)@.len() ==> from_cast_s(
                    *self,
                    old(lp)@[k - 1],
                    #[trigger] old(lp)@[k],
                    old(lnm)@[k - 1],
                    old(lob)@[k - 1],
                ),
            forall|k: int|
                1 <= k < old(cpts)@.len() ==> from_cast_s(
                    *self,
                    old(cpts)@[k - 1],
                    #[trigger] old(cpts)@[k],
                    old(cnm)@[k - 1],
                    old(cob)@[k - 1],
                ),
            sabs(prob as int) <= FX_LIM as int,
        ensures
            sabs(r as int) <= FX_LIM as int,
            self.wf() && 0 <= prob <= FX_ONE ==> 0 <= r <= FX_ONE,
            final(lp)@.len() == final(lob)@.len() + 1 && final(lnm)@.len() == final(lob)@.len(),
            final(cpts)@.len() == final(cob)@.len() + 1,
            final(cnm)@.len() == final(cob)@.len(),
            old(lp)@.len() <= final(lp)@.len() && old(lnm)@.len() <= final(lnm)@.len() && old(
                lob,
            )@.len() <= final(lob)@.len(),
            old(cpts)@.len() <= final(cpts)@.len() && old(cnm)@.len() <= final(cnm)@.len()
                && old(cob)@.len() <= final(cob)@.len(),
            final(lp)@.subrange(0, old(lp)@.len() as int) == old(lp)@,
            final(lnm)@.subrange(0, old(lnm)@.len() as int) == old(lnm)@,
            final(lob)@.subrange(0, old(lob)@.len() as int) == old(lob)@,
            final(cpts)@.subrange(0, old(cpts)@.len() as int) == old(cpts)@,
            final(cnm)@.subrange(0, old(cnm)@.len() as int) == old(cnm)@,
            final(cob)@.subrange(0, old(cob)@.len() as int) == old(cob)@,
            forall|j: int|
                0 <= j < final(lob)@.len() ==> (#[trigger] final(lob)@[j]) < self.objects@.len(),
            forall|j: int|
                0 <= j < final(cob)@.len() ==> (#[trigger] final(cob)@[j]) < self.objects@.len(),
            forall|k: int|
                1 <= k < final(lp)@.len() ==> from_cast_s(
                    *self,
                    final(lp)@[k - 1],
                    #[trigger] final(lp)@[k],
                    final(lnm)@[k - 1],
                    final(lob)@[k - 1],
                ),
            forall|k: int|
                1 <= k < final(cpts)@.len() ==> from_cast_s(
                    *self,
                    final(cpts)@[k - 1],
                    #[trigger] final(cpts)@[k],
                    final(cnm)@[k - 1],
                    final(cob)@[k - 1],
                ),
    {
        let mut acc = prob;
        let mut depth: usize = 0;
        while depth < MAX_DEPTH
            invariant
                lp@.len() == lob@.len() + 1 && lnm@.len() == lob@.len(),
                cpts@.len() == cob@.len() + 1 && cnm@.len() == cob@.len(),
                lob@.len() >= 1 && cob@.len() >= 1,
                old(lp)@.len() <= lp@.len() && old(cpts)@.len() <= cpts@.len(),
                old(lnm)@.len() <= lnm@.len() && old(cnm)@.len() <= cnm@.len(),
                old(lob)@.len() <= lob@.len() && old(cob)@.len() <= cob@.len(),
                lp@.subrange(0, old(lp)@.len() as int) == old(lp)@,
                lnm@.subrange(0, old(lnm)@.len() as int) == old(lnm)@,
                lob@.subrange(0, old(lob)@.len() as int) == old(lob)@,
                cpts@.subrange(0, old(cpts)@.len() as int) == old(cpts)@,
                cnm@.subrange(0, old(cnm)@.len() as int) == old(cnm)@,
                cob@.subrange(0, old(cob)@.len() as int) == old(cob)@,
                forall|j: int| 0 <= j < lob@.len() ==> (#[trigger] lob@[j]) < self.objects@.len(),
                forall|j: int| 0 <= j < cob@.len() ==> (#[trigger] cob@[j]) < self.objects@.len(),
                forall|k: int|
                    1 <= k < lp@.len() ==> from_cast_s(
                        *self,
                        lp@[k - 1],
                        #[trigger] lp@[k],
                        lnm@[k - 1],
                        lob@[k - 1],
                    ),
                forall|k: int|
                    1 <= k < cpts@.len() ==> from_cast_s(
                        *self,
                        cpts@[k - 1],
                        #[trigger] cpts@[k],
                        cnm@[k - 1],
                        cob@[k - 1],
                    ),
                sabs(acc as int) <= FX_LIM as int,
                self.wf() && 0 <= prob <= FX_ONE ==> 0 <= acc <= FX_ONE,
            decreases MAX_DEPTH - depth,
        {
            if !rng_coin(rng) {
                break;
            }
            acc = fx_mul(acc, CONTINUE_CHANCE);
            let (p2, grew) = self.extend_chain(acc, cpts, cnm, cob, rng);
            acc = p2;
            proof {
                assert(cpts@.subrange(0, old(cpts)@.len() as int) =~= old(cpts)@);
                assert(cnm@.subrange(0, old(cnm)@.len() as int) =~= old(cnm)@);
                assert(cob@.subrange(0, old(cob)@.len() as int) =~= old(cob)@);
            }
            if !grew {
                break;
            }
            if !rng_coin(rng) {
                break;
            }
            acc = fx_mul(acc, CONTINUE_CHANCE);
            let (p3, grew) = self.extend_chain(acc, lp, lnm, lob, rng);
            acc = p3;
            proof {
                assert(lp@.subrange(0, old(lp)@.len() as int) =~= old(lp)@);
                assert(lnm@.subrange(0, old(lnm)@.len() as int) =~= old(lnm)@);
                assert(lob@.subrange(0, old(lob)@.len() as int) =~= old(lob)@);
            }
            if !grew {
                break;
            }
            depth = depth + 1;
        }
        proof {
            assert(lp@.subrange(0, old(lp)@.len() as int) =~= old(lp)@);
        }
        acc
    }
}

impl Scene {
    /// Extend a chain by one vertex: a scattering draw from the surface at
    /// the chain's tip, folded into the probability, then a cast; a hit is
    /// appended (a geometry hit extended from the old tip), a miss leaves
    /// the chain as it was.
    fn extend_chain(
        &self,
        prob: i64,
        pts: &mut Vec<Vec3>,
        nms: &mut Vec<Vec3>,
        obs: &mut Vec<usize>,
        rng: &mut rand::rngs::ThreadRng,
    ) -> (r: (i64, bool))
        requires
            old(pts)@.len() == old(obs)@.len() + 1 && old(nms)@.len() == old(obs)@.len(),
            old(obs)@.len() >= 1,
            forall|j: int| 0 <= j < old(obs)@.len() ==> (#[trigger] old(obs)@[j]) < self.objects@.len(),
            sabs(prob as int) <= FX_LIM as int,
        ensures
            sabs(r.0 as int) <= FX_LIM as int,
            self.wf() && 0 <= prob <= FX_ONE ==> 0 <= r.0 <= FX_ONE,
            !r.1 ==> final(pts)@ == old(pts)@ && final(nms)@ == old(nms)@ && final(obs)@ == old(obs)@,
            r.1 ==> {
                &&& final(pts)@.len() == old(pts)@.len() + 1
                &&& final(nms)@.len() == old(nms)@.len() + 1
                &&& final(obs)@.len() == old(obs)@.len() + 1
                &&& final(pts)@ == old(pts)@.push(final(pts)@.last())
                &&& final(nms)@ == old(nms)@.push(final(nms)@.last())
                &&& final(obs)@ == old(obs)@.push(final(obs)@.last())
                &&& final(obs)@.last() < self.objects@.len()
                &&& from_cast_s(
                    *self,
                    old(pts)@.last(),
                    final(pts)@.last(),
                    final(nms)@.last(),
                    final(obs)@.last(),
                )
            },
    {
        let tip_o = obs[obs.len() - 1];
        let tip_n = nms[nms.len() - 1];
        let tip_p = pts[pts.len() - 1];
        proof {
            if self.wf() {
                assert(self.objects@[tip_o as int].material.wf());
            }
        }
        let (p, dir) = self.objects[tip_o].material.propose(tip_n, rng);
        let prob = fx_mul(prob, p);
        let ray = Ray { start: tip_p, dir };
        match self.cast(ray) {
            Some((t, n, oi)) => {
                pts.push(ray.of(t));
                nms.push(n);
                obs.push(oi);
                proof {
                    assert(from_cast_s(*self, tip_p, pts@.last(), n, oi)) by {
                        assert(match scene_cast_s(*self, Ray { start: tip_p, dir }) {
                            Some(hit) => hit.1 == n && hit.2 == oi && pts@.last() == ray_of_s(
                                Ray { start: tip_p, dir },
                                hit.0 as int,
                            ),
                            None => false,
                        });
                    }
                }
                (prob, true)
            },
            None => (prob, false),
        }
    }
}

impl Scene {
    /// Build an initial light-to-camera path for image-plane coordinates
    /// `(x, y)`: the camera chain starts by casting the primary ray, the
    /// light chain by a uniform sphere sample from the light, and while both
    /// grow, alternating extensions are each gated by a fair continue coin
    /// and drawn by the surface's scattering sampler.  A miss ends that
    /// chain's growth; a primary miss yields probability one with the bare
    /// light-to-camera path.  Every interior vertex is a geometry hit
    /// extended from its chain neighbor.  The returned probability is the
    /// joint density of every random choice; the path runs from the light's
    /// position to the camera's.
    #[verifier::rlimit(100)]
    pub fn propose(&self, x: i64, y: i64, light: usize, rng: &mut rand::rngs::ThreadRng) -> (r: (
        i64,
        Path,
    ))
        requires
            light < self.lights@.len(),
        ensures
            r.1.wf(*self),
            r.1.light == light,
            sabs(r.0 as int) <= FX_LIM as int,
            self.wf() ==> 0 <= r.0 <= FX_ONE,
            r.1.points@.len() >= 2,
            r.1.points@[0] == self.lights@[light as int].pos,
            r.1.points@.last() == self.camera.pos,
            chained_s(r.1, *self),
            scene_cast_s(*self, primary_ray_s(*self, x as int, y as int)) is None ==> r.0 == FX_ONE
                && r.1.objects@.len() == 0 && r.1.points@ == seq![
                self.lights@[light as int].pos,
                self.camera.pos,
            ],
            scene_cast_s(*self, primary_ray_s(*self, x as int, y as int)) matches Some(hit) ==> {
                &&& r.1.points@.len() >= 3
                &&& r.1.points@[r.1.points@.len() - 2] == ray_of_s(
                    primary_ray_s(*self, x as int, y as int),
                    hit.0 as int,
                )
                &&& r.1.normals@.last() == hit.1
                &&& r.1.objects@.last() == hit.2
            },
    {
        let ghost pray = primary_ray_s(*self, x as int, y as int);
        let mut prob: i64 = FX_ONE;
        let lpos = self.lights[light].pos;
        let mut lp: Vec<Vec3> = Vec::new();
        lp.push(lpos);
        let mut lnm: Vec<Vec3> = Vec::new();
        let mut lob: Vec<usize> = Vec::new();
        let mut cpts: Vec<Vec3> = Vec::new();
        cpts.push(self.camera.pos);
        let mut cnm: Vec<Vec3> = Vec::new();
        let mut cob: Vec<usize> = Vec::new();
        let first = self.camera.propose(x, y);
        let ray = Ray { start: self.camera.pos, dir: first };
        proof {
            assert(ray == pray);
        }
        if let Some((t, n, oi)) = self.cast(ray) {
            cpts.push(ray.of(t));
            cnm.push(n);
            cob.push(oi);
            proof {
                assert(from_cast_s(*self, cpts@[0], cpts@[1], cnm@[0], cob@[0])) by {
                    assert(match scene_cast_s(*self, Ray { start: cpts@[0], dir: first }) {
                        Some(hit) => hit.1 == cnm@[0] && hit.2 == cob@[0] && cpts@[1] == ray_of_s(
                            Ray { start: cpts@[0], dir: first },
                            hit.0 as int,
                        ),
                        None => false,
                    });
                }
            }
            if rng_coin(rng) {
                prob = fx_mul(prob, CONTINUE_CHANCE);
                let (p, ldir) = self.lights[light].propose(rng);
                prob = fx_mul(prob, p);
                let lray = Ray { start: lpos, dir: ldir };
                if let Some((t, n, oi)) = self.cast(lray) {
                    lp.push(lray.of(t));
                    lnm.push(n);
                    lob.push(oi);
                    proof {
                        assert(from_cast_s(*self, lp@[0], lp@[1], lnm@[0], lob@[0])) by {
                            assert(match scene_cast_s(*self, Ray { start: lp@[0], dir: ldir }) {
                                Some(hit) => hit.1 == lnm@[0] && hit.2 == lob@[0] && lp@[1]
                                    == ray_of_s(Ray { start: lp@[0], dir: ldir }, hit.0 as int),
                                None => false,
                            });
                        }
                    }
                    prob = self.grow_chains(
                        prob,
                        &mut lp,
                        &mut lnm,
                        &mut lob,
                        &mut cpts,
                        &mut cnm,
                        &mut cob,
                        rng,
                    );
                    proof {
                        assert(lp@.subrange(0, 2)[0] == lp@[0]);
                        assert(cpts@.subrange(0, 2)[0] == cpts@[0]);
                        assert(cpts@.subrange(0, 2)[1] == cpts@[1]);
                        assert(cnm@.subrange(0, 1)[0] == cnm@[0]);
                        assert(cob@.subrange(0, 1)[0] == cob@[0]);
                    }
                }
            }
        }
        let path = self.assemble_path(light, &lp, &lnm, &lob, &cpts, &cnm, &cob);
        proof {
            assert(lp@[0] == self.lights@[light as int].pos);
            assert(cpts@[0] == self.camera.pos);
        }
        (prob, path)
    }
}

/// The color at the start of recording: the light's emission attenuated by
/// the falloff of the final camera-space segment.
pub open spec fn record_base_s(cam: Camera, p: Path, scene: Scene) -> Color {
    let pt = to_camera_s(
        cam,
        vsub_s(p.points@[p.points@.len() - 2], p.points@[p.points@.len() - 1]),
    );
    cscale_s(scene.lights@[p.light as int].color, falloff_s(pt))
}

/// The recorded color after the first `k` interior vertices: the base color,
/// scaled per vertex by the geometry factor and filtered by the surface's
/// scattering response; an occluded vertex blacks everything out.
pub open spec fn contrib_upto_s(cam: Camera, p: Path, scene: Scene, k: int) -> Color
    decreases k,
{
    if k <= 0 {
        record_base_s(cam, p, scene)
    } else {
        let prev = contrib_upto_s(cam, p, scene, k - 1);
        if occluded_s(p, scene, k - 1) {
            Color { r: 0, g: 0, b: 0 }
        } else {
            cmul_s(cscale_s(prev, geom_s(p, k - 1)), bsdf_at_s(p, scene, k - 1))
        }
    }
}

/// What one recorded sample adds to its cell, before weighting.
pub open spec fn contrib_s(cam: Camera, p: Path, scene: Scene) -> Color {
    contrib_upto_s(cam, p, scene, p.objects@.len() as int)
}

/// Where a path lands on the sensor: the final segment carried into camera
/// space, perspective-divided by its depth times the focal length, and mapped
/// to a cell index; `None` off the sensor or for a segment with no depth.
pub open spec fn project_s(cam: Camera, p: Path, width: int, height: int) -> Option<int> {
    let pt = to_camera_s(
        cam,
        vsub_s(p.points@[p.points@.len() - 2], p.points@[p.points@.len() - 1]),
    );
    if pt.z == 0 {
        None
    } else {
        let factor = fxdiv(cam.f as int, pt.z as int, FX_LIM as int);
        let px = fxmul(pt.x as int, factor);
        let py = fxmul(pt.y as int, factor);
        if -FX_ONE <= px < FX_ONE && -FX_ONE <= py < FX_ONE {
            let xx = (px + FX_ONE) * width / (2 * FX_ONE as int);
            let yy = (FX_ONE - py) * height / (2 * FX_ONE as int);
            if yy < height {
                Some(width * yy + xx)
            } else {
                None
            }
        } else {
            None
        }
    }
}

/// An image-plane coordinate in `[0, 2)` mapped to a cell row or column.
fn pix(p: i64, extent: usize) -> (r: usize)
    requires
        0 <= p <= 2 * FX_ONE,
        extent >= 1,
        extent <= 0x1000_0000,
    ensures
        r == (p as int) * (extent as int) / (2 * FX_ONE as int),
        p < 2 * FX_ONE ==> r < extent,
{
    proof {
        let pi = p as int;
        let ei = extent as int;
        assert(pi * ei <= 0x2_0000_0000 * 0x1000_0000) by (nonlinear_arith)
            requires
                0 <= pi <= 0x2_0000_0000,
                0 <= ei <= 0x1000_0000,
        ;
    }
    let prod: u128 = (p as u128) * (extent as u128);
    let q: u128 = prod / 0x2_0000_0000u128;
    proof {
        let pi = p as int;
        let ei = extent as int;
        let s2 = 2 * FX_ONE as int;
        if pi < s2 {
            assert(pi * ei <= (s2 - 1) * ei) by (nonlinear_arith)
                requires
                    pi <= s2 - 1,
                    ei >= 0,
            ;
            assert((s2 - 1) * ei == s2 * ei - ei);
            assert(s2 * ei == ei * s2) by (nonlinear_arith);
            assert(prod < ei * s2);
            assert(q < ei) by (nonlinear_arith)
                requires
                    q == prod as int / s2,
                    (prod as int) < ei * s2,
                    prod as int >= 0,
                    s2 > 0,
            ;
        }
    }
    q as usize
}

impl Path {
    /// The recording step at one interior vertex: black when the vertex's
    /// light-side segment is blocked, else the running color scaled by the
    /// geometry factor and filtered by the scattering response.
    #[verifier::rlimit(100)]
    fn contrib_step(&self, scene: &Scene, col: Color, i: usize) -> (r: Color)
        requires
            self.wf(*scene),
            i < self.objects@.len(),
        ensures
            r == if occluded_s(*self, *scene, i as int) {
                (Color { r: 0, g: 0, b: 0 })
            } else {
                cmul_s(
                    cscale_s(col, geom_s(*self, i as int)),
                    bsdf_at_s(*self, *scene, i as int),
                )
            },
    {
        let plen = self.points.len();
        proof {
            assert(plen == self.objects@.len() + 2);
            assert(i + 2 <= plen);
        }
        let x0 = self.points[i];
        let x1 = self.points[i + 1];
        let x2 = self.points[i + 2];
        let inc = x0.sub(x1);
        let out = x2.sub(x1);
        let nm = self.normals[i];
        let occ: bool = match scene.cast(Ray { start: x1, dir: inc }) {
            Some(hit) => hit.0 < FX_ONE,
            None => false,
        };
        if occ {
            return Color { r: 0, g: 0, b: 0 };
        }
        let oi = self.objects[i];
        col.scale(geom_factor(inc, nm)).mul(surface_bsdf(&scene.objects[oi].material, inc, out, nm))
    }
}

impl Camera {
    /// Record one sample of the path into the image: project the final
    /// segment onto the sensor and, if it lands there, add the light's color
    /// attenuated along the whole path, at the given weight, into that cell.
    /// A path that projects off the sensor leaves the image untouched; an
    /// occluded path adds black.
    #[verifier::rlimit(100)]
    #[verifier::spinoff_prover]
    pub fn record_sample(&self, path: &Path, scene: &Scene, image: &mut ImageBuffer, weight: i64)
        requires
            path.wf(*scene),
            old(image).wf(),
        ensures
            final(image).wf(),
            final(image).width_s() == old(image).width_s(),
            final(image).height_s() == old(image).height_s(),
            match project_s(*self, *path, old(image).width_s(), old(image).height_s()) {
                Some(idx) => final(image).cells() == old(image).cells().update(
                    idx,
                    accum_add_s(
                        old(image).cells()[idx],
                        contrib_s(*self, *path, *scene),
                        weight as int,
                    ),
                ),
                None => final(image).cells() == old(image).cells(),
            },
    {
        let plen = path.points.len();
        proof {
            assert(plen == path.objects@.len() + 2);
        }
        let pt = self.to_camera(path.points[plen - 2].sub(path.points[plen - 1]));
        if pt.z == 0 {
            return;
        }
        let factor = fx_div(self.f, pt.z, FX_LIM);
        let px = fx_mul(pt.x, factor);
        let py = fx_mul(pt.y, factor);
        if !(-FX_ONE <= px && px < FX_ONE && -FX_ONE <= py && py < FX_ONE) {
            return;
        }
        proof {
            crate::camera::lemma_buffer_wf(*image);
        }
        let width = image.width();
        let height = image.height();
        let xx = pix(px + FX_ONE, width);
        let yy = pix(FX_ONE - py, height);
        if yy >= height {
            return;
        }
        proof {
            assert(width * yy + xx < width * height) by (nonlinear_arith)
                requires
                    xx < width,
                    yy < height,
                    width >= 1,
                    height >= 1,
            ;
            assert(width * height <= 0x1000_0000);
        }
        let idx = width * yy + xx;
        let fall = fx_div(
            FX_ONE,
            sat_add(FX_ONE, fx_mul(DISTANCE_FACTOR, pt.norm_squared())),
            FX_ONE,
        );
        let mut col = scene.lights[path.light].color.scale(fall);
        let n = path.objects.len();
        let mut i: usize = 0;
        while i < n
            invariant
                path.wf(*scene),
                n == path.objects@.len(),
                0 <= i <= n,
                col == contrib_upto_s(*self, *path, *scene, i as int),
            decreases n - i,
        {
            col = path.contrib_step(scene, col, i);
            i = i + 1;
        }
        image.add_sample(idx, col, weight);
        proof {
            assert(final(image).cells() =~= old(image).cells().update(
                idx as int,
                accum_add_s(
                    old(image).cells()[idx as int],
                    contrib_s(*self, *path, *scene),
                    weight as int,
                ),
            ));
        }
    }
}

/// The Metropolis acceptance rule, written without division: a blocked
/// current path (measure zero) accepts unconditionally, and otherwise the
/// mutation is accepted when the uniform draw `u` lies under
/// `10 * (m_new / m_old) * (p_old / p_new)`, decided by cross-multiplying
/// and minding the sign of the denominator.  A denominator that is zero
/// beside a nonzero current measure (a vanished proposal density) counts as
/// infinitely favorable exactly when the current measure is positive, the
/// limit of the ratio.
pub open spec fn accept_s(m_old: int, m_new: int, p_old: int, p_new: int, u: int) -> bool {
    if m_old == 0 {
        true
    } else {
        let den = m_old * p_new;
        if den > 0 {
            u * m_old * p_new < 10 * (FX_ONE as int) * m_new * p_old
        } else if den < 0 {
            u * m_old * p_new > 10 * (FX_ONE as int) * m_new * p_old
        } else {
            m_old > 0
        }
    }
}

/// The acceptance rule, computed.  The right-hand product can outgrow the
/// machine's widest integer at the saturation bounds, so it is pinned to a
/// stand-in far beyond any left-hand value; the comparison's outcome is
/// unchanged, which the contract's exact rule states.
pub fn accept_mutation(m_old: i64, m_new: i64, p_old: i64, p_new: i64, u: i64) -> (r: bool)
    requires
        sabs(m_old as int) <= FX_LIM as int,
        sabs(m_new as int) <= FX_LIM as int,
        sabs(p_old as int) <= FX_LIM as int,
        sabs(p_new as int) <= FX_LIM as int,
        0 <= u <= FX_ONE,
    ensures
        r == accept_s(m_old as int, m_new as int, p_old as int, p_new as int, u as int),
{
    if m_old == 0 {
        return true;
    }
    proof {
        let lim = FX_LIM as int;
        assert((m_old as int) * (p_new as int) <= lim * lim && (m_old as int) * (p_new as int)
            >= -(lim * lim)) by (nonlinear_arith)
            requires
                -lim <= m_old as int <= lim,
                -lim <= p_new as int <= lim,
        ;
    }
    let den: i128 = (m_old as i128) * (p_new as i128);
    proof {
        let one = FX_ONE as int;
        let lim = FX_LIM as int;
        assert((u as int) * (den as int) <= one * (lim * lim) && (u as int) * (den as int) >= -(
        one * (lim * lim))) by (nonlinear_arith)
            requires
                0 <= u as int <= one,
                -(lim * lim) <= den as int <= lim * lim,
        ;
        assert((m_new as int) * (p_old as int) <= lim * lim && (m_new as int) * (p_old as int)
            >= -(lim * lim)) by (nonlinear_arith)
            requires
                -lim <= m_new as int <= lim,
                -lim <= p_old as int <= lim,
        ;
    }
    let lhs: i128 = (u as i128) * den;
    let num: i128 = (m_new as i128) * (p_old as i128);
    // |lhs| is at most 2^124; past the cap the exact right side lies beyond
    // every possible left side, so a stand-in of 2^125 decides the
    // comparisons identically
    let cap: i128 = 0x400_0000_0000_0000_0000_0000;
    let big: i128 = 0x2000_0000_0000_0000_0000_0000_0000_0000;
    let rhs: i128 = if num > cap {
        big
    } else if num < -cap {
        -big
    } else {
        42949672960i128 * num
    };
    proof {
        let ui = u as int;
        let mo = m_old as int;
        let pn = p_new as int;
        let mn = m_new as int;
        let po = p_old as int;
        let exact = 10 * (FX_ONE as int) * mn * po;
        assert(ui * (mo * pn) == ui * mo * pn) by (nonlinear_arith);
        assert(42949672960 * (mn * po) == 10 * (FX_ONE as int) * mn * po) by (nonlinear_arith);
        assert(sabs(lhs as int) < big as int) by (nonlinear_arith)
            requires
                lhs as int == ui * (den as int),
                0 <= ui <= 0x1_0000_0000,
                sabs(den as int) <= 0x4000_0000_0000 * 0x4000_0000_0000,
                big as int == 0x2000_0000_0000_0000_0000_0000_0000_0000,
        ;
        if num > cap {
            assert(exact > big as int) by (nonlinear_arith)
                requires
                    exact == 42949672960 * (num as int),
                    num as int > 0x400_0000_0000_0000_0000_0000,
                    big as int == 0x2000_0000_0000_0000_0000_0000_0000_0000,
            ;
            assert(lhs < big && (lhs as int) < exact);
            assert(lhs > -big);
        } else if num < -cap {
            assert(exact < -(big as int)) by (nonlinear_arith)
                requires
                    exact == 42949672960 * (num as int),
                    (num as int) < -0x400_0000_0000_0000_0000_0000,
                    big as int == 0x2000_0000_0000_0000_0000_0000_0000_0000,
            ;
            assert(lhs > -big && (lhs as int) > exact);
            assert(lhs < big);
        }
    }
    if den > 0 {
        lhs < rhs
    } else if den < 0 {
        lhs > rhs
    } else {
        m_old > 0
    }
}

/// The weight each recorded sample carries: the contribution budget of ten
/// spread over the lights and the per-pixel sample count.
pub fn sample_weight(lights: usize, n: usize) -> (r: i64)
    requires
        1 <= lights <= 0x1000_0000,
        1 <= n <= 0x1000_0000,
    ensures
        r == 10 * (FX_ONE as int) / ((lights as int) * (n as int)),
        0 <= r <= 10 * FX_ONE,
{
    proof {
        assert((lights as int) * (n as int) <= 0x1000_0000 * 0x1000_0000 && 1 <= (lights as int)
            * (n as int)) by (nonlinear_arith)
            requires
                1 <= lights as int <= 0x1000_0000,
                1 <= n as int <= 0x1000_0000,
        ;
    }
    let den: u128 = (lights as u128) * (n as u128);
    let q: u128 = (10u128 * 0x1_0000_0000u128) / den;
    q as i64
}

/// One Markov chain: the current path and the joint proposal density it was
/// last accepted at.
pub struct Chain {
    pub path: Path,
    pub old_p: i64,
}

/// Everything a freshly started chain satisfies: the initial proposal's
/// contract, carried at the chain's fields.
#[verifier::opaque]
pub open spec fn start_rel(scene: Scene, x: int, y: int, light: usize, c: Chain) -> bool {
    &&& c.path.wf(scene)
    &&& c.path.light == light
    &&& sabs(c.old_p as int) <= FX_LIM as int
    &&& (scene.wf() ==> 0 <= c.old_p <= FX_ONE)
    &&& c.path.points@.len() >= 2
    &&& c.path.points@[0] == scene.lights@[light as int].pos
    &&& c.path.points@.last() == scene.camera.pos
    &&& chained_s(c.path, scene)
    &&& (scene_cast_s(scene, primary_ray_s(scene, x, y)) is None ==> c.old_p == FX_ONE
        && c.path.objects@.len() == 0)
    &&& (scene_cast_s(scene, primary_ray_s(scene, x, y)) matches Some(hit) ==> {
        &&& c.path.points@.len() >= 3
        &&& c.path.points@[c.path.points@.len() - 2] == ray_of_s(
            primary_ray_s(scene, x, y),
            hit.0 as int,
        )
        &&& c.path.normals@.last() == hit.1
        &&& c.path.objects@.last() == hit.2
    })
}

/// What one sampling step does: the image gains exactly the recorded
/// contribution of the pre-step path at its projected cell (or stays as it
/// was, off the sensor), and the chain either keeps its state or installs a
/// genuine mutation the Metropolis rule accepted against some uniform draw.
#[verifier::opaque]
pub open spec fn step_rel(
    scene: Scene,
    weight: i64,
    pre: Chain,
    img0: ImageBuffer,
    post: Chain,
    img1: ImageBuffer,
) -> bool {
    &&& img1.width_s() == img0.width_s() && img1.height_s() == img0.height_s()
    &&& (match project_s(scene.camera, pre.path, img0.width_s(), img0.height_s()) {
        Some(idx) => img1.cells() == img0.cells().update(
            idx,
            accum_add_s(img0.cells()[idx], contrib_s(scene.camera, pre.path, scene), weight as int),
        ),
        None => img1.cells() == img0.cells(),
    })
    &&& (post == pre || exists|p: i64, u: i64|
        {
            &&& 0 <= u < FX_ONE
            &&& post.old_p == p
            &&& mutated_from_s(pre.path, scene, p, post.path)
            &&& #[trigger] accept_s(
                measure_s(pre.path, scene),
                measure_s(post.path, scene),
                pre.old_p as int,
                p as int,
                u as int,
            )
        })
}

/// `k` sampling steps in sequence, from `(c0, img0)` to `(c1, img1)`.
#[verifier::opaque]
pub open spec fn chain_run_s(
    scene: Scene,
    weight: i64,
    k: int,
    c0: Chain,
    img0: ImageBuffer,
    c1: Chain,
    img1: ImageBuffer,
) -> bool
    decreases k,
{
    if k <= 0 {
        c1 == c0 && img1 == img0
    } else {
        exists|cm: Chain, im: ImageBuffer|
            chain_run_s(scene, weight, k - 1, c0, img0, cm, im) && #[trigger] step_rel(
                scene,
                weight,
                cm,
                im,
                c1,
                img1,
            )
    }
}

impl Chain {
    /// The chain's path belongs to the scene and its density is in range.
    pub open spec fn wf(self, scene: Scene) -> bool {
        self.path.wf(scene) && sabs(self.old_p as int) <= FX_LIM as int
    }

    /// Start a chain for image-plane coordinates `(x, y)` and one light: the
    /// initial path proposal and its density.
    pub fn start(
        scene: &Scene,
        x: i64,
        y: i64,
        light: usize,
        rng: &mut rand::rngs::ThreadRng,
    ) -> (c: Chain)
        requires
            light < scene.lights@.len(),
        ensures
            c.wf(*scene),
            c.path.light == light,
            start_rel(*scene, x as int, y as int, light, c),
    {
        proof {
            reveal(crate::mlt::start_rel);
        }
        let (p0, path) = scene.propose(x, y, light, rng);
        Chain { path, old_p: p0 }
    }

    /// One sampling step: record the current path's contribution at the
    /// given weight, then propose a local mutation and accept or reject it
    /// by the Metropolis rule -- the rule accepts unconditionally when the
    /// current path is blocked (its measure is zero).
    #[verifier::rlimit(100)]
    #[verifier::spinoff_prover]
    pub fn step(
        &mut self,
        scene: &Scene,
        image: &mut ImageBuffer,
        weight: i64,
        rng: &mut rand::rngs::ThreadRng,
    )
        requires
            old(self).wf(*scene),
            old(image).wf(),
        ensures
            final(self).wf(*scene),
            final(self).path.light == old(self).path.light,
            final(image).wf(),
            final(image).width_s() == old(image).width_s(),
            final(image).height_s() == old(image).height_s(),
            step_rel(*scene, weight, *old(self), *old(image), *final(self), *final(image)),
    {
        proof {
            reveal(crate::mlt::step_rel);
        }
        scene.camera.record_sample(&self.path, scene, image, weight);
        match self.path.mutate(scene, rng) {
            Some((p, fresh)) => {
                let m_cur = self.path.measure(scene);
                let m_new = fresh.measure(scene);
                let u = rng_unit(rng);
                if accept_mutation(m_cur, m_new, self.old_p, p, u) {
                    let ghost pre = *self;
                    self.old_p = p;
                    self.path = fresh;
                    proof {
                        assert(accept_s(
                            measure_s(pre.path, *scene),
                            measure_s(self.path, *scene),
                            pre.old_p as int,
                            p as int,
                            u as int,
                        ));
                    }
                }
            },
            None => {},
        }
    }
}

/// Drive one Markov chain for image-plane coordinates `(x, y)` and one
/// light: start a chain, then take `n` sampling steps, each recording the
/// current path's contribution at weight `10 / (lights * n)` and advancing
/// the chain by the Metropolis rule.  The contract says exactly that: some
/// freshly started chain is carried through `n` chained sampling steps from
/// the old image to the final one.
#[verifier::rlimit(100)]
#[verifier::spinoff_prover]
pub fn draw(
    n: usize,
    x: i64,
    y: i64,
    light: usize,
    scene: &Scene,
    image: &mut ImageBuffer,
    rng: &mut rand::rngs::ThreadRng,
)
    requires
        light < scene.lights@.len(),
        old(image).wf(),
        1 <= n <= 0x1000_0000,
        1 <= scene.lights@.len() <= 0x1000_0000,
    ensures
        final(image).wf(),
        final(image).width_s() == old(image).width_s(),
        final(image).height_s() == old(image).height_s(),
        exists|c0: Chain, c1: Chain|
            start_rel(*scene, x as int, y as int, light, c0) && #[trigger] chain_run_s(
                *scene,
                (10 * (FX_ONE as int) / ((scene.lights@.len() as int) * (n as int))) as i64,
                n as int,
                c0,
                *old(image),
                c1,
                *final(image),
            ),
{
    let weight = sample_weight(scene.lights.len(), n);
    let mut chain = Chain::start(scene, x, y, light, rng);
    let ghost c0 = chain;
    let mut it: usize = 0;
    proof {
        reveal(crate::mlt::chain_run_s);
        assert(chain_run_s(*scene, weight, 0, c0, *image, chain, *image));
    }
    while it < n
        invariant
            chain.wf(*scene),
            0 <= it <= n,
            image.wf(),
            image.width_s() == old(image).width_s(),
            image.height_s() == old(image).height_s(),
            start_rel(*scene, x as int, y as int, light, c0),
            chain_run_s(*scene, weight, it as int, c0, *old(image), chain, *image),
        decreases n - it,
    {
        let ghost pre_chain = chain;
        let ghost pre_img = *image;
        chain.step(scene, image, weight, rng);
        proof {
            assert(chain_run_s(*scene, weight, it as int + 1, c0, *old(image), chain, *image))
                by {
                reveal_with_fuel(crate::mlt::chain_run_s, 2);
                reveal(crate::mlt::chain_run_s);
                assert(chain_run_s(
                    *scene,
                    weight,
                    (it as int + 1) - 1,
                    c0,
                    *old(image),
                    pre_chain,
                    pre_img,
                ));
                assert(step_rel(*scene, weight, pre_chain, pre_img, chain, *image));
            }
        }
        it = it + 1;
    }
    proof {
        let wexpr = (10 * (FX_ONE as int) / ((scene.lights@.len() as int) * (n as int))) as i64;
        assert(weight as int == 10 * (FX_ONE as int) / ((scene.lights@.len() as int) * (
        n as int)));
        assert(wexpr == weight);
        assert(chain_run_s(*scene, wexpr, n as int, c0, *old(image), chain, *image));
    }
}

} // verus!
