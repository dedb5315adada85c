use vstd::prelude::*;

use crate::camera::{accum_add_s, cell_ch_ok, Accum};
use crate::color::Color;
use crate::fx::{fxmul, tdiv, FX_ONE};
use crate::mlt::{falloff_s, geom_s, geomf_s, lum_at_s, measure_upto_s, occluded_s, vert_in_s, Path};
use crate::scene::Scene;

verus! {

/// Scaling zero gives zero, whatever the factor.
pub proof fn lemma_fxmul_zero(x: int)
    ensures
        fxmul(0, x) == 0,
        fxmul(x, 0) == 0,
{
    assert(0 * x == 0) by (nonlinear_arith);
    assert(x * 0 == 0) by (nonlinear_arith);
    crate::fx::lemma_tdiv_pos(0, FX_ONE as int);
}

/// Scaling keeps nonnegativity: the product of two nonnegative scalars is
/// nonnegative.
pub proof fn lemma_fxmul_nonneg(a: int, b: int)
    requires
        a >= 0,
        b >= 0,
    ensures
        fxmul(a, b) >= 0,
{
    assert(a * b >= 0) by (nonlinear_arith)
        requires
            a >= 0,
            b >= 0,
    ;
    crate::fx::lemma_tdiv_pos(a * b, FX_ONE as int);
    assert((a * b) / (FX_ONE as int) >= 0) by (nonlinear_arith)
        requires a * b >= 0;
}

/// A blocked segment zeroes the whole measure: once some interior vertex up
/// to `k` is occluded, the measure over the first `k` vertices is exactly
/// zero.  (One half of the zero-measure law; the fixed-point converse can
/// fail, since a product of tiny positive factors rounds down to zero.)
pub proof fn lemma_measure_occluded_zero(p: Path, scene: Scene, i: int, k: int)
    requires
        0 <= i < k,
        occluded_s(p, scene, i),
    ensures
        measure_upto_s(p, scene, k) == 0,
    decreases k,
{
    if k == i + 1 {
        assert(occluded_s(p, scene, i));
    } else {
        lemma_measure_occluded_zero(p, scene, i, k - 1);
        if !occluded_s(p, scene, k - 1) {
            lemma_fxmul_zero(geom_s(p, k - 1));
            lemma_fxmul_zero(lum_at_s(p, scene, k - 1));
        }
    }
}

/// The square of a scalar never scales below zero.
pub proof fn lemma_fxmul_sq_nonneg(x: int)
    ensures
        fxmul(x, x) >= 0,
{
    assert(x * x >= 0) by (nonlinear_arith);
    crate::fx::lemma_tdiv_pos(x * x, FX_ONE as int);
    assert((x * x) / (FX_ONE as int) >= 0) by (nonlinear_arith)
        requires x * x >= 0;
}

/// A squared magnitude is never negative.
pub proof fn lemma_vnormsq_nonneg(v: crate::vector::Vec3)
    ensures
        crate::vector::vnormsq_s(v) >= 0,
{
    lemma_fxmul_sq_nonneg(v.x as int);
    lemma_fxmul_sq_nonneg(v.y as int);
    lemma_fxmul_sq_nonneg(v.z as int);
}

/// The geometric falloff of a segment lies between zero and one.
pub proof fn lemma_falloff_nonneg(v: crate::vector::Vec3)
    ensures
        0 <= falloff_s(v) <= FX_ONE,
{
    lemma_vnormsq_nonneg(v);
    lemma_fxmul_nonneg(crate::mlt::DISTANCE_FACTOR as int, crate::vector::vnormsq_s(v));
    let den = crate::fx::satadd(
        FX_ONE as int,
        fxmul(crate::mlt::DISTANCE_FACTOR as int, crate::vector::vnormsq_s(v)),
    );
    assert(den >= FX_ONE);
    crate::fx::lemma_tdiv_pos((FX_ONE as int) * (FX_ONE as int), den);
    assert(((FX_ONE as int) * (FX_ONE as int)) / den >= 0) by (nonlinear_arith)
        requires
            den > 0,
            (FX_ONE as int) * (FX_ONE as int) >= 0,
    ;
}

/// The geometry factor at a vertex is never negative: the falloff is
/// nonnegative and the cosine is pinned at zero from below.
pub proof fn lemma_geom_nonneg(inc: crate::vector::Vec3, n: crate::vector::Vec3)
    ensures
        geomf_s(inc, n) >= 0,
{
    lemma_falloff_nonneg(inc);
    let c = crate::vector::cos_between_s(inc, n);
    lemma_fxmul_nonneg(falloff_s(inc), if c < 0 { 0 } else { c });
}

/// Measure non-negativity: for every path and scene, the measure over any
/// leading stretch of interior vertices is at least zero -- the light
/// density is positive and each step multiplies by a nonnegative geometry
/// factor and a nonnegative scattering brightness.
pub proof fn lemma_measure_nonneg(p: Path, scene: Scene, k: int)
    ensures
        measure_upto_s(p, scene, k) >= 0,
    decreases k,
{
    if k > 0 {
        lemma_measure_nonneg(p, scene, k - 1);
        if !occluded_s(p, scene, k - 1) {
            lemma_geom_nonneg(vert_in_s(p, k - 1), p.normals@[k - 1]);
            lemma_fxmul_nonneg(measure_upto_s(p, scene, k - 1), geom_s(p, k - 1));
            lemma_fxmul_nonneg(
                fxmul(measure_upto_s(p, scene, k - 1), geom_s(p, k - 1)),
                lum_at_s(p, scene, k - 1),
            );
        }
    }
}

/// The ideal (unrounded) measure of a sequence of factors: their product.
pub open spec fn prod_s(fs: Seq<int>) -> int
    decreases fs.len(),
{
    if fs.len() == 0 {
        1
    } else {
        prod_s(fs.drop_last()) * fs.last()
    }
}

/// The ideal product of nonnegative factors is nonnegative.
pub proof fn lemma_prod_nonneg(fs: Seq<int>)
    requires
        forall|i: int| 0 <= i < fs.len() ==> #[trigger] fs[i] >= 0,
    ensures
        prod_s(fs) >= 0,
    decreases fs.len(),
{
    if fs.len() > 0 {
        lemma_prod_nonneg(fs.drop_last());
        assert(prod_s(fs.drop_last()) * fs.last() >= 0) by (nonlinear_arith)
            requires
                prod_s(fs.drop_last()) >= 0,
                fs.last() >= 0,
        ;
    }
}

/// The ideal product is exactly zero when and only when some factor is zero:
/// over the unrounded integers, occlusion (a zero visibility factor) is the
/// one way a path's measure vanishes.
pub proof fn lemma_prod_zero_iff(fs: Seq<int>)
    ensures
        prod_s(fs) == 0 <==> exists|i: int| 0 <= i < fs.len() && #[trigger] fs[i] == 0,
    decreases fs.len(),
{
    if fs.len() == 0 {
    } else {
        lemma_prod_zero_iff(fs.drop_last());
        assert(prod_s(fs) == prod_s(fs.drop_last()) * fs.last());
        assert(prod_s(fs.drop_last()) * fs.last() == 0 <==> (prod_s(fs.drop_last()) == 0
            || fs.last() == 0)) by (nonlinear_arith);
        if prod_s(fs) == 0 {
            if prod_s(fs.drop_last()) == 0 {
                let i = choose|i: int|
                    0 <= i < fs.drop_last().len() && #[trigger] fs.drop_last()[i] == 0;
                assert(fs[i] == 0);
            } else {
                assert(fs[fs.len() - 1] == 0);
            }
        }
        if exists|i: int| 0 <= i < fs.len() && #[trigger] fs[i] == 0 {
            let i = choose|i: int| 0 <= i < fs.len() && #[trigger] fs[i] == 0;
            if i < fs.len() - 1 {
                assert(fs.drop_last()[i] == 0);
            }
        }
    }
}

/// Recording is linear in the weight: two samples of one color at weights
/// `w1` and `w2` leave a cell exactly where one sample at weight `w1 + w2`
/// would, as long as neither sum reaches the cell's far bound.
pub proof fn lemma_record_linear(a: Accum, c: Color, w1: int, w2: int)
    requires
        cell_ch_ok(a.r as int + c.r * w1),
        cell_ch_ok(a.g as int + c.g * w1),
        cell_ch_ok(a.b as int + c.b * w1),
        cell_ch_ok(a.r as int + c.r * (w1 + w2)),
        cell_ch_ok(a.g as int + c.g * (w1 + w2)),
        cell_ch_ok(a.b as int + c.b * (w1 + w2)),
    ensures
        accum_add_s(accum_add_s(a, c, w1), c, w2) == accum_add_s(a, c, w1 + w2),
{
    assert(c.r * w1 + c.r * w2 == c.r * (w1 + w2)) by (nonlinear_arith);
    assert(c.g * w1 + c.g * w2 == c.g * (w1 + w2)) by (nonlinear_arith);
    assert(c.b * w1 + c.b * w2 == c.b * (w1 + w2)) by (nonlinear_arith);
}

} // verus!
