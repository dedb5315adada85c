use vstd::prelude::*;

verus! {

// Scalar arithmetic for the renderer.
//
// All real-valued quantities (coordinates, densities, colors, path measures)
// are carried as signed fixed-point numbers: an `i64` holding the value
// scaled by `FX_ONE` = 2^32.  Every operation saturates at `FX_LIM` (2^14 in
// real units), so the operations are total: no input can overflow or panic,
// and a degenerate value merely pins to the representable range.

/// The fixed-point scale: the representation of 1.
pub const FX_ONE: i64 = 0x1_0000_0000;

/// Saturation bound of every fixed-point operation (2^14 in real units).
pub const FX_LIM: i64 = 0x4000_0000_0000;

/// Magnitude of an integer.
pub open spec fn sabs(a: int) -> int {
    if a >= 0 {
        a
    } else {
        -a
    }
}

/// Sign of an integer: -1, 0 or 1.
pub open spec fn sgn(a: int) -> int {
    if a > 0 {
        1
    } else if a == 0 {
        0
    } else {
        -1
    }
}

/// Division truncating toward zero (the machine's signed division).
pub open spec fn tdiv(a: int, b: int) -> int {
    sgn(a) * sgn(b) * (sabs(a) / sabs(b))
}

/// `v` pinned to the interval `[-lim, lim]`.
pub open spec fn clip(v: int, lim: int) -> int {
    if v > lim {
        lim
    } else if v < -lim {
        -lim
    } else {
        v
    }
}

/// What `fx_mul` returns: the scaled product, truncated and saturated.
pub open spec fn fxmul(a: int, b: int) -> int {
    clip(tdiv(a * b, FX_ONE as int), FX_LIM as int)
}

/// What `fx_div` returns: the scaled quotient, truncated and pinned to `lim`.
pub open spec fn fxdiv(a: int, b: int, lim: int) -> int {
    clip(tdiv(a * (FX_ONE as int), b), lim)
}

/// What `sat_add` returns.
pub open spec fn satadd(a: int, b: int) -> int {
    clip(a + b, FX_LIM as int)
}

/// The nonnegative integer square root: the unique `r >= 0` with
/// `r * r <= n < (r + 1) * (r + 1)`.
pub open spec fn sqrt_s(n: int) -> int {
    choose|r: int| 0 <= r && #[trigger] (r * r) <= n && n < (r + 1) * (r + 1)
}

/// What `fx_sqrt` returns: the square root in fixed point, 0 on nonpositive input.
pub open spec fn fx_sqrt_s(a: int) -> int {
    if a <= 0 {
        0
    } else {
        sqrt_s(a * (FX_ONE as int))
    }
}

/// The integer square root is unique, so `sqrt_s` is pinned by its two bounds.
pub proof fn lemma_sqrt_s_unique(n: int, r: int)
    requires
        r >= 0,
        r * r <= n,
        n < (r + 1) * (r + 1),
    ensures
        sqrt_s(n) == r,
{
    assert(exists|q: int| 0 <= q && #[trigger] (q * q) <= n && n < (q + 1) * (q + 1)) by {
        assert(0 <= r && r * r <= n && n < (r + 1) * (r + 1));
    }
    let q = sqrt_s(n);
    assert(q >= 0 && q * q <= n && n < (q + 1) * (q + 1));
    if q < r {
        assert((q + 1) * (q + 1) <= r * r) by (nonlinear_arith)
            requires 0 <= q && q < r;
        assert(false);
    }
    if r < q {
        assert((r + 1) * (r + 1) <= q * q) by (nonlinear_arith)
            requires 0 <= r && r < q;
        assert(false);
    }
}

/// How truncating division reads for a positive divisor: the magnitude's
/// quotient, carrying the dividend's sign.
pub proof fn lemma_tdiv_pos(a: int, b: int)
    requires
        b > 0,
    ensures
        a >= 0 ==> tdiv(a, b) == a / b,
        a < 0 ==> tdiv(a, b) == -((-a) / b),
{
    let q = sabs(a) / sabs(b);
    assert(sgn(b) == 1);
    if a > 0 {
        assert(sgn(a) * sgn(b) * q == q) by (nonlinear_arith)
            requires
                sgn(a) == 1,
                sgn(b) == 1,
        ;
    } else if a == 0 {
        assert(sgn(a) * sgn(b) * q == 0) by (nonlinear_arith)
            requires sgn(a) == 0;
    } else {
        assert(sgn(a) * sgn(b) * q == -q) by (nonlinear_arith)
            requires
                sgn(a) == -1,
                sgn(b) == 1,
        ;
    }
}

/// Magnitude of an `i64`, as a `u128`.
fn mag_u128(a: i64) -> (r: u128)
    ensures
        r == sabs(a as int),
{
    if a >= 0 {
        a as u128
    } else {
        proof {
            assert(-(a as i128) == sabs(a as int));
        }
        (-(a as i128)) as u128
    }
}

/// Reassemble a sign and a pinned magnitude into the signed result.
fn apply_sign(neg: bool, mag: u128, lim: u128) -> (r: i64)
    requires
        lim <= 0x7fff_ffff_ffff_ffff,
    ensures
        mag <= lim ==> r == if neg { -(mag as int) } else { mag as int },
        mag > lim ==> r == if neg { -(lim as int) } else { lim as int },
        sabs(r as int) <= lim,
{
    let m: u128 = if mag > lim {
        lim
    } else {
        mag
    };
    let v: i64 = m as i64;
    if neg {
        -v
    } else {
        v
    }
}

/// Saturating fixed-point product: `a * b / FX_ONE`, truncated toward zero,
/// pinned to `[-FX_LIM, FX_LIM]`.
pub fn fx_mul(a: i64, b: i64) -> (r: i64)
    ensures
        r == fxmul(a as int, b as int),
        sabs(r as int) <= FX_LIM as int,
        sabs(r as int) * (FX_ONE as int) <= sabs(a as int) * sabs(b as int),
        sabs(b as int) <= FX_ONE as int ==> sabs(r as int) <= sabs(a as int),
        sabs(a as int) <= FX_ONE as int ==> sabs(r as int) <= sabs(b as int),
        a >= 0 && b >= 0 ==> r >= 0,
        a == b ==> r >= 0,
        a == 0 || b == 0 ==> r == 0,
{
    let aa: u128 = mag_u128(a);
    let bb: u128 = mag_u128(b);
    proof {
        assert(aa * bb <= 0x8000000000000000 * 0x8000000000000000) by (nonlinear_arith)
            requires
                aa <= 0x8000000000000000,
                bb <= 0x8000000000000000,
        ;
    }
    let prod: u128 = aa * bb;
    let q: u128 = prod / 0x1_0000_0000u128;
    let neg: bool = (a < 0) != (b < 0);
    let r: i64 = apply_sign(neg, q, 0x4000_0000_0000u128);
    proof {
        let ai = a as int;
        let bi = b as int;
        let s = FX_ONE as int;
        assert(sabs(ai * bi) == sabs(ai) * sabs(bi)) by (nonlinear_arith);
        assert(sgn(ai * bi) == sgn(ai) * sgn(bi)) by (nonlinear_arith);
        assert(q == sabs(ai) * sabs(bi) / s);
        assert(tdiv(ai * bi, s) == sgn(ai) * sgn(bi) * (sabs(ai) * sabs(bi) / s));
        if a == 0 || b == 0 {
            assert(sgn(ai) * sgn(bi) == 0 && q == 0);
        } else if neg {
            assert(sgn(ai) * sgn(bi) == -1);
        } else {
            assert(sgn(ai) * sgn(bi) == 1);
        }
        assert(r == fxmul(ai, bi));
        assert(q * s <= sabs(ai) * sabs(bi)) by (nonlinear_arith)
            requires
                q == sabs(ai) * sabs(bi) / s,
                s > 0,
                sabs(ai) * sabs(bi) >= 0,
        ;
        assert(sabs(r as int) * s <= q * s) by (nonlinear_arith)
            requires
                sabs(r as int) <= q,
                s > 0,
        ;
        if sabs(bi) <= s {
            assert(sabs(ai) * sabs(bi) <= sabs(ai) * s) by (nonlinear_arith)
                requires
                    sabs(bi) <= s,
                    sabs(ai) >= 0,
            ;
            assert(q <= sabs(ai)) by (nonlinear_arith)
                requires
                    q * s <= sabs(ai) * s,
                    s > 0,
            ;
        }
        if sabs(ai) <= s {
            assert(sabs(ai) * sabs(bi) <= sabs(bi) * s) by (nonlinear_arith)
                requires
                    sabs(ai) <= s,
                    sabs(bi) >= 0,
            ;
            assert(q <= sabs(bi)) by (nonlinear_arith)
                requires
                    q * s <= sabs(bi) * s,
                    s > 0,
            ;
        }
    }
    r
}

/// Saturating fixed-point quotient: `a * FX_ONE / b`, truncated toward zero,
/// pinned to `[-lim, lim]`.
pub fn fx_div(a: i64, b: i64, lim: i64) -> (r: i64)
    requires
        b != 0,
        0 <= lim,
    ensures
        r == fxdiv(a as int, b as int, lim as int),
        sabs(r as int) <= lim as int,
        a == 0 ==> r == 0,
        a >= 0 && b > 0 ==> r >= 0,
{
    let am: u128 = mag_u128(a);
    let bb: u128 = mag_u128(b);
    let aa: u128 = am * 0x1_0000_0000u128;
    let q: u128 = aa / bb;
    let neg: bool = (a < 0) != (b < 0);
    let r: i64 = apply_sign(neg, q, lim as u128);
    proof {
        let ai = a as int;
        let bi = b as int;
        let s = FX_ONE as int;
        assert(sabs(ai * s) == sabs(ai) * s) by (nonlinear_arith)
            requires s > 0;
        assert(sgn(ai * s) == sgn(ai)) by (nonlinear_arith)
            requires s > 0;
        assert(q == sabs(ai) * s / sabs(bi));
        assert(tdiv(ai * s, bi) == sgn(ai) * sgn(bi) * (sabs(ai) * s / sabs(bi)));
        if a == 0 {
            assert(sgn(ai) * sgn(bi) == 0 && q == 0);
        } else if neg {
            assert(sgn(ai) == 1 || sgn(ai) == -1);
            assert(sgn(bi) == 1 || sgn(bi) == -1);
            assert(sgn(ai) * sgn(bi) == -1);
        } else if a < 0 {
            assert(b < 0);
            assert(sgn(ai) * sgn(bi) == 1) by (nonlinear_arith)
                requires
                    sgn(ai) == -1,
                    sgn(bi) == -1,
            ;
        } else {
            assert(b > 0);
            assert(sgn(ai) * sgn(bi) == 1) by (nonlinear_arith)
                requires
                    sgn(ai) == 1,
                    sgn(bi) == 1,
            ;
        }
        assert(r == fxdiv(ai, bi, lim as int));
    }
    r
}

/// Saturating addition, pinned to `[-FX_LIM, FX_LIM]`.
pub fn sat_add(a: i64, b: i64) -> (r: i64)
    ensures
        r == satadd(a as int, b as int),
        sabs(r as int) <= FX_LIM as int,
        sabs(a as int + b as int) <= FX_LIM as int ==> r == a + b,
{
    let s: i128 = a as i128 + b as i128;
    if s > FX_LIM as i128 {
        FX_LIM
    } else if s < -(FX_LIM as i128) {
        -FX_LIM
    } else {
        s as i64
    }
}

/// Saturating subtraction, pinned to `[-FX_LIM, FX_LIM]`.
pub fn sat_sub(a: i64, b: i64) -> (r: i64)
    ensures
        r == satadd(a as int, -(b as int)),
        sabs(r as int) <= FX_LIM as int,
        sabs(a as int - b as int) <= FX_LIM as int ==> r == a - b,
{
    let s: i128 = a as i128 - b as i128;
    if s > FX_LIM as i128 {
        FX_LIM
    } else if s < -(FX_LIM as i128) {
        -FX_LIM
    } else {
        s as i64
    }
}

/// Integer square root of a `u128` below 2^96, by binary search.
pub fn isqrt_u128(n: u128) -> (r: u128)
    requires
        n < 0x1_0000_0000_0000_0000_0000_0000u128,
    ensures
        r * r <= n,
        n < (r + 1) * (r + 1),
        r < 0x1_0000_0000_0000u128,
{
    let mut lo: u128 = 0;
    let mut hi: u128 = 0x1_0000_0000_0000u128;
    proof {
        assert(n < hi * hi) by (nonlinear_arith)
            requires
                n < 0x1_0000_0000_0000_0000_0000_0000u128,
                hi == 0x1_0000_0000_0000u128,
        ;
    }
    while lo + 1 < hi
        invariant
            lo < hi,
            hi <= 0x1_0000_0000_0000u128,
            lo * lo <= n,
            n < hi * hi,
        decreases hi - lo,
    {
        let mid: u128 = lo + (hi - lo) / 2;
        proof {
            assert(mid * mid < 0x1_0000_0000_0000_0000_0000_0000_0000u128) by (nonlinear_arith)
                requires mid <= 0x1_0000_0000_0000u128;
        }
        if mid * mid <= n {
            lo = mid;
        } else {
            hi = mid;
        }
    }
    lo
}

/// Fixed-point square root: `sqrt(a)` for `a >= 0`, and 0 on nonpositive input.
pub fn fx_sqrt(a: i64) -> (r: i64)
    ensures
        r == fx_sqrt_s(a as int),
        0 <= r && r < 0x1_0000_0000_0000,
        a <= FX_ONE ==> r <= FX_ONE,
{
    if a <= 0 {
        return 0;
    }
    let n: u128 = (a as u128) * 0x1_0000_0000u128;
    proof {
        assert(n < 0x1_0000_0000_0000_0000_0000_0000u128) by (nonlinear_arith)
            requires
                n == (a as int) * 0x1_0000_0000,
                0 < a as int,
                (a as int) < 0x8000000000000000,
        ;
    }
    let r: u128 = isqrt_u128(n);
    proof {
        lemma_sqrt_s_unique(n as int, r as int);
        if a <= FX_ONE {
            assert((r as int) <= FX_ONE as int) by (nonlinear_arith)
                requires
                    (r as int) * (r as int) <= n as int,
                    n as int <= (FX_ONE as int) * (FX_ONE as int),
                    r as int >= 0,
            ;
        }
    }
    r as i64
}

} // verus!
