use vstd::prelude::*;

use crate::fx::{fx_mul, fxmul, sat_add, satadd, tdiv, FX_LIM, FX_ONE};

verus! {

/// A radiance value in three channels, each a fixed-point scalar.
#[derive(Clone, Copy, Debug, PartialEq, Eq, Structural)]
pub struct Color {
    pub r: i64,
    pub g: i64,
    pub b: i64,
}

/// What `Color::add` returns.
pub open spec fn cadd_s(a: Color, b: Color) -> Color {
    Color {
        r: satadd(a.r as int, b.r as int) as i64,
        g: satadd(a.g as int, b.g as int) as i64,
        b: satadd(a.b as int, b.b as int) as i64,
    }
}

/// What `Color::mul` returns: the channelwise product.
pub open spec fn cmul_s(a: Color, b: Color) -> Color {
    Color {
        r: fxmul(a.r as int, b.r as int) as i64,
        g: fxmul(a.g as int, b.g as int) as i64,
        b: fxmul(a.b as int, b.b as int) as i64,
    }
}

/// What `Color::scale` returns.
pub open spec fn cscale_s(a: Color, t: int) -> Color {
    Color {
        r: fxmul(a.r as int, t) as i64,
        g: fxmul(a.g as int, t) as i64,
        b: fxmul(a.b as int, t) as i64,
    }
}

/// What `Color::luminance` returns: the mean of the three channels.
pub open spec fn lum_s(a: Color) -> int {
    tdiv(satadd(satadd(a.r as int, a.g as int), a.b as int), 3)
}

/// What the tone map does to one channel: negative values to 0, values at or
/// above 1 to the top level 255, and the rest linearly.
pub open spec fn tone_s(c: int) -> int {
    if c >= FX_ONE as int {
        255
    } else if c < 0 {
        0
    } else {
        c / 0x100_0000
    }
}

/// What `Color::to_u32` returns: the three tone-mapped channels packed as
/// `0x00rrggbb`.
pub open spec fn pack_s(a: Color) -> int {
    tone_s(a.r as int) * 0x1_0000 + tone_s(a.g as int) * 0x100 + tone_s(a.b as int)
}

impl Color {
    /// The color with the given fixed-point channels.
    pub fn new(r: i64, g: i64, b: i64) -> (c: Color)
        ensures
            c == (Color { r, g, b }),
    {
        Color { r, g, b }
    }

    /// Every channel within the saturation range, and not negative.
    pub open spec fn wf(self) -> bool {
        0 <= self.r <= FX_LIM && 0 <= self.g <= FX_LIM && 0 <= self.b <= FX_LIM
    }

    /// Channelwise saturating sum.
    pub fn add(self, o: Color) -> (c: Color)
        ensures
            c == cadd_s(self, o),
    {
        Color { r: sat_add(self.r, o.r), g: sat_add(self.g, o.g), b: sat_add(self.b, o.b) }
    }

    /// Channelwise product: each channel of `self` attenuated by the matching
    /// channel of `o`.
    pub fn mul(self, o: Color) -> (c: Color)
        ensures
            c == cmul_s(self, o),
            self.wf() && o.wf() ==> c.wf(),
    {
        Color { r: fx_mul(self.r, o.r), g: fx_mul(self.g, o.g), b: fx_mul(self.b, o.b) }
    }

    /// Every channel scaled by the fixed-point factor `t`.
    pub fn scale(self, t: i64) -> (c: Color)
        ensures
            c == cscale_s(self, t as int),
            self.wf() && t >= 0 ==> c.wf(),
            self.wf() && 0 <= t <= FX_ONE ==> c.wf() && c.r <= self.r && c.g <= self.g && c.b
                <= self.b,
            (0 <= t && 0 <= self.r <= FX_ONE && 0 <= self.g <= FX_ONE && 0 <= self.b <= FX_ONE)
                ==> (0 <= c.r <= t && 0 <= c.g <= t && 0 <= c.b <= t),
    {
        Color { r: fx_mul(self.r, t), g: fx_mul(self.g, t), b: fx_mul(self.b, t) }
    }

    /// The scalar brightness: the mean of the three channels.
    pub fn luminance(self) -> (l: i64)
        ensures
            l == lum_s(self),
            self.wf() ==> 0 <= l <= FX_LIM,
            (0 <= self.r <= FX_ONE && 0 <= self.g <= FX_ONE && 0 <= self.b <= FX_ONE) ==> 0 <= l
                <= FX_ONE,
    {
        let s: i64 = sat_add(sat_add(self.r, self.g), self.b);
        let l: i64 = if s >= 0 {
            ((s as u64) / 3) as i64
        } else {
            -((((-(s as i128)) as u64) / 3) as i64)
        };
        proof {
            crate::fx::lemma_tdiv_pos(s as int, 3);
        }
        l
    }

    /// The channels tone-mapped to byte levels and packed as `0x00rrggbb`.
    pub fn to_u32(self) -> (p: u32)
        ensures
            p == pack_s(self),
    {
        let tr: u32 = tone_channel(self.r);
        let tg: u32 = tone_channel(self.g);
        let tb: u32 = tone_channel(self.b);
        tr * 0x1_0000 + tg * 0x100 + tb
    }
}

/// One channel tone-mapped to a byte level.
fn tone_channel(c: i64) -> (t: u32)
    ensures
        t == tone_s(c as int),
        t <= 255,
{
    if c >= FX_ONE {
        255
    } else if c < 0 {
        0
    } else {
        ((c as u64) / 0x100_0000) as u32
    }
}

} // verus!
