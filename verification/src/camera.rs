use vstd::prelude::*;

use crate::color::{pack_s, Color};
use crate::fx::{clip, sabs, tdiv, FX_LIM, FX_ONE};
use crate::vector::{Vec3};

verus! {

/// The camera: a position, a rotation into camera space held as three row
/// vectors, and a focal length (the reciprocal of the tangent of the field of
/// view, supplied by the caller since the tangent is trigonometry the scene
/// set-up owns).
#[derive(Clone, Debug)]
pub struct Camera {
    pub pos: Vec3,
    /// First row of the world-to-camera rotation.
    pub rx: Vec3,
    /// Second row of the world-to-camera rotation.
    pub ry: Vec3,
    /// Third row of the world-to-camera rotation: the facing direction.
    pub rz: Vec3,
    /// Focal length in fixed point.
    pub f: i64,
}

/// What `Camera::to_camera` returns: the vector's coordinates along the three
/// rows.
pub open spec fn to_camera_s(c: Camera, v: Vec3) -> Vec3 {
    Vec3 {
        x: crate::vector::vdot_s(c.rx, v) as i64,
        y: crate::vector::vdot_s(c.ry, v) as i64,
        z: crate::vector::vdot_s(c.rz, v) as i64,
    }
}

/// What `Camera::propose` returns: the camera-space direction `(x, y, f)`
/// carried back to world space along the rows.
#[verifier::opaque]
pub open spec fn propose_s(c: Camera, x: int, y: int) -> Vec3 {
    vadd3_s(
        crate::vector::vscale_s(c.rx, x),
        crate::vector::vscale_s(c.ry, y),
        crate::vector::vscale_s(c.rz, c.f as int),
    )
}

/// The saturating sum of three vectors, left to right.
pub open spec fn vadd3_s(a: Vec3, b: Vec3, c: Vec3) -> Vec3 {
    crate::vector::vadd_s(crate::vector::vadd_s(a, b), c)
}

impl Camera {
    /// The camera at `pos` looking along `facing` with `up` overhead, with
    /// focal length `f`.  The rotation rows are built as an orthogonal frame:
    /// facing normalized, the sideways axis from `up`, and the upward axis
    /// closing the frame; a degenerate pose (zero, or parallel, to within
    /// fixed-point rounding) falls back to the identity frame.
    pub fn new(pos: Vec3, facing: Vec3, up: Vec3, f: i64) -> (c: Camera)
        ensures
            c.pos == pos,
            c.f == f,
            c.rx.fits(),
            c.ry.fits(),
            c.rz.fits(),
            (crate::vector::vnorm_s(facing) != 0 && crate::vector::vnorm_s(up) != 0
                && crate::vector::vnorm_s(
                crate::vector::vcross_s(
                    crate::vector::vunit_s(up),
                    crate::vector::vunit_s(facing),
                ),
            ) != 0) ==> {
                &&& c.rz == crate::vector::vunit_s(facing)
                &&& c.rx == crate::vector::vunit_s(
                    crate::vector::vcross_s(crate::vector::vunit_s(up), c.rz),
                )
                &&& c.ry == crate::vector::vcross_s(c.rz, c.rx)
            },
            (crate::vector::vnorm_s(facing) == 0 || crate::vector::vnorm_s(up) == 0
                || crate::vector::vnorm_s(
                crate::vector::vcross_s(
                    crate::vector::vunit_s(up),
                    crate::vector::vunit_s(facing),
                ),
            ) == 0) ==> c.rx == (Vec3 { x: FX_ONE, y: 0, z: 0 }) && c.ry == (Vec3 {
                x: 0,
                y: FX_ONE,
                z: 0,
            }) && c.rz == (Vec3 { x: 0, y: 0, z: FX_ONE }),
    {
        let ex = Vec3 { x: FX_ONE, y: 0, z: 0 };
        let ey = Vec3 { x: 0, y: FX_ONE, z: 0 };
        let ez = Vec3 { x: 0, y: 0, z: FX_ONE };
        match facing.unit() {
            None => Camera { pos, rx: ex, ry: ey, rz: ez, f },
            Some(rz) => {
                match up.unit() {
                    None => Camera { pos, rx: ex, ry: ey, rz: ez, f },
                    Some(un) => {
                        match un.cross(rz).unit() {
                            None => Camera { pos, rx: ex, ry: ey, rz: ez, f },
                            Some(rx) => {
                                let ry = rz.cross(rx);
                                Camera { pos, rx, ry, rz, f }
                            },
                        }
                    },
                }
            },
        }
    }

    /// The vector carried into camera space by the rotation rows.
    pub fn to_camera(&self, v: Vec3) -> (r: Vec3)
        ensures
            r == to_camera_s(*self, v),
            r.fits(),
    {
        Vec3 { x: self.rx.dot(v), y: self.ry.dot(v), z: self.rz.dot(v) }
    }

    /// The world-space direction of the primary ray through image-plane
    /// coordinates `(x, y)` (each in `[-1, 1)` across the sensor): the
    /// camera-space direction `(x, y, f)` carried back by the transposed
    /// rotation.
    pub fn propose(&self, x: i64, y: i64) -> (r: Vec3)
        ensures
            r == propose_s(*self, x as int, y as int),
            r.fits(),
    {
        proof {
            reveal(crate::camera::propose_s);
        }
        self.rx.scale(x).add(self.ry.scale(y)).add(self.rz.scale(self.f))
    }
}

/// Bound on an accumulator cell's channel; sums saturate here, far beyond any
/// budget of samples.
pub const CELL_LIM: i128 = 0x10_0000_0000_0000_0000_0000_0000;

/// One pixel's running, unnormalized sum of weighted contributions.
/// Channels are held at double scale (`FX_ONE` squared), so adding a
/// contribution is exact: no rounding happens before display.
#[derive(Clone, Copy, Debug, PartialEq, Eq, Structural)]
pub struct Accum {
    pub r: i128,
    pub g: i128,
    pub b: i128,
}

/// `v` pinned to `[-CELL_LIM, CELL_LIM]`.
pub open spec fn cellclip(v: int) -> int {
    clip(v, CELL_LIM as int)
}

/// What recording adds to a cell: the color times the weight, channelwise, at
/// double scale and without rounding.
pub open spec fn accum_add_s(a: Accum, c: Color, w: int) -> Accum {
    Accum {
        r: cellclip(a.r + c.r * w) as i128,
        g: cellclip(a.g + c.g * w) as i128,
        b: cellclip(a.b + c.b * w) as i128,
    }
}

/// What display reads from a cell: each channel brought back to single scale,
/// rounding toward zero.
pub open spec fn cell_color_s(a: Accum) -> Color {
    Color {
        r: clip(tdiv(a.r as int, FX_ONE as int), FX_LIM as int) as i64,
        g: clip(tdiv(a.g as int, FX_ONE as int), FX_LIM as int) as i64,
        b: clip(tdiv(a.b as int, FX_ONE as int), FX_LIM as int) as i64,
    }
}

/// A channel within the cell's range.
pub open spec fn cell_ch_ok(v: int) -> bool {
    -CELL_LIM as int <= v <= CELL_LIM as int
}

/// The shared pixel grid: `width * height` accumulator cells.
#[derive(Debug)]
pub struct ImageBuffer {
    data: Vec<Accum>,
    width: usize,
    height: usize,
}

/// What well-formedness gives every holder of a buffer: the cell count is
/// the pixel count, and the sides are positive and bounded.
pub proof fn lemma_buffer_wf(b: ImageBuffer)
    requires
        b.wf(),
    ensures
        b.cells().len() == b.width_s() * b.height_s(),
        b.width_s() * b.height_s() <= 0x1000_0000,
        1 <= b.width_s() <= 0x1000_0000,
        1 <= b.height_s() <= 0x1000_0000,
        forall|i: int|
            0 <= i < b.cells().len() ==> cell_ch_ok((#[trigger] b.cells()[i]).r as int)
                && cell_ch_ok(b.cells()[i].g as int) && cell_ch_ok(b.cells()[i].b as int),
{
    assert(b.width_s() <= b.width_s() * b.height_s()) by (nonlinear_arith)
        requires
            b.width_s() >= 1,
            b.height_s() >= 1,
    ;
    assert(b.height_s() <= b.width_s() * b.height_s()) by (nonlinear_arith)
        requires
            b.width_s() >= 1,
            b.height_s() >= 1,
    ;
}

impl ImageBuffer {
    /// The cells, for specification.
    pub closed spec fn cells(self) -> Seq<Accum> {
        self.data@
    }

    /// The width, for specification.
    pub closed spec fn width_s(self) -> int {
        self.width as int
    }

    /// The height, for specification.
    pub closed spec fn height_s(self) -> int {
        self.height as int
    }

    /// One cell per pixel, and every channel within range.
    pub closed spec fn wf(self) -> bool {
        self.data@.len() == self.width * self.height && self.width >= 1 && self.height >= 1
            && self.width * self.height <= 0x1000_0000 && forall|i: int|
            0 <= i < self.data@.len() ==> cell_ch_ok((#[trigger] self.data@[i]).r as int)
                && cell_ch_ok(self.data@[i].g as int) && cell_ch_ok(self.data@[i].b as int)
    }

    /// A black image of the given size.
    pub fn new(width: usize, height: usize) -> (img: ImageBuffer)
        requires
            1 <= width,
            1 <= height,
            width * height <= 0x1000_0000,
        ensures
            img.wf(),
            img.width_s() == width,
            img.height_s() == height,
            img.cells().len() == width * height,
            forall|i: int| 0 <= i < img.cells().len() ==> img.cells()[i] == (Accum { r: 0, g: 0, b: 0 }),
    {
        let n = width * height;
        let mut data: Vec<Accum> = Vec::new();
        let mut i: usize = 0;
        while i < n
            invariant
                0 <= i <= n,
                data@.len() == i,
                forall|j: int| 0 <= j < i ==> data@[j] == (Accum { r: 0, g: 0, b: 0 }),
            decreases n - i,
        {
            data.push(Accum { r: 0, g: 0, b: 0 });
            i = i + 1;
        }
        ImageBuffer { data, width, height }
    }

    /// The width in pixels.
    pub fn width(&self) -> (w: usize)
        ensures
            w == self.width_s(),
    {
        self.width
    }

    /// The height in pixels.
    pub fn height(&self) -> (h: usize)
        ensures
            h == self.height_s(),
    {
        self.height
    }

    /// The cell at the given index.
    pub fn cell(&self, i: usize) -> (a: Accum)
        requires
            i < self.cells().len(),
        ensures
            a == self.cells()[i as int],
    {
        self.data[i]
    }

    /// Add the weighted color into one cell, exactly (the channels clip only
    /// at the far bound `CELL_LIM`); every other cell stays as it was.
    pub fn add_sample(&mut self, idx: usize, c: Color, w: i64)
        requires
            old(self).wf(),
            idx < old(self).cells().len(),
        ensures
            final(self).wf(),
            final(self).width_s() == old(self).width_s(),
            final(self).height_s() == old(self).height_s(),
            final(self).cells().len() == old(self).cells().len(),
            final(self).cells()[idx as int] == accum_add_s(old(self).cells()[idx as int], c, w as int),
            forall|j: int|
                0 <= j < old(self).cells().len() && j != idx ==> final(self).cells()[j] == old(
                    self,
                ).cells()[j],
    {
        let cur: Accum = self.data[idx];
        let nr = cell_add(cur.r, c.r, w);
        let ng = cell_add(cur.g, c.g, w);
        let nb = cell_add(cur.b, c.b, w);
        self.data.set(idx, Accum { r: nr, g: ng, b: nb });
    }

    /// The image tone-mapped for display: each cell brought back to single
    /// scale and packed as `0x00rrggbb`.
    pub fn to_pixels(&self) -> (v: Vec<u32>)
        requires
            self.wf(),
        ensures
            v@.len() == self.cells().len(),
            forall|i: int|
                0 <= i < v@.len() ==> v@[i] == pack_s(cell_color_s(self.cells()[i])),
    {
        let n = self.data.len();
        let mut v: Vec<u32> = Vec::new();
        let mut i: usize = 0;
        while i < n
            invariant
                self.wf(),
                0 <= i <= n,
                n == self.cells().len(),
                v@.len() == i,
                forall|j: int| 0 <= j < i ==> v@[j] == pack_s(cell_color_s(self.cells()[j])),
            decreases n - i,
        {
            let a: Accum = self.data[i];
            let c = Color { r: unscale(a.r), g: unscale(a.g), b: unscale(a.b) };
            proof {
                assert(c == cell_color_s(self.cells()[i as int]));
            }
            v.push(c.to_u32());
            i = i + 1;
        }
        v
    }
}

/// One channel of a cell plus one added contribution, clipping only at `CELL_LIM`.
fn cell_add(cur: i128, ch: i64, w: i64) -> (r: i128)
    requires
        cell_ch_ok(cur as int),
    ensures
        r == cellclip(cur + (ch as int) * (w as int)),
        cell_ch_ok(r as int),
{
    proof {
        assert((ch as int) * (w as int) <= 0x8000000000000000 * 0x8000000000000000
            && (ch as int) * (w as int) >= -(0x8000000000000000 * 0x8000000000000000))
            by (nonlinear_arith)
            requires
                -0x8000000000000000 <= ch as int <= 0x8000000000000000,
                -0x8000000000000000 <= w as int <= 0x8000000000000000,
        ;
    }
    let added: i128 = (ch as i128) * (w as i128);
    let s: i128 = cur + added;
    if s > CELL_LIM {
        CELL_LIM
    } else if s < -CELL_LIM {
        -CELL_LIM
    } else {
        s
    }
}

/// One channel brought from double to single scale, rounding toward zero and
/// pinned to the scalar range.
fn unscale(v: i128) -> (r: i64)
    requires
        cell_ch_ok(v as int),
    ensures
        r == clip(tdiv(v as int, FX_ONE as int), FX_LIM as int),
{
    let neg: bool = v < 0;
    let m: u128 = if v >= 0 {
        v as u128
    } else {
        (-v) as u128
    };
    let q: u128 = m / 0x1_0000_0000u128;
    let lim: u128 = FX_LIM as u128;
    let qc: u128 = if q > lim {
        lim
    } else {
        q
    };
    let mag: i64 = qc as i64;
    let r: i64 = if neg {
        -mag
    } else {
        mag
    };
    proof {
        let vi = v as int;
        let s = FX_ONE as int;
        crate::fx::lemma_tdiv_pos(vi, s);
        assert(m == sabs(vi));
        assert(q == sabs(vi) / s);
    }
    r
}

} // verus!
