use vstd::prelude::*;

use crate::barycentric::{
    edge, lemma_barycentric_identity, lemma_barycentric_unique, lemma_div_between,
    lemma_div_bounded, lemma_mul_bound, lemma_weighted_bounds,
};
use crate::fixed::{ATTR_LIMIT, COORD_LIMIT, DIM_LIMIT, NDC_LIMIT, ONE, SUBPIXEL};
use crate::framebuffer::{lemma_index_in_bounds, packed, FrameBuffer};
use crate::texture::{Texel, Texture};

verus! {

/// A screen-space position in sub-pixel units; `y` grows downward.
#[derive(Clone, Copy, Debug, PartialEq, Eq, Structural)]
pub struct Point {
    pub x: i64,
    pub y: i64,
}

/// A triangle corner after the perspective divide and the viewport
/// transform: its screen position, its normalized depth `z`, its clip-space
/// `w`, and its texture coordinates `u`, `v` (all three with sixteen
/// fractional bits).
#[derive(Clone, Copy, Debug, PartialEq, Eq, Structural)]
pub struct ScreenVertex {
    pub x: i64,
    pub y: i64,
    pub z: i32,
    pub w: i64,
    pub u: i64,
    pub v: i64,
}

pub open spec fn orient(a: Point, b: Point, c: Point) -> int {
    edge(a.x as int, a.y as int, b.x as int, b.y as int, c.x as int, c.y as int)
}

pub open spec fn point_in_range(p: Point) -> bool {
    -COORD_LIMIT <= p.x <= COORD_LIMIT && -COORD_LIMIT <= p.y <= COORD_LIMIT
}

/// A vertex that the fixed-point pipeline can carry: its position within
/// the coordinate bound, in front of the eye (`w > 0`), and its attributes
/// within their bound.
pub open spec fn vertex_in_range(v: ScreenVertex) -> bool {
    &&& -COORD_LIMIT <= v.x <= COORD_LIMIT
    &&& -COORD_LIMIT <= v.y <= COORD_LIMIT
    &&& 0 < v.w <= ATTR_LIMIT
    &&& -ATTR_LIMIT <= v.u <= ATTR_LIMIT
    &&& -ATTR_LIMIT <= v.v <= ATTR_LIMIT
}

/// Twice the signed screen-space area of the triangle; positive when its
/// corners run counter-clockwise as seen on screen (front-facing).
pub open spec fn tri_area(a: ScreenVertex, b: ScreenVertex, c: ScreenVertex) -> int {
    edge(a.x as int, a.y as int, b.x as int, b.y as int, c.x as int, c.y as int)
}

/// A triangle that is drawn at all: every corner in range and a strictly
/// positive area. Back-facing and degenerate triangles are discarded.
pub open spec fn drawable(a: ScreenVertex, b: ScreenVertex, c: ScreenVertex) -> bool {
    vertex_in_range(a) && vertex_in_range(b) && vertex_in_range(c) && tri_area(a, b, c) > 0
}

/// The centre of pixel column (or row) `x`, in sub-pixels.
pub open spec fn center(x: int) -> int {
    x * SUBPIXEL + SUBPIXEL / 2
}

/// Edge function opposite corner `a`, at the centre of pixel `(x, y)`.
pub open spec fn weight0(a: ScreenVertex, b: ScreenVertex, c: ScreenVertex, x: int, y: int) -> int {
    edge(b.x as int, b.y as int, c.x as int, c.y as int, center(x), center(y))
}

/// Edge function opposite corner `b`, at the centre of pixel `(x, y)`.
pub open spec fn weight1(a: ScreenVertex, b: ScreenVertex, c: ScreenVertex, x: int, y: int) -> int {
    edge(c.x as int, c.y as int, a.x as int, a.y as int, center(x), center(y))
}

/// Edge function opposite corner `c`, at the centre of pixel `(x, y)`.
pub open spec fn weight2(a: ScreenVertex, b: ScreenVertex, c: ScreenVertex, x: int, y: int) -> int {
    edge(a.x as int, a.y as int, b.x as int, b.y as int, center(x), center(y))
}

/// Pixel `(x, y)` is covered when all three edge functions at its centre
/// are non-negative (pixels on an edge are covered).
pub open spec fn covers(a: ScreenVertex, b: ScreenVertex, c: ScreenVertex, x: int, y: int) -> bool {
    weight0(a, b, c, x, y) >= 0 && weight1(a, b, c, x, y) >= 0 && weight2(a, b, c, x, y) >= 0
}

/// Depth at pixel `(x, y)`: the corners' depths under the screen-space
/// barycentric weights, rounded down.
pub open spec fn interp_depth(a: ScreenVertex, b: ScreenVertex, c: ScreenVertex, x: int, y: int) -> int {
    (weight0(a, b, c, x, y) * a.z + weight1(a, b, c, x, y) * b.z + weight2(a, b, c, x, y) * c.z)
        / tri_area(a, b, c)
}

/// Perspective-corrected weight of corner `a`: its screen weight divided by
/// its `w`, scaled by the product of all three `w` (so that it stays whole).
pub open spec fn persp0(a: ScreenVertex, b: ScreenVertex, c: ScreenVertex, x: int, y: int) -> int {
    weight0(a, b, c, x, y) * (b.w * c.w)
}

pub open spec fn persp1(a: ScreenVertex, b: ScreenVertex, c: ScreenVertex, x: int, y: int) -> int {
    weight1(a, b, c, x, y) * (a.w * c.w)
}

pub open spec fn persp2(a: ScreenVertex, b: ScreenVertex, c: ScreenVertex, x: int, y: int) -> int {
    weight2(a, b, c, x, y) * (a.w * b.w)
}

pub open spec fn persp_sum(a: ScreenVertex, b: ScreenVertex, c: ScreenVertex, x: int, y: int) -> int {
    persp0(a, b, c, x, y) + persp1(a, b, c, x, y) + persp2(a, b, c, x, y)
}

/// Perspective-correct texture coordinate `u` at pixel `(x, y)`, rounded down.
pub open spec fn interp_u(a: ScreenVertex, b: ScreenVertex, c: ScreenVertex, x: int, y: int) -> int {
    (persp0(a, b, c, x, y) * a.u + persp1(a, b, c, x, y) * b.u + persp2(a, b, c, x, y) * c.u)
        / persp_sum(a, b, c, x, y)
}

/// Perspective-correct texture coordinate `v` at pixel `(x, y)`, rounded down.
pub open spec fn interp_v(a: ScreenVertex, b: ScreenVertex, c: ScreenVertex, x: int, y: int) -> int {
    (persp0(a, b, c, x, y) * a.v + persp1(a, b, c, x, y) * b.v + persp2(a, b, c, x, y) * c.v)
        / persp_sum(a, b, c, x, y)
}

/// The packed colour of a texel's red, green and blue, gamma-encoded.
pub open spec fn shade(gamma: Seq<u8>, t: Texel) -> u32 {
    packed(gamma[t.r as int], gamma[t.g as int], gamma[t.b as int])
}

/// What drawing triangle `a, b, c` does to pixel `(x, y)`, whose colour is
/// `px` and depth `dz`: where the triangle is drawn, covers the pixel, and
/// its depth there is strictly nearer, the pixel takes the texture's colour
/// (repeat wrap) and the new depth; otherwise it stays as it was.
pub open spec fn fragment(
    px: u32,
    dz: i32,
    gamma: Seq<u8>,
    tex: Texture,
    a: ScreenVertex,
    b: ScreenVertex,
    c: ScreenVertex,
    x: int,
    y: int,
) -> (u32, i32) {
    if drawable(a, b, c) && covers(a, b, c, x, y) && interp_depth(a, b, c, x, y) < dz {
        (
            shade(gamma, tex.repeat(interp_u(a, b, c, x, y), interp_v(a, b, c, x, y))),
            interp_depth(a, b, c, x, y) as i32,
        )
    } else {
        (px, dz)
    }
}

/// Colour and depth of pixel `(x, y)` in row-major buffers of width `w`.
pub open spec fn cell(pixels: Seq<u32>, depths: Seq<i32>, w: int, x: int, y: int) -> (u32, i32) {
    (pixels[y * w + x], depths[y * w + x])
}

/// An edge function over points within the coordinate bound stays within
/// 2^51.
proof fn lemma_edge_bound(ax: int, ay: int, bx: int, by: int, px: int, py: int)
    requires
        -COORD_LIMIT <= ax <= COORD_LIMIT,
        -COORD_LIMIT <= ay <= COORD_LIMIT,
        -COORD_LIMIT <= bx <= COORD_LIMIT,
        -COORD_LIMIT <= by <= COORD_LIMIT,
        -COORD_LIMIT <= px <= COORD_LIMIT,
        -COORD_LIMIT <= py <= COORD_LIMIT,
    ensures
        -0x4_0000_0000_0000 <= (px - ax) * (by - ay) <= 0x4_0000_0000_0000,
        -0x4_0000_0000_0000 <= (py - ay) * (bx - ax) <= 0x4_0000_0000_0000,
        -0x8_0000_0000_0000 <= edge(ax, ay, bx, by, px, py) <= 0x8_0000_0000_0000,
{
    lemma_mul_bound(px - ax, by - ay, 0x200_0000, 0x200_0000);
    lemma_mul_bound(py - ay, bx - ax, 0x200_0000, 0x200_0000);
    assert(0x200_0000int * 0x200_0000int == 0x4_0000_0000_0000int);
}

/// The orientation of `c` against the directed line `a -> b`.
pub fn orient2d(a: Point, b: Point, c: Point) -> (res: i64)
    requires
        point_in_range(a),
        point_in_range(b),
        point_in_range(c),
    ensures
        res == orient(a, b, c),
{
    proof {
        lemma_edge_bound(
            a.x as int,
            a.y as int,
            b.x as int,
            b.y as int,
            c.x as int,
            c.y as int,
        );
    }
    (c.x - a.x) * (b.y - a.y) - (c.y - a.y) * (b.x - a.x)
}

impl ScreenVertex {
    pub open spec fn pos_spec(self) -> Point {
        Point { x: self.x, y: self.y }
    }

    /// The vertex's screen position.
    pub fn pos(&self) -> (p: Point)
        ensures
            p == self.pos_spec(),
    {
        Point { x: self.x, y: self.y }
    }
}

/// A covered pixel's centre lies within the bounds of the corners.
proof fn lemma_covered_within(a: ScreenVertex, b: ScreenVertex, c: ScreenVertex, x: int, y: int)
    requires
        tri_area(a, b, c) > 0,
        covers(a, b, c, x, y),
    ensures
        center(x) >= min3(a.x as int, b.x as int, c.x as int),
        center(x) <= max3(a.x as int, b.x as int, c.x as int),
        center(y) >= min3(a.y as int, b.y as int, c.y as int),
        center(y) <= max3(a.y as int, b.y as int, c.y as int),
{
    let e0 = weight0(a, b, c, x, y);
    let e1 = weight1(a, b, c, x, y);
    let e2 = weight2(a, b, c, x, y);
    let s = tri_area(a, b, c);
    lemma_barycentric_identity(
        a.x as int,
        a.y as int,
        b.x as int,
        b.y as int,
        c.x as int,
        c.y as int,
        center(x),
        center(y),
    );
    let lx = min3(a.x as int, b.x as int, c.x as int);
    let hx = max3(a.x as int, b.x as int, c.x as int);
    let ly = min3(a.y as int, b.y as int, c.y as int);
    let hy = max3(a.y as int, b.y as int, c.y as int);
    lemma_weighted_bounds(e0, e1, e2, a.x as int, b.x as int, c.x as int, lx, hx);
    lemma_weighted_bounds(e0, e1, e2, a.y as int, b.y as int, c.y as int, ly, hy);
    let px = center(x);
    let py = center(y);
    assert(lx <= px <= hx) by (nonlinear_arith)
        requires
            s > 0,
            s * lx <= s * px <= s * hx,
    ;
    assert(ly <= py <= hy) by (nonlinear_arith)
        requires
            s > 0,
            s * ly <= s * py <= s * hy,
    ;
}

pub open spec fn min3(a: int, b: int, c: int) -> int {
    if a <= b && a <= c {
        a
    } else if b <= c {
        b
    } else {
        c
    }
}

pub open spec fn max3(a: int, b: int, c: int) -> int {
    if a >= b && a >= c {
        a
    } else if b >= c {
        b
    } else {
        c
    }
}

/// Applies triangle `a, b, c` to pixel `(x, y)` (see `fragment`).
fn shade_pixel(
    fb: &mut FrameBuffer,
    tex: &Texture,
    a: ScreenVertex,
    b: ScreenVertex,
    c: ScreenVertex,
    area: i64,
    x: usize,
    y: usize,
)
    requires
        old(fb).wf(),
        tex.wf(),
        drawable(a, b, c),
        area == tri_area(a, b, c),
        old(fb).in_bounds(x as int, y as int),
        old(fb).width <= DIM_LIMIT,
        old(fb).height <= DIM_LIMIT,
    ensures
        final(fb).wf(),
        final(fb).width == old(fb).width,
        final(fb).height == old(fb).height,
        final(fb).gamma_table == old(fb).gamma_table,
        ({
            let i = old(fb).index_of(x as int, y as int);
            let f = fragment(
                old(fb).pixel_at(x as int, y as int),
                old(fb).depth_at(x as int, y as int),
                old(fb).gamma_table@,
                *tex,
                a,
                b,
                c,
                x as int,
                y as int,
            );
            &&& final(fb).pixels@ == old(fb).pixels@.update(i, f.0)
            &&& final(fb).depths@ == old(fb).depths@.update(i, f.1)
        }),
{
    let ghost i = fb.index_of(x as int, y as int);
    proof {
        lemma_index_in_bounds(x as int, y as int, fb.width as int, fb.height as int);
        assert(fb.pixels@.update(i, fb.pixels@[i]) =~= fb.pixels@);
        assert(fb.depths@.update(i, fb.depths@[i]) =~= fb.depths@);
    }
    let p = Point { x: x as i64 * 256 + 128, y: y as i64 * 256 + 128 };
    let e0 = orient2d(b.pos(), c.pos(), p);
    let e1 = orient2d(c.pos(), a.pos(), p);
    let e2 = orient2d(a.pos(), b.pos(), p);
    if e0 < 0 || e1 < 0 || e2 < 0 {
        return ;
    }
    proof {
        lemma_barycentric_identity(
            a.x as int,
            a.y as int,
            b.x as int,
            b.y as int,
            c.x as int,
            c.y as int,
            p.x as int,
            p.y as int,
        );
        lemma_edge_bound(b.x as int, b.y as int, c.x as int, c.y as int, p.x as int, p.y as int);
        lemma_edge_bound(c.x as int, c.y as int, a.x as int, a.y as int, p.x as int, p.y as int);
        lemma_edge_bound(a.x as int, a.y as int, b.x as int, b.y as int, p.x as int, p.y as int);
        lemma_mul_bound(e0 as int, a.z as int, 0x8_0000_0000_0000, 0x8000_0000);
        lemma_mul_bound(e1 as int, b.z as int, 0x8_0000_0000_0000, 0x8000_0000);
        lemma_mul_bound(e2 as int, c.z as int, 0x8_0000_0000_0000, 0x8000_0000);
        assert(0x8_0000_0000_0000int * 0x8000_0000int == 0x4_0000_0000_0000_0000_0000int);
    }
    let num: i128 = e0 as i128 * a.z as i128 + e1 as i128 * b.z as i128 + e2 as i128 * c.z as i128;
    let z128: i128 = match num.checked_div_euclid(area as i128) {
        Some(q) => q,
        None => {
            proof {
                lemma_div_bounded(num as int, area as int, 0x10_0000_0000_0000_0000_0000);
            }
            return ;
        },
    };
    proof {
        lemma_weighted_bounds(
            e0 as int,
            e1 as int,
            e2 as int,
            a.z as int,
            b.z as int,
            c.z as int,
            i32::MIN as int,
            i32::MAX as int,
        );
        lemma_div_between(num as int, area as int, i32::MIN as int, i32::MAX as int);
    }
    let z = z128 as i32;
    if z >= fb.get_depth(x, y) {
        return ;
    }
    proof {
        lemma_mul_bound(b.w as int, c.w as int, 0x100_0000, 0x100_0000);
        lemma_mul_bound(a.w as int, c.w as int, 0x100_0000, 0x100_0000);
        lemma_mul_bound(a.w as int, b.w as int, 0x100_0000, 0x100_0000);
        assert(0x100_0000int * 0x100_0000int == 0x1_0000_0000_0000int);
        lemma_mul_bound(e0 as int, b.w * c.w, 0x8_0000_0000_0000, 0x1_0000_0000_0000);
        lemma_mul_bound(e1 as int, a.w * c.w, 0x8_0000_0000_0000, 0x1_0000_0000_0000);
        lemma_mul_bound(e2 as int, a.w * b.w, 0x8_0000_0000_0000, 0x1_0000_0000_0000);
        assert(0x8_0000_0000_0000int * 0x1_0000_0000_0000int
            == 0x8_0000_0000_0000_0000_0000_0000int);
    }
    let q0: i128 = e0 as i128 * (b.w as i128 * c.w as i128);
    let q1: i128 = e1 as i128 * (a.w as i128 * c.w as i128);
    let q2: i128 = e2 as i128 * (a.w as i128 * b.w as i128);
    let qs: i128 = q0 + q1 + q2;
    proof {
        lemma_mul_bound(q0 as int, a.u as int, 0x8_0000_0000_0000_0000_0000_0000, 0x100_0000);
        lemma_mul_bound(q1 as int, b.u as int, 0x8_0000_0000_0000_0000_0000_0000, 0x100_0000);
        lemma_mul_bound(q2 as int, c.u as int, 0x8_0000_0000_0000_0000_0000_0000, 0x100_0000);
        lemma_mul_bound(q0 as int, a.v as int, 0x8_0000_0000_0000_0000_0000_0000, 0x100_0000);
        lemma_mul_bound(q1 as int, b.v as int, 0x8_0000_0000_0000_0000_0000_0000, 0x100_0000);
        lemma_mul_bound(q2 as int, c.v as int, 0x8_0000_0000_0000_0000_0000_0000, 0x100_0000);
        assert(0x8_0000_0000_0000_0000_0000_0000int * 0x100_0000int
            == 0x800_0000_0000_0000_0000_0000_0000_0000int);
        // some corner carries a positive weight, so the corrected weights
        // have a positive sum
        assert(q0 >= 0 && q1 >= 0 && q2 >= 0 && qs >= 1) by (nonlinear_arith)
            requires
                e0 >= 0,
                e1 >= 0,
                e2 >= 0,
                e0 + e1 + e2 > 0,
                a.w > 0,
                b.w > 0,
                c.w > 0,
                q0 == e0 * (b.w * c.w),
                q1 == e1 * (a.w * c.w),
                q2 == e2 * (a.w * b.w),
                qs == q0 + q1 + q2,
        ;
    }
    let un: i128 = q0 * a.u as i128 + q1 * b.u as i128 + q2 * c.u as i128;
    let vn: i128 = q0 * a.v as i128 + q1 * b.v as i128 + q2 * c.v as i128;
    proof {
        lemma_div_bounded(un as int, qs as int, 0x1800_0000_0000_0000_0000_0000_0000_0000);
        lemma_div_bounded(vn as int, qs as int, 0x1800_0000_0000_0000_0000_0000_0000_0000);
    }
    let tu: i128 = match un.checked_div_euclid(qs) {
        Some(q) => q,
        None => return ,
    };
    let tv: i128 = match vn.checked_div_euclid(qs) {
        Some(q) => q,
        None => return ,
    };
    let fu: i128 = match tu.checked_rem_euclid(65536) {
        Some(r) => r,
        None => return ,
    };
    let fv: i128 = match tv.checked_rem_euclid(65536) {
        Some(r) => r,
        None => return ,
    };
    let texel = tex.sample_point(fu as i64, fv as i64);
    let color = fb.map_rgb_to_u32(texel.r, texel.g, texel.b);
    fb.set_depth(x, y, z);
    fb.write_pixel(x, y, color);
}

/// What pixel `(x, y)` of buffers `p0`, `d0` (row width `w`) becomes under
/// triangle `a, b, c`.
pub open spec fn fragment_cell(
    p0: Seq<u32>,
    d0: Seq<i32>,
    w: int,
    gamma: Seq<u8>,
    tex: Texture,
    a: ScreenVertex,
    b: ScreenVertex,
    c: ScreenVertex,
    x: int,
    y: int,
) -> (u32, i32) {
    fragment(p0[y * w + x], d0[y * w + x], gamma, tex, a, b, c, x, y)
}

/// First pixel column (or row) of the bounding box whose smallest corner
/// coordinate is `m`.
pub open spec fn box_lo(m: int) -> int {
    if m <= 0 {
        0
    } else {
        m / SUBPIXEL as int
    }
}

/// Last pixel column (or row) of the bounding box whose largest corner
/// coordinate is `m`, clamped to a buffer dimension `dim`.
pub open spec fn box_hi(m: int, dim: int) -> int {
    if m / SUBPIXEL as int <= dim - 1 {
        m / SUBPIXEL as int
    } else {
        dim - 1
    }
}

/// A pixel whose centre lies within `[m, n]` lies within the clamped box.
proof fn lemma_in_box(m: int, n: int, x: int, dim: int)
    requires
        m <= center(x) <= n,
        0 <= x < dim,
    ensures
        box_lo(m) <= x <= box_hi(n, dim),
        n >= 0,
{
    vstd::arithmetic::div_mod::lemma_fundamental_div_mod(m, 256);
    vstd::arithmetic::div_mod::lemma_fundamental_div_mod(n, 256);
    let qm = m / 256;
    let rm = m % 256;
    let qn = n / 256;
    let rn = n % 256;
    assert(m > 0 ==> qm <= x) by (nonlinear_arith)
        requires
            m <= x * 256 + 128,
            m == 256 * qm + rm,
            0 <= rm < 256,
    ;
    assert(x <= qn) by (nonlinear_arith)
        requires
            x * 256 + 128 <= n,
            n == 256 * qn + rn,
            0 <= rn < 256,
    ;
}

/// Distinct pixels of a buffer have distinct row-major positions.
proof fn lemma_index_injective(x1: int, y1: int, x2: int, y2: int, w: int)
    requires
        0 <= x1 < w,
        0 <= x2 < w,
        0 <= y1,
        0 <= y2,
        y1 * w + x1 == y2 * w + x2,
    ensures
        x1 == x2 && y1 == y2,
{
    vstd::arithmetic::div_mod::lemma_fundamental_div_mod_converse(y1 * w + x1, w, y1, x1);
    vstd::arithmetic::div_mod::lemma_fundamental_div_mod_converse(y2 * w + x2, w, y2, x2);
}

fn min3_i64(a: i64, b: i64, c: i64) -> (r: i64)
    ensures
        r == min3(a as int, b as int, c as int),
{
    if a <= b && a <= c {
        a
    } else if b <= c {
        b
    } else {
        c
    }
}

fn max3_i64(a: i64, b: i64, c: i64) -> (r: i64)
    ensures
        r == max3(a as int, b as int, c as int),
{
    if a >= b && a >= c {
        a
    } else if b >= c {
        b
    } else {
        c
    }
}

/// Whether a vertex is within the fixed-point pipeline's bounds.
pub fn vertex_ok(v: &ScreenVertex) -> (r: bool)
    ensures
        r == vertex_in_range(*v),
{
    -COORD_LIMIT <= v.x && v.x <= COORD_LIMIT && -COORD_LIMIT <= v.y && v.y <= COORD_LIMIT && 0
        < v.w && v.w <= ATTR_LIMIT && -ATTR_LIMIT <= v.u && v.u <= ATTR_LIMIT && -ATTR_LIMIT <= v.v
        && v.v <= ATTR_LIMIT
}

/// Rasterizes triangle `a, b, c` into `fb`, textured from `tex` with the
/// repeat wrap. Every pixel becomes what `fragment` says of it: pixels that
/// a drawn (front-facing, in range) triangle covers and that pass the
/// less-than depth test take the texture colour and the new depth; all
/// others keep theirs. Only the triangle's bounding box, clamped to the
/// buffer, is visited.
pub fn draw_triangle(
    fb: &mut FrameBuffer,
    tex: &Texture,
    a: ScreenVertex,
    b: ScreenVertex,
    c: ScreenVertex,
)
    requires
        old(fb).wf(),
        tex.wf(),
        old(fb).width <= DIM_LIMIT,
        old(fb).height <= DIM_LIMIT,
    ensures
        final(fb).wf(),
        final(fb).width == old(fb).width,
        final(fb).height == old(fb).height,
        final(fb).gamma_table == old(fb).gamma_table,
        forall|x: int, y: int|
            old(fb).in_bounds(x, y) ==> #[trigger] cell(
                final(fb).pixels@,
                final(fb).depths@,
                old(fb).width as int,
                x,
                y,
            ) == fragment_cell(
                old(fb).pixels@,
                old(fb).depths@,
                old(fb).width as int,
                old(fb).gamma_table@,
                *tex,
                a,
                b,
                c,
                x,
                y,
            ),
{
    let ghost p0 = fb.pixels@;
    let ghost d0 = fb.depths@;
    let ghost g = fb.gamma_table@;
    let w = fb.width;
    let h = fb.height;
    if !(vertex_ok(&a) && vertex_ok(&b) && vertex_ok(&c)) {
        return ;
    }
    let area = orient2d(a.pos(), b.pos(), c.pos());
    if area <= 0 {
        return ;
    }
    let min_x = min3_i64(a.x, b.x, c.x);
    let max_x = max3_i64(a.x, b.x, c.x);
    let min_y = min3_i64(a.y, b.y, c.y);
    let max_y = max3_i64(a.y, b.y, c.y);
    proof {
        assert forall|x: int, y: int|
            0 <= x < w && 0 <= y < h && covers(a, b, c, x, y) implies box_lo(min_x as int) <= x
            <= box_hi(max_x as int, w as int) && box_lo(min_y as int) <= y <= box_hi(
            max_y as int,
            h as int,
        ) && max_x >= 0 && max_y >= 0 by {
            lemma_covered_within(a, b, c, x, y);
            lemma_in_box(min_x as int, max_x as int, x, w as int);
            lemma_in_box(min_y as int, max_y as int, y, h as int);
        }
    }
    if max_x < 0 || max_y < 0 || w == 0 || h == 0 {
        return ;
    }
    let x_lo: usize = if min_x <= 0 {
        0
    } else {
        (min_x as u64 / 256) as usize
    };
    let y_lo: usize = if min_y <= 0 {
        0
    } else {
        (min_y as u64 / 256) as usize
    };
    let qx: usize = (max_x as u64 / 256) as usize;
    let qy: usize = (max_y as u64 / 256) as usize;
    let x_hi: usize = if qx <= w - 1 {
        qx
    } else {
        w - 1
    };
    let y_hi: usize = if qy <= h - 1 {
        qy
    } else {
        h - 1
    };
    assert(x_lo == box_lo(min_x as int) && x_hi == box_hi(max_x as int, w as int));
    assert(y_lo == box_lo(min_y as int) && y_hi == box_hi(max_y as int, h as int));
    if x_lo > x_hi || y_lo > y_hi {
        return ;
    }
    let mut y = y_lo;
    while y <= y_hi
        invariant
            fb.wf(),
            fb.width == w,
            fb.height == h,
            fb.gamma_table@ == g,
            p0.len() == w * h,
            d0.len() == w * h,
            tex.wf(),
            w <= DIM_LIMIT,
            h <= DIM_LIMIT,
            drawable(a, b, c),
            area == tri_area(a, b, c),
            x_hi < w,
            y_hi < h,
            x_lo <= x_hi,
            y_lo <= y,
            y <= y_hi + 1,
            forall|px: int, py: int|
                0 <= px < w && 0 <= py < h ==> #[trigger] cell(fb.pixels@, fb.depths@, w as int, px, py)
                    == if y_lo <= py < y && x_lo <= px <= x_hi {
                    fragment_cell(p0, d0, w as int, g, *tex, a, b, c, px, py)
                } else {
                    cell(p0, d0, w as int, px, py)
                },
        decreases y_hi + 1 - y,
    {
        let mut x = x_lo;
        while x <= x_hi
            invariant
                fb.wf(),
                fb.width == w,
                fb.height == h,
                fb.gamma_table@ == g,
                p0.len() == w * h,
                d0.len() == w * h,
                tex.wf(),
                w <= DIM_LIMIT,
                h <= DIM_LIMIT,
                drawable(a, b, c),
                area == tri_area(a, b, c),
                x_hi < w,
                y_hi < h,
                x_lo <= x_hi,
                y_lo <= y <= y_hi,
                x_lo <= x,
                x <= x_hi + 1,
                forall|px: int, py: int|
                    0 <= px < w && 0 <= py < h ==> #[trigger] cell(
                        fb.pixels@,
                        fb.depths@,
                        w as int,
                        px,
                        py,
                    ) == if (y_lo <= py < y && x_lo <= px <= x_hi) || (py == y && x_lo <= px
                        < x) {
                        fragment_cell(p0, d0, w as int, g, *tex, a, b, c, px, py)
                    } else {
                        cell(p0, d0, w as int, px, py)
                    },
            decreases x_hi + 1 - x,
        {
            let ghost pb = fb.pixels@;
            let ghost db = fb.depths@;
            assert(cell(pb, db, w as int, x as int, y as int) == cell(
                p0,
                d0,
                w as int,
                x as int,
                y as int,
            ));
            shade_pixel(fb, tex, a, b, c, area, x, y);
            proof {
                assert forall|px: int, py: int|
                    0 <= px < w && 0 <= py < h implies #[trigger] cell(
                    fb.pixels@,
                    fb.depths@,
                    w as int,
                    px,
                    py,
                ) == if (y_lo <= py < y && x_lo <= px <= x_hi) || (py == y && x_lo <= px < x
                    + 1) {
                    fragment_cell(p0, d0, w as int, g, *tex, a, b, c, px, py)
                } else {
                    cell(p0, d0, w as int, px, py)
                } by {
                    lemma_index_in_bounds(px, py, w as int, h as int);
                    lemma_index_in_bounds(x as int, y as int, w as int, h as int);
                    if px != x || py != y {
                        if py * w + px == y * w + x {
                            lemma_index_injective(px, py, x as int, y as int, w as int);
                        }
                        assert(cell(pb, db, w as int, px, py) == cell(
                            fb.pixels@,
                            fb.depths@,
                            w as int,
                            px,
                            py,
                        ));
                    }
                }
            }
            x = x + 1;
        }
        y = y + 1;
    }
}

/// Screen column, in sub-pixels, of a normalized device `x`:
/// `(x + 1)·0.5·width`, rounded down.
pub open spec fn viewport_x(ndc_x: int, width: int) -> int {
    (ndc_x + ONE) * width * SUBPIXEL / (2 * ONE)
}

/// Screen row, in sub-pixels, of a normalized device `y`, flipped so that
/// rows grow downward: `(1 - y)·0.5·height`, rounded down.
pub open spec fn viewport_y(ndc_y: int, height: int) -> int {
    (ONE - ndc_y) * height * SUBPIXEL / (2 * ONE)
}

proof fn lemma_viewport_bound(n: int, dim: int)
    requires
        -NDC_LIMIT <= n <= NDC_LIMIT,
        0 <= dim <= DIM_LIMIT,
    ensures
        -0x200_0000_0000 <= (n + ONE) * dim * SUBPIXEL <= 0x200_0000_0000,
        -0x200_0000_0000 <= (ONE - n) * dim * SUBPIXEL <= 0x200_0000_0000,
        -COORD_LIMIT <= (n + ONE) * dim * SUBPIXEL / (2 * ONE) <= COORD_LIMIT,
        -COORD_LIMIT <= (ONE - n) * dim * SUBPIXEL / (2 * ONE) <= COORD_LIMIT,
{
    lemma_mul_bound(n + ONE, dim, 0x11_0000, 0x1000);
    lemma_mul_bound(ONE - n, dim, 0x11_0000, 0x1000);
    assert(0x11_0000int * 0x1000int == 0x1_1000_0000int);
    lemma_div_between((n + ONE) * dim * SUBPIXEL, 2 * ONE, -0x88_0000, 0x88_0000);
    lemma_div_between((ONE - n) * dim * SUBPIXEL, 2 * ONE, -0x88_0000, 0x88_0000);
}

/// The sub-pixel screen position of a point in normalized device
/// coordinates (sixteen fractional bits); `None` when a coordinate is beyond
/// 16.0 in magnitude or a dimension beyond `DIM_LIMIT`.
pub fn viewport(ndc_x: i64, ndc_y: i64, width: usize, height: usize) -> (res: Option<Point>)
    ensures
        res is Some <==> (-NDC_LIMIT <= ndc_x <= NDC_LIMIT && -NDC_LIMIT <= ndc_y <= NDC_LIMIT
            && width <= DIM_LIMIT && height <= DIM_LIMIT),
        res matches Some(p) ==> p.x == viewport_x(ndc_x as int, width as int) && p.y == viewport_y(
            ndc_y as int,
            height as int,
        ) && point_in_range(p),
{
    if ndc_x < -NDC_LIMIT || ndc_x > NDC_LIMIT || ndc_y < -NDC_LIMIT || ndc_y > NDC_LIMIT
        || width > DIM_LIMIT || height > DIM_LIMIT {
        return None;
    }
    proof {
        lemma_viewport_bound(ndc_x as int, width as int);
        lemma_viewport_bound(ndc_y as int, height as int);
    }
    let nx: i64 = (ndc_x + ONE) * width as i64 * SUBPIXEL;
    let ny: i64 = (ONE - ndc_y) * height as i64 * SUBPIXEL;
    match (nx.checked_div_euclid(2 * ONE), ny.checked_div_euclid(2 * ONE)) {
        (Some(x), Some(y)) => Some(Point { x, y }),
        _ => None,
    }
}

/// A pixel that the triangle covers has its centre inside the triangle (or
/// on its boundary): its three edge functions are non-negative weights that
/// sum to the area and combine the corners into the centre.
pub proof fn lemma_covered_inside(a: ScreenVertex, b: ScreenVertex, c: ScreenVertex, x: int, y: int)
    requires
        tri_area(a, b, c) > 0,
        covers(a, b, c, x, y),
    ensures
        weight0(a, b, c, x, y) >= 0,
        weight1(a, b, c, x, y) >= 0,
        weight2(a, b, c, x, y) >= 0,
        weight0(a, b, c, x, y) + weight1(a, b, c, x, y) + weight2(a, b, c, x, y) == tri_area(a, b, c),
        weight0(a, b, c, x, y) * a.x + weight1(a, b, c, x, y) * b.x + weight2(a, b, c, x, y) * c.x
            == tri_area(a, b, c) * center(x),
        weight0(a, b, c, x, y) * a.y + weight1(a, b, c, x, y) * b.y + weight2(a, b, c, x, y) * c.y
            == tri_area(a, b, c) * center(y),
{
    lemma_barycentric_identity(
        a.x as int,
        a.y as int,
        b.x as int,
        b.y as int,
        c.x as int,
        c.y as int,
        center(x),
        center(y),
    );
}

/// A pixel whose centre is inside the triangle or on its boundary (some
/// non-negative weights `l0, l1, l2` with a positive sum combine the corners
/// into it) is covered. So a pixel with a negative edge function lies
/// strictly outside the triangle.
pub proof fn lemma_inside_is_covered(
    a: ScreenVertex,
    b: ScreenVertex,
    c: ScreenVertex,
    x: int,
    y: int,
    l0: int,
    l1: int,
    l2: int,
)
    requires
        tri_area(a, b, c) > 0,
        l0 >= 0,
        l1 >= 0,
        l2 >= 0,
        l0 + l1 + l2 > 0,
        l0 * a.x + l1 * b.x + l2 * c.x == (l0 + l1 + l2) * center(x),
        l0 * a.y + l1 * b.y + l2 * c.y == (l0 + l1 + l2) * center(y),
    ensures
        covers(a, b, c, x, y),
{
    lemma_barycentric_unique(
        a.x as int,
        a.y as int,
        b.x as int,
        b.y as int,
        c.x as int,
        c.y as int,
        center(x),
        center(y),
        l0,
        l1,
        l2,
    );
    let s = l0 + l1 + l2;
    let area = tri_area(a, b, c);
    let e0 = weight0(a, b, c, x, y);
    let e1 = weight1(a, b, c, x, y);
    let e2 = weight2(a, b, c, x, y);
    assert(e0 >= 0) by (nonlinear_arith)
        requires
            e0 * s == area * l0,
            s > 0,
            area > 0,
            l0 >= 0,
    ;
    assert(e1 >= 0) by (nonlinear_arith)
        requires
            e1 * s == area * l1,
            s > 0,
            area > 0,
            l1 >= 0,
    ;
    assert(e2 >= 0) by (nonlinear_arith)
        requires
            e2 * s == area * l2,
            s > 0,
            area > 0,
            l2 >= 0,
    ;
}

/// Drawing never moves a pixel farther away: its depth after a triangle is
/// at most its depth before, and a pixel that changes takes a depth between
/// the nearest and farthest corner depths.
pub proof fn lemma_fragment_never_farther(
    px: u32,
    dz: i32,
    gamma: Seq<u8>,
    tex: Texture,
    a: ScreenVertex,
    b: ScreenVertex,
    c: ScreenVertex,
    x: int,
    y: int,
)
    ensures
        fragment(px, dz, gamma, tex, a, b, c, x, y).1 <= dz,
        fragment(px, dz, gamma, tex, a, b, c, x, y).1 != dz ==> min3(a.z as int, b.z as int, c.z as int)
            <= fragment(px, dz, gamma, tex, a, b, c, x, y).1 <= max3(
            a.z as int,
            b.z as int,
            c.z as int,
        ),
{
    if drawable(a, b, c) && covers(a, b, c, x, y) {
        let e0 = weight0(a, b, c, x, y);
        let e1 = weight1(a, b, c, x, y);
        let e2 = weight2(a, b, c, x, y);
        lemma_covered_inside(a, b, c, x, y);
        let lo = min3(a.z as int, b.z as int, c.z as int);
        let hi = max3(a.z as int, b.z as int, c.z as int);
        lemma_weighted_bounds(e0, e1, e2, a.z as int, b.z as int, c.z as int, lo, hi);
        lemma_div_between(e0 * a.z + e1 * b.z + e2 * c.z, tri_area(a, b, c), lo, hi);
    }
}

} // verus!
