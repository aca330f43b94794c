use vstd::prelude::*;

use crate::fixed::ONE;

verus! {

/// One texel: four 8-bit channels, red, green, blue and alpha.
#[derive(Clone, Copy, Debug, PartialEq, Eq, Structural)]
pub struct Texel {
    pub r: u8,
    pub g: u8,
    pub b: u8,
    pub a: u8,
}

/// Texture coordinate wrapped into `[0, 1)`: `u - floor(u)`.
pub open spec fn wrap_repeat(u: int) -> int {
    u % (ONE as int)
}

/// Texture coordinate clamped into `[0, 1]`.
pub open spec fn wrap_clamp(u: int) -> int {
    if u < 0 {
        0
    } else if u > ONE {
        ONE as int
    } else {
        u
    }
}

/// An RGBA image, row-major, four channels per texel. Texture coordinates
/// carry sixteen fractional bits.
pub struct Texture {
    pub data: Vec<u8>,
    pub width: usize,
    pub height: usize,
}

impl Texture {
    /// At least one texel, and four channels for each.
    pub open spec fn wf(&self) -> bool {
        &&& self.width >= 1
        &&& self.height >= 1
        &&& self.data@.len() == self.width * self.height * 4
    }

    /// Nearest column for a coordinate in `[0, 1]`: `floor((width - 1) * u)`.
    pub open spec fn column_of(&self, u: int) -> int {
        (self.width - 1) * u / (ONE as int)
    }

    /// Nearest row for a coordinate in `[0, 1]`: `floor((height - 1) * v)`.
    pub open spec fn row_of(&self, v: int) -> int {
        (self.height - 1) * v / (ONE as int)
    }

    /// The texel stored at column `c`, row `r`.
    pub open spec fn texel_at(&self, c: int, r: int) -> Texel {
        let i = (r * self.width + c) * 4;
        Texel { r: self.data@[i], g: self.data@[i + 1], b: self.data@[i + 2], a: self.data@[i + 3] }
    }

    /// Nearest-texel lookup at `(u, v)` in `[0, 1]`.
    pub open spec fn point(&self, u: int, v: int) -> Texel {
        self.texel_at(self.column_of(u), self.row_of(v))
    }

    /// Lookup with the repeat wrap policy.
    pub open spec fn repeat(&self, u: int, v: int) -> Texel {
        self.point(wrap_repeat(u), wrap_repeat(v))
    }

    /// Lookup with the clamp wrap policy.
    pub open spec fn clamp(&self, u: int, v: int) -> Texel {
        self.point(wrap_clamp(u), wrap_clamp(v))
    }

    /// A texture over `data`, which holds `width * height` RGBA texels row by
    /// row; `None` when a dimension is zero or the length does not match.
    pub fn from_rgba8(width: usize, height: usize, data: Vec<u8>) -> (res: Option<Texture>)
        ensures
            res is Some <==> (width >= 1 && height >= 1 && data@.len() == width * height * 4),
            res matches Some(t) ==> t.wf() && t.width == width && t.height == height && t.data@
                == data@,
    {
        let len_data = data.len();
        if width == 0 || height == 0 {
            return None;
        }
        match width.checked_mul(height) {
            None => {
                proof {
                    assert(width * height * 4 >= width * height) by (nonlinear_arith)
                        requires
                            width * height >= 0,
                    ;
                }
                None
            },
            Some(n) => match n.checked_mul(4) {
                None => {
                    assert(len_data <= usize::MAX);
                    None
                },
                Some(len) => {
                    if len == len_data {
                        Some(Texture { data, width, height })
                    } else {
                        None
                    }
                },
            },
        }
    }

    /// Nearest texel at `(u, v)`, both in `[0, 1]`: column
    /// `floor((width - 1) * u)`, row `floor((height - 1) * v)`.
    pub fn sample_point(&self, u: i64, v: i64) -> (res: Texel)
        requires
            self.wf(),
            0 <= u <= ONE,
            0 <= v <= ONE,
        ensures
            res == self.point(u as int, v as int),
    {
        let w = self.width;
        let h = self.height;
        proof {
            assert((w - 1) * u <= 0xffff_ffff_ffff_ffff_ffff_ffffu128) by (nonlinear_arith)
                requires
                    0 <= u <= 65536,
                    1 <= w <= usize::MAX,
            ;
            assert((h - 1) * v <= 0xffff_ffff_ffff_ffff_ffff_ffffu128) by (nonlinear_arith)
                requires
                    0 <= v <= 65536,
                    1 <= h <= usize::MAX,
            ;
        }
        let c128: u128 = (w - 1) as u128 * u as u128 / 65536;
        let r128: u128 = (h - 1) as u128 * v as u128 / 65536;
        proof {
            assert((w - 1) * u / 65536 <= w - 1) by (nonlinear_arith)
                requires
                    0 <= u <= 65536,
                    w >= 1,
            ;
            assert((h - 1) * v / 65536 <= h - 1) by (nonlinear_arith)
                requires
                    0 <= v <= 65536,
                    h >= 1,
            ;
        }
        let c = c128 as usize;
        let r = r128 as usize;
        let channels = self.data.len();
        proof {
            assert(0 <= r * w + c < w * h) by (nonlinear_arith)
                requires
                    0 <= c < w,
                    0 <= r < h,
            ;
        }
        assert((r * w + c) * 4 < channels);
        let i = (r * w + c) * 4;
        Texel { r: self.data[i], g: self.data[i + 1], b: self.data[i + 2], a: self.data[i + 3] }
    }

    /// Samples with the repeat policy: each coordinate becomes
    /// `coord - floor(coord)` before the nearest-texel lookup.
    pub fn sample_repeat(&self, u: i64, v: i64) -> (res: Texel)
        requires
            self.wf(),
        ensures
            res == self.repeat(u as int, v as int),
    {
        self.sample_point(frac(u), frac(v))
    }

    /// Samples with the clamp policy: each coordinate is clamped into `[0, 1]`
    /// before the nearest-texel lookup.
    pub fn sample_clamp(&self, u: i64, v: i64) -> (res: Texel)
        requires
            self.wf(),
        ensures
            res == self.clamp(u as int, v as int),
    {
        self.sample_point(clamp_unit(u), clamp_unit(v))
    }
}

/// The fractional part of a fixed-point coordinate.
fn frac(u: i64) -> (res: i64)
    ensures
        res == wrap_repeat(u as int),
        0 <= res < ONE,
{
    match u.checked_rem_euclid(ONE) {
        Some(m) => m,
        None => 0,
    }
}

/// A fixed-point coordinate clamped into `[0, 1]`.
fn clamp_unit(u: i64) -> (res: i64)
    ensures
        res == wrap_clamp(u as int),
        0 <= res <= ONE,
{
    if u < 0 {
        0
    } else if u > ONE {
        ONE
    } else {
        u
    }
}

/// Repeat sampling is periodic: shifting a coordinate by a whole number of
/// texture widths does not change the texel.
pub proof fn lemma_repeat_periodic(t: Texture, u: int, v: int, k: int, l: int)
    ensures
        t.repeat(u + k * ONE, v + l * ONE) == t.repeat(u, v),
{
    vstd::arithmetic::div_mod::lemma_mod_multiples_vanish(k, u, ONE as int);
    vstd::arithmetic::div_mod::lemma_mod_multiples_vanish(l, v, ONE as int);
    assert(u + k * ONE == ONE * k + u) by (nonlinear_arith);
    assert(v + l * ONE == ONE * l + v) by (nonlinear_arith);
}

/// Clamp sampling beyond the edge equals sampling at the edge: any
/// coordinate at or past 1.0 samples as 1.0, any at or below 0.0 as 0.0.
pub proof fn lemma_clamp_saturates(t: Texture, u: int, v: int)
    ensures
        u >= ONE ==> t.clamp(u, v) == t.point(ONE as int, wrap_clamp(v)),
        u <= 0 ==> t.clamp(u, v) == t.point(0, wrap_clamp(v)),
        v >= ONE ==> t.clamp(u, v) == t.point(wrap_clamp(u), ONE as int),
        v <= 0 ==> t.clamp(u, v) == t.point(wrap_clamp(u), 0),
{
}

} // verus!
