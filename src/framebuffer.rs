use vstd::prelude::*;

use crate::fixed::DEPTH_FAR;

verus! {

/// The packed colour `R<<16 | G<<8 | B`, as a number.
pub open spec fn packed(r: u8, g: u8, b: u8) -> u32 {
    (r as int * 65536 + g as int * 256 + b as int) as u32
}

/// Packs three 8-bit channels as `R<<16 | G<<8 | B`, with no alpha.
pub fn pack_rgb(r: u8, g: u8, b: u8) -> (res: u32)
    ensures
        res == packed(r, g, b),
        res == r as int * 65536 + g as int * 256 + b as int,
{
    let r32: u32 = r as u32;
    let g32: u32 = g as u32;
    let b32: u32 = b as u32;
    assert((r32 << 16u32 | g32 << 8u32 | b32) == r32 * 65536 + g32 * 256 + b32) by (bit_vector)
        requires
            r32 < 256,
            g32 < 256,
            b32 < 256,
    ;
    r32 << 16u32 | g32 << 8u32 | b32
}

/// The row-major position of pixel `(x, y)` lies inside a `w` by `h` buffer.
pub proof fn lemma_index_in_bounds(x: int, y: int, w: int, h: int)
    requires
        0 <= x < w,
        0 <= y < h,
    ensures
        0 <= y * w + x < w * h,
{
    assert(0 <= y * w + x < w * h) by (nonlinear_arith)
        requires
            0 <= x < w,
            0 <= y < h,
    ;
}

/// A colour buffer of packed pixels and a depth buffer over the same
/// `width` by `height` grid, both row-major. Depths carry sixteen fractional
/// bits; `DEPTH_FAR` (1.0) is the farthest. `gamma_table` maps a linear 8-bit
/// channel to its gamma-encoded 8-bit value.
pub struct FrameBuffer {
    pub pixels: Vec<u32>,
    pub depths: Vec<i32>,
    pub width: usize,
    pub height: usize,
    pub gamma_table: [u8; 256],
}

impl FrameBuffer {
    /// Both buffers hold one cell for each pixel of the grid.
    pub open spec fn wf(&self) -> bool {
        &&& self.pixels@.len() == self.width * self.height
        &&& self.depths@.len() == self.width * self.height
    }

    pub open spec fn in_bounds(&self, x: int, y: int) -> bool {
        0 <= x < self.width && 0 <= y < self.height
    }

    /// Row-major position of pixel `(x, y)`.
    pub open spec fn index_of(&self, x: int, y: int) -> int {
        y * self.width + x
    }

    pub open spec fn pixel_at(&self, x: int, y: int) -> u32 {
        self.pixels@[self.index_of(x, y)]
    }

    pub open spec fn depth_at(&self, x: int, y: int) -> i32 {
        self.depths@[self.index_of(x, y)]
    }

    /// The packed colour written for the linear channels `r`, `g`, `b`.
    pub open spec fn encoded(&self, r: u8, g: u8, b: u8) -> u32 {
        packed(self.gamma_table@[r as int], self.gamma_table@[g as int], self.gamma_table@[b as int])
    }

    /// A buffer whose pixels are all 0 and whose depths are all `DEPTH_FAR`.
    pub fn new(width: usize, height: usize, gamma_table: [u8; 256]) -> (fb: FrameBuffer)
        requires
            width * height <= usize::MAX,
        ensures
            fb.wf(),
            fb.width == width,
            fb.height == height,
            fb.gamma_table == gamma_table,
            forall|i: int| 0 <= i < width * height ==> #[trigger] fb.pixels@[i] == 0,
            forall|i: int| 0 <= i < width * height ==> #[trigger] fb.depths@[i] == DEPTH_FAR,
    {
        let mut fb = FrameBuffer {
            pixels: Vec::new(),
            depths: Vec::new(),
            width,
            height,
            gamma_table,
        };
        fb.clear();
        fb
    }

    /// Resets every pixel to 0 and every depth to `DEPTH_FAR`.
    pub fn clear(&mut self)
        requires
            old(self).width * old(self).height <= usize::MAX,
        ensures
            final(self).wf(),
            final(self).width == old(self).width,
            final(self).height == old(self).height,
            final(self).gamma_table == old(self).gamma_table,
            forall|i: int|
                0 <= i < old(self).width * old(self).height ==> #[trigger] final(self).pixels@[i]
                    == 0,
            forall|i: int|
                0 <= i < old(self).width * old(self).height ==> #[trigger] final(self).depths@[i]
                    == DEPTH_FAR,
    {
        let dim: usize = self.width * self.height;
        let mut pixels: Vec<u32> = Vec::with_capacity(dim);
        let mut depths: Vec<i32> = Vec::with_capacity(dim);
        let mut i: usize = 0;
        while i < dim
            invariant
                i <= dim,
                pixels@.len() == i,
                depths@.len() == i,
                forall|k: int| 0 <= k < i ==> #[trigger] pixels@[k] == 0,
                forall|k: int| 0 <= k < i ==> #[trigger] depths@[k] == DEPTH_FAR,
            decreases dim - i,
        {
            pixels.push(0);
            depths.push(DEPTH_FAR);
            i = i + 1;
        }
        self.pixels = pixels;
        self.depths = depths;
    }

    /// The packed colour that `write_pixel_rgb` stores for the linear channels
    /// `r`, `g`, `b`: each is gamma-encoded through the table, then packed.
    pub fn map_rgb_to_u32(&self, r: u8, g: u8, b: u8) -> (res: u32)
        ensures
            res == self.encoded(r, g, b),
    {
        pack_rgb(self.gamma_table[r as usize], self.gamma_table[g as usize], self.gamma_table[b as usize])
    }

    /// Stores a gamma-encoded colour at `(x, y)`.
    pub fn write_pixel_rgb(&mut self, x: usize, y: usize, r: u8, g: u8, b: u8)
        requires
            old(self).wf(),
            old(self).in_bounds(x as int, y as int),
        ensures
            final(self).pixels@ == old(self).pixels@.update(
                old(self).index_of(x as int, y as int),
                old(self).encoded(r, g, b),
            ),
            final(self).depths@ == old(self).depths@,
            final(self).wf(),
            final(self).width == old(self).width,
            final(self).height == old(self).height,
            final(self).gamma_table == old(self).gamma_table,
    {
        let value = self.map_rgb_to_u32(r, g, b);
        self.write_pixel(x, y, value);
    }

    /// Stores a packed colour at `(x, y)`.
    pub fn write_pixel(&mut self, x: usize, y: usize, value: u32)
        requires
            old(self).wf(),
            old(self).in_bounds(x as int, y as int),
        ensures
            final(self).pixels@ == old(self).pixels@.update(
                old(self).index_of(x as int, y as int),
                value,
            ),
            final(self).depths@ == old(self).depths@,
            final(self).wf(),
            final(self).width == old(self).width,
            final(self).height == old(self).height,
            final(self).gamma_table == old(self).gamma_table,
    {
        let index = self.index(x, y);
        self.pixels.set(index, value);
    }

    /// Row-major position of pixel `(x, y)`, inside both buffers.
    fn index(&self, x: usize, y: usize) -> (i: usize)
        requires
            self.wf(),
            self.in_bounds(x as int, y as int),
        ensures
            i == self.index_of(x as int, y as int),
            i < self.pixels@.len(),
    {
        // a vector's length fits in usize, and so does every index below it
        let cells = self.pixels.len();
        proof {
            lemma_index_in_bounds(x as int, y as int, self.width as int, self.height as int);
            assert(y * self.width <= y * self.width + x < cells);
        }
        y * self.width + x
    }

    /// The packed colour at `(x, y)`.
    pub fn get_pixel(&self, x: usize, y: usize) -> (res: u32)
        requires
            self.wf(),
            self.in_bounds(x as int, y as int),
        ensures
            res == self.pixel_at(x as int, y as int),
    {
        self.pixels[self.index(x, y)]
    }

    /// The depth at `(x, y)`.
    pub fn get_depth(&self, x: usize, y: usize) -> (res: i32)
        requires
            self.wf(),
            self.in_bounds(x as int, y as int),
        ensures
            res == self.depth_at(x as int, y as int),
    {
        self.depths[self.index(x, y)]
    }

    /// Stores a depth at `(x, y)`.
    pub fn set_depth(&mut self, x: usize, y: usize, value: i32)
        requires
            old(self).wf(),
            old(self).in_bounds(x as int, y as int),
        ensures
            final(self).depths@ == old(self).depths@.update(
                old(self).index_of(x as int, y as int),
                value,
            ),
            final(self).pixels@ == old(self).pixels@,
            final(self).wf(),
            final(self).width == old(self).width,
            final(self).height == old(self).height,
            final(self).gamma_table == old(self).gamma_table,
    {
        let index = self.index(x, y);
        self.depths.set(index, value);
    }

    /// Less-than depth test: when `z` is strictly nearer than the stored
    /// depth, stores `z` and the packed colour and returns true; otherwise
    /// leaves the buffer as it was and returns false.
    pub fn write_if_nearer(&mut self, x: usize, y: usize, z: i32, value: u32) -> (written: bool)
        requires
            old(self).wf(),
            old(self).in_bounds(x as int, y as int),
        ensures
            written == (z < old(self).depth_at(x as int, y as int)),
            final(self).wf(),
            (final(self).pixels@, final(self).depths@) == depth_write(
                old(self).pixels@,
                old(self).depths@,
                old(self).index_of(x as int, y as int),
                z,
                value,
            ),
            final(self).width == old(self).width,
            final(self).height == old(self).height,
            final(self).gamma_table == old(self).gamma_table,
    {
        if z < self.get_depth(x, y) {
            self.set_depth(x, y, z);
            self.write_pixel(x, y, value);
            true
        } else {
            false
        }
    }
}

/// Colour and depth buffers after a depth-tested write of `value` at depth
/// `z` to cell `i`: the write happens only where `z` is strictly nearer.
pub open spec fn depth_write(pixels: Seq<u32>, depths: Seq<i32>, i: int, z: i32, value: u32) -> (
    Seq<u32>,
    Seq<i32>,
) {
    if z < depths[i] {
        (pixels.update(i, value), depths.update(i, z))
    } else {
        (pixels, depths)
    }
}

/// Once a cell holds depth `z1`, a write at a depth `z2` that is not nearer
/// leaves both buffers as they were, and a write at a strictly nearer depth
/// `z3` then replaces the cell's colour and depth.
pub proof fn lemma_depth_test_monotone(
    pixels: Seq<u32>,
    depths: Seq<i32>,
    i: int,
    z1: i32,
    z2: i32,
    z3: i32,
    c1: u32,
    c2: u32,
    c3: u32,
)
    requires
        0 <= i < pixels.len(),
        pixels.len() == depths.len(),
        z1 < depths[i],
        z1 <= z2,
        z3 < z1,
    ensures
        ({
            let (p1, d1) = depth_write(pixels, depths, i, z1, c1);
            let (p2, d2) = depth_write(p1, d1, i, z2, c2);
            let (p3, d3) = depth_write(p2, d2, i, z3, c3);
            &&& p1[i] == c1 && d1[i] == z1
            &&& p2 == p1 && d2 == d1
            &&& p3 == p1.update(i, c3) && d3 == d1.update(i, z3)
            &&& p3[i] == c3 && d3[i] == z3
        }),
{
}

} // verus!
