use vstd::prelude::*;

use crate::fixed::DEPTH_FAR;

verus! {

/// A rectangle of the framebuffer that one worker owns, with its own colour
/// and depth buffers, row-major over its `width` by `height` pixels.
pub struct Tile {
    pub x_offset: usize,
    pub y_offset: usize,
    pub width: usize,
    pub height: usize,
    pub pixels: Vec<u32>,
    pub depths: Vec<i32>,
}

impl Tile {
    /// An empty tile at the origin.
    pub fn new() -> (t: Tile)
        ensures
            t.x_offset == 0 && t.y_offset == 0 && t.width == 0 && t.height == 0,
            t.pixels@.len() == 0 && t.depths@.len() == 0,
    {
        Tile { x_offset: 0, y_offset: 0, width: 0, height: 0, pixels: Vec::new(), depths: Vec::new() }
    }
}

/// The integer square root: the largest `r` with `r * r <= num`.
pub fn isqrt(num: usize) -> (r: usize)
    ensures
        r * r <= num < (r + 1) * (r + 1),
{
    let mut r: usize = 0;
    while r < num && (r + 1) <= num / (r + 1)
        invariant
            r * r <= num,
        decreases num - r,
    {
        proof {
            let ni = num as int;
            let d = r as int + 1;
            vstd::arithmetic::div_mod::lemma_fundamental_div_mod(ni, d);
            assert(d * d <= ni) by (nonlinear_arith)
                requires
                    d <= ni / d,
                    ni == d * (ni / d) + ni % d,
                    ni % d >= 0,
                    d > 0,
            ;
            assert(r < (r + 1) * (r + 1)) by (nonlinear_arith);
        }
        r = r + 1;
    }
    proof {
        if r < num {
            let ni = num as int;
            let d = r as int + 1;
            vstd::arithmetic::div_mod::lemma_fundamental_div_mod(ni, d);
            assert(ni < d * d) by (nonlinear_arith)
                requires
                    d > ni / d,
                    ni == d * (ni / d) + ni % d,
                    ni % d < d,
                    d > 0,
            ;
        } else {
            assert(num < (r + 1) * (r + 1)) by (nonlinear_arith)
                requires
                    r >= num,
                    num >= 0,
            ;
        }
    }
    r
}

/// `r` is the integer square root of `num`.
pub open spec fn is_isqrt(r: int, num: int) -> bool {
    r >= 0 && r * r <= num < (r + 1) * (r + 1)
}

/// Offset of the `i`-th of `n` tile spans over `extent` pixels.
pub open spec fn span_offset(i: int, n: int, extent: int) -> int {
    i * (extent / n)
}

/// Length of the `i`-th of `n` tile spans: `extent / n`, with the last
/// span taking what is left over.
pub open spec fn span_len(i: int, n: int, extent: int) -> int {
    if i == n - 1 {
        extent - (n - 1) * (extent / n)
    } else {
        extent / n
    }
}

/// Splits a `width` by `height` framebuffer into an `n` by `n` grid of
/// tiles, `n` being the integer square root of `num`. Tile `i * n + j`
/// covers column span `i` and row span `j`; the last span of each axis
/// takes the remainder, so that the tiles partition the framebuffer. Every
/// tile's pixels are 0 and its depths `DEPTH_FAR`.
pub fn generate_tiles(width: usize, height: usize, num: usize) -> (tiles: Vec<Tile>)
    requires
        num >= 1,
        width * height <= usize::MAX,
    ensures
        exists|r: int| #[trigger] is_isqrt(r, num as int) && r * r == tiles@.len(),
        forall|i: int, j: int, r: int|
            r * r == tiles@.len() && 0 <= i < r && 0 <= j < r ==> {
                let t = #[trigger] tiles@[i * r + j];
                &&& t.x_offset == span_offset(i, r, width as int)
                &&& t.y_offset == span_offset(j, r, height as int)
                &&& t.width == span_len(i, r, width as int)
                &&& t.height == span_len(j, r, height as int)
                &&& t.pixels@.len() == t.width * t.height
                &&& t.depths@.len() == t.width * t.height
                &&& forall|k: int| 0 <= k < t.pixels@.len() ==> #[trigger] t.pixels@[k] == 0
                &&& forall|k: int| 0 <= k < t.depths@.len() ==> #[trigger] t.depths@[k] == DEPTH_FAR
            },
{
    let n = isqrt(num);
    assert(n >= 1) by (nonlinear_arith)
        requires
            num >= 1,
            num < (n + 1) * (n + 1),
    ;
    let tile_width = width / n;
    let tile_height = height / n;
    let mut tiles: Vec<Tile> = Vec::new();
    let mut i: usize = 0;
    while i < n
        invariant
            1 <= n,
            n * n <= num,
            i <= n,
            tile_width == width / n,
            tile_height == height / n,
            width * height <= usize::MAX,
            tiles@.len() == i * n,
            forall|a: int, b: int|
                0 <= a < i && 0 <= b < n ==> {
                    let t = #[trigger] tiles@[a * n + b];
                    &&& t.x_offset == span_offset(a, n as int, width as int)
                    &&& t.y_offset == span_offset(b, n as int, height as int)
                    &&& t.width == span_len(a, n as int, width as int)
                    &&& t.height == span_len(b, n as int, height as int)
                    &&& t.pixels@.len() == t.width * t.height
                    &&& t.depths@.len() == t.width * t.height
                    &&& forall|k: int| 0 <= k < t.pixels@.len() ==> #[trigger] t.pixels@[k] == 0
                    &&& forall|k: int|
                        0 <= k < t.depths@.len() ==> #[trigger] t.depths@[k] == DEPTH_FAR
                },
        decreases n - i,
    {
        let mut j: usize = 0;
        while j < n
            invariant
                1 <= n,
                n * n <= num,
                i < n,
                j <= n,
                tile_width == width / n,
                tile_height == height / n,
                width * height <= usize::MAX,
                tiles@.len() == i * n + j,
                forall|a: int, b: int|
                    (0 <= a < i && 0 <= b < n) || (a == i && 0 <= b < j) ==> {
                        let t = #[trigger] tiles@[a * n + b];
                        &&& t.x_offset == span_offset(a, n as int, width as int)
                        &&& t.y_offset == span_offset(b, n as int, height as int)
                        &&& t.width == span_len(a, n as int, width as int)
                        &&& t.height == span_len(b, n as int, height as int)
                        &&& t.pixels@.len() == t.width * t.height
                        &&& t.depths@.len() == t.width * t.height
                        &&& forall|k: int| 0 <= k < t.pixels@.len() ==> #[trigger] t.pixels@[k] == 0
                        &&& forall|k: int|
                            0 <= k < t.depths@.len() ==> #[trigger] t.depths@[k] == DEPTH_FAR
                    },
            decreases n - j,
        {
            proof {
                vstd::arithmetic::div_mod::lemma_fundamental_div_mod(width as int, n as int);
                vstd::arithmetic::div_mod::lemma_fundamental_div_mod(height as int, n as int);
                assert(i * tile_width <= width && j * tile_height <= height) by (nonlinear_arith)
                    requires
                        i < n,
                        j < n,
                        width == n * tile_width + width % n,
                        height == n * tile_height + height % n,
                        width % n >= 0,
                        height % n >= 0,
                        tile_width >= 0,
                        tile_height >= 0,
                ;
            }
            let x_offset = i * tile_width;
            let y_offset = j * tile_height;
            let tw = if i == n - 1 {
                width - x_offset
            } else {
                tile_width
            };
            let th = if j == n - 1 {
                height - y_offset
            } else {
                tile_height
            };
            proof {
                assert(tw <= width && th <= height) by (nonlinear_arith)
                    requires
                        i < n,
                        j < n,
                        tw == width - x_offset || tw == tile_width,
                        th == height - y_offset || th == tile_height,
                        x_offset >= 0,
                        y_offset >= 0,
                        tile_width * n <= width,
                        tile_height * n <= height,
                        n >= 1,
                        tile_width >= 0,
                        tile_height >= 0,
                ;
                assert(tw * th <= width * height) by (nonlinear_arith)
                    requires
                        0 <= tw <= width,
                        0 <= th <= height,
                ;
            }
            let len = tw * th;
            let mut pixels: Vec<u32> = Vec::new();
            let mut depths: Vec<i32> = Vec::new();
            let mut k: usize = 0;
            while k < len
                invariant
                    k <= len,
                    pixels@.len() == k,
                    depths@.len() == k,
                    forall|m: int| 0 <= m < k ==> #[trigger] pixels@[m] == 0,
                    forall|m: int| 0 <= m < k ==> #[trigger] depths@[m] == DEPTH_FAR,
                decreases len - k,
            {
                pixels.push(0);
                depths.push(DEPTH_FAR);
                k = k + 1;
            }
            let ghost before = tiles@;
            tiles.push(Tile { x_offset, y_offset, width: tw, height: th, pixels, depths });
            proof {
                assert forall|a: int, b: int|
                    (0 <= a < i && 0 <= b < n) || (a == i && 0 <= b < j + 1) implies {
                    let t = #[trigger] tiles@[a * n + b];
                    &&& t.x_offset == span_offset(a, n as int, width as int)
                    &&& t.y_offset == span_offset(b, n as int, height as int)
                    &&& t.width == span_len(a, n as int, width as int)
                    &&& t.height == span_len(b, n as int, height as int)
                    &&& t.pixels@.len() == t.width * t.height
                    &&& t.depths@.len() == t.width * t.height
                    &&& forall|k: int| 0 <= k < t.pixels@.len() ==> #[trigger] t.pixels@[k] == 0
                    &&& forall|k: int|
                        0 <= k < t.depths@.len() ==> #[trigger] t.depths@[k] == DEPTH_FAR
                } by {
                    assert(a * n + b < i * n + j + 1) by (nonlinear_arith)
                        requires
                            (0 <= a < i && 0 <= b < n) || (a == i && 0 <= b < j + 1),
                            n >= 1,
                    ;
                    if a * n + b < i * n + j {
                        assert(tiles@[a * n + b] == before[a * n + b]);
                    } else {
                        assert(a == i && b == j) by (nonlinear_arith)
                            requires
                                (0 <= a < i && 0 <= b < n) || (a == i && 0 <= b < j + 1),
                                a * n + b == i * n + j,
                                n >= 1,
                        ;
                    }
                }
            }
            j = j + 1;
        }
        assert(i * n + n == (i + 1) * n) by (nonlinear_arith);
        i = i + 1;
    }
    proof {
        assert(is_isqrt(n as int, num as int));
        assert forall|a: int, b: int, r: int|
            r * r == tiles@.len() && 0 <= a < r && 0 <= b < r implies {
            let t = #[trigger] tiles@[a * r + b];
            &&& t.x_offset == span_offset(a, r, width as int)
            &&& t.y_offset == span_offset(b, r, height as int)
            &&& t.width == span_len(a, r, width as int)
            &&& t.height == span_len(b, r, height as int)
            &&& t.pixels@.len() == t.width * t.height
            &&& t.depths@.len() == t.width * t.height
            &&& forall|k: int| 0 <= k < t.pixels@.len() ==> #[trigger] t.pixels@[k] == 0
            &&& forall|k: int| 0 <= k < t.depths@.len() ==> #[trigger] t.depths@[k] == DEPTH_FAR
        } by {
            if r >= 0 {
                if r < n {
                    assert(r * r < n * n) by (nonlinear_arith)
                        requires
                            0 <= r < n,
                    ;
                } else if r > n {
                    assert(r * r > n * n) by (nonlinear_arith)
                        requires
                            r > n,
                            n >= 1,
                    ;
                }
            } else {
                assert(false);
            }
        }
    }
    tiles
}

/// The tile spans of an axis partition it: the first starts at 0, each
/// next one starts where the one before ends, and the last ends at the
/// extent. So every pixel lies in exactly one tile.
pub proof fn lemma_spans_partition(n: int, extent: int)
    requires
        n >= 1,
        extent >= 0,
    ensures
        span_offset(0, n, extent) == 0,
        forall|i: int|
            0 <= i < n - 1 ==> span_offset(i, n, extent) + span_len(i, n, extent) == #[trigger] span_offset(
                i + 1,
                n,
                extent,
            ),
        span_offset(n - 1, n, extent) + span_len(n - 1, n, extent) == extent,
        forall|i: int| 0 <= i < n ==> #[trigger] span_len(i, n, extent) >= 0,
{
    let q = extent / n;
    vstd::arithmetic::div_mod::lemma_fundamental_div_mod(extent, n);
    assert forall|i: int| 0 <= i < n - 1 implies span_offset(i, n, extent) + span_len(i, n, extent)
        == #[trigger] span_offset(i + 1, n, extent) by {
        assert(i * q + q == (i + 1) * q) by (nonlinear_arith);
    }
    assert(0 <= q) by (nonlinear_arith)
        requires
            extent >= 0,
            n >= 1,
            q == extent / n,
    ;
    assert((n - 1) * q <= extent) by (nonlinear_arith)
        requires
            extent == n * q + extent % n,
            extent % n >= 0,
            q >= 0,
            n >= 1,
    ;
}

} // verus!
