//! Edge functions and the algebra of barycentric weights over exact
//! integers.
use vstd::prelude::*;

verus! {

/// The orientation of `p` against the directed line `a -> b`: twice the
/// signed area of the triangle `a, b, p`.
pub open spec fn edge(ax: int, ay: int, bx: int, by: int, px: int, py: int) -> int {
    (px - ax) * (by - ay) - (py - ay) * (bx - ax)
}

pub(crate) proof fn lemma_mul_bound(x: int, y: int, bx: int, by: int)
    requires
        -bx <= x <= bx,
        -by <= y <= by,
    ensures
        -(bx * by) <= x * y <= bx * by,
{
    assert(-(bx * by) <= x * y <= bx * by) by (nonlinear_arith)
        requires
            -bx <= x <= bx,
            -by <= y <= by,
    ;
}

/// The three edge functions at any point `p` sum to the triangle's area
/// and weight its corners into `p`: `e0 + e1 + e2 = area` and
/// `e0·a + e1·b + e2·c = area·p`.
pub proof fn lemma_barycentric_identity(
    ax: int,
    ay: int,
    bx: int,
    by: int,
    cx: int,
    cy: int,
    px: int,
    py: int,
)
    ensures
        edge(bx, by, cx, cy, px, py) + edge(cx, cy, ax, ay, px, py) + edge(ax, ay, bx, by, px, py)
            == edge(ax, ay, bx, by, cx, cy),
        edge(bx, by, cx, cy, px, py) * ax + edge(cx, cy, ax, ay, px, py) * bx + edge(ax, ay, bx, by, px, py) * cx
            == edge(ax, ay, bx, by, cx, cy) * px,
        edge(bx, by, cx, cy, px, py) * ay + edge(cx, cy, ax, ay, px, py) * by + edge(ax, ay, bx, by, px, py) * cy
            == edge(ax, ay, bx, by, cx, cy) * py,
{
    lemma_edges_expanded(ax, ay, bx, by, cx, cy, px, py);
    lemma_distribute6(cy * px, by * px, bx * cy, cx * py, bx * py, by * cx, ax);
    lemma_mul3_perm(cy, px, ax);
    lemma_mul3_perm(by, px, ax);
    lemma_mul3_perm(bx, cy, ax);
    lemma_mul3_perm(cx, py, ax);
    lemma_mul3_perm(bx, py, ax);
    lemma_mul3_perm(by, cx, ax);
    lemma_distribute6(ay * px, cy * px, ay * cx, ax * py, cx * py, ax * cy, bx);
    lemma_mul3_perm(ay, px, bx);
    lemma_mul3_perm(cy, px, bx);
    lemma_mul3_perm(ay, cx, bx);
    lemma_mul3_perm(ax, py, bx);
    lemma_mul3_perm(cx, py, bx);
    lemma_mul3_perm(ax, cy, bx);
    lemma_distribute6(by * px, ay * px, ax * by, bx * py, ax * py, ay * bx, cx);
    lemma_mul3_perm(by, px, cx);
    lemma_mul3_perm(ay, px, cx);
    lemma_mul3_perm(ax, by, cx);
    lemma_mul3_perm(bx, py, cx);
    lemma_mul3_perm(ax, py, cx);
    lemma_mul3_perm(ay, bx, cx);
    lemma_distribute6(by * cx, ay * cx, ax * by, bx * cy, ax * cy, ay * bx, px);
    lemma_mul3_perm(by, cx, px);
    lemma_mul3_perm(ay, cx, px);
    lemma_mul3_perm(ax, by, px);
    lemma_mul3_perm(bx, cy, px);
    lemma_mul3_perm(ax, cy, px);
    lemma_mul3_perm(ay, bx, px);
    lemma_distribute6(cy * px, by * px, bx * cy, cx * py, bx * py, by * cx, ay);
    lemma_mul3_perm(cy, px, ay);
    lemma_mul3_perm(by, px, ay);
    lemma_mul3_perm(bx, cy, ay);
    lemma_mul3_perm(cx, py, ay);
    lemma_mul3_perm(bx, py, ay);
    lemma_mul3_perm(by, cx, ay);
    lemma_distribute6(ay * px, cy * px, ay * cx, ax * py, cx * py, ax * cy, by);
    lemma_mul3_perm(ay, px, by);
    lemma_mul3_perm(cy, px, by);
    lemma_mul3_perm(ay, cx, by);
    lemma_mul3_perm(ax, py, by);
    lemma_mul3_perm(cx, py, by);
    lemma_mul3_perm(ax, cy, by);
    lemma_distribute6(by * px, ay * px, ax * by, bx * py, ax * py, ay * bx, cy);
    lemma_mul3_perm(by, px, cy);
    lemma_mul3_perm(ay, px, cy);
    lemma_mul3_perm(ax, by, cy);
    lemma_mul3_perm(bx, py, cy);
    lemma_mul3_perm(ax, py, cy);
    lemma_mul3_perm(ay, bx, cy);
    lemma_distribute6(by * cx, ay * cx, ax * by, bx * cy, ax * cy, ay * bx, py);
    lemma_mul3_perm(by, cx, py);
    lemma_mul3_perm(ay, cx, py);
    lemma_mul3_perm(ax, by, py);
    lemma_mul3_perm(bx, cy, py);
    lemma_mul3_perm(ax, cy, py);
    lemma_mul3_perm(ay, bx, py);
}

proof fn lemma_distribute6(a1: int, a2: int, a3: int, a4: int, a5: int, a6: int, t: int)
    ensures
        (a1 - a2 - a3 - a4 + a5 + a6) * t == a1 * t - a2 * t - a3 * t - a4 * t + a5 * t + a6 * t,
{
    assert((a1 - a2 - a3 - a4 + a5 + a6) * t == a1 * t - a2 * t - a3 * t - a4 * t + a5 * t + a6 * t)
        by (nonlinear_arith);
}

proof fn lemma_mul3_perm(x: int, y: int, z: int)
    ensures
        x * y * z == x * z * y,
        x * y * z == y * x * z,
        x * y * z == y * z * x,
        x * y * z == z * x * y,
        x * y * z == z * y * x,
{
    assert(x * y * z == x * z * y) by (nonlinear_arith);
    assert(x * y * z == y * x * z) by (nonlinear_arith);
    assert(x * y * z == y * z * x) by (nonlinear_arith);
    assert(x * y * z == z * x * y) by (nonlinear_arith);
    assert(x * y * z == z * y * x) by (nonlinear_arith);
}

/// A non-negative weighting of three values lies between their bounds.
pub(crate) proof fn lemma_weighted_bounds(e0: int, e1: int, e2: int, a: int, b: int, c: int, lo: int, hi: int)
    requires
        e0 >= 0,
        e1 >= 0,
        e2 >= 0,
        lo <= a <= hi,
        lo <= b <= hi,
        lo <= c <= hi,
    ensures
        (e0 + e1 + e2) * lo <= e0 * a + e1 * b + e2 * c <= (e0 + e1 + e2) * hi,
{
    assert(e0 * lo <= e0 * a <= e0 * hi) by (nonlinear_arith)
        requires
            e0 >= 0,
            lo <= a <= hi,
    ;
    assert(e1 * lo <= e1 * b <= e1 * hi) by (nonlinear_arith)
        requires
            e1 >= 0,
            lo <= b <= hi,
    ;
    assert(e2 * lo <= e2 * c <= e2 * hi) by (nonlinear_arith)
        requires
            e2 >= 0,
            lo <= c <= hi,
    ;
    assert((e0 + e1 + e2) * lo == e0 * lo + e1 * lo + e2 * lo) by (nonlinear_arith);
    assert((e0 + e1 + e2) * hi == e0 * hi + e1 * hi + e2 * hi) by (nonlinear_arith);
}

/// Floor division by a positive divisor keeps a value's bounds.
pub(crate) proof fn lemma_div_between(n: int, d: int, lo: int, hi: int)
    requires
        d > 0,
        d * lo <= n <= d * hi,
    ensures
        lo <= n / d <= hi,
{
    vstd::arithmetic::div_mod::lemma_fundamental_div_mod(n, d);
    let q = n / d;
    let r = n % d;
    assert(lo <= q) by (nonlinear_arith)
        requires
            d > 0,
            d * lo <= n,
            n == d * q + r,
            0 <= r < d,
    ;
    assert(q <= hi) by (nonlinear_arith)
        requires
            d > 0,
            n <= d * hi,
            n == d * q + r,
            0 <= r < d,
    ;
}

/// A quotient by a divisor of at least one is no larger than the dividend's bound.
pub(crate) proof fn lemma_div_bounded(n: int, d: int, bound: int)
    requires
        d >= 1,
        bound >= 0,
        -bound <= n <= bound,
    ensures
        -bound <= n / d <= bound,
{
    vstd::arithmetic::div_mod::lemma_fundamental_div_mod(n, d);
    let q = n / d;
    let r = n % d;
    assert(-bound <= q <= bound) by (nonlinear_arith)
        requires
            d >= 1,
            bound >= 0,
            -bound <= n <= bound,
            n == d * q + r,
            0 <= r < d,
    ;
}

/// At the centroid `p` of a triangle (`3·p = a + b + c`) each edge function
/// is a third of the area, so each barycentric weight is 1/3 and the three
/// sum to 1.
pub proof fn lemma_centroid_weights(
    ax: int,
    ay: int,
    bx: int,
    by: int,
    cx: int,
    cy: int,
    px: int,
    py: int,
)
    requires
        3 * px == ax + bx + cx,
        3 * py == ay + by + cy,
    ensures
        3 * edge(bx, by, cx, cy, px, py) == edge(ax, ay, bx, by, cx, cy),
        3 * edge(cx, cy, ax, ay, px, py) == edge(ax, ay, bx, by, cx, cy),
        3 * edge(ax, ay, bx, by, px, py) == edge(ax, ay, bx, by, cx, cy),
        edge(bx, by, cx, cy, px, py) + edge(cx, cy, ax, ay, px, py) + edge(ax, ay, bx, by, px, py)
            == edge(ax, ay, bx, by, cx, cy),
{
    lemma_barycentric_identity(ax, ay, bx, by, cx, cy, px, py);
    let area = edge(ax, ay, bx, by, cx, cy);
    // each edge function is affine in the point, and vanishes at the two
    // corners of its edge
    assert(3 * ((px - bx) * (cy - by) - (py - by) * (cx - bx)) == (3 * px - 3 * bx) * (cy - by) - (3
        * py - 3 * by) * (cx - bx)) by (nonlinear_arith);
    assert((ax - bx) * (cy - by) - (ay - by) * (cx - bx) == area) by (nonlinear_arith)
        requires
            area == (cx - ax) * (by - ay) - (cy - ay) * (bx - ax),
    ;
    assert((ax + cx - 2 * bx) * (cy - by) - (ay + cy - 2 * by) * (cx - bx) == (ax - bx) * (cy - by)
        - (ay - by) * (cx - bx)) by (nonlinear_arith);
    assert(3 * ((px - cx) * (ay - cy) - (py - cy) * (ax - cx)) == (3 * px - 3 * cx) * (ay - cy) - (3
        * py - 3 * cy) * (ax - cx)) by (nonlinear_arith);
    assert((bx - cx) * (ay - cy) - (by - cy) * (ax - cx) == area) by (nonlinear_arith)
        requires
            area == (cx - ax) * (by - ay) - (cy - ay) * (bx - ax),
    ;
    assert((ax + bx - 2 * cx) * (ay - cy) - (ay + by - 2 * cy) * (ax - cx) == (bx - cx) * (ay - cy)
        - (by - cy) * (ax - cx)) by (nonlinear_arith);
}

/// Barycentric weights are unique: any weights `l0, l1, l2`, with sum `s`,
/// that combine the corners into `s·p` are the edge functions at `p` scaled
/// by `s / area`.
pub proof fn lemma_barycentric_unique(
    ax: int,
    ay: int,
    bx: int,
    by: int,
    cx: int,
    cy: int,
    px: int,
    py: int,
    l0: int,
    l1: int,
    l2: int,
)
    requires
        l0 * ax + l1 * bx + l2 * cx == (l0 + l1 + l2) * px,
        l0 * ay + l1 * by + l2 * cy == (l0 + l1 + l2) * py,
    ensures
        edge(bx, by, cx, cy, px, py) * (l0 + l1 + l2) == edge(ax, ay, bx, by, cx, cy) * l0,
        edge(cx, cy, ax, ay, px, py) * (l0 + l1 + l2) == edge(ax, ay, bx, by, cx, cy) * l1,
        edge(ax, ay, bx, by, px, py) * (l0 + l1 + l2) == edge(ax, ay, bx, by, cx, cy) * l2,
{
    let s = l0 + l1 + l2;
    lemma_edges_expanded(ax, ay, bx, by, cx, cy, px, py);
    lemma_distribute6(by * cx, ay * cx, ax * by, bx * cy, ax * cy, ay * bx, l0);
    lemma_mul3_perm(by, cx, l0);
    lemma_mul3_perm(ay, cx, l0);
    lemma_mul3_perm(ax, by, l0);
    lemma_mul3_perm(bx, cy, l0);
    lemma_mul3_perm(ax, cy, l0);
    lemma_mul3_perm(ay, bx, l0);
    lemma_distribute6(by * cx, ay * cx, ax * by, bx * cy, ax * cy, ay * bx, l1);
    lemma_mul3_perm(by, cx, l1);
    lemma_mul3_perm(ay, cx, l1);
    lemma_mul3_perm(ax, by, l1);
    lemma_mul3_perm(bx, cy, l1);
    lemma_mul3_perm(ax, cy, l1);
    lemma_mul3_perm(ay, bx, l1);
    lemma_distribute6(by * cx, ay * cx, ax * by, bx * cy, ax * cy, ay * bx, l2);
    lemma_mul3_perm(by, cx, l2);
    lemma_mul3_perm(ay, cx, l2);
    lemma_mul3_perm(ax, by, l2);
    lemma_mul3_perm(bx, cy, l2);
    lemma_mul3_perm(ax, cy, l2);
    lemma_mul3_perm(ay, bx, l2);
    lemma_distribute6(cy * px, by * px, bx * cy, cx * py, bx * py, by * cx, s);
    lemma_mul3_perm(cy, px, s);
    lemma_distribute3(l0 * ax, l1 * bx, l2 * cx, cy);
    lemma_mul3_perm(l0, ax, cy);
    lemma_mul3_perm(l1, bx, cy);
    lemma_mul3_perm(l2, cx, cy);
    lemma_mul3_perm(by, px, s);
    lemma_distribute3(l0 * ax, l1 * bx, l2 * cx, by);
    lemma_mul3_perm(l0, ax, by);
    lemma_mul3_perm(l1, bx, by);
    lemma_mul3_perm(l2, cx, by);
    lemma_mul3_perm(bx, cy, s);
    lemma_distribute3(l0, l1, l2, bx * cy);
    lemma_mul3_perm(l0, bx, cy);
    lemma_mul_assoc(l0, bx, cy);
    lemma_mul3_perm(l1, bx, cy);
    lemma_mul_assoc(l1, bx, cy);
    lemma_mul3_perm(l2, bx, cy);
    lemma_mul_assoc(l2, bx, cy);
    lemma_mul_assoc(s, bx, cy);
    lemma_mul3_perm(cx, py, s);
    lemma_distribute3(l0 * ay, l1 * by, l2 * cy, cx);
    lemma_mul3_perm(l0, ay, cx);
    lemma_mul3_perm(l1, by, cx);
    lemma_mul3_perm(l2, cy, cx);
    lemma_mul3_perm(bx, py, s);
    lemma_distribute3(l0 * ay, l1 * by, l2 * cy, bx);
    lemma_mul3_perm(l0, ay, bx);
    lemma_mul3_perm(l1, by, bx);
    lemma_mul3_perm(l2, cy, bx);
    lemma_mul3_perm(by, cx, s);
    lemma_distribute3(l0, l1, l2, by * cx);
    lemma_mul3_perm(l0, by, cx);
    lemma_mul_assoc(l0, by, cx);
    lemma_mul3_perm(l1, by, cx);
    lemma_mul_assoc(l1, by, cx);
    lemma_mul3_perm(l2, by, cx);
    lemma_mul_assoc(l2, by, cx);
    lemma_mul_assoc(s, by, cx);
    lemma_distribute6(ay * px, cy * px, ay * cx, ax * py, cx * py, ax * cy, s);
    lemma_mul3_perm(ay, px, s);
    lemma_distribute3(l0 * ax, l1 * bx, l2 * cx, ay);
    lemma_mul3_perm(l0, ax, ay);
    lemma_mul3_perm(l1, bx, ay);
    lemma_mul3_perm(l2, cx, ay);
    lemma_mul3_perm(cy, px, s);
    lemma_distribute3(l0 * ax, l1 * bx, l2 * cx, cy);
    lemma_mul3_perm(l0, ax, cy);
    lemma_mul3_perm(l1, bx, cy);
    lemma_mul3_perm(l2, cx, cy);
    lemma_mul3_perm(ay, cx, s);
    lemma_distribute3(l0, l1, l2, ay * cx);
    lemma_mul3_perm(l0, ay, cx);
    lemma_mul_assoc(l0, ay, cx);
    lemma_mul3_perm(l1, ay, cx);
    lemma_mul_assoc(l1, ay, cx);
    lemma_mul3_perm(l2, ay, cx);
    lemma_mul_assoc(l2, ay, cx);
    lemma_mul_assoc(s, ay, cx);
    lemma_mul3_perm(ax, py, s);
    lemma_distribute3(l0 * ay, l1 * by, l2 * cy, ax);
    lemma_mul3_perm(l0, ay, ax);
    lemma_mul3_perm(l1, by, ax);
    lemma_mul3_perm(l2, cy, ax);
    lemma_mul3_perm(cx, py, s);
    lemma_distribute3(l0 * ay, l1 * by, l2 * cy, cx);
    lemma_mul3_perm(l0, ay, cx);
    lemma_mul3_perm(l1, by, cx);
    lemma_mul3_perm(l2, cy, cx);
    lemma_mul3_perm(ax, cy, s);
    lemma_distribute3(l0, l1, l2, ax * cy);
    lemma_mul3_perm(l0, ax, cy);
    lemma_mul_assoc(l0, ax, cy);
    lemma_mul3_perm(l1, ax, cy);
    lemma_mul_assoc(l1, ax, cy);
    lemma_mul3_perm(l2, ax, cy);
    lemma_mul_assoc(l2, ax, cy);
    lemma_mul_assoc(s, ax, cy);
    lemma_distribute6(by * px, ay * px, ax * by, bx * py, ax * py, ay * bx, s);
    lemma_mul3_perm(by, px, s);
    lemma_distribute3(l0 * ax, l1 * bx, l2 * cx, by);
    lemma_mul3_perm(l0, ax, by);
    lemma_mul3_perm(l1, bx, by);
    lemma_mul3_perm(l2, cx, by);
    lemma_mul3_perm(ay, px, s);
    lemma_distribute3(l0 * ax, l1 * bx, l2 * cx, ay);
    lemma_mul3_perm(l0, ax, ay);
    lemma_mul3_perm(l1, bx, ay);
    lemma_mul3_perm(l2, cx, ay);
    lemma_mul3_perm(ax, by, s);
    lemma_distribute3(l0, l1, l2, ax * by);
    lemma_mul3_perm(l0, ax, by);
    lemma_mul_assoc(l0, ax, by);
    lemma_mul3_perm(l1, ax, by);
    lemma_mul_assoc(l1, ax, by);
    lemma_mul3_perm(l2, ax, by);
    lemma_mul_assoc(l2, ax, by);
    lemma_mul_assoc(s, ax, by);
    lemma_mul3_perm(bx, py, s);
    lemma_distribute3(l0 * ay, l1 * by, l2 * cy, bx);
    lemma_mul3_perm(l0, ay, bx);
    lemma_mul3_perm(l1, by, bx);
    lemma_mul3_perm(l2, cy, bx);
    lemma_mul3_perm(ax, py, s);
    lemma_distribute3(l0 * ay, l1 * by, l2 * cy, ax);
    lemma_mul3_perm(l0, ay, ax);
    lemma_mul3_perm(l1, by, ax);
    lemma_mul3_perm(l2, cy, ax);
    lemma_mul3_perm(ay, bx, s);
    lemma_distribute3(l0, l1, l2, ay * bx);
    lemma_mul3_perm(l0, ay, bx);
    lemma_mul_assoc(l0, ay, bx);
    lemma_mul3_perm(l1, ay, bx);
    lemma_mul_assoc(l1, ay, bx);
    lemma_mul3_perm(l2, ay, bx);
    lemma_mul_assoc(l2, ay, bx);
    lemma_mul_assoc(s, ay, bx);
}

/// The edge functions at `p` and the area, as sums of monomials.
proof fn lemma_edges_expanded(ax: int, ay: int, bx: int, by: int, cx: int, cy: int, px: int, py: int)
    ensures
        edge(bx, by, cx, cy, px, py) == cy * px - by * px - bx * cy - cx * py + bx * py + by * cx,
        edge(cx, cy, ax, ay, px, py) == ay * px - cy * px - ay * cx - ax * py + cx * py + ax * cy,
        edge(ax, ay, bx, by, px, py) == by * px - ay * px - ax * by - bx * py + ax * py + ay * bx,
        edge(ax, ay, bx, by, cx, cy) == by * cx - ay * cx - ax * by - bx * cy + ax * cy + ay * bx,
{
    lemma_product_expand(px, bx, cy, by);
    lemma_product_expand(py, by, cx, bx);
    lemma_mul_comm(px, cy);
    lemma_mul_comm(px, by);
    lemma_mul_comm(bx, cy);
    lemma_mul_comm(py, cx);
    lemma_mul_comm(py, bx);
    lemma_mul_comm(by, cx);
    lemma_mul_comm(bx, by);
    lemma_product_expand(px, cx, ay, cy);
    lemma_product_expand(py, cy, ax, cx);
    lemma_mul_comm(px, ay);
    lemma_mul_comm(px, cy);
    lemma_mul_comm(cx, ay);
    lemma_mul_comm(py, ax);
    lemma_mul_comm(py, cx);
    lemma_mul_comm(cy, ax);
    lemma_mul_comm(cx, cy);
    lemma_product_expand(px, ax, by, ay);
    lemma_product_expand(py, ay, bx, ax);
    lemma_mul_comm(px, by);
    lemma_mul_comm(px, ay);
    lemma_mul_comm(ax, by);
    lemma_mul_comm(py, bx);
    lemma_mul_comm(py, ax);
    lemma_mul_comm(ay, bx);
    lemma_mul_comm(ax, ay);
    lemma_product_expand(cx, ax, by, ay);
    lemma_product_expand(cy, ay, bx, ax);
    lemma_mul_comm(cx, by);
    lemma_mul_comm(cx, ay);
    lemma_mul_comm(ax, by);
    lemma_mul_comm(cy, bx);
    lemma_mul_comm(cy, ax);
    lemma_mul_comm(ay, bx);
    lemma_mul_comm(ax, ay);
}

proof fn lemma_product_expand(p: int, a: int, q: int, b: int)
    ensures
        (p - a) * (q - b) == p * q - p * b - a * q + a * b,
{
    assert((p - a) * (q - b) == p * q - p * b - a * q + a * b) by (nonlinear_arith);
}

proof fn lemma_mul_comm(x: int, y: int)
    ensures
        x * y == y * x,
{
    assert(x * y == y * x) by (nonlinear_arith);
}

proof fn lemma_distribute3(a1: int, a2: int, a3: int, t: int)
    ensures
        (a1 + a2 + a3) * t == a1 * t + a2 * t + a3 * t,
        t * (a1 + a2 + a3) == a1 * t + a2 * t + a3 * t,
{
    assert((a1 + a2 + a3) * t == a1 * t + a2 * t + a3 * t) by (nonlinear_arith);
    assert(t * (a1 + a2 + a3) == a1 * t + a2 * t + a3 * t) by (nonlinear_arith);
}

proof fn lemma_mul_assoc(x: int, y: int, z: int)
    ensures
        x * (y * z) == x * y * z,
        (y * z) * x == x * y * z,
{
    assert(x * (y * z) == x * y * z) by (nonlinear_arith);
    assert((y * z) * x == x * y * z) by (nonlinear_arith);
}

} // verus!
