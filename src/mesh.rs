use vstd::prelude::*;

use crate::fixed::DIM_LIMIT;
use crate::framebuffer::FrameBuffer;
use crate::raster::{cell, draw_triangle, fragment, ScreenVertex};
use crate::texture::Texture;

verus! {

/// Why an index sequence cannot describe triangles over a vertex sequence.
#[derive(Clone, Copy, Debug, PartialEq, Eq, Structural)]
pub enum MeshError {
    /// The number of indices is not a multiple of three.
    NotTriples,
    /// The index at `position` names no vertex.
    IndexOutOfRange { position: usize },
}

/// Every index names a vertex, from `start` on.
pub open spec fn indices_in_range(indices: Seq<usize>, vertex_count: int, start: int) -> bool {
    forall|i: int| start <= i < indices.len() ==> #[trigger] indices[i] < vertex_count
}

/// An index sequence whose triples name triangles over `vertex_count` vertices.
pub open spec fn valid_indices(indices: Seq<usize>, vertex_count: int) -> bool {
    indices.len() % 3 == 0 && indices_in_range(indices, vertex_count, 0)
}

/// Checks that `indices` groups into triples and that each names one of
/// `vertex_count` vertices; reports the first index out of range.
pub fn validate_indices(indices: &Vec<usize>, vertex_count: usize) -> (res: Result<(), MeshError>)
    ensures
        res is Ok <==> valid_indices(indices@, vertex_count as int),
        res == Err::<(), MeshError>(MeshError::NotTriples) <==> indices@.len() % 3 != 0,
        res matches Err(MeshError::IndexOutOfRange { position }) ==> {
            &&& indices@.len() % 3 == 0
            &&& position < indices@.len()
            &&& indices@[position as int] >= vertex_count
            &&& forall|i: int| 0 <= i < position ==> #[trigger] indices@[i] < vertex_count
        },
{
    if indices.len() % 3 != 0 {
        return Err(MeshError::NotTriples);
    }
    let mut i: usize = 0;
    while i < indices.len()
        invariant
            i <= indices@.len(),
            indices@.len() % 3 == 0,
            forall|k: int| 0 <= k < i ==> #[trigger] indices@[k] < vertex_count,
        decreases indices@.len() - i,
    {
        if indices[i] >= vertex_count {
            return Err(MeshError::IndexOutOfRange { position: i });
        }
        i = i + 1;
    }
    Ok(())
}

/// Indices of a cube of 24 vertices, four per face in the order front,
/// right, back, left, bottom, top; each face is split into two triangles
/// `(0, 1, 2)` and `(0, 2, 3)` of its four corners.
pub fn cube_indices() -> (res: Vec<usize>)
    ensures
        res@.len() == 36,
        valid_indices(res@, 24),
        forall|f: int|
            0 <= f < 6 ==> {
                &&& #[trigger] res@[6 * f] == 4 * f
                &&& res@[6 * f + 1] == 4 * f + 1
                &&& res@[6 * f + 2] == 4 * f + 2
                &&& res@[6 * f + 3] == 4 * f
                &&& res@[6 * f + 4] == 4 * f + 2
                &&& res@[6 * f + 5] == 4 * f + 3
            },
{
    let res = vec![
        0, 1, 2, 0, 2, 3, 4, 5, 6, 4, 6, 7, 8, 9, 10, 8, 10, 11, 12, 13, 14, 12, 14, 15, 16, 17,
        18, 16, 18, 19, 20, 21, 22, 20, 22, 23,
    ];
    assert forall|f: int|
        0 <= f < 6 implies {
        &&& #[trigger] res@[6 * f] == 4 * f
        &&& res@[6 * f + 1] == 4 * f + 1
        &&& res@[6 * f + 2] == 4 * f + 2
        &&& res@[6 * f + 3] == 4 * f
        &&& res@[6 * f + 4] == 4 * f + 2
        &&& res@[6 * f + 5] == 4 * f + 3
    } by {
        assert(f == 0 || f == 1 || f == 2 || f == 3 || f == 4 || f == 5);
    }
    res
}

/// Colour and depth of pixel `(x, y)`, starting from `px`, `dz`, after the
/// first `k` triangles of the mesh have been drawn in order.
pub open spec fn mesh_cell(
    px: u32,
    dz: i32,
    gamma: Seq<u8>,
    tex: Texture,
    vertices: Seq<ScreenVertex>,
    indices: Seq<usize>,
    k: nat,
    x: int,
    y: int,
) -> (u32, i32)
    decreases k,
{
    if k == 0 {
        (px, dz)
    } else {
        let prev = mesh_cell(px, dz, gamma, tex, vertices, indices, (k - 1) as nat, x, y);
        let t = 3 * (k - 1);
        fragment(
            prev.0,
            prev.1,
            gamma,
            tex,
            vertices[indices[t] as int],
            vertices[indices[t + 1] as int],
            vertices[indices[t + 2] as int],
            x,
            y,
        )
    }
}

/// Draws every triangle of the mesh, in order, into `fb`. The indices are
/// checked first: when they are invalid the buffer is left untouched and the
/// error is returned. Otherwise each pixel ends as `mesh_cell` says.
pub fn draw_mesh(
    fb: &mut FrameBuffer,
    tex: &Texture,
    vertices: &Vec<ScreenVertex>,
    indices: &Vec<usize>,
) -> (res: Result<(), MeshError>)
    requires
        old(fb).wf(),
        tex.wf(),
        old(fb).width <= DIM_LIMIT,
        old(fb).height <= DIM_LIMIT,
    ensures
        final(fb).wf(),
        final(fb).width == old(fb).width,
        final(fb).height == old(fb).height,
        final(fb).gamma_table == old(fb).gamma_table,
        res is Ok <==> valid_indices(indices@, vertices@.len() as int),
        res is Err ==> final(fb).pixels@ == old(fb).pixels@ && final(fb).depths@
            == old(fb).depths@,
        res is Ok ==> forall|x: int, y: int|
            old(fb).in_bounds(x, y) ==> #[trigger] cell(
                final(fb).pixels@,
                final(fb).depths@,
                old(fb).width as int,
                x,
                y,
            ) == mesh_cell(
                old(fb).pixel_at(x, y),
                old(fb).depth_at(x, y),
                old(fb).gamma_table@,
                *tex,
                vertices@,
                indices@,
                (indices@.len() / 3) as nat,
                x,
                y,
            ),
{
    match validate_indices(indices, vertices.len()) {
        Err(e) => {
            return Err(e);
        },
        Ok(()) => {},
    }
    let ghost p0 = fb.pixels@;
    let ghost d0 = fb.depths@;
    let ghost g = fb.gamma_table@;
    let w = fb.width;
    let h = fb.height;
    let n = indices.len() / 3;
    let mut t: usize = 0;
    while t < n
        invariant
            fb.wf(),
            fb.width == w,
            fb.height == h,
            fb.gamma_table@ == g,
            w <= DIM_LIMIT,
            h <= DIM_LIMIT,
            tex.wf(),
            n == indices@.len() / 3,
            indices@.len() <= usize::MAX,
            indices@.len() % 3 == 0,
            valid_indices(indices@, vertices@.len() as int),
            p0.len() == w * h,
            d0.len() == w * h,
            t <= n,
            forall|x: int, y: int|
                0 <= x < w && 0 <= y < h ==> #[trigger] cell(fb.pixels@, fb.depths@, w as int, x, y)
                    == mesh_cell(
                    p0[y * w + x],
                    d0[y * w + x],
                    g,
                    *tex,
                    vertices@,
                    indices@,
                    t as nat,
                    x,
                    y,
                ),
        decreases n - t,
    {
        proof {
            let len = indices@.len() as int;
            vstd::arithmetic::div_mod::lemma_fundamental_div_mod(len, 3);
            assert(3 * t + 2 < len) by (nonlinear_arith)
                requires
                    t < n,
                    n == len / 3,
                    len == 3 * (len / 3) + len % 3,
                    len % 3 == 0,
            ;
        }
        let ghost pb = fb.pixels@;
        let ghost db = fb.depths@;
        let a = vertices[indices[3 * t]];
        let b = vertices[indices[3 * t + 1]];
        let c = vertices[indices[3 * t + 2]];
        draw_triangle(fb, tex, a, b, c);
        proof {
            assert forall|x: int, y: int|
                0 <= x < w && 0 <= y < h implies #[trigger] cell(
                fb.pixels@,
                fb.depths@,
                w as int,
                x,
                y,
            ) == mesh_cell(
                p0[y * w + x],
                d0[y * w + x],
                g,
                *tex,
                vertices@,
                indices@,
                (t + 1) as nat,
                x,
                y,
            ) by {
                assert(cell(pb, db, w as int, x, y) == mesh_cell(
                    p0[y * w + x],
                    d0[y * w + x],
                    g,
                    *tex,
                    vertices@,
                    indices@,
                    t as nat,
                    x,
                    y,
                ));
            }
        }
        t = t + 1;
    }
    Ok(())
}

} // verus!
