use soft_raster::fixed::DEPTH_FAR;
use soft_raster::framebuffer::FrameBuffer;
use soft_raster::mesh::{cube_indices, draw_mesh, validate_indices, MeshError};
use soft_raster::raster::ScreenVertex;
use soft_raster::texture::Texture;

fn linear_table() -> [u8; 256] {
    let mut t = [0u8; 256];
    for (i, v) in t.iter_mut().enumerate() {
        *v = i as u8;
    }
    t
}

#[test]
fn validate_accepts_triples_in_range() {
    assert_eq!(validate_indices(&vec![0, 1, 2, 2, 1, 0], 3), Ok(()));
    assert_eq!(validate_indices(&vec![], 0), Ok(()));
}

#[test]
fn validate_rejects_partial_triples() {
    assert_eq!(validate_indices(&vec![0, 1], 3), Err(MeshError::NotTriples));
}

#[test]
fn validate_reports_first_bad_index() {
    assert_eq!(
        validate_indices(&vec![0, 1, 2, 3, 9, 7], 4),
        Err(MeshError::IndexOutOfRange { position: 4 })
    );
}

#[test]
fn cube_indices_name_two_triangles_per_face() {
    let idx = cube_indices();
    assert_eq!(idx.len(), 36);
    assert_eq!(&idx[0..6], &[0, 1, 2, 0, 2, 3]);
    assert_eq!(&idx[30..36], &[20, 21, 22, 20, 22, 23]);
    assert_eq!(validate_indices(&idx, 24), Ok(()));
}

fn quad() -> Vec<ScreenVertex> {
    let v = |x: i64, y: i64| ScreenVertex { x: x * 256, y: y * 256, z: 0, w: 65536, u: 0, v: 0 };
    vec![v(0, 0), v(10, 0), v(10, 10), v(0, 10)]
}

#[test]
fn draw_mesh_draws_every_triangle() {
    let tex = Texture::from_rgba8(1, 1, vec![1, 2, 3, 255]).unwrap();
    let mut fb = FrameBuffer::new(20, 20, linear_table());
    // counter-clockwise as seen on screen: front-facing
    let r = draw_mesh(&mut fb, &tex, &quad(), &vec![0, 2, 1, 0, 3, 2]);
    assert_eq!(r, Ok(()));
    for y in 0..10 {
        for x in 0..10 {
            assert_eq!(fb.get_pixel(x, y), 0x0001_0203);
        }
    }
    assert_eq!(fb.get_pixel(10, 10), 0);
    assert_eq!(fb.get_depth(15, 15), DEPTH_FAR);
}

#[test]
fn draw_mesh_with_bad_index_leaves_buffer() {
    let tex = Texture::from_rgba8(1, 1, vec![1, 2, 3, 255]).unwrap();
    let mut fb = FrameBuffer::new(20, 20, linear_table());
    let r = draw_mesh(&mut fb, &tex, &quad(), &vec![0, 2, 1, 0, 4, 2]);
    assert_eq!(r, Err(MeshError::IndexOutOfRange { position: 4 }));
    assert!(fb.pixels.iter().all(|&p| p == 0));
}
