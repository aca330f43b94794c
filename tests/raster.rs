use soft_raster::fixed::DEPTH_FAR;
use soft_raster::framebuffer::FrameBuffer;
use soft_raster::raster::{draw_triangle, orient2d, viewport, vertex_ok, Point, ScreenVertex};
use soft_raster::texture::Texture;

const ONE: i64 = 65536;

fn linear_table() -> [u8; 256] {
    let mut t = [0u8; 256];
    for (i, v) in t.iter_mut().enumerate() {
        *v = i as u8;
    }
    t
}

fn white() -> Texture {
    Texture::from_rgba8(1, 1, vec![255, 255, 255, 255]).unwrap()
}

fn p(x: i64, y: i64) -> Point {
    Point { x, y }
}

fn sv(x: i64, y: i64, z: i32) -> ScreenVertex {
    ScreenVertex { x, y, z, w: ONE, u: 0, v: 0 }
}

#[test]
fn orient2d_is_twice_signed_area() {
    assert_eq!(orient2d(p(0, 0), p(0, 10), p(10, 0)), 100);
    assert_eq!(orient2d(p(0, 0), p(10, 0), p(0, 10)), -100);
    assert_eq!(orient2d(p(0, 0), p(5, 5), p(10, 10)), 0);
}

#[test]
fn centroid_weights_are_thirds() {
    let (a, b, c) = (p(0, 0), p(0, 30), p(30, 0));
    let g = p(10, 10);
    let area = orient2d(a, b, c);
    let w0 = orient2d(b, c, g);
    let w1 = orient2d(c, a, g);
    let w2 = orient2d(a, b, g);
    assert_eq!(3 * w0, area);
    assert_eq!(3 * w1, area);
    assert_eq!(3 * w2, area);
    assert_eq!(w0 + w1 + w2, area);
}

#[test]
fn edge_functions_sign_inside_and_outside() {
    let (a, b, c) = (p(0, 0), p(0, 30), p(30, 0));
    let inside = p(5, 5);
    assert!(orient2d(b, c, inside) >= 0 && orient2d(c, a, inside) >= 0 && orient2d(a, b, inside) >= 0);
    let outside = p(40, 40);
    assert!(orient2d(b, c, outside) < 0);
    let on_edge = p(0, 10);
    assert_eq!(orient2d(a, b, on_edge), 0);
}

#[test]
fn viewport_maps_ndc_to_subpixels() {
    // (0, 0) is the middle of a 100 by 100 buffer: pixel 50, in 1/256 units
    assert_eq!(viewport(0, 0, 100, 100), Some(p(50 * 256, 50 * 256)));
    // x = -1 is the left edge, y = 1 the top edge
    assert_eq!(viewport(-ONE, ONE, 100, 100), Some(p(0, 0)));
    assert_eq!(viewport(ONE, -ONE, 100, 80), Some(p(100 * 256, 80 * 256)));
    assert_eq!(viewport(ONE / 2, -ONE / 2, 100, 100), Some(p(75 * 256, 75 * 256)));
    assert_eq!(viewport(17 * ONE, 0, 100, 100), None);
    assert_eq!(viewport(0, 0, 5000, 100), None);
}

#[test]
fn vertex_ok_rejects_points_behind_the_eye() {
    assert!(vertex_ok(&sv(0, 0, 0)));
    let mut v = sv(0, 0, 0);
    v.w = 0;
    assert!(!vertex_ok(&v));
}

fn screen(ndc_x: i64, ndc_y: i64, z: i32) -> ScreenVertex {
    let q = viewport(ndc_x, ndc_y, 100, 100).unwrap();
    ScreenVertex { x: q.x, y: q.y, z, w: ONE, u: 0, v: 0 }
}

#[test]
fn end_to_end_single_triangle() {
    let mut fb = FrameBuffer::new(100, 100, linear_table());
    let tex = white();
    let a = screen(0, ONE / 2, 0);
    let b = screen(-ONE / 2, -ONE / 2, 0);
    let c = screen(ONE / 2, -ONE / 2, 0);
    draw_triangle(&mut fb, &tex, a, b, c);
    let mut count = 0u64;
    let (mut sx, mut sy) = (0u64, 0u64);
    for y in 0..100usize {
        let mut row_first = None;
        let mut row_last = None;
        for x in 0..100usize {
            if fb.get_pixel(x, y) != 0 {
                assert_eq!(fb.get_pixel(x, y), 0x00ff_ffff);
                assert_eq!(fb.get_depth(x, y), 0);
                count += 1;
                sx += x as u64;
                sy += y as u64;
                if row_first.is_none() {
                    row_first = Some(x);
                }
                row_last = Some(x);
            } else {
                assert_eq!(fb.get_depth(x, y), DEPTH_FAR);
            }
        }
        // each row's covered pixels form one run
        if let (Some(f), Some(l)) = (row_first, row_last) {
            for x in f..=l {
                assert_ne!(fb.get_pixel(x, y), 0);
            }
        }
    }
    assert!(count > 0);
    // the triangle spans rows 25..75 and columns 25..75
    assert!(count > 1000 && count < 1400);
    let cx = sx as f64 / count as f64;
    let cy = sy as f64 / count as f64;
    assert!((cx - 49.5).abs() < 1.0);
    assert!((cy - 58.0).abs() < 2.0);
}

#[test]
fn back_facing_triangle_is_discarded() {
    let mut fb = FrameBuffer::new(100, 100, linear_table());
    let tex = white();
    let a = screen(0, ONE / 2, 0);
    let b = screen(-ONE / 2, -ONE / 2, 0);
    let c = screen(ONE / 2, -ONE / 2, 0);
    draw_triangle(&mut fb, &tex, a, c, b);
    assert!(fb.pixels.iter().all(|&p| p == 0));
    assert!(fb.depths.iter().all(|&d| d == DEPTH_FAR));
}

#[test]
fn nearer_triangle_wins_regardless_of_order() {
    let tex_red = Texture::from_rgba8(1, 1, vec![255, 0, 0, 255]).unwrap();
    let tex_blue = Texture::from_rgba8(1, 1, vec![0, 0, 255, 255]).unwrap();
    let tri = |z: i32| (screen(0, ONE / 2, z), screen(-ONE / 2, -ONE / 2, z), screen(ONE / 2, -ONE / 2, z));
    let (a1, b1, c1) = tri(1000);
    let (a2, b2, c2) = tri(-1000);
    let mut fb = FrameBuffer::new(100, 100, linear_table());
    draw_triangle(&mut fb, &tex_red, a1, b1, c1);
    draw_triangle(&mut fb, &tex_blue, a2, b2, c2);
    assert_eq!(fb.get_pixel(50, 60), 0x0000_00ff);
    let mut fb2 = FrameBuffer::new(100, 100, linear_table());
    draw_triangle(&mut fb2, &tex_blue, a2, b2, c2);
    draw_triangle(&mut fb2, &tex_red, a1, b1, c1);
    assert_eq!(fb2.get_pixel(50, 60), 0x0000_00ff);
    assert_eq!(fb2.get_depth(50, 60), -1000);
}

#[test]
fn depth_is_interpolated_across_the_triangle() {
    let mut fb = FrameBuffer::new(100, 100, linear_table());
    let tex = white();
    // depth 0 on the left edge of the screen, 1.0 on the right
    let a = ScreenVertex { x: 0, y: 0, z: 0, w: ONE, u: 0, v: 0 };
    let b = ScreenVertex { x: 0, y: 100 * 256, z: 0, w: ONE, u: 0, v: 0 };
    let c = ScreenVertex { x: 100 * 256, y: 0, z: 65536, w: ONE, u: 0, v: 0 };
    draw_triangle(&mut fb, &tex, a, b, c);
    // pixel column 10 has its centre at 10.5 px: depth 0.105
    assert_eq!(fb.get_depth(10, 0), (65536 * 105 / 1000) as i32);
}

#[test]
fn texture_coordinates_are_perspective_correct() {
    // three texels: black, white, white; u >= 0.5 samples white
    let tex = Texture::from_rgba8(3, 1, vec![0, 0, 0, 255, 255, 255, 255, 255, 255, 255, 255, 255])
        .unwrap();
    let mut fb = FrameBuffer::new(128, 1, linear_table());
    // a strip across row 0; its left end is near (w = 1), its right end far (w = 3)
    let a = ScreenVertex { x: 0, y: -256, z: 0, w: ONE, u: 0, v: 0 };
    let b = ScreenVertex { x: 0, y: 40 * 256, z: 0, w: ONE, u: 0, v: 0 };
    let c = ScreenVertex { x: 128 * 256, y: -256, z: 0, w: 3 * ONE, u: ONE - 1, v: 0 };
    draw_triangle(&mut fb, &tex, a, b, c);
    assert_eq!(fb.get_pixel(0, 0), 0);
    // screen-linear interpolation would turn white near column 64; corrected
    // for perspective, u reaches 0.5 only three quarters of the way along
    let first_white = (0..128usize).find(|&x| fb.get_pixel(x, 0) == 0x00ff_ffff).unwrap();
    assert!(first_white > 90 && first_white < 100);
}
