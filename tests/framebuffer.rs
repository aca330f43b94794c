use soft_raster::fixed::DEPTH_FAR;
use soft_raster::framebuffer::{pack_rgb, FrameBuffer};

fn linear_table() -> [u8; 256] {
    let mut t = [0u8; 256];
    for (i, v) in t.iter_mut().enumerate() {
        *v = i as u8;
    }
    t
}

#[test]
fn new_buffer_is_cleared() {
    let fb = FrameBuffer::new(4, 3, linear_table());
    assert_eq!(fb.pixels.len(), 12);
    assert_eq!(fb.depths.len(), 12);
    assert!(fb.pixels.iter().all(|&p| p == 0));
    assert!(fb.depths.iter().all(|&d| d == DEPTH_FAR));
}

#[test]
fn pack_rgb_places_channels() {
    assert_eq!(pack_rgb(0x12, 0x34, 0x56), 0x0012_3456);
    assert_eq!(pack_rgb(255, 0, 0), 0x00ff_0000);
    assert_eq!(pack_rgb(0, 0, 255), 0x0000_00ff);
}

#[test]
fn write_and_read_pixel_row_major() {
    let mut fb = FrameBuffer::new(4, 3, linear_table());
    fb.write_pixel(2, 1, 0xabcdef);
    assert_eq!(fb.get_pixel(2, 1), 0xabcdef);
    assert_eq!(fb.pixels[1 * 4 + 2], 0xabcdef);
    fb.set_depth(3, 2, -5);
    assert_eq!(fb.get_depth(3, 2), -5);
    assert_eq!(fb.depths[2 * 4 + 3], -5);
}

#[test]
fn write_pixel_rgb_applies_gamma_table() {
    let mut table = linear_table();
    table[10] = 100;
    table[20] = 150;
    table[30] = 200;
    let mut fb = FrameBuffer::new(2, 2, table);
    fb.write_pixel_rgb(1, 0, 10, 20, 30);
    assert_eq!(fb.get_pixel(1, 0), (100 << 16) | (150 << 8) | 200);
    assert_eq!(fb.map_rgb_to_u32(10, 20, 30), (100 << 16) | (150 << 8) | 200);
}

#[test]
fn depth_test_keeps_nearer_value() {
    // 0.3, 0.5 and 0.1 with sixteen fractional bits
    let (z3, z5, z1) = (19660, 32768, 6553);
    let mut fb = FrameBuffer::new(3, 3, linear_table());
    assert!(fb.write_if_nearer(1, 1, z3, 0x111111));
    assert!(!fb.write_if_nearer(1, 1, z5, 0x222222));
    assert_eq!(fb.get_pixel(1, 1), 0x111111);
    assert_eq!(fb.get_depth(1, 1), z3);
    assert!(fb.write_if_nearer(1, 1, z1, 0x333333));
    assert_eq!(fb.get_pixel(1, 1), 0x333333);
    assert_eq!(fb.get_depth(1, 1), z1);
}

#[test]
fn equal_depth_fails_the_test() {
    let mut fb = FrameBuffer::new(1, 1, linear_table());
    assert!(!fb.write_if_nearer(0, 0, DEPTH_FAR, 7));
    assert_eq!(fb.get_pixel(0, 0), 0);
}

#[test]
fn clear_resets_both_buffers() {
    let mut fb = FrameBuffer::new(2, 2, linear_table());
    fb.write_pixel(0, 0, 9);
    fb.set_depth(1, 1, 3);
    fb.clear();
    assert!(fb.pixels.iter().all(|&p| p == 0));
    assert!(fb.depths.iter().all(|&d| d == DEPTH_FAR));
}
