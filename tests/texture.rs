use soft_raster::texture::{Texel, Texture};

/// A 5 by 2 texture whose texel at column c, row r is (c, r, 10 * c + r, 255).
fn ramp() -> Texture {
    let mut data = Vec::new();
    for r in 0..2u8 {
        for c in 0..5u8 {
            data.extend_from_slice(&[c, r, 10 * c + r, 255]);
        }
    }
    Texture::from_rgba8(5, 2, data).unwrap()
}

fn texel(c: u8, r: u8) -> Texel {
    Texel { r: c, g: r, b: 10 * c + r, a: 255 }
}

#[test]
fn from_rgba8_checks_size() {
    assert!(Texture::from_rgba8(2, 2, vec![0; 16]).is_some());
    assert!(Texture::from_rgba8(2, 2, vec![0; 15]).is_none());
    assert!(Texture::from_rgba8(0, 2, vec![]).is_none());
    assert!(Texture::from_rgba8(2, 0, vec![]).is_none());
}

#[test]
fn sample_point_picks_nearest_lower_texel() {
    let t = ramp();
    assert_eq!(t.sample_point(0, 0), texel(0, 0));
    // u = 1.0 -> column floor(4 * 1.0) = 4; v = 1.0 -> row 1
    assert_eq!(t.sample_point(65536, 65536), texel(4, 1));
    // u = 0.5 -> column 2; v = 0.49 -> row 0
    assert_eq!(t.sample_point(32768, 32112), texel(2, 0));
    // u = 0.3 -> column floor(1.2) = 1
    assert_eq!(t.sample_point(19661, 0), texel(1, 0));
}

#[test]
fn sample_repeat_wraps_whole_periods() {
    let t = ramp();
    // u = 1.25 and u = 0.25
    assert_eq!(t.sample_repeat(81920, 0), t.sample_repeat(16384, 0));
    assert_eq!(t.sample_repeat(16384, 0), texel(1, 0));
    // u = -0.75 wraps to 0.25
    assert_eq!(t.sample_repeat(-49152, 0), texel(1, 0));
    // u = 1.0 wraps to 0.0
    assert_eq!(t.sample_repeat(65536, 0), texel(0, 0));
}

#[test]
fn sample_clamp_saturates_at_edges() {
    let t = ramp();
    // u = 1.25 samples as u = 1.0
    assert_eq!(t.sample_clamp(81920, 0), t.sample_point(65536, 0));
    assert_eq!(t.sample_clamp(81920, 0), texel(4, 0));
    assert_eq!(t.sample_clamp(-100, 70000), texel(0, 1));
}
