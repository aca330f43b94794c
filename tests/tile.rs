use soft_raster::fixed::DEPTH_FAR;
use soft_raster::tile::{generate_tiles, isqrt, Tile};

#[test]
fn isqrt_rounds_down() {
    assert_eq!(isqrt(0), 0);
    assert_eq!(isqrt(1), 1);
    assert_eq!(isqrt(4), 2);
    assert_eq!(isqrt(15), 3);
    assert_eq!(isqrt(16), 4);
}

#[test]
fn new_tile_is_empty() {
    let t = Tile::new();
    assert_eq!((t.x_offset, t.y_offset, t.width, t.height), (0, 0, 0, 0));
    assert!(t.pixels.is_empty() && t.depths.is_empty());
}

#[test]
fn tiles_partition_the_framebuffer() {
    let tiles = generate_tiles(10, 7, 4);
    assert_eq!(tiles.len(), 4);
    let dims: Vec<(usize, usize, usize, usize)> =
        tiles.iter().map(|t| (t.x_offset, t.y_offset, t.width, t.height)).collect();
    assert_eq!(dims, vec![(0, 0, 5, 3), (0, 3, 5, 4), (5, 0, 5, 3), (5, 3, 5, 4)]);
    let mut owners = vec![0u32; 70];
    for t in &tiles {
        assert_eq!(t.pixels.len(), t.width * t.height);
        assert!(t.depths.iter().all(|&d| d == DEPTH_FAR));
        for y in t.y_offset..t.y_offset + t.height {
            for x in t.x_offset..t.x_offset + t.width {
                owners[y * 10 + x] += 1;
            }
        }
    }
    assert!(owners.iter().all(|&n| n == 1));
}

#[test]
fn non_square_count_uses_its_square_root() {
    let tiles = generate_tiles(9, 9, 10);
    assert_eq!(tiles.len(), 9);
    assert_eq!(tiles[8].x_offset, 6);
    assert_eq!(tiles[8].y_offset, 6);
}
