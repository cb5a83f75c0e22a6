use explora::atlas::{atlas_tile_count, pack_tiles, tile_cell};

fn tile(w: usize, h: usize, shade: u8) -> Vec<u8> {
    let mut v = Vec::new();
    for y in 0..h {
        for x in 0..w {
            v.extend_from_slice(&[shade, x as u8, y as u8, 255]);
        }
    }
    v
}

fn pixel(pixels: &[u8], width: usize, x: usize, y: usize) -> [u8; 4] {
    let k = (y * width + x) * 4;
    [pixels[k], pixels[k + 1], pixels[k + 2], pixels[k + 3]]
}

#[test]
fn tile_count_is_ceiling_square_root() {
    assert_eq!(atlas_tile_count(0), 0);
    assert_eq!(atlas_tile_count(1), 1);
    assert_eq!(atlas_tile_count(2), 2);
    assert_eq!(atlas_tile_count(4), 2);
    assert_eq!(atlas_tile_count(5), 3);
    assert_eq!(atlas_tile_count(9), 3);
    assert_eq!(atlas_tile_count(10), 4);
    assert_eq!(atlas_tile_count(1_000_000), 1000);
    assert_eq!(atlas_tile_count(1_000_001), 1001);
}

#[test]
fn five_textures_make_three_by_three_atlas() {
    let (w, h) = (2, 3);
    let tiles: Vec<Option<Vec<u8>>> = (0..5).map(|i| Some(tile(w, h, 10 + i as u8))).collect();
    let atlas = pack_tiles(&tiles, w, h).unwrap();
    assert_eq!(atlas.tile_count, 3);
    assert_eq!((atlas.width, atlas.height), (3 * w, 3 * h));
    assert_eq!(atlas.pixels.len(), 3 * w * 3 * h * 4);
    assert_eq!(tile_cell(0, 3), (0, 0));
    assert_eq!(tile_cell(4, 3), (1, 1));
    // tile 0 at the top-left cell
    assert_eq!(pixel(&atlas.pixels, atlas.width, 0, 0), [10, 0, 0, 255]);
    assert_eq!(pixel(&atlas.pixels, atlas.width, 1, 2), [10, 1, 2, 255]);
    // tile 4 at cell (1, 1)
    assert_eq!(pixel(&atlas.pixels, atlas.width, w, h), [14, 0, 0, 255]);
    assert_eq!(pixel(&atlas.pixels, atlas.width, w + 1, h + 2), [14, 1, 2, 255]);
    // tile 2 at cell (2, 0), tile 3 at cell (0, 1)
    assert_eq!(pixel(&atlas.pixels, atlas.width, 2 * w, 0), [12, 0, 0, 255]);
    assert_eq!(pixel(&atlas.pixels, atlas.width, 0, h), [13, 0, 0, 255]);
    // unused cells stay blank
    assert_eq!(pixel(&atlas.pixels, atlas.width, 2 * w, h), [0, 0, 0, 0]);
    assert_eq!(pixel(&atlas.pixels, atlas.width, 2 * w + 1, 3 * h - 1), [0, 0, 0, 0]);
}

#[test]
fn unreadable_or_mismatched_tiles_leave_blank_cells() {
    let tiles = vec![Some(tile(2, 2, 1)), None, Some(tile(3, 2, 3)), Some(tile(2, 2, 4))];
    let atlas = pack_tiles(&tiles, 2, 2).unwrap();
    assert_eq!(atlas.tile_count, 2);
    assert_eq!(pixel(&atlas.pixels, atlas.width, 0, 0), [1, 0, 0, 255]);
    assert_eq!(pixel(&atlas.pixels, atlas.width, 2, 0), [0, 0, 0, 0]);
    assert_eq!(pixel(&atlas.pixels, atlas.width, 0, 2), [0, 0, 0, 0]);
    assert_eq!(pixel(&atlas.pixels, atlas.width, 3, 3), [4, 1, 1, 255]);
}

#[test]
fn empty_input_gives_empty_atlas() {
    let atlas = pack_tiles(&Vec::new(), 16, 16).unwrap();
    assert_eq!(atlas.tile_count, 0);
    assert_eq!((atlas.width, atlas.height), (0, 0));
    assert!(atlas.pixels.is_empty());
}

#[test]
fn oversized_atlas_is_refused() {
    let tiles = vec![None, None];
    assert!(pack_tiles(&tiles, usize::MAX / 2, 1).is_none());
}
