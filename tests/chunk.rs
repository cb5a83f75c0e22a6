use explora::chunk::{BlockId, Chunk, LocalPos};
use explora::terrain::ChunkPos;

#[test]
pub fn chunk_iter_works() {
    let chunk = Chunk::flat();
    let mut count = 0;

    let mut it = chunk.iter();
    while let Some(pos) = it.next() {
        assert!(Chunk::within_bounds(pos));
        count += 1;
    }

    assert_eq!(count, 16 * 256 * 16);
}

#[test]
pub fn is_chunk_pos_out_of_bounds() {
    assert!(Chunk::out_of_bounds(LocalPos::new(-1, 0, 0)));
    assert!(Chunk::out_of_bounds(LocalPos::new(0, -1, 0)));
    assert!(Chunk::out_of_bounds(LocalPos::new(0, 0, -1)));
    assert!(Chunk::out_of_bounds(LocalPos::new(16, 0, 0)));
    assert!(Chunk::out_of_bounds(LocalPos::new(0, 256, 0)));
    assert!(Chunk::out_of_bounds(LocalPos::new(0, 0, 16)));
    assert!(!Chunk::out_of_bounds(LocalPos::new(15, 255, 15)));
}

#[test]
fn negative_positions_have_no_index() {
    for p in [
        LocalPos::new(-1, 0, 0),
        LocalPos::new(0, -1, 0),
        LocalPos::new(0, 0, -1),
        LocalPos::new(-5, 300, 3),
        LocalPos::new(i32::MIN, i32::MIN, i32::MIN),
    ] {
        assert!(Chunk::out_of_bounds(p));
        assert!(!Chunk::within_bounds(p));
        assert_eq!(Chunk::index_of(p), None);
    }
}

#[test]
fn index_formula_inside_chunk() {
    assert_eq!(Chunk::index_of(LocalPos::new(0, 0, 0)), Some(0));
    assert_eq!(Chunk::index_of(LocalPos::new(1, 2, 3)), Some(1 + 2 * 16 + 3 * 16 * 256));
    assert_eq!(Chunk::index_of(LocalPos::new(15, 255, 15)), Some(65535));
    assert_eq!(Chunk::index_of(LocalPos::new(16, 0, 0)), None);
    assert_eq!(Chunk::index_of(LocalPos::new(0, 256, 0)), None);
    assert_eq!(Chunk::index_of(LocalPos::new(0, 0, 16)), None);
    assert!(Chunk::within_bounds(LocalPos::new(3, 100, 7)));
}

#[test]
fn index_is_injective_over_chunk() {
    let mut seen = vec![false; 65536];
    for z in 0..16 {
        for y in 0..256 {
            for x in 0..16 {
                let i = Chunk::index_of(LocalPos::new(x, y, z)).unwrap();
                assert!(!seen[i]);
                seen[i] = true;
            }
        }
    }
    assert!(seen.iter().all(|s| *s));
}

#[test]
fn iteration_order_is_x_then_y_then_z() {
    let chunk = Chunk::flat();
    let mut it = chunk.iter();
    let mut seen = vec![false; 65536];
    let mut i: usize = 0;
    while let Some(pos) = it.next() {
        assert_eq!(pos.x as usize, i % 16);
        assert_eq!(pos.y as usize, (i / 16) % 256);
        assert_eq!(pos.z as usize, i / (16 * 256));
        let idx = Chunk::index_of(pos).unwrap();
        assert_eq!(idx, i);
        assert!(!seen[idx]);
        seen[idx] = true;
        i += 1;
    }
    assert_eq!(i, 65536);
    assert_eq!(it.next(), None);
}

#[test]
fn get_reads_blocks_and_rejects_outside() {
    let flat = Chunk::flat();
    assert_eq!(flat.get(LocalPos::new(0, 0, 0)), Some(BlockId::Air));
    assert_eq!(flat.get(LocalPos::new(15, 255, 15)), Some(BlockId::Air));
    assert_eq!(flat.get(LocalPos::new(16, 0, 0)), None);
    assert_eq!(flat.get(LocalPos::new(0, -1, 0)), None);
    let generated = Chunk::generate(ChunkPos::new(3, -2));
    assert_eq!(generated.get(LocalPos::new(4, 10, 9)), Some(BlockId::Dirt));
    assert_eq!(generated.get(LocalPos::new(4, 10, 16)), None);
}

#[test]
fn generating_twice_gives_same_voxels() {
    let a = Chunk::generate(ChunkPos::new(7, -11));
    let b = Chunk::generate(ChunkPos::new(7, -11));
    let mut it = a.iter();
    let mut count = 0;
    while let Some(pos) = it.next() {
        assert_eq!(a.get(pos), b.get(pos));
        assert!(a.get(pos).is_some());
        count += 1;
    }
    assert_eq!(count, 65536);
}

#[test]
fn column_heights_fill_below_and_leave_air_above() {
    let mut heights = vec![0u16; 256];
    heights[3 + 5 * 16] = 10;
    heights[0] = 300;
    let chunk = Chunk::from_column_heights(&heights);
    assert_eq!(chunk.get(LocalPos::new(3, 9, 5)), Some(BlockId::Dirt));
    assert_eq!(chunk.get(LocalPos::new(3, 10, 5)), Some(BlockId::Air));
    assert_eq!(chunk.get(LocalPos::new(5, 0, 3)), Some(BlockId::Air));
    assert_eq!(chunk.get(LocalPos::new(0, 255, 0)), Some(BlockId::Dirt));
    assert_eq!(chunk.get(LocalPos::new(1, 0, 0)), Some(BlockId::Air));
}

#[test]
fn solid_blocks() {
    assert!(!BlockId::Air.is_solid());
    assert!(BlockId::Dirt.is_solid());
}
