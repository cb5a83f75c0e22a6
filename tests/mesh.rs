use explora::chunk::{BlockId, Chunk, LocalPos};
use explora::mesh::{chunk_faces, Direction, Face, Neighbors};
use explora::terrain::{ChunkPos, TerrainMap};

fn no_neighbors<'a>() -> Neighbors<'a> {
    Neighbors { pos_x: None, neg_x: None, pos_z: None, neg_z: None }
}

#[test]
fn lone_solid_chunk_shows_its_outer_surface() {
    let chunk = Chunk::generate(ChunkPos::new(0, 0));
    let faces = chunk_faces(&chunk, &no_neighbors());
    assert_eq!(faces.len(), 2 * 16 * 16 + 4 * 16 * 256);
    assert_eq!(
        faces[0],
        Face { pos: LocalPos::new(0, 0, 0), dir: Direction::NegX, block: BlockId::Dirt }
    );
    assert_eq!(
        faces[1],
        Face { pos: LocalPos::new(0, 0, 0), dir: Direction::NegY, block: BlockId::Dirt }
    );
}

#[test]
fn air_chunk_has_no_faces() {
    let chunk = Chunk::flat();
    assert!(chunk_faces(&chunk, &no_neighbors()).is_empty());
}

#[test]
fn loaded_solid_neighbors_hide_side_faces() {
    let chunk = Chunk::generate(ChunkPos::new(0, 0));
    let solid = Chunk::generate(ChunkPos::new(1, 0));
    let air = Chunk::flat();
    let n = Neighbors { pos_x: Some(&solid), neg_x: Some(&solid), pos_z: Some(&solid), neg_z: Some(&solid) };
    assert_eq!(chunk_faces(&chunk, &n).len(), 2 * 16 * 16);
    let n = Neighbors { pos_x: Some(&air), neg_x: Some(&solid), pos_z: Some(&solid), neg_z: Some(&solid) };
    let faces = chunk_faces(&chunk, &n);
    assert_eq!(faces.len(), 2 * 16 * 16 + 16 * 256);
    assert!(faces.iter().all(|f| f.dir != Direction::NegX && f.dir != Direction::PosZ));
}

#[test]
fn column_surface_faces() {
    let mut heights = vec![0u16; 256];
    heights[0] = 2;
    let chunk = Chunk::from_column_heights(&heights);
    let faces = chunk_faces(&chunk, &no_neighbors());
    // two stacked voxels: 4 sides each, one top, one bottom
    assert_eq!(faces.len(), 10);
    assert!(faces.contains(&Face { pos: LocalPos::new(0, 1, 0), dir: Direction::PosY, block: BlockId::Dirt }));
    assert!(!faces.contains(&Face { pos: LocalPos::new(0, 0, 0), dir: Direction::PosY, block: BlockId::Dirt }));
}

#[test]
fn terrain_map_meshes_against_loaded_neighbors() {
    let mut map = TerrainMap::new();
    assert!(map.mesh_faces(ChunkPos::new(0, 0)).is_none());
    map.insert(ChunkPos::new(0, 0), Chunk::generate(ChunkPos::new(0, 0)));
    assert_eq!(map.mesh_faces(ChunkPos::new(0, 0)).unwrap().len(), 2 * 256 + 4 * 4096);
    map.insert(ChunkPos::new(1, 0), Chunk::generate(ChunkPos::new(1, 0)));
    map.insert(ChunkPos::new(-1, 0), Chunk::flat());
    map.insert(ChunkPos::new(0, 1), Chunk::generate(ChunkPos::new(0, 1)));
    map.insert(ChunkPos::new(0, -1), Chunk::generate(ChunkPos::new(0, -1)));
    assert_eq!(map.mesh_faces(ChunkPos::new(0, 0)).unwrap().len(), 2 * 256 + 4096);
}
