use vstd::prelude::*;

use crate::chunk::{block_in, in_bounds, linear_index, position_at, lemma_position_at, BlockId, Chunk, LocalPos, VOLUME};

verus! {

/// The six directions a voxel face can point to.
#[derive(Clone, Copy, Debug, PartialEq, Eq, Structural)]
pub enum Direction {
    PosX,
    NegX,
    PosY,
    NegY,
    PosZ,
    NegZ,
}

/// The rank of a direction in the order faces are emitted.
pub open spec fn direction_rank(d: Direction) -> int {
    match d {
        Direction::PosX => 0,
        Direction::NegX => 1,
        Direction::PosY => 2,
        Direction::NegY => 3,
        Direction::PosZ => 4,
        Direction::NegZ => 5,
    }
}

/// The unit step of a direction.
pub open spec fn step(d: Direction) -> (int, int, int) {
    match d {
        Direction::PosX => (1, 0, 0),
        Direction::NegX => (-1, 0, 0),
        Direction::PosY => (0, 1, 0),
        Direction::NegY => (0, -1, 0),
        Direction::PosZ => (0, 0, 1),
        Direction::NegZ => (0, 0, -1),
    }
}

/// The direction of rank `j`.
pub open spec fn direction_at(j: int) -> Direction {
    if j == 0 {
        Direction::PosX
    } else if j == 1 {
        Direction::NegX
    } else if j == 2 {
        Direction::PosY
    } else if j == 3 {
        Direction::NegY
    } else if j == 4 {
        Direction::PosZ
    } else {
        Direction::NegZ
    }
}

/// One visible square face of a voxel.
#[derive(Clone, Copy, Debug, PartialEq, Eq, Structural)]
pub struct Face {
    pub pos: LocalPos,
    pub dir: Direction,
    pub block: BlockId,
}

/// The order of faces in a mesh: by voxel index, then by direction.
pub open spec fn face_key(f: Face) -> int {
    linear_index(f.pos) * 6 + direction_rank(f.dir)
}

/// The voxels of the four planar neighbours of a chunk, +x, -x, +z, -z;
/// `None` for an absent one.
pub type NeighborBlocks = (Option<Seq<BlockId>>, Option<Seq<BlockId>>, Option<Seq<BlockId>>, Option<Seq<BlockId>>);

/// The voxels of a loaded chunk, or `None` for an absent one.
pub open spec fn blocks_of(c: Option<&Chunk>) -> Option<Seq<BlockId>> {
    match c {
        Some(c) => Some(c@),
        None => None,
    }
}

/// The voxel at `q` of an optional chunk.
pub open spec fn block_in_opt(c: Option<Seq<BlockId>>, q: LocalPos) -> Option<BlockId> {
    match c {
        Some(s) => block_in(s, q),
        None => None,
    }
}

/// The four planar neighbours of a chunk: +x, -x, +z, -z.
pub struct Neighbors<'a> {
    pub pos_x: Option<&'a Chunk>,
    pub neg_x: Option<&'a Chunk>,
    pub pos_z: Option<&'a Chunk>,
    pub neg_z: Option<&'a Chunk>,
}

impl<'a> Neighbors<'a> {
    /// The voxels of the four neighbours.
    pub open spec fn blocks(&self) -> NeighborBlocks {
        (blocks_of(self.pos_x), blocks_of(self.neg_x), blocks_of(self.pos_z), blocks_of(self.neg_z))
    }
}

/// The voxel next to `p` in direction `d`: in the chunk itself, across the
/// border in the neighbouring chunk, or `None` above or below the chunk and
/// where the neighbouring chunk is absent.
pub open spec fn adjacent_block(chunk: Seq<BlockId>, n: NeighborBlocks, p: LocalPos, d: Direction) -> Option<
    BlockId,
> {
    let q = LocalPos {
        x: (p.x + step(d).0) as i32,
        y: (p.y + step(d).1) as i32,
        z: (p.z + step(d).2) as i32,
    };
    if in_bounds(q) {
        block_in(chunk, q)
    } else if q.y < 0 || q.y >= 256 {
        None
    } else if q.x >= 16 {
        block_in_opt(n.0, LocalPos { x: 0, ..q })
    } else if q.x < 0 {
        block_in_opt(n.1, LocalPos { x: 15, ..q })
    } else if q.z >= 16 {
        block_in_opt(n.2, LocalPos { z: 0, ..q })
    } else {
        block_in_opt(n.3, LocalPos { z: 15, ..q })
    }
}

/// Whether the face of the voxel at `p` towards `d` is drawn: the voxel is
/// solid and what lies next to it is air or absent.
pub open spec fn face_visible(chunk: Seq<BlockId>, n: NeighborBlocks, p: LocalPos, d: Direction) -> bool {
    &&& block_in(chunk, p) is Some
    &&& block_in(chunk, p)->Some_0 != BlockId::Air
    &&& match adjacent_block(chunk, n, p, d) {
        Some(b) => b == BlockId::Air,
        None => true,
    }
}

/// Whether `f` is a face of the mesh of `chunk`.
pub open spec fn is_mesh_face(chunk: Seq<BlockId>, n: NeighborBlocks, f: Face) -> bool {
    &&& in_bounds(f.pos)
    &&& face_visible(chunk, n, f.pos, f.dir)
    &&& f.block == chunk[linear_index(f.pos)]
}

impl Direction {
    /// The direction of rank `j`.
    fn at(j: usize) -> (r: Direction)
        requires
            j < 6,
        ensures
            r == direction_at(j as int),
            direction_rank(r) == j,
    {
        if j == 0 {
            Direction::PosX
        } else if j == 1 {
            Direction::NegX
        } else if j == 2 {
            Direction::PosY
        } else if j == 3 {
            Direction::NegY
        } else if j == 4 {
            Direction::PosZ
        } else {
            Direction::NegZ
        }
    }

    /// The unit step of this direction.
    pub fn step(self) -> (r: (i32, i32, i32))
        ensures
            (r.0 as int, r.1 as int, r.2 as int) == step(self),
    {
        match self {
            Direction::PosX => (1, 0, 0),
            Direction::NegX => (-1, 0, 0),
            Direction::PosY => (0, 1, 0),
            Direction::NegY => (0, -1, 0),
            Direction::PosZ => (0, 0, 1),
            Direction::NegZ => (0, 0, -1),
        }
    }
}

/// The voxel at `q` of an optional chunk.
fn get_opt(c: Option<&Chunk>, q: LocalPos) -> (r: Option<BlockId>)
    ensures
        r == block_in_opt(blocks_of(c), q),
{
    match c {
        Some(c) => c.get(q),
        None => None,
    }
}

/// The voxel next to `p` in direction `d`.
fn adjacent(chunk: &Chunk, n: &Neighbors, p: LocalPos, d: Direction) -> (r: Option<BlockId>)
    requires
        in_bounds(p),
    ensures
        r == adjacent_block(chunk@, n.blocks(), p, d),
{
    let s = d.step();
    let q = LocalPos { x: p.x + s.0, y: p.y + s.1, z: p.z + s.2 };
    if Chunk::within_bounds(q) {
        chunk.get(q)
    } else if q.y < 0 || q.y >= 256 {
        None
    } else if q.x >= 16 {
        get_opt(n.pos_x, LocalPos { x: 0, ..q })
    } else if q.x < 0 {
        get_opt(n.neg_x, LocalPos { x: 15, ..q })
    } else if q.z >= 16 {
        get_opt(n.pos_z, LocalPos { z: 0, ..q })
    } else {
        get_opt(n.neg_z, LocalPos { z: 15, ..q })
    }
}

/// The visible faces of a chunk, in storage order of their voxels and, for
/// one voxel, in the order of `Direction`. A face is visible when its voxel
/// is solid and the voxel beyond it, in this chunk or in the neighbouring
/// one, is air or absent.
pub fn chunk_faces(chunk: &Chunk, n: &Neighbors) -> (r: Vec<Face>)
    ensures
        forall|f: Face| #[trigger] r@.contains(f) == is_mesh_face(chunk@, n.blocks(), f),
        forall|a: int, b: int| 0 <= a < b < r@.len() ==> face_key(#[trigger] r@[a]) < face_key(#[trigger] r@[b]),
{
    let mut out: Vec<Face> = Vec::new();
    let mut i: usize = 0;
    while i < VOLUME
        invariant
            i <= VOLUME,
            forall|f: Face| #[trigger] out@.contains(f) == (is_mesh_face(chunk@, n.blocks(), f) && linear_index(f.pos) < i),
            forall|a: int, b: int| 0 <= a < b < out@.len() ==> face_key(#[trigger] out@[a]) < face_key(#[trigger] out@[b]),
            forall|a: int| 0 <= a < out@.len() ==> face_key(#[trigger] out@[a]) < i * 6,
        decreases VOLUME - i,
    {
        proof {
            lemma_position_at(i as int);
        }
        let p = LocalPos {
            x: (i % 16) as i32,
            y: ((i / 16) % 256) as i32,
            z: (i / 4096) as i32,
        };
        assert(p == position_at(i as int));
        let here = chunk.get(p);
        let mut j: usize = 0;
        while j < 6
            invariant
                i < VOLUME,
                p == position_at(i as int),
                in_bounds(p),
                linear_index(p) == i,
                here == block_in(chunk@, p),
                j <= 6,
                forall|f: Face| #[trigger] out@.contains(f) == (is_mesh_face(chunk@, n.blocks(), f) && (linear_index(f.pos) < i
                    || (linear_index(f.pos) == i && direction_rank(f.dir) < j))),
                forall|a: int, b: int| 0 <= a < b < out@.len() ==> face_key(#[trigger] out@[a]) < face_key(#[trigger] out@[b]),
                forall|a: int| 0 <= a < out@.len() ==> face_key(#[trigger] out@[a]) < i * 6 + j,
            decreases 6 - j,
        {
            let d = Direction::at(j);
            let ghost before = out@;
            match here {
                Some(b) => {
                    if b != BlockId::Air {
                        let visible = match adjacent(chunk, n, p, d) {
                            Some(a) => a == BlockId::Air,
                            None => true,
                        };
                        if visible {
                            out.push(Face { pos: p, dir: d, block: b });
                        }
                    }
                },
                None => {},
            }
            proof {
                assert forall|f: Face| #[trigger] out@.contains(f) == (is_mesh_face(chunk@, n.blocks(), f) && (linear_index(f.pos) < i
                    || (linear_index(f.pos) == i && direction_rank(f.dir) < j + 1))) by {
                    if linear_index(f.pos) == i && in_bounds(f.pos) {
                        crate::chunk::lemma_linear_index(f.pos);
                    }
                    if out@.len() > before.len() {
                        if before.contains(f) {
                            let k = choose|k: int| 0 <= k < before.len() && #[trigger] before[k] == f;
                            assert(out@[k] == f);
                        }
                        if out@.contains(f) && f != out@[before.len() as int] {
                            let k = choose|k: int| 0 <= k < out@.len() && #[trigger] out@[k] == f;
                            assert(before[k] == f);
                        }
                        assert(out@[before.len() as int] == (Face { pos: p, dir: d, block: here->Some_0 }));
                    } else {
                        assert(out@ == before);
                    }
                }
            }
            j = j + 1;
        }
        i = i + 1;
    }
    out
}

} // verus!
