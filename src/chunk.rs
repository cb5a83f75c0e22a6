use vstd::prelude::*;

use vstd::arithmetic::div_mod::{lemma_fundamental_div_mod, lemma_fundamental_div_mod_converse};

use crate::terrain::ChunkPos;

verus! {

/// Extent of a chunk along x.
pub const SIZE_X: usize = 16;

/// Extent of a chunk along y (the vertical axis).
pub const SIZE_Y: usize = 256;

/// Extent of a chunk along z.
pub const SIZE_Z: usize = 16;

/// Number of voxels in a chunk: `SIZE_X * SIZE_Y * SIZE_Z`.
pub const VOLUME: usize = 65536;

/// Number of voxel columns in a chunk: `SIZE_X * SIZE_Z`.
pub const COLUMNS: usize = 256;

/// The material of one voxel.
#[derive(Clone, Copy, Debug, PartialEq, Eq, Structural)]
pub enum BlockId {
    Air,
    Dirt,
}

impl BlockId {
    /// Whether the block hides the faces of its neighbours.
    pub fn is_solid(self) -> (r: bool)
        ensures
            r == (self != BlockId::Air),
    {
        match self {
            BlockId::Air => false,
            BlockId::Dirt => true,
        }
    }
}

/// A voxel position relative to the origin of its chunk.
#[derive(Clone, Copy, Debug, PartialEq, Eq, Structural)]
pub struct LocalPos {
    pub x: i32,
    pub y: i32,
    pub z: i32,
}

impl LocalPos {
    pub fn new(x: i32, y: i32, z: i32) -> (r: LocalPos)
        ensures
            r == (LocalPos { x, y, z }),
    {
        LocalPos { x, y, z }
    }
}

/// Whether `p` lies inside the chunk volume.
pub open spec fn in_bounds(p: LocalPos) -> bool {
    0 <= p.x < SIZE_X && 0 <= p.y < SIZE_Y && 0 <= p.z < SIZE_Z
}

/// The linear storage index of a position: x varies fastest, then y, then z.
pub open spec fn linear_index(p: LocalPos) -> int {
    p.x + p.y * SIZE_X + p.z * SIZE_X * SIZE_Y
}

/// The position stored at linear index `i`; inverse of `linear_index`.
pub open spec fn position_at(i: int) -> LocalPos {
    LocalPos {
        x: (i % SIZE_X as int) as i32,
        y: ((i / SIZE_X as int) % SIZE_Y as int) as i32,
        z: (i / (SIZE_X * SIZE_Y) as int) as i32,
    }
}

/// The column (x, z) that linear index `i` belongs to, as `x + z * SIZE_X`.
pub open spec fn column_of(i: int) -> int {
    i % SIZE_X as int + (i / (SIZE_X * SIZE_Y) as int) * SIZE_X
}

/// The storage index of `p`, or `None` outside the chunk.
pub open spec fn index_in_chunk(p: LocalPos) -> Option<usize> {
    if in_bounds(p) {
        Some(linear_index(p) as usize)
    } else {
        None
    }
}

/// What a chunk holds at `p`, given its voxel sequence.
pub open spec fn block_in(blocks: Seq<BlockId>, p: LocalPos) -> Option<BlockId> {
    if in_bounds(p) {
        Some(blocks[linear_index(p)])
    } else {
        None
    }
}

/// The voxels of a generated chunk: every position is assigned dirt.
pub open spec fn generated_blocks(coord: ChunkPos) -> Seq<BlockId> {
    Seq::new(VOLUME as nat, |i: int| BlockId::Dirt)
}

/// The voxel at index `i` of a chunk built from per-column heights: solid
/// strictly below the column's height, air from it upwards.
pub open spec fn height_block(heights: Seq<u16>, i: int) -> BlockId {
    if position_at(i).y < heights[column_of(i)] {
        BlockId::Dirt
    } else {
        BlockId::Air
    }
}

/// Index and position agree on every index of the chunk.
pub proof fn lemma_position_at(i: int)
    requires
        0 <= i < VOLUME,
    ensures
        in_bounds(position_at(i)),
        linear_index(position_at(i)) == i,
        column_of(i) == position_at(i).x + position_at(i).z * SIZE_X,
        0 <= column_of(i) < COLUMNS,
{
    let x = i % 16;
    let q = i / 16;
    lemma_fundamental_div_mod(i, 16);
    lemma_fundamental_div_mod(q, 256);
    let y = q % 256;
    let z = q / 256;
    assert(i == x + 16 * y + 4096 * z);
    lemma_fundamental_div_mod_converse(i, 4096, z, x + 16 * y);
}

/// Index and position agree on every position of the chunk.
pub proof fn lemma_linear_index(p: LocalPos)
    requires
        in_bounds(p),
    ensures
        0 <= linear_index(p) < VOLUME,
        position_at(linear_index(p)) == p,
{
    let i = linear_index(p);
    let q = p.y + 256 * p.z;
    lemma_fundamental_div_mod_converse(i, 16, q, p.x as int);
    lemma_fundamental_div_mod_converse(q, 256, p.z as int, p.y as int);
    lemma_fundamental_div_mod_converse(i, 4096, p.z as int, p.x + 16 * p.y);
}

/// A fixed-size 16 x 256 x 16 voxel grid.
pub struct Chunk {
    blocks: Vec<BlockId>,
}

impl View for Chunk {
    type V = Seq<BlockId>;

    closed spec fn view(&self) -> Seq<BlockId> {
        self.blocks@
    }
}

impl Chunk {
    #[verifier::type_invariant]
    closed spec fn inv(self) -> bool {
        self.blocks@.len() == VOLUME
    }

    /// The voxel at `p`, or `None` outside the chunk.
    pub open spec fn block_at(&self, p: LocalPos) -> Option<BlockId> {
        block_in(self@, p)
    }

    /// A chunk made of air only.
    pub fn flat() -> (r: Chunk)
        ensures
            r@ == Seq::new(VOLUME as nat, |i: int| BlockId::Air),
    {
        let mut blocks: Vec<BlockId> = Vec::new();
        let mut i: usize = 0;
        while i < VOLUME
            invariant
                i <= VOLUME,
                blocks@ == Seq::new(i as nat, |k: int| BlockId::Air),
            decreases VOLUME - i,
        {
            blocks.push(BlockId::Air);
            i = i + 1;
        }
        Chunk { blocks }
    }

    /// Generates the chunk at a chunk-grid coordinate. The content depends on
    /// the coordinate alone, so generating twice gives the same voxels.
    pub fn generate(coord: ChunkPos) -> (r: Chunk)
        ensures
            r@ == generated_blocks(coord),
    {
        let mut blocks: Vec<BlockId> = Vec::new();
        let mut i: usize = 0;
        while i < VOLUME
            invariant
                i <= VOLUME,
                blocks@ == generated_blocks(coord).take(i as int),
            decreases VOLUME - i,
        {
            blocks.push(BlockId::Dirt);
            i = i + 1;
            proof {
                assert(blocks@ =~= generated_blocks(coord).take(i as int));
            }
        }
        proof {
            assert(blocks@ =~= generated_blocks(coord));
        }
        Chunk { blocks }
    }

    /// Builds a chunk from one height per column, indexed `x + z * SIZE_X`:
    /// solid below the height, air at and above it.
    pub fn from_column_heights(heights: &Vec<u16>) -> (r: Chunk)
        requires
            heights@.len() == COLUMNS,
        ensures
            r@ == Seq::new(VOLUME as nat, |i: int| height_block(heights@, i)),
    {
        let mut blocks: Vec<BlockId> = Vec::new();
        let mut i: usize = 0;
        while i < VOLUME
            invariant
                i <= VOLUME,
                heights@.len() == COLUMNS,
                blocks@ == Seq::new(i as nat, |k: int| height_block(heights@, k)),
            decreases VOLUME - i,
        {
            let x: usize = i % SIZE_X;
            let y: usize = (i / SIZE_X) % SIZE_Y;
            let z: usize = i / (SIZE_X * SIZE_Y);
            proof {
                lemma_position_at(i as int);
            }
            let column: usize = x + z * SIZE_X;
            let block = if (y as u16) < heights[column] {
                BlockId::Dirt
            } else {
                BlockId::Air
            };
            blocks.push(block);
            i = i + 1;
            proof {
                assert(blocks@ =~= Seq::new(i as nat, |k: int| height_block(heights@, k)));
            }
        }
        Chunk { blocks }
    }

    /// The voxel at `p`, or `None` outside the chunk.
    pub fn get(&self, pos: LocalPos) -> (r: Option<BlockId>)
        ensures
            r == self.block_at(pos),
    {
        proof {
            use_type_invariant(self);
        }
        match Chunk::index_of(pos) {
            Some(i) => Some(self.blocks[i]),
            None => None,
        }
    }

    /// The linear index of `pos`, or `None` when it lies outside the chunk.
    pub fn index_of(pos: LocalPos) -> (r: Option<usize>)
        ensures
            r == index_in_chunk(pos),
    {
        if pos.x < 0 || pos.y < 0 || pos.z < 0 {
            return None;
        }
        let x: usize = pos.x as usize;
        let y: usize = pos.y as usize;
        let z: usize = pos.z as usize;
        if x >= SIZE_X || y >= SIZE_Y || z >= SIZE_Z {
            None
        } else {
            Some(x + y * SIZE_X + z * SIZE_X * SIZE_Y)
        }
    }

    /// Whether `pos` lies outside the chunk.
    pub fn out_of_bounds(pos: LocalPos) -> (r: bool)
        ensures
            r == !in_bounds(pos),
    {
        pos.x < 0 || pos.y < 0 || pos.z < 0 || pos.x >= SIZE_X as i32 || pos.y >= SIZE_Y as i32
            || pos.z >= SIZE_Z as i32
    }

    /// Whether `pos` lies inside the chunk.
    pub fn within_bounds(pos: LocalPos) -> (r: bool)
        ensures
            r == in_bounds(pos),
    {
        !Chunk::out_of_bounds(pos)
    }

    /// A cursor over every position of the chunk, x fastest, then y, then z.
    pub fn iter(&self) -> (r: ChunkIter)
        ensures
            r.index() == 0,
    {
        ChunkIter { index: 0 }
    }
}

/// Walks the positions of a chunk in storage order.
pub struct ChunkIter {
    index: u32,
}

impl ChunkIter {
    #[verifier::type_invariant]
    closed spec fn inv(self) -> bool {
        self.index <= VOLUME
    }

    /// How many positions have been handed out so far.
    pub closed spec fn index(&self) -> int {
        self.index as int
    }

    /// The next position, or `None` once all `VOLUME` positions were produced.
    pub fn next(&mut self) -> (r: Option<LocalPos>)
        ensures
            old(self).index() < VOLUME ==> r == Some(position_at(old(self).index()))
                && final(self).index() == old(self).index() + 1,
            old(self).index() >= VOLUME ==> r is None && final(self).index() == old(self).index(),
    {
        proof {
            use_type_invariant(&*self);
        }
        if self.index >= VOLUME as u32 {
            return None;
        }
        let i: u32 = self.index;
        let x: u32 = i % (SIZE_X as u32);
        let y: u32 = (i / (SIZE_X as u32)) % (SIZE_Y as u32);
        let z: u32 = i / ((SIZE_X * SIZE_Y) as u32);
        self.index = i + 1;
        Some(LocalPos { x: x as i32, y: y as i32, z: z as i32 })
    }
}

/// Out of bounds on any negative axis, whatever the other two hold; such a
/// position has no index.
pub proof fn lemma_negative_out_of_bounds(p: LocalPos)
    requires
        p.x < 0 || p.y < 0 || p.z < 0,
    ensures
        !in_bounds(p),
        index_in_chunk(p) is None,
{
}

/// Inside the chunk the index is `x + y * 16 + z * 16 * 256`, and distinct
/// positions get distinct indices.
pub proof fn lemma_index_injective(p: LocalPos, q: LocalPos)
    requires
        in_bounds(p),
        in_bounds(q),
    ensures
        linear_index(p) == p.x + p.y * 16 + p.z * 16 * 256,
        0 <= linear_index(p) < VOLUME,
        index_in_chunk(p) == Some((p.x + p.y * 16 + p.z * 16 * 256) as usize),
        linear_index(p) == linear_index(q) ==> p == q,
{
    lemma_linear_index(p);
    lemma_linear_index(q);
}

/// Iteration produces exactly `VOLUME` positions, each inside the chunk,
/// without repetition, x fastest, then y, then z; every position of the
/// chunk is among them.
pub proof fn lemma_iteration_covers_chunk()
    ensures
        forall|i: int| 0 <= i < VOLUME ==> #[trigger] in_bounds(position_at(i)),
        forall|i: int, j: int|
            0 <= i < VOLUME && 0 <= j < VOLUME && i != j ==> #[trigger] position_at(i)
                != #[trigger] position_at(j),
        forall|i: int|
            0 <= i < VOLUME ==> (#[trigger] position_at(i)).x == i % 16 && position_at(i).y == (i
                / 16) % 256 && position_at(i).z == i / 4096int,
        forall|p: LocalPos| #[trigger] in_bounds(p) ==> exists|i: int| 0 <= i < VOLUME && #[trigger] position_at(i) == p,
{
    assert forall|i: int| 0 <= i < VOLUME implies #[trigger] in_bounds(position_at(i)) by {
        lemma_position_at(i);
    }
    assert forall|i: int, j: int|
        0 <= i < VOLUME && 0 <= j < VOLUME && i != j implies #[trigger] position_at(i)
            != #[trigger] position_at(j) by {
        lemma_position_at(i);
        lemma_position_at(j);
    }
    assert forall|p: LocalPos| #[trigger] in_bounds(p) implies exists|i: int| 0 <= i < VOLUME && #[trigger] position_at(i) == p by {
        lemma_linear_index(p);
    }
}

/// Generating the same coordinate twice yields identical voxels.
pub proof fn lemma_generate_deterministic(a: Chunk, b: Chunk, coord: ChunkPos)
    requires
        a@ == generated_blocks(coord),
        b@ == generated_blocks(coord),
    ensures
        a@ == b@,
        forall|p: LocalPos| a.block_at(p) == b.block_at(p),
{
}

} // verus!
