use vstd::prelude::*;

use crate::chunk::{BlockId, Chunk};
use crate::mesh::{blocks_of, chunk_faces, is_mesh_face, Face, NeighborBlocks, Neighbors};

verus! {

/// A chunk-grid coordinate: one unit is one chunk.
#[derive(Clone, Copy, Debug, PartialEq, Eq, Structural)]
pub struct ChunkPos {
    pub x: i32,
    pub z: i32,
}

impl ChunkPos {
    pub fn new(x: i32, z: i32) -> (r: ChunkPos)
        ensures
            r == (ChunkPos { x, z }),
    {
        ChunkPos { x, z }
    }
}

/// Whether `keys` holds a chunk at grid coordinate (x, z).
pub open spec fn present_at(keys: Set<ChunkPos>, x: int, z: int) -> bool {
    i32::MIN <= x <= i32::MAX && i32::MIN <= z <= i32::MAX && keys.contains(
        ChunkPos { x: x as i32, z: z as i32 },
    )
}

/// Whether all four planar neighbours of `p` (+z, +x, -z, -x) are in `keys`.
pub open spec fn neighbors_present(keys: Set<ChunkPos>, p: ChunkPos) -> bool {
    &&& present_at(keys, p.x as int, p.z + 1)
    &&& present_at(keys, p.x + 1, p.z as int)
    &&& present_at(keys, p.x as int, p.z - 1)
    &&& present_at(keys, p.x - 1, p.z as int)
}

/// Whether the chunk at `p` is due for meshing: it is loaded, all its planar
/// neighbours are loaded, and it has no render entry yet.
pub open spec fn meshable(terrain: Set<ChunkPos>, cached: Set<ChunkPos>, p: ChunkPos) -> bool {
    terrain.contains(p) && neighbors_present(terrain, p) && !cached.contains(p)
}

/// The positions that have a render entry after a frame.
pub open spec fn cached_after_frame(terrain: Set<ChunkPos>, cached: Set<ChunkPos>) -> Set<
    ChunkPos,
> {
    cached.union(Set::new(|p: ChunkPos| meshable(terrain, cached, p)))
}

/// Whether `v` holds `p`.
fn contains_pos(v: &Vec<ChunkPos>, p: ChunkPos) -> (r: bool)
    ensures
        r == v@.contains(p),
{
    let mut i: usize = 0;
    while i < v.len()
        invariant
            i <= v@.len(),
            forall|k: int| 0 <= k < i ==> v@[k] != p,
        decreases v@.len() - i,
    {
        if v[i] == p {
            return true;
        }
        i = i + 1;
    }
    false
}

/// Where `p` stands in `v`, if anywhere.
fn find_pos(v: &Vec<ChunkPos>, p: ChunkPos) -> (r: Option<usize>)
    ensures
        r is None ==> !v@.contains(p),
        r is Some ==> r->Some_0 < v@.len() && v@[r->Some_0 as int] == p,
{
    let mut i: usize = 0;
    while i < v.len()
        invariant
            i <= v@.len(),
            forall|k: int| 0 <= k < i ==> v@[k] != p,
        decreases v@.len() - i,
    {
        if v[i] == p {
            return Some(i);
        }
        i = i + 1;
    }
    None
}

/// Whether `keys` holds the chunk at (x + dx, z + dz).
fn neighbor_in(keys: &Vec<ChunkPos>, p: ChunkPos, dx: i32, dz: i32) -> (r: bool)
    requires
        -1 <= dx <= 1,
        -1 <= dz <= 1,
    ensures
        r == present_at(keys@.to_set(), p.x + dx, p.z + dz),
{
    let x: i64 = p.x as i64 + dx as i64;
    let z: i64 = p.z as i64 + dz as i64;
    if x < i32::MIN as i64 || x > i32::MAX as i64 || z < i32::MIN as i64 || z > i32::MAX as i64 {
        return false;
    }
    let q = ChunkPos { x: x as i32, z: z as i32 };
    proof {
        assert(keys@.contains(q) == keys@.to_set().contains(q));
    }
    contains_pos(keys, q)
}

/// The voxel store: one chunk per chunk-grid coordinate. Entries are added,
/// never replaced or removed.
pub struct TerrainMap {
    positions: Vec<ChunkPos>,
    chunks: Vec<Chunk>,
}

impl TerrainMap {
    /// The entries line up and no position occurs twice.
    pub closed spec fn wf(&self) -> bool {
        &&& self.positions@.len() == self.chunks@.len()
        &&& self.positions@.no_duplicates()
    }

    /// The coordinates that hold a chunk.
    pub closed spec fn keys(&self) -> Set<ChunkPos> {
        self.positions@.to_set()
    }

    /// The voxels of the chunk at `p`, when `keys()` holds `p`.
    pub closed spec fn blocks_at(&self, p: ChunkPos) -> Seq<BlockId> {
        self.chunks@[self.positions@.index_of(p)]@
    }

    /// An empty map.
    pub fn new() -> (r: TerrainMap)
        ensures
            r.wf(),
            r.keys() == Set::<ChunkPos>::empty(),
    {
        let r = TerrainMap { positions: Vec::new(), chunks: Vec::new() };
        proof {
            assert(r.positions@.to_set() =~= Set::<ChunkPos>::empty());
        }
        r
    }

    /// How many chunks the map holds.
    pub fn len(&self) -> (r: usize)
        requires
            self.wf(),
        ensures
            r == self.keys().len(),
    {
        proof {
            self.positions@.unique_seq_to_set();
        }
        self.positions.len()
    }

    /// Whether the map holds a chunk at `pos`.
    pub fn contains(&self, pos: ChunkPos) -> (r: bool)
        ensures
            r == self.keys().contains(pos),
    {
        proof {
            assert(self.positions@.contains(pos) == self.positions@.to_set().contains(pos));
        }
        contains_pos(&self.positions, pos)
    }

    /// Adds the chunk at `pos` unless one is there already; returns whether it
    /// was added. An existing chunk is kept as it is.
    pub fn insert(&mut self, pos: ChunkPos, chunk: Chunk) -> (r: bool)
        requires
            old(self).wf(),
        ensures
            final(self).wf(),
            r == !old(self).keys().contains(pos),
            final(self).keys() == old(self).keys().insert(pos),
            r ==> final(self).blocks_at(pos) == chunk@,
            forall|p: ChunkPos| #[trigger]
                old(self).keys().contains(p) ==> final(self).blocks_at(p) == old(self).blocks_at(p),
    {
        if self.contains(pos) {
            proof {
                assert(self.keys().insert(pos) =~= self.keys());
            }
            return false;
        }
        let ghost old_positions = self.positions@;
        let ghost old_chunks = self.chunks@;
        self.positions.push(pos);
        self.chunks.push(chunk);
        proof {
            assert(self.positions@ == old_positions.push(pos));
            assert(self.positions@.to_set() =~= old_positions.to_set().insert(pos)) by {
                old_positions.lemma_push_to_set_commute(pos);
            }
            assert(self.positions@.no_duplicates()) by {
                assert forall|i: int, j: int|
                    0 <= i < self.positions@.len() && 0 <= j < self.positions@.len() && i != j
                    implies self.positions@[i] != self.positions@[j] by {
                    if i < old_positions.len() && j < old_positions.len() {
                    } else if i == old_positions.len() {
                        assert(old_positions.contains(self.positions@[j]));
                    } else {
                        assert(old_positions.contains(self.positions@[i]));
                    }
                }
            }
            lemma_index_of_unique(self.positions@, pos, old_positions.len() as int);
            assert forall|p: ChunkPos| #[trigger]
                old_positions.to_set().contains(p) implies self.chunks@[self.positions@.index_of(
                p,
            )]@ == old_chunks[old_positions.index_of(p)]@ by {
                assert(old_positions.contains(p));
                let k = old_positions.index_of(p);
                lemma_index_of_unique(old_positions, p, k);
                lemma_index_of_unique(self.positions@, p, k);
            }
        }
        true
    }

    /// The chunk at `pos`, if the map holds one.
    pub fn get(&self, pos: ChunkPos) -> (r: Option<&Chunk>)
        requires
            self.wf(),
        ensures
            r is Some == self.keys().contains(pos),
            r is Some ==> r->Some_0@ == self.blocks_at(pos),
    {
        proof {
            assert(self.positions@.contains(pos) == self.positions@.to_set().contains(pos));
        }
        match find_pos(&self.positions, pos) {
            Some(i) => {
                proof {
                    lemma_index_of_unique(self.positions@, pos, i as int);
                }
                Some(&self.chunks[i])
            },
            None => None,
        }
    }

    /// The voxels of the chunk at grid coordinate (x, z), if loaded.
    pub open spec fn chunk_view_at(&self, x: int, z: int) -> Option<Seq<BlockId>> {
        if present_at(self.keys(), x, z) {
            Some(self.blocks_at(ChunkPos { x: x as i32, z: z as i32 }))
        } else {
            None
        }
    }

    /// The voxels of the four planar neighbours of `p`: +x, -x, +z, -z.
    pub open spec fn neighbor_blocks(&self, p: ChunkPos) -> NeighborBlocks {
        (
            self.chunk_view_at(p.x + 1, p.z as int),
            self.chunk_view_at(p.x - 1, p.z as int),
            self.chunk_view_at(p.x as int, p.z + 1),
            self.chunk_view_at(p.x as int, p.z - 1),
        )
    }

    /// The chunk at grid coordinate (x, z), if loaded.
    fn get_at(&self, x: i64, z: i64) -> (r: Option<&Chunk>)
        requires
            self.wf(),
        ensures
            blocks_of(r) == self.chunk_view_at(x as int, z as int),
    {
        if x < i32::MIN as i64 || x > i32::MAX as i64 || z < i32::MIN as i64 || z > i32::MAX as i64 {
            return None;
        }
        self.get(ChunkPos { x: x as i32, z: z as i32 })
    }

    /// The visible faces of the chunk at `pos`, culled against the voxels of
    /// the neighbouring chunks that are loaded; `None` when `pos` holds no chunk.
    pub fn mesh_faces(&self, pos: ChunkPos) -> (r: Option<Vec<Face>>)
        requires
            self.wf(),
        ensures
            r is Some == self.keys().contains(pos),
            r is Some ==> forall|f: Face| #[trigger]
                r->Some_0@.contains(f) == is_mesh_face(
                    self.blocks_at(pos),
                    self.neighbor_blocks(pos),
                    f,
                ),
    {
        let chunk = match self.get(pos) {
            Some(c) => c,
            None => {
                return None;
            },
        };
        let x: i64 = pos.x as i64;
        let z: i64 = pos.z as i64;
        let n = Neighbors {
            pos_x: self.get_at(x + 1, z),
            neg_x: self.get_at(x - 1, z),
            pos_z: self.get_at(x, z + 1),
            neg_z: self.get_at(x, z - 1),
        };
        Some(chunk_faces(chunk, &n))
    }

    /// The chunks due for meshing this frame: those whose four planar
    /// neighbours are all loaded and that `render` does not hold yet.
    pub fn pending_meshes<T>(&self, render: &TerrainRender<T>) -> (r: Vec<ChunkPos>)
        requires
            self.wf(),
        ensures
            r@.no_duplicates(),
            forall|p: ChunkPos| #[trigger]
                r@.contains(p) == meshable(self.keys(), render.keys(), p),
    {
        let mut out: Vec<ChunkPos> = Vec::new();
        let mut i: usize = 0;
        while i < self.positions.len()
            invariant
                i <= self.positions@.len(),
                self.positions@.no_duplicates(),
                out@.no_duplicates(),
                forall|p: ChunkPos| #[trigger]
                    out@.contains(p) == (self.positions@.take(i as int).contains(p) && meshable(
                        self.keys(),
                        render.keys(),
                        p,
                    )),
            decreases self.positions@.len() - i,
        {
            let p = self.positions[i];
            let keys = &self.positions;
            let due = neighbor_in(keys, p, 0, 1) && neighbor_in(keys, p, 1, 0) && neighbor_in(
                keys,
                p,
                0,
                -1,
            ) && neighbor_in(keys, p, -1, 0) && !render.contains(p);
            let ghost before = out@;
            if due {
                proof {
                    assert(!before.contains(p)) by {
                        if before.contains(p) {
                            let k = choose|k: int| 0 <= k < i && #[trigger] self.positions@.take(i as int)[k] == p;
                            assert(self.positions@[k] == self.positions@[i as int]);
                        }
                    }
                }
                out.push(p);
            }
            proof {
                assert(self.positions@.contains(p));
                assert(self.positions@.take(i as int + 1) =~= self.positions@.take(i as int).push(p));
                assert(out@.no_duplicates()) by {
                    if due {
                        assert forall|a: int, b: int|
                            0 <= a < out@.len() && 0 <= b < out@.len() && a != b
                            implies out@[a] != out@[b] by {
                            if a == before.len() {
                                assert(before.contains(out@[b]));
                            } else if b == before.len() {
                                assert(before.contains(out@[a]));
                            }
                        }
                    }
                }
                assert forall|q: ChunkPos| #[trigger]
                    out@.contains(q) == (self.positions@.take(i as int + 1).contains(q) && meshable(
                        self.keys(),
                        render.keys(),
                        q,
                    )) by {
                    if due {
                        assert(out@ == before.push(p));
                        if before.contains(q) {
                            let k = choose|k: int| 0 <= k < before.len() && #[trigger] before[k] == q;
                            assert(out@[k] == q);
                        }
                        if out@.contains(q) && q != p {
                            let k = choose|k: int| 0 <= k < out@.len() && #[trigger] out@[k] == q;
                            assert(before[k] == q);
                        }
                        assert(out@[before.len() as int] == p);
                    }
                    if self.positions@.take(i as int + 1).contains(q) && q != p {
                        let k = choose|k: int|
                            0 <= k < i + 1 && #[trigger] self.positions@.take(i as int + 1)[k] == q;
                        assert(self.positions@.take(i as int)[k] == q);
                    }
                    assert(self.positions@.take(i as int + 1)[i as int] == p);
                }
            }
            i = i + 1;
        }
        proof {
            assert(self.positions@.take(self.positions@.len() as int) =~= self.positions@);
        }
        out
    }
}

/// In a sequence without duplicates, `index_of` finds the one place of each element.
proof fn lemma_index_of_unique(s: Seq<ChunkPos>, p: ChunkPos, k: int)
    requires
        s.no_duplicates(),
        0 <= k < s.len(),
        s[k] == p,
    ensures
        s.index_of(p) == k,
{
    assert(s.contains(p));
    s.index_of_first_ensures(p);
}

/// The render-data cache: for each meshed chunk, its uploaded mesh. An entry
/// is made once per position and never replaced. `wireframe` selects how the
/// terrain is drawn.
pub struct TerrainRender<T> {
    positions: Vec<ChunkPos>,
    meshes: Vec<T>,
    wireframe: bool,
}

impl<T> TerrainRender<T> {
    /// The entries line up and no position occurs twice.
    pub closed spec fn wf(&self) -> bool {
        &&& self.positions@.len() == self.meshes@.len()
        &&& self.positions@.no_duplicates()
    }

    /// The positions that have a render entry.
    pub closed spec fn keys(&self) -> Set<ChunkPos> {
        self.positions@.to_set()
    }

    /// The entries, in the order they were made.
    pub closed spec fn entries(&self) -> Seq<ChunkPos> {
        self.positions@
    }

    /// Whether the terrain is drawn as wireframe.
    pub closed spec fn wireframe_spec(&self) -> bool {
        self.wireframe
    }

    /// Whether the terrain is drawn as wireframe.
    pub fn wireframe(&self) -> (r: bool)
        ensures
            r == self.wireframe_spec(),
    {
        self.wireframe
    }

    /// An empty cache.
    pub fn new() -> (r: TerrainRender<T>)
        ensures
            r.wf(),
            r.keys() == Set::<ChunkPos>::empty(),
            r.entries().len() == 0,
            !r.wireframe_spec(),
    {
        let r = TerrainRender { positions: Vec::new(), meshes: Vec::new(), wireframe: false };
        proof {
            assert(r.positions@.to_set() =~= Set::<ChunkPos>::empty());
        }
        r
    }

    /// How many entries the cache holds; one terrain draw is issued per entry.
    pub fn len(&self) -> (r: usize)
        requires
            self.wf(),
        ensures
            r == self.entries().len(),
            r == self.keys().len(),
    {
        proof {
            self.positions@.unique_seq_to_set();
        }
        self.positions.len()
    }

    /// Whether no terrain draw is due.
    pub fn is_empty(&self) -> (r: bool)
        ensures
            r == (self.entries().len() == 0),
    {
        self.positions.len() == 0
    }

    /// Whether `pos` has a render entry.
    pub fn contains(&self, pos: ChunkPos) -> (r: bool)
        ensures
            r == self.keys().contains(pos),
    {
        proof {
            assert(self.positions@.contains(pos) == self.positions@.to_set().contains(pos));
        }
        contains_pos(&self.positions, pos)
    }

    /// Records the mesh made for `pos`, unless `pos` has one already; returns
    /// whether it was recorded.
    pub fn insert(&mut self, pos: ChunkPos, mesh: T) -> (r: bool)
        requires
            old(self).wf(),
        ensures
            final(self).wf(),
            r == !old(self).keys().contains(pos),
            final(self).keys() == old(self).keys().insert(pos),
            final(self).entries() == (if r {
                old(self).entries().push(pos)
            } else {
                old(self).entries()
            }),
            final(self).wireframe_spec() == old(self).wireframe_spec(),
    {
        if self.contains(pos) {
            proof {
                assert(self.keys().insert(pos) =~= self.keys());
            }
            return false;
        }
        let ghost old_positions = self.positions@;
        self.positions.push(pos);
        self.meshes.push(mesh);
        proof {
            old_positions.lemma_push_to_set_commute(pos);
            assert forall|i: int, j: int|
                0 <= i < self.positions@.len() && 0 <= j < self.positions@.len() && i != j
                implies self.positions@[i] != self.positions@[j] by {
                if i == old_positions.len() {
                    assert(old_positions.contains(self.positions@[j]));
                } else if j == old_positions.len() {
                    assert(old_positions.contains(self.positions@[i]));
                }
            }
        }
        true
    }

    /// The position and mesh of entry `i`.
    pub fn entry(&self, i: usize) -> (r: (ChunkPos, &T))
        requires
            self.wf(),
            i < self.entries().len(),
        ensures
            r.0 == self.entries()[i as int],
    {
        (self.positions[i], &self.meshes[i])
    }

    /// Flips between filled and wireframe drawing.
    pub fn toggle_wireframe(&mut self)
        requires
            old(self).wf(),
        ensures
            final(self).wf(),
            final(self).keys() == old(self).keys(),
            final(self).wireframe_spec() == !old(self).wireframe_spec(),
            final(self).entries() == old(self).entries(),
    {
        self.wireframe = !self.wireframe;
    }
}

/// Recording a mesh for exactly the positions `pending_meshes` reports turns
/// the cached positions into `cached_after_frame`.
pub proof fn lemma_frame_step(terrain: Set<ChunkPos>, cached: Set<ChunkPos>, pending: Seq<ChunkPos>)
    requires
        forall|p: ChunkPos| #[trigger] pending.contains(p) == meshable(terrain, cached, p),
    ensures
        cached.union(pending.to_set()) == cached_after_frame(terrain, cached),
{
    assert(pending.to_set() =~= Set::new(|p: ChunkPos| meshable(terrain, cached, p)));
    assert(cached.union(pending.to_set()) =~= cached_after_frame(terrain, cached));
}

/// A chunk whose planar neighbours are not all loaded is not meshed in a
/// frame, and keeps whatever render entry it had; once all four are loaded,
/// a loaded chunk without an entry is meshed in that very frame.
pub proof fn lemma_meshing_waits_for_neighbors(
    terrain: Set<ChunkPos>,
    cached: Set<ChunkPos>,
    p: ChunkPos,
)
    ensures
        !neighbors_present(terrain, p) ==> !meshable(terrain, cached, p) && (cached_after_frame(
            terrain,
            cached,
        ).contains(p) == cached.contains(p)),
        terrain.contains(p) && neighbors_present(terrain, p) && !cached.contains(p) ==> meshable(
            terrain,
            cached,
            p,
        ) && cached_after_frame(terrain, cached).contains(p),
{
}

} // verus!
