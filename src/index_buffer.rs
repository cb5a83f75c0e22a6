use vstd::prelude::*;

verus! {

/// The largest vertex count that 32-bit indices can address.
pub const MAX_INDEXED_VERTICES: u64 = 4294967295;

/// Corner `k` (0..6) of the two triangles that make up a quad: `[0, 1, 2, 2, 3, 0]`.
pub open spec fn quad_corner(k: int) -> int {
    if k == 0 {
        0
    } else if k == 1 {
        1
    } else if k == 2 {
        2
    } else if k == 3 {
        2
    } else if k == 4 {
        3
    } else {
        0
    }
}

/// Index `i` of the shared pattern: the corner pattern, offset by 4 per quad.
pub open spec fn quad_index(i: int) -> int {
    (i / 6) * 4 + quad_corner(i % 6)
}

/// How many indices a buffer of `vertex_count` vertices (4 per quad) needs.
pub open spec fn indices_needed(vertex_count: int) -> int {
    vertex_count / 4 * 6
}

/// The index data for `vertex_count` vertices: `vertex_count / 4` quads.
pub open spec fn quad_indices(vertex_count: int) -> Seq<u32> {
    Seq::new(indices_needed(vertex_count) as nat, |i: int| quad_index(i) as u32)
}

/// Whether a vertex buffer of this length can be drawn with 32-bit indices.
pub open spec fn indexable(vertex_count: int) -> bool {
    vertex_count <= MAX_INDEXED_VERTICES
}

/// The capacity after preparing a draw of `vertex_count` vertices: kept when
/// it suffices, else exactly what the new buffer needs.
pub open spec fn grown_capacity(capacity: int, vertex_count: int) -> int {
    if capacity < indices_needed(vertex_count) {
        indices_needed(vertex_count)
    } else {
        capacity
    }
}

/// Every index of the pattern addresses a vertex of the buffer, so none is
/// truncated by the 32-bit index type.
pub proof fn lemma_indices_in_range(vertex_count: int, i: int)
    requires
        0 <= vertex_count,
        0 <= i < indices_needed(vertex_count),
    ensures
        0 <= quad_index(i) < vertex_count,
{
    let quads = vertex_count / 4;
    assert(i / 6 < quads) by (nonlinear_arith)
        requires
            0 <= i < quads * 6,
    ;
    assert(quads * 4 <= vertex_count) by (nonlinear_arith)
        requires
            quads == vertex_count / 4,
            0 <= vertex_count,
    ;
    assert(0 <= i / 6);
}

/// Whether a vertex buffer of this length can be drawn with the 32-bit
/// shared index buffer. A longer one is a configuration error.
pub fn fits_index_range(vertex_count: usize) -> (r: bool)
    ensures
        r == indexable(vertex_count as int),
{
    (vertex_count as u64) <= MAX_INDEXED_VERTICES
}

/// How many indices one draw of a buffer of `vertex_count` vertices uses.
pub fn index_count(vertex_count: usize) -> (r: u64)
    requires
        indexable(vertex_count as int),
    ensures
        r == indices_needed(vertex_count as int),
{
    (vertex_count as u64) / 4 * 6
}

/// Builds the index data for a buffer of `vert_length` vertices.
pub fn compute_terrain_indices(vert_length: usize) -> (r: Vec<u32>)
    requires
        indexable(vert_length as int),
        indices_needed(vert_length as int) <= usize::MAX,
    ensures
        r@ == quad_indices(vert_length as int),
{
    let n: usize = vert_length / 4 * 6;
    let mut indices: Vec<u32> = Vec::new();
    let mut i: usize = 0;
    while i < n
        invariant
            n == indices_needed(vert_length as int),
            indexable(vert_length as int),
            i <= n,
            indices@ == quad_indices(vert_length as int).take(i as int),
        decreases n - i,
    {
        proof {
            lemma_indices_in_range(vert_length as int, i as int);
        }
        let k: usize = i % 6;
        let corner: usize = if k == 0 {
            0
        } else if k == 1 {
            1
        } else if k == 2 {
            2
        } else if k == 3 {
            2
        } else if k == 4 {
            3
        } else {
            0
        };
        let value: usize = i / 6 * 4 + corner;
        indices.push(value as u32);
        i = i + 1;
        proof {
            assert(indices@ =~= quad_indices(vert_length as int).take(i as int));
        }
    }
    proof {
        assert(indices@ =~= quad_indices(vert_length as int));
    }
    indices
}

/// The renderer's one index buffer, shared by every terrain draw. Only its
/// capacity is tracked here; the data is always the quad pattern.
pub struct SharedIndexBuffer {
    capacity: usize,
}

impl SharedIndexBuffer {
    /// How many indices the buffer holds.
    pub closed spec fn capacity_spec(&self) -> int {
        self.capacity as int
    }

    /// An index buffer made for `vert_length` vertices, with its data.
    pub fn for_vertices(vert_length: usize) -> (r: (SharedIndexBuffer, Vec<u32>))
        requires
            indexable(vert_length as int),
            indices_needed(vert_length as int) <= usize::MAX,
        ensures
            r.0.capacity_spec() == indices_needed(vert_length as int),
            r.1@ == quad_indices(vert_length as int),
    {
        let indices = compute_terrain_indices(vert_length);
        (SharedIndexBuffer { capacity: indices.len() }, indices)
    }

    /// How many indices the buffer holds.
    pub fn capacity(&self) -> (r: usize)
        ensures
            r == self.capacity_spec(),
    {
        self.capacity
    }

    /// Makes the buffer large enough to draw `len` vertices. When it is too
    /// small, the whole buffer is rebuilt for `len` vertices and the new data,
    /// to be uploaded in place of the old, is returned.
    pub fn check_index_buffer(&mut self, len: usize) -> (r: Option<Vec<u32>>)
        requires
            indexable(len as int),
            indices_needed(len as int) <= usize::MAX,
        ensures
            final(self).capacity_spec() == grown_capacity(old(self).capacity_spec(), len as int),
            old(self).capacity_spec() >= indices_needed(len as int) ==> r is None,
            old(self).capacity_spec() < indices_needed(len as int) ==> r is Some
                && r->Some_0@ == quad_indices(len as int),
    {
        let needed: usize = len / 4 * 6;
        if self.capacity < needed {
            let indices = compute_terrain_indices(len);
            self.capacity = needed;
            Some(indices)
        } else {
            None
        }
    }
}

/// After preparing any draw, the buffer holds at least the indices that
/// draw needs, and it never shrinks.
pub proof fn lemma_capacity_grows(capacity: int, vertex_count: int)
    ensures
        grown_capacity(capacity, vertex_count) >= indices_needed(vertex_count),
        grown_capacity(capacity, vertex_count) >= capacity,
{
}

} // verus!
