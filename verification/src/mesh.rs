use vstd::prelude::*;

verus! {

/// The integer bookkeeping of a triangle mesh: how many vertices it has,
/// the triangle corner indices into them (groups of 3), and the identity of
/// the face each triangle was cut from (one per triangle).
///
/// Vertex positions, normals and UV coordinates travel beside this in the
/// caller's floating-point arrays, one entry per vertex.
#[derive(Debug, Clone)]
pub struct MeshTopology {
    pub vertex_count: usize,
    pub indices: Vec<usize>,
    pub face_ids: Vec<u64>,
}

impl MeshTopology {
    /// Whole triangles only, one face identity per triangle, and every
    /// corner naming an existing vertex.
    pub open spec fn well_formed(&self) -> bool {
        &&& self.indices@.len() % 3 == 0
        &&& self.face_ids@.len() == self.indices@.len() / 3
        &&& forall|j: int| 0 <= j < self.indices@.len() ==> #[trigger] self.indices@[j] < self.vertex_count
    }
}

/// `indices` with every entry moved up by `offset`.
pub open spec fn shift_indices(indices: Seq<usize>, offset: int) -> Seq<usize> {
    indices.map_values(|i: usize| (i + offset) as usize)
}

/// The total number of vertices of `meshes`.
pub open spec fn vertex_total(meshes: Seq<MeshTopology>) -> int
    decreases meshes.len(),
{
    if meshes.len() == 0 {
        0
    } else {
        vertex_total(meshes.drop_last()) + meshes.last().vertex_count
    }
}

/// The corner indices of `meshes` laid end to end, each mesh's indices moved
/// past the vertices of the meshes before it.
pub open spec fn combined_indices(meshes: Seq<MeshTopology>) -> Seq<usize>
    decreases meshes.len(),
{
    if meshes.len() == 0 {
        Seq::empty()
    } else {
        combined_indices(meshes.drop_last()) + shift_indices(
            meshes.last().indices@,
            vertex_total(meshes.drop_last()),
        )
    }
}

/// The face identities of `meshes` laid end to end.
pub open spec fn combined_face_ids(meshes: Seq<MeshTopology>) -> Seq<u64>
    decreases meshes.len(),
{
    if meshes.len() == 0 {
        Seq::empty()
    } else {
        combined_face_ids(meshes.drop_last()) + meshes.last().face_ids@
    }
}

/// No shifted index of `meshes` exceeds the machine word.
pub open spec fn combine_fits(meshes: Seq<MeshTopology>) -> bool {
    &&& vertex_total(meshes) <= usize::MAX
    &&& forall|k: int, j: int|
        0 <= k < meshes.len() && 0 <= j < meshes[k].indices@.len()
            ==> #[trigger] meshes[k].indices@[j] + vertex_total(meshes.take(k)) <= usize::MAX
}

/// The number of face identities (triangles) of `meshes` together.
pub open spec fn face_id_total(meshes: Seq<MeshTopology>) -> int
    decreases meshes.len(),
{
    if meshes.len() == 0 {
        0
    } else {
        face_id_total(meshes.drop_last()) + meshes.last().face_ids@.len()
    }
}

/// The number of corner indices of `meshes` together.
pub open spec fn index_total(meshes: Seq<MeshTopology>) -> int
    decreases meshes.len(),
{
    if meshes.len() == 0 {
        0
    } else {
        index_total(meshes.drop_last()) + meshes.last().indices@.len()
    }
}

proof fn lemma_totals_prefix(meshes: Seq<MeshTopology>, k: int)
    requires
        0 <= k < meshes.len(),
    ensures
        face_id_total(meshes.take(k)) + meshes[k].face_ids@.len() <= face_id_total(meshes),
        index_total(meshes.take(k)) + meshes[k].indices@.len() <= index_total(meshes),
        face_id_total(meshes.take(k)) >= 0,
        index_total(meshes.take(k)) >= 0,
    decreases meshes.len(),
{
    let init = meshes.drop_last();
    if k == meshes.len() - 1 {
        assert(meshes.take(k) =~= init);
        lemma_totals_nonneg(init);
    } else {
        assert(init.take(k) =~= meshes.take(k));
        lemma_totals_prefix(init, k);
    }
}

proof fn lemma_totals_nonneg(meshes: Seq<MeshTopology>)
    ensures
        face_id_total(meshes) >= 0,
        index_total(meshes) >= 0,
        vertex_total(meshes) >= 0,
    decreases meshes.len(),
{
    if meshes.len() > 0 {
        lemma_totals_nonneg(meshes.drop_last());
    }
}

/// Combining meshes keeps every triangle's face: the combined face
/// identities are those of the meshes in order, each mesh's own in its own
/// order, so triangle `t` of mesh `k` is labelled `meshes[k].face_ids[t]`
/// at position (triangles of the meshes before `k`) + `t`.
pub proof fn law_combined_face_ids(meshes: Seq<MeshTopology>)
    ensures
        combined_face_ids(meshes).len() == face_id_total(meshes),
        forall|k: int, t: int| 0 <= k < meshes.len() && 0 <= t < meshes[k].face_ids@.len()
            ==> #[trigger] combined_face_ids(meshes)[face_id_total(meshes.take(k)) + t]
                == #[trigger] meshes[k].face_ids@[t],
    decreases meshes.len(),
{
    if meshes.len() > 0 {
        let init = meshes.drop_last();
        law_combined_face_ids(init);
        assert forall|k: int, t: int| 0 <= k < meshes.len() && 0 <= t < meshes[k].face_ids@.len()
            implies #[trigger] combined_face_ids(meshes)[face_id_total(meshes.take(k)) + t]
                == #[trigger] meshes[k].face_ids@[t] by {
            lemma_totals_prefix(meshes, k);
            if k == meshes.len() - 1 {
                assert(meshes.take(k) =~= init);
            } else {
                assert(init.take(k) =~= meshes.take(k));
                assert(init[k] == meshes[k]);
                lemma_totals_prefix(init, k);
            }
        }
    }
}

/// Combining meshes keeps every triangle's corners: corner `t` of mesh `k`
/// sits at position (corners of the meshes before `k`) + `t` and names the
/// same vertex, moved past the vertices of the meshes before `k`.
pub proof fn law_combined_indices(meshes: Seq<MeshTopology>)
    ensures
        combined_indices(meshes).len() == index_total(meshes),
        forall|k: int, t: int| 0 <= k < meshes.len() && 0 <= t < meshes[k].indices@.len()
            ==> #[trigger] combined_indices(meshes)[index_total(meshes.take(k)) + t]
                == (#[trigger] meshes[k].indices@[t] + vertex_total(meshes.take(k))) as usize,
    decreases meshes.len(),
{
    if meshes.len() > 0 {
        let init = meshes.drop_last();
        law_combined_indices(init);
        assert forall|k: int, t: int| 0 <= k < meshes.len() && 0 <= t < meshes[k].indices@.len()
            implies #[trigger] combined_indices(meshes)[index_total(meshes.take(k)) + t]
                == (#[trigger] meshes[k].indices@[t] + vertex_total(meshes.take(k))) as usize by {
            lemma_totals_prefix(meshes, k);
            if k == meshes.len() - 1 {
                assert(meshes.take(k) =~= init);
            } else {
                assert(init.take(k) =~= meshes.take(k));
                assert(init[k] == meshes[k]);
                lemma_totals_prefix(init, k);
            }
        }
    }
}

/// Adding one more mesh adds its vertices, corners and triangles to the
/// totals; no meshes have none.
pub proof fn law_totals_additive(meshes: Seq<MeshTopology>, m: MeshTopology)
    ensures
        vertex_total(Seq::<MeshTopology>::empty()) == 0,
        index_total(Seq::<MeshTopology>::empty()) == 0,
        face_id_total(Seq::<MeshTopology>::empty()) == 0,
        vertex_total(meshes.push(m)) == vertex_total(meshes) + m.vertex_count,
        index_total(meshes.push(m)) == index_total(meshes) + m.indices@.len(),
        face_id_total(meshes.push(m)) == face_id_total(meshes) + m.face_ids@.len(),
{
    assert(meshes.push(m).drop_last() =~= meshes);
}

/// A prefix of a list of meshes has no more vertices than the whole list.
pub proof fn lemma_vertex_total_prefix(meshes: Seq<MeshTopology>, k: int)
    requires
        0 <= k <= meshes.len(),
    ensures
        vertex_total(meshes.take(k)) <= vertex_total(meshes),
    decreases meshes.len(),
{
    if k < meshes.len() {
        assert(meshes.drop_last().take(k) =~= meshes.take(k));
        lemma_vertex_total_prefix(meshes.drop_last(), k);
    } else {
        assert(meshes.take(k) =~= meshes);
    }
}

impl MeshTopology {
    /// The bookkeeping of a freshly meshed shape: `coord_count` flat vertex
    /// coordinates (x, y, z per vertex), the kernel's 32-bit triangle
    /// indices, and one face identity per triangle.
    pub fn from_raw(coord_count: usize, raw_indices: &[u32], face_ids: Vec<u64>) -> (res: MeshTopology)
        ensures
            res.vertex_count == coord_count / 3,
            res.indices@.len() == raw_indices@.len(),
            forall|j: int| 0 <= j < raw_indices@.len() ==> #[trigger] res.indices@[j] == raw_indices@[j],
            res.face_ids@ == face_ids@,
    {
        let mut indices: Vec<usize> = Vec::new();
        let n = raw_indices.len();
        for j in 0..n
            invariant
                n == raw_indices@.len(),
                indices@.len() == j,
                forall|i: int| 0 <= i < j ==> #[trigger] indices@[i] == raw_indices@[i],
        {
            indices.push(raw_indices[j] as usize);
        }
        MeshTopology { vertex_count: coord_count / 3, indices, face_ids }
    }

    /// The bookkeeping of a freshly meshed shape, checked: `Some` exactly
    /// when the kernel's data describes whole triangles, one face identity
    /// per triangle, and corners that all name one of the `coord_count / 3`
    /// vertices; the mesh returned is then the one [`MeshTopology::from_raw`]
    /// builds.
    pub fn from_raw_checked(coord_count: usize, raw_indices: &[u32], face_ids: Vec<u64>) -> (res: Option<MeshTopology>)
        ensures
            res is Some <==> {
                &&& raw_indices@.len() % 3 == 0
                &&& face_ids@.len() == raw_indices@.len() / 3
                &&& forall|j: int| 0 <= j < raw_indices@.len() ==> #[trigger] raw_indices@[j] < coord_count / 3
            },
            res matches Some(t) ==> {
                &&& t.well_formed()
                &&& t.vertex_count == coord_count / 3
                &&& t.indices@.len() == raw_indices@.len()
                &&& forall|j: int| 0 <= j < raw_indices@.len() ==> #[trigger] t.indices@[j] == raw_indices@[j]
                &&& t.face_ids@ == face_ids@
            },
    {
        let n = raw_indices.len();
        if n % 3 != 0 || face_ids.len() != n / 3 {
            return None;
        }
        let vertex_count = coord_count / 3;
        let mut indices: Vec<usize> = Vec::new();
        for j in 0..n
            invariant
                n == raw_indices@.len(),
                vertex_count == coord_count / 3,
                indices@.len() == j,
                forall|i: int| 0 <= i < j ==> #[trigger] indices@[i] == raw_indices@[i],
                forall|i: int| 0 <= i < j ==> #[trigger] raw_indices@[i] < vertex_count,
        {
            let corner = raw_indices[j] as usize;
            if corner >= vertex_count {
                return None;
            }
            indices.push(corner);
        }
        let res = MeshTopology { vertex_count, indices, face_ids };
        proof {
            assert forall|j: int| 0 <= j < res.indices@.len() implies #[trigger] res.indices@[j] < res.vertex_count by {
                assert(res.indices@[j] == raw_indices@[j]);
            }
        }
        Some(res)
    }

    /// Append `other` after `self`: its vertices follow those of `self`, so
    /// its corner indices move up by `self.vertex_count`.
    pub fn append(&mut self, other: &MeshTopology)
        requires
            old(self).vertex_count + other.vertex_count <= usize::MAX,
            forall|j: int| 0 <= j < other.indices@.len()
                ==> #[trigger] other.indices@[j] + old(self).vertex_count <= usize::MAX,
        ensures
            final(self).vertex_count == old(self).vertex_count + other.vertex_count,
            final(self).indices@ == old(self).indices@ + shift_indices(other.indices@, old(self).vertex_count as int),
            final(self).face_ids@ == old(self).face_ids@ + other.face_ids@,
            old(self).well_formed() && other.well_formed() ==> final(self).well_formed(),
            final(self).indices@.len() == old(self).indices@.len() + other.indices@.len(),
            forall|j: int| 0 <= j < old(self).indices@.len()
                ==> #[trigger] final(self).indices@[j] == old(self).indices@[j],
            forall|j: int| 0 <= j < other.indices@.len()
                ==> #[trigger] final(self).indices@[old(self).indices@.len() + j]
                    == other.indices@[j] + old(self).vertex_count,
    {
        let offset = self.vertex_count;
        let n = other.indices.len();
        let ghost start = self.indices@;
        for j in 0..n
            invariant
                n == other.indices@.len(),
                offset == old(self).vertex_count,
                start == old(self).indices@,
                forall|i: int| 0 <= i < other.indices@.len() ==> #[trigger] other.indices@[i] + offset <= usize::MAX,
                self.indices@ == start + shift_indices(other.indices@.take(j as int), offset as int),
                self.vertex_count == old(self).vertex_count,
                self.face_ids@ == old(self).face_ids@,
        {
            let shifted = other.indices[j] + offset;
            self.indices.push(shifted);
            proof {
                assert(shift_indices(other.indices@.take(j + 1), offset as int)
                    =~= shift_indices(other.indices@.take(j as int), offset as int).push(shifted));
            }
        }
        proof {
            assert(other.indices@.take(n as int) =~= other.indices@);
        }
        self.vertex_count = offset + other.vertex_count;
        let mut ids = other.face_ids.clone();
        self.face_ids.append(&mut ids);
        proof {
            if old(self).well_formed() && other.well_formed() {
                let a = start.len();
                assert forall|j: int| 0 <= j < self.indices@.len()
                    implies #[trigger] self.indices@[j] < self.vertex_count by {
                    if j >= a {
                        assert(self.indices@[j] == other.indices@[j - a] + offset);
                    } else {
                        assert(self.indices@[j] == start[j]);
                    }
                }
            }
        }
    }

    /// All `meshes` combined into one, in order.
    pub fn combine(meshes: &[MeshTopology]) -> (res: MeshTopology)
        requires
            combine_fits(meshes@),
        ensures
            res.vertex_count == vertex_total(meshes@),
            res.indices@ == combined_indices(meshes@),
            res.face_ids@ == combined_face_ids(meshes@),
            (forall|k: int| 0 <= k < meshes@.len() ==> #[trigger] meshes@[k].well_formed()) ==> res.well_formed(),
            res.face_ids@.len() == face_id_total(meshes@),
            forall|k: int, t: int| 0 <= k < meshes@.len() && 0 <= t < meshes@[k].face_ids@.len()
                ==> #[trigger] res.face_ids@[face_id_total(meshes@.take(k)) + t]
                    == #[trigger] meshes@[k].face_ids@[t],
            res.indices@.len() == index_total(meshes@),
            forall|k: int, t: int| 0 <= k < meshes@.len() && 0 <= t < meshes@[k].indices@.len()
                ==> #[trigger] res.indices@[index_total(meshes@.take(k)) + t]
                    == #[trigger] meshes@[k].indices@[t] + vertex_total(meshes@.take(k)),
    {
        proof {
            law_combined_face_ids(meshes@);
            law_combined_indices(meshes@);
        }
        let mut res = MeshTopology { vertex_count: 0, indices: Vec::new(), face_ids: Vec::new() };
        let n = meshes.len();
        proof {
            assert(meshes@.take(0) =~= Seq::<MeshTopology>::empty());
        }
        for k in 0..n
            invariant
                n == meshes@.len(),
                combine_fits(meshes@),
                res.vertex_count == vertex_total(meshes@.take(k as int)),
                res.indices@ == combined_indices(meshes@.take(k as int)),
                res.face_ids@ == combined_face_ids(meshes@.take(k as int)),
                (forall|i: int| 0 <= i < meshes@.len() ==> #[trigger] meshes@[i].well_formed()) ==> res.well_formed(),
        {
            proof {
                assert(meshes@.take(k + 1).drop_last() =~= meshes@.take(k as int));
                assert(meshes@.take(k + 1).last() == meshes@[k as int]);
                lemma_vertex_total_prefix(meshes@, k + 1);
                assert forall|j: int| 0 <= j < meshes@[k as int].indices@.len()
                    implies #[trigger] meshes@[k as int].indices@[j] + res.vertex_count <= usize::MAX by {
                    assert(meshes@[k as int].indices@[j] + vertex_total(meshes@.take(k as int)) <= usize::MAX);
                }
            }
            res.append(&meshes[k]);
        }
        proof {
            assert(meshes@.take(n as int) =~= meshes@);
        }
        proof {
            assert forall|k: int, t: int| 0 <= k < meshes@.len() && 0 <= t < meshes@[k].indices@.len()
                implies #[trigger] res.indices@[index_total(meshes@.take(k)) + t]
                    == #[trigger] meshes@[k].indices@[t] + vertex_total(meshes@.take(k)) by {
                law_combined_indices(meshes@);
                lemma_totals_nonneg(meshes@.take(k));
                assert(meshes@[k].indices@[t] + vertex_total(meshes@.take(k)) <= usize::MAX);
                assert(combined_indices(meshes@)[index_total(meshes@.take(k)) + t]
                    == (meshes@[k].indices@[t] + vertex_total(meshes@.take(k))) as usize);
            }
        }
        res
    }
}

} // verus!
