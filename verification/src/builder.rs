//! The incremental mesh builder: consumes parsed directives, resolves face
//! corners against the growing attribute pools, deduplicates resolved
//! vertices by value, and accumulates the output vertex and index buffers.

use vstd::prelude::*;

use crate::mesh::Mesh;
use crate::obj::{Error, ErrorV, Line, LineV, TextureCoords, Vertex, VertexIndices};

verus! {

/// The resolved, renderer-facing vertex: three position components, three
/// normal components and two texture-coordinate components, each the bit
/// pattern of a single-precision float. Two vertices are equal exactly when
/// all eight components are bit-for-bit equal.
#[derive(Copy, Clone, PartialEq, Eq, Structural, Debug, Hash)]
pub struct MeshVertex {
    pub px: u32,
    pub py: u32,
    pub pz: u32,
    pub nx: u32,
    pub ny: u32,
    pub nz: u32,
    pub tu: u32,
    pub tv: u32,
}

/// What became of one directive: applied to the mesh, or accepted and
/// deliberately left without effect (grouping, material and comment
/// directives carry no geometry).
#[derive(Copy, Clone, PartialEq, Eq, Structural, Debug)]
pub enum Handled {
    Applied,
    Ignored,
}

/// Mathematical state of an [`ObjectBuilder`].
pub struct BuilderV {
    pub vertices: Seq<Vertex>,
    pub normals: Seq<Vertex>,
    pub texture_coords: Seq<TextureCoords>,
    pub indices: Seq<VertexIndices>,
    pub mesh_vertices: Seq<MeshVertex>,
    pub mesh_indices: Seq<u32>,
}

/// The stateful accumulator: raw attribute pools, a scratch list of corner
/// triples, and the two output buffers.
pub struct ObjectBuilder {
    pub vertices: Vec<Vertex>,
    pub normals: Vec<Vertex>,
    pub texture_coords: Vec<TextureCoords>,
    pub indices: Vec<VertexIndices>,
    pub mesh_vertices: Vec<MeshVertex>,
    pub mesh_indices: Vec<u32>,
}

impl View for ObjectBuilder {
    type V = BuilderV;

    open spec fn view(&self) -> BuilderV {
        BuilderV {
            vertices: self.vertices@,
            normals: self.normals@,
            texture_coords: self.texture_coords@,
            indices: self.indices@,
            mesh_vertices: self.mesh_vertices@,
            mesh_indices: self.mesh_indices@,
        }
    }
}

/// The all-zero record that an absent normal reference resolves to.
pub open spec fn zero_vertex() -> Vertex {
    Vertex { x: 0, y: 0, z: 0, w: 0 }
}

/// The all-zero record that an absent texture-coordinate reference resolves
/// to.
pub open spec fn zero_texcoords() -> TextureCoords {
    TextureCoords { u: 0, v: 0, w: 0 }
}

impl BuilderV {
    /// Index `j` of the vertex pool is referenced by some emitted index.
    pub open spec fn referenced(self, j: int) -> bool {
        exists|k: int|
            0 <= k < self.mesh_indices.len() && (#[trigger] self.mesh_indices[k]) as int == j
    }

    /// Structural invariants of the mesh under construction: the index list
    /// is a whole number of triangles, every index points into the vertex
    /// pool, and no two pool entries are value-equal.
    pub open spec fn wf(self) -> bool {
        &&& self.mesh_indices.len() % 3 == 0
        &&& forall|k: int|
            0 <= k < self.mesh_indices.len() ==> ((#[trigger] self.mesh_indices[k]) as int)
                < self.mesh_vertices.len()
        &&& self.mesh_vertices.no_duplicates()
    }

    /// Every vertex-pool entry is referenced by at least one emitted index:
    /// entries appear only at the moment of reference.
    pub open spec fn all_referenced(self) -> bool {
        forall|j: int| 0 <= j < self.mesh_vertices.len() ==> #[trigger] self.referenced(j)
    }
}

/// One face corner resolved against the current pools: the 1-based position
/// index must point into the position pool; an absent optional reference
/// resolves to the all-zero record, a present one must point into its pool.
pub open spec fn spec_resolve(b: BuilderV, v: VertexIndices) -> Option<MeshVertex> {
    if v.position < 1 || v.position as int > b.vertices.len() {
        None
    } else {
        let p = b.vertices[v.position as int - 1];
        let nrm = match v.normal {
            Some(ni) => if 1 <= ni && (ni as int) <= b.normals.len() {
                Some(b.normals[ni as int - 1])
            } else {
                None
            },
            None => Some(zero_vertex()),
        };
        let tc = match v.texture_coords {
            Some(ti) => if 1 <= ti && (ti as int) <= b.texture_coords.len() {
                Some(b.texture_coords[ti as int - 1])
            } else {
                None
            },
            None => Some(zero_texcoords()),
        };
        match (nrm, tc) {
            (Some(n), Some(t)) => Some(
                MeshVertex {
                    px: p.x,
                    py: p.y,
                    pz: p.z,
                    nx: n.x,
                    ny: n.y,
                    nz: n.z,
                    tu: t.u,
                    tv: t.v,
                },
            ),
            _ => None,
        }
    }
}

/// The vertex pool after interning `v`: unchanged when a value-equal entry
/// exists, extended by `v` otherwise.
pub open spec fn spec_intern_pool(pool: Seq<MeshVertex>, v: MeshVertex) -> Seq<MeshVertex> {
    if pool.contains(v) {
        pool
    } else {
        pool.push(v)
    }
}

/// The pool index interning `v` yields: the first value-equal entry's
/// position, or the pool's length when `v` is new.
pub open spec fn spec_intern_index(pool: Seq<MeshVertex>, v: MeshVertex) -> int {
    match pool.index_of_first(v) {
        Some(i) => i,
        None => pool.len() as int,
    }
}

/// A builder with the mesh buffers replaced.
pub open spec fn with_mesh(b: BuilderV, pool: Seq<MeshVertex>, idx: Seq<u32>) -> BuilderV {
    BuilderV {
        vertices: b.vertices,
        normals: b.normals,
        texture_coords: b.texture_coords,
        indices: b.indices,
        mesh_vertices: pool,
        mesh_indices: idx,
    }
}

/// One face processed: the corner-consistency checks, then resolution of the
/// three corners, then interning and the three index appends, in corner
/// order.
pub open spec fn spec_face(
    b: BuilderV,
    v1: VertexIndices,
    v2: VertexIndices,
    v3: VertexIndices,
) -> Result<BuilderV, ErrorV> {
    if (v1.texture_coords is Some) != (v2.texture_coords is Some) || (v2.texture_coords is Some)
        != (v3.texture_coords is Some) {
        Err(ErrorV::MissingTextureCoord)
    } else if (v1.normal is Some) != (v2.normal is Some) || (v2.normal is Some) != (
    v3.normal is Some) {
        Err(ErrorV::MissingNormal)
    } else {
        match (spec_resolve(b, v1), spec_resolve(b, v2), spec_resolve(b, v3)) {
            (Some(r1), Some(r2), Some(r3)) => {
                let p0 = b.mesh_vertices;
                let i1 = spec_intern_index(p0, r1);
                let p1 = spec_intern_pool(p0, r1);
                let i2 = spec_intern_index(p1, r2);
                let p2 = spec_intern_pool(p1, r2);
                let i3 = spec_intern_index(p2, r3);
                let p3 = spec_intern_pool(p2, r3);
                Ok(
                    with_mesh(
                        b,
                        p3,
                        b.mesh_indices + seq![i1 as u32, i2 as u32, i3 as u32],
                    ),
                )
            },
            _ => Err(ErrorV::InvalidIndex),
        }
    }
}

/// One directive consumed: attribute records append to their pools, faces go
/// through [`spec_face`], everything else is accepted and ignored.
pub open spec fn spec_step(b: BuilderV, l: LineV) -> Result<(BuilderV, Handled), ErrorV> {
    match l {
        LineV::Vertex(v) => Ok(
            (
                BuilderV {
                    vertices: b.vertices.push(v),
                    normals: b.normals,
                    texture_coords: b.texture_coords,
                    indices: b.indices,
                    mesh_vertices: b.mesh_vertices,
                    mesh_indices: b.mesh_indices,
                },
                Handled::Applied,
            ),
        ),
        LineV::Normal(v) => Ok(
            (
                BuilderV {
                    vertices: b.vertices,
                    normals: b.normals.push(v),
                    texture_coords: b.texture_coords,
                    indices: b.indices,
                    mesh_vertices: b.mesh_vertices,
                    mesh_indices: b.mesh_indices,
                },
                Handled::Applied,
            ),
        ),
        LineV::TextureCoords(t) => Ok(
            (
                BuilderV {
                    vertices: b.vertices,
                    normals: b.normals,
                    texture_coords: b.texture_coords.push(t),
                    indices: b.indices,
                    mesh_vertices: b.mesh_vertices,
                    mesh_indices: b.mesh_indices,
                },
                Handled::Applied,
            ),
        ),
        LineV::Face(v1, v2, v3) => match spec_face(b, v1, v2, v3) {
            Ok(b2) => Ok((b2, Handled::Applied)),
            Err(e) => Err(e),
        },
        _ => Ok((b, Handled::Ignored)),
    }
}

/// A directive sequence consumed in order, stopping at the first failure:
/// the state reached and the error that stopped the run, if one did.
pub open spec fn spec_run(b: BuilderV, ls: Seq<LineV>) -> (BuilderV, Option<ErrorV>)
    decreases ls.len(),
{
    if ls.len() == 0 {
        (b, None)
    } else {
        match spec_step(b, ls[0]) {
            Ok(pair) => spec_run(pair.0, ls.drop_first()),
            Err(e) => (b, Some(e)),
        }
    }
}

/// The views of a sequence of parsed directives.
pub open spec fn lines_view<'a>(lines: Seq<Line<'a>>) -> Seq<LineV> {
    lines.map_values(|l: Line<'a>| l@)
}

impl ObjectBuilder {
    /// An empty builder: all pools and buffers start empty.
    pub fn new() -> (r: ObjectBuilder)
        ensures
            r@.vertices == Seq::<Vertex>::empty(),
            r@.normals == Seq::<Vertex>::empty(),
            r@.texture_coords == Seq::<TextureCoords>::empty(),
            r@.indices == Seq::<VertexIndices>::empty(),
            r@.mesh_vertices == Seq::<MeshVertex>::empty(),
            r@.mesh_indices == Seq::<u32>::empty(),
            r@.wf(),
            r@.all_referenced(),
    {
        ObjectBuilder {
            vertices: Vec::new(),
            normals: Vec::new(),
            texture_coords: Vec::new(),
            indices: Vec::new(),
            mesh_vertices: Vec::new(),
            mesh_indices: Vec::new(),
        }
    }

    /// Resolve one corner against the current pools, or report that one of
    /// its indices falls outside its pool.
    pub fn get_vertex(&self, v: VertexIndices) -> (r: Option<MeshVertex>)
        ensures
            r == spec_resolve(self@, v),
    {
        if v.position == 0 {
            return None;
        }
        let pi = v.position as usize;
        if pi > self.vertices.len() {
            return None;
        }
        let p = self.vertices[pi - 1];
        let nrm: Vertex = match v.normal {
            Some(ni) => {
                if ni == 0 || ni as usize > self.normals.len() {
                    return None;
                }
                self.normals[ni as usize - 1]
            },
            None => Vertex { x: 0, y: 0, z: 0, w: 0 },
        };
        let tc: TextureCoords = match v.texture_coords {
            Some(ti) => {
                if ti == 0 || ti as usize > self.texture_coords.len() {
                    return None;
                }
                self.texture_coords[ti as usize - 1]
            },
            None => TextureCoords { u: 0, v: 0, w: 0 },
        };
        Some(
            MeshVertex {
                px: p.x,
                py: p.y,
                pz: p.z,
                nx: nrm.x,
                ny: nrm.y,
                nz: nrm.z,
                tu: tc.u,
                tv: tc.v,
            },
        )
    }

    /// Intern a resolved vertex: a linear scan for a value-equal pool entry,
    /// whose position is reused; a new value is appended and its position
    /// returned.
    pub fn add_vertex(&mut self, v: MeshVertex) -> (idx: u32)
        requires
            old(self)@.mesh_vertices.len() < u32::MAX,
        ensures
            final(self)@ == with_mesh(
                old(self)@,
                spec_intern_pool(old(self)@.mesh_vertices, v),
                old(self)@.mesh_indices,
            ),
            idx as int == spec_intern_index(old(self)@.mesh_vertices, v),
            (idx as int) < final(self)@.mesh_vertices.len(),
            final(self)@.mesh_vertices[idx as int] == v,
    {
        let n = self.mesh_vertices.len();
        let mut i: usize = 0;
        while i < n
            invariant
                *self == *old(self),
                n == self.mesh_vertices@.len(),
                n < u32::MAX,
                i <= n,
                forall|k: int| 0 <= k < i as int ==> self.mesh_vertices@[k] != v,
            decreases n - i,
        {
            if self.mesh_vertices[i] == v {
                proof {
                    self.mesh_vertices@.index_of_first_ensures(v);
                    assert(self.mesh_vertices@.contains(v)) by {
                        assert(self.mesh_vertices@[i as int] == v);
                    }
                }
                return i as u32;
            }
            i = i + 1;
        }
        proof {
            self.mesh_vertices@.index_of_first_ensures(v);
            if self.mesh_vertices@.contains(v) {
                let w = choose|k: int|
                    0 <= k < self.mesh_vertices@.len() && self.mesh_vertices@[k] == v;
                assert(self.mesh_vertices@[w] != v);
            }
        }
        let idx = n as u32;
        self.mesh_vertices.push(v);
        idx
    }

    /// Process one face: either all three corners carry a texture-coordinate
    /// reference or none may, and likewise for normals; then each corner is
    /// resolved, interned, and its pool position appended to the index list,
    /// in corner order. On failure the builder is unchanged.
    pub fn handle_face(
        &mut self,
        v1: VertexIndices,
        v2: VertexIndices,
        v3: VertexIndices,
    ) -> (r: Result<(), Error>)
        requires
            old(self)@.mesh_vertices.len() + 3 <= u32::MAX,
        ensures
            (match spec_face(old(self)@, v1, v2, v3) {
                Ok(b2) => r is Ok && final(self)@ == b2,
                Err(e) => final(self)@ == old(self)@ && (match r {
                    Err(err) => err@ == e,
                    Ok(_) => false,
                }),
            }),
            old(self)@.wf() ==> final(self)@.wf(),
            old(self)@.wf() && old(self)@.all_referenced() ==> final(self)@.all_referenced(),
            old(self)@.mesh_vertices.is_prefix_of(final(self)@.mesh_vertices),
            old(self)@.mesh_indices.is_prefix_of(final(self)@.mesh_indices),
    {
        if v1.texture_coords.is_some() != v2.texture_coords.is_some()
            || v2.texture_coords.is_some() != v3.texture_coords.is_some() {
            proof {
                lemma_prefix_reflexive(old(self)@.mesh_vertices);
                lemma_prefix_reflexive(old(self)@.mesh_indices);
            }
            return Err(Error::MissingTextureCoord);
        }
        if v1.normal.is_some() != v2.normal.is_some() || v2.normal.is_some()
            != v3.normal.is_some() {
            proof {
                lemma_prefix_reflexive(old(self)@.mesh_vertices);
                lemma_prefix_reflexive(old(self)@.mesh_indices);
            }
            return Err(Error::MissingNormal);
        }
        let r1 = match self.get_vertex(v1) {
            Some(x) => x,
            None => {
                proof {
                    lemma_prefix_reflexive(old(self)@.mesh_vertices);
                    lemma_prefix_reflexive(old(self)@.mesh_indices);
                }
                return Err(Error::InvalidIndex);
            },
        };
        let r2 = match self.get_vertex(v2) {
            Some(x) => x,
            None => {
                proof {
                    lemma_prefix_reflexive(old(self)@.mesh_vertices);
                    lemma_prefix_reflexive(old(self)@.mesh_indices);
                }
                return Err(Error::InvalidIndex);
            },
        };
        let r3 = match self.get_vertex(v3) {
            Some(x) => x,
            None => {
                proof {
                    lemma_prefix_reflexive(old(self)@.mesh_vertices);
                    lemma_prefix_reflexive(old(self)@.mesh_indices);
                }
                return Err(Error::InvalidIndex);
            },
        };
        let i1 = self.add_vertex(r1);
        let i2 = self.add_vertex(r2);
        let i3 = self.add_vertex(r3);
        self.mesh_indices.push(i1);
        self.mesh_indices.push(i2);
        self.mesh_indices.push(i3);
        proof {
            assert(final(self)@.mesh_indices =~= old(self)@.mesh_indices + seq![i1, i2, i3]);
            if old(self)@.wf() {
                lemma_face_preserves_wf(old(self)@, v1, v2, v3);
            }
            assert(old(self)@.mesh_vertices =~= final(self)@.mesh_vertices.subrange(
                0,
                old(self)@.mesh_vertices.len() as int,
            ));
            assert(old(self)@.mesh_indices =~= final(self)@.mesh_indices.subrange(
                0,
                old(self)@.mesh_indices.len() as int,
            ));
        }
        Ok(())
    }
}

/// Processing a face preserves the builder's structural invariants, keeps
/// every pool entry referenced, and only appends to the mesh buffers. The
/// length bound is a machine limit: pool positions are 32-bit indices.
pub proof fn lemma_face_preserves_wf(
    b: BuilderV,
    v1: VertexIndices,
    v2: VertexIndices,
    v3: VertexIndices,
)
    requires
        b.wf(),
        b.mesh_vertices.len() + 3 <= u32::MAX,
    ensures
        (match spec_face(b, v1, v2, v3) {
            Ok(b2) => {
                &&& b2.wf()
                &&& b.all_referenced() ==> b2.all_referenced()
                &&& b.mesh_vertices.is_prefix_of(b2.mesh_vertices)
                &&& b.mesh_indices.is_prefix_of(b2.mesh_indices)
            },
            Err(_) => true,
        }),
{
    if (v1.texture_coords is Some) != (v2.texture_coords is Some) || (v2.texture_coords is Some)
        != (v3.texture_coords is Some) {
    } else if (v1.normal is Some) != (v2.normal is Some) || (v2.normal is Some) != (
    v3.normal is Some) {
    } else {
        match (spec_resolve(b, v1), spec_resolve(b, v2), spec_resolve(b, v3)) {
            (Some(r1), Some(r2), Some(r3)) => {
                let p0 = b.mesh_vertices;
                let i1 = spec_intern_index(p0, r1);
                let p1 = spec_intern_pool(p0, r1);
                let i2 = spec_intern_index(p1, r2);
                let p2 = spec_intern_pool(p1, r2);
                let i3 = spec_intern_index(p2, r3);
                let p3 = spec_intern_pool(p2, r3);
                let q0 = b.mesh_indices;
                let q3 = q0 + seq![i1 as u32, i2 as u32, i3 as u32];
                let b2 = with_mesh(b, p3, q3);
                p0.index_of_first_ensures(r1);
                p1.index_of_first_ensures(r2);
                p2.index_of_first_ensures(r3);
                lemma_intern_step(p0, r1);
                lemma_intern_step(p1, r2);
                lemma_intern_step(p2, r3);
                assert(0 <= i1 < p1.len() && p1[i1] == r1);
                assert(0 <= i2 < p2.len() && p2[i2] == r2);
                assert(0 <= i3 < p3.len() && p3[i3] == r3);
                assert(p3.len() <= p0.len() + 3);
                assert(((i1 as u32) as int) == i1);
                assert(((i2 as u32) as int) == i2);
                assert(((i3 as u32) as int) == i3);
                assert(q3.len() % 3 == 0);
                assert forall|k: int| 0 <= k < q3.len() implies ((#[trigger] q3[k]) as int)
                    < p3.len() by {
                    if k < q0.len() {
                        assert(q3[k] == q0[k]);
                        assert((q0[k] as int) < p0.len());
                    } else if k == q0.len() {
                        assert(q3[k] == i1 as u32);
                    } else if k == q0.len() + 1 {
                        assert(q3[k] == i2 as u32);
                    } else {
                        assert(q3[k] == i3 as u32);
                    }
                }
                assert(b2.wf());
                if b.all_referenced() {
                    assert forall|j: int|
                        0 <= j < b2.mesh_vertices.len() implies #[trigger] b2.referenced(j) by {
                        if j < p0.len() {
                            assert(b.referenced(j));
                            let k = choose|k: int|
                                0 <= k < b.mesh_indices.len() && ((#[trigger] b.mesh_indices[k])
                                    as int) == j;
                            assert(q3[k] == q0[k]);
                            assert((q3[k] as int) == j);
                        } else if j < p1.len() {
                            assert(!p0.contains(r1) && i1 == p0.len());
                            assert((q3[q0.len() as int] as int) == j);
                        } else if j < p2.len() {
                            assert(!p1.contains(r2) && i2 == p1.len());
                            assert((q3[q0.len() as int + 1] as int) == j);
                        } else {
                            assert(!p2.contains(r3) && i3 == p2.len());
                            assert((q3[q0.len() as int + 2] as int) == j);
                        }
                    }
                }
                assert(p0.is_prefix_of(p3)) by {
                    assert(p0 =~= p3.subrange(0, p0.len() as int));
                }
                assert(q0.is_prefix_of(q3)) by {
                    assert(q0 =~= q3.subrange(0, q0.len() as int));
                }
            },
            _ => {},
        }
    }
}

/// One interning step: the yielded index points at the value, the pool keeps
/// its entries and gains at most the new one, and freedom from duplicates is
/// preserved.
pub proof fn lemma_intern_step(pool: Seq<MeshVertex>, v: MeshVertex)
    ensures
        0 <= spec_intern_index(pool, v) < spec_intern_pool(pool, v).len(),
        spec_intern_pool(pool, v)[spec_intern_index(pool, v)] == v,
        pool.len() <= spec_intern_pool(pool, v).len() <= pool.len() + 1,
        pool.is_prefix_of(spec_intern_pool(pool, v)),
        pool.no_duplicates() ==> spec_intern_pool(pool, v).no_duplicates(),
        !pool.contains(v) ==> spec_intern_index(pool, v) == pool.len(),
        pool.contains(v) ==> spec_intern_pool(pool, v) == pool,
{
    pool.index_of_first_ensures(v);
    let p1 = spec_intern_pool(pool, v);
    assert(pool =~= p1.subrange(0, pool.len() as int));
    if !pool.contains(v) {
        assert forall|x: int, y: int| 0 <= x < y < p1.len() && pool.no_duplicates() implies p1[x]
            != p1[y] by {
            if y < pool.len() {
            } else {
                assert(p1[y] == v);
                assert(p1[x] == pool[x]);
                assert(!pool.contains(v));
                assert(pool[x] != v) by {
                    if pool[x] == v {
                        assert(pool.contains(v));
                    }
                }
            }
        }
    }
}

impl ObjectBuilder {
    /// Consume one parsed directive: attribute records append to their
    /// pools, a face goes through [`ObjectBuilder::handle_face`], and every
    /// other directive is accepted and reported as ignored — grouping,
    /// material, name, comment, point, line-segment and smoothing-group
    /// directives carry no geometry for this builder.
    pub fn process_line(&mut self, line: &Line<'_>) -> (r: Result<Handled, Error>)
        requires
            old(self)@.mesh_vertices.len() + 3 <= u32::MAX,
        ensures
            (match spec_step(old(self)@, line@) {
                Ok(pair) => r == Ok::<Handled, Error>(pair.1) && final(self)@ == pair.0,
                Err(e) => final(self)@ == old(self)@ && (match r {
                    Err(err) => err@ == e,
                    Ok(_) => false,
                }),
            }),
            old(self)@.wf() ==> final(self)@.wf(),
            old(self)@.wf() && old(self)@.all_referenced() ==> final(self)@.all_referenced(),
            old(self)@.vertices.is_prefix_of(final(self)@.vertices),
            old(self)@.normals.is_prefix_of(final(self)@.normals),
            old(self)@.texture_coords.is_prefix_of(final(self)@.texture_coords),
            old(self)@.mesh_vertices.is_prefix_of(final(self)@.mesh_vertices),
            old(self)@.mesh_indices.is_prefix_of(final(self)@.mesh_indices),
            final(self)@.mesh_vertices.len() <= old(self)@.mesh_vertices.len() + 3,
    {
        proof {
            lemma_prefix_reflexive(old(self)@.vertices);
            lemma_prefix_reflexive(old(self)@.normals);
            lemma_prefix_reflexive(old(self)@.texture_coords);
            lemma_prefix_reflexive(old(self)@.mesh_vertices);
            lemma_prefix_reflexive(old(self)@.mesh_indices);
        }
        match line {
            Line::Vertex(v) => {
                self.vertices.push(*v);
                proof {
                    lemma_push_prefix(old(self)@.vertices, *v);
                    if old(self)@.wf() && old(self)@.all_referenced() {
                        lemma_same_mesh_referenced(old(self)@, self@);
                    }
                }
                Ok(Handled::Applied)
            },
            Line::Normal(v) => {
                self.normals.push(*v);
                proof {
                    lemma_push_prefix(old(self)@.normals, *v);
                    if old(self)@.wf() && old(self)@.all_referenced() {
                        lemma_same_mesh_referenced(old(self)@, self@);
                    }
                }
                Ok(Handled::Applied)
            },
            Line::TextureCoords(t) => {
                self.texture_coords.push(*t);
                proof {
                    lemma_push_prefix(old(self)@.texture_coords, *t);
                    if old(self)@.wf() && old(self)@.all_referenced() {
                        lemma_same_mesh_referenced(old(self)@, self@);
                    }
                }
                Ok(Handled::Applied)
            },
            Line::Face(v1, v2, v3) => {
                match self.handle_face(*v1, *v2, *v3) {
                    Ok(()) => Ok(Handled::Applied),
                    Err(e) => Err(e),
                }
            },
            _ => Ok(Handled::Ignored),
        }
    }

    /// Consume a sequence of parsed directives in order, stopping at the
    /// first failure; on failure the builder keeps the state the successful
    /// prefix built.
    pub fn process_lines(&mut self, lines: &Vec<Line<'_>>) -> (r: Result<(), Error>)
        requires
            old(self)@.mesh_vertices.len() + 3 * lines@.len() <= u32::MAX,
        ensures
            final(self)@ == spec_run(old(self)@, lines_view(lines@)).0,
            (match spec_run(old(self)@, lines_view(lines@)).1 {
                None => r is Ok,
                Some(e) => match r {
                    Err(err) => err@ == e,
                    Ok(_) => false,
                },
            }),
            old(self)@.wf() ==> final(self)@.wf(),
            old(self)@.wf() && old(self)@.all_referenced() ==> final(self)@.all_referenced(),
            old(self)@.vertices.is_prefix_of(final(self)@.vertices),
            old(self)@.normals.is_prefix_of(final(self)@.normals),
            old(self)@.texture_coords.is_prefix_of(final(self)@.texture_coords),
            old(self)@.mesh_vertices.is_prefix_of(final(self)@.mesh_vertices),
            old(self)@.mesh_indices.is_prefix_of(final(self)@.mesh_indices),
    {
        proof {
            lemma_prefix_reflexive(old(self)@.vertices);
            lemma_prefix_reflexive(old(self)@.normals);
            lemma_prefix_reflexive(old(self)@.texture_coords);
            lemma_prefix_reflexive(old(self)@.mesh_vertices);
            lemma_prefix_reflexive(old(self)@.mesh_indices);
        }
        let ghost lv = lines_view(lines@);
        let n = lines.len();
        let mut i: usize = 0;
        proof {
            assert(lv.skip(0) =~= lv);
        }
        while i < n
            invariant
                i <= n,
                n == lines@.len(),
                lv == lines_view(lines@),
                self@.mesh_vertices.len() + 3 * (n - i) as int <= u32::MAX,
                spec_run(old(self)@, lv) == spec_run(self@, lv.skip(i as int)),
                old(self)@.wf() ==> self@.wf(),
                old(self)@.wf() && old(self)@.all_referenced() ==> self@.all_referenced(),
                old(self)@.vertices.is_prefix_of(self@.vertices),
                old(self)@.normals.is_prefix_of(self@.normals),
                old(self)@.texture_coords.is_prefix_of(self@.texture_coords),
                old(self)@.mesh_vertices.is_prefix_of(self@.mesh_vertices),
                old(self)@.mesh_indices.is_prefix_of(self@.mesh_indices),
            decreases n - i,
        {
            let ghost before = self@;
            let step = self.process_line(&lines[i]);
            proof {
                assert(lv.skip(i as int).len() > 0);
                assert(lv.skip(i as int)[0] == lv[i as int]);
                assert(lv[i as int] == lines@[i as int]@);
                assert(lv.skip(i as int).drop_first() =~= lv.skip(i as int + 1));
                lemma_prefix_transitive(
                    old(self)@.vertices,
                    before.vertices,
                    self@.vertices,
                );
                lemma_prefix_transitive(
                    old(self)@.normals,
                    before.normals,
                    self@.normals,
                );
                lemma_prefix_transitive(
                    old(self)@.texture_coords,
                    before.texture_coords,
                    self@.texture_coords,
                );
                lemma_prefix_transitive(
                    old(self)@.mesh_vertices,
                    before.mesh_vertices,
                    self@.mesh_vertices,
                );
                lemma_prefix_transitive(
                    old(self)@.mesh_indices,
                    before.mesh_indices,
                    self@.mesh_indices,
                );
            }
            match step {
                Err(e) => {
                    return Err(e);
                },
                Ok(_) => {},
            }
            i = i + 1;
        }
        proof {
            assert(lv.skip(n as int) =~= Seq::<LineV>::empty());
        }
        Ok(())
    }

    /// Hand the accumulated buffers off as the finished mesh; the builder is
    /// consumed.
    pub fn into_mesh(self) -> (m: Mesh)
        ensures
            m.vertex_buffer@ == self.mesh_vertices@,
            m.indices_buffer@ == self.mesh_indices@,
    {
        Mesh::new(self.mesh_vertices, self.mesh_indices)
    }
}

/// A builder whose mesh buffers are unchanged keeps every pool entry
/// referenced, whatever happened to its raw pools.
pub proof fn lemma_same_mesh_referenced(a: BuilderV, b: BuilderV)
    requires
        a.mesh_indices == b.mesh_indices,
        a.mesh_vertices == b.mesh_vertices,
        a.all_referenced(),
    ensures
        b.all_referenced(),
{
    assert forall|j: int| 0 <= j < b.mesh_vertices.len() implies #[trigger] b.referenced(j) by {
        assert(a.referenced(j));
        let k = choose|k: int|
            0 <= k < a.mesh_indices.len() && ((#[trigger] a.mesh_indices[k]) as int) == j;
        assert(0 <= k < b.mesh_indices.len() && (b.mesh_indices[k] as int) == j);
    }
}

/// A sequence is a prefix of itself.
pub proof fn lemma_prefix_reflexive<A>(s: Seq<A>)
    ensures
        s.is_prefix_of(s),
{
    assert(s =~= s.subrange(0, s.len() as int));
}

/// A sequence is a prefix of itself extended by one element.
pub proof fn lemma_push_prefix<A>(s: Seq<A>, x: A)
    ensures
        s.is_prefix_of(s.push(x)),
{
    assert(s =~= s.push(x).subrange(0, s.len() as int));
}

/// Prefix-of is transitive.
pub proof fn lemma_prefix_transitive<A>(a: Seq<A>, b: Seq<A>, c: Seq<A>)
    requires
        a.is_prefix_of(b),
        b.is_prefix_of(c),
    ensures
        a.is_prefix_of(c),
{
    assert(a =~= c.subrange(0, a.len() as int));
}

} // verus!
