//! Mesh assembly.
//!
//! A parsed polygon-mesh file arrives as a list of sub-meshes, each with
//! flat position, normal and texture-coordinate arrays and a triangle index
//! list. The scalar entries are the raw bit patterns of the file's
//! single-precision values; the library never interprets them, it only
//! counts, regroups and copies them. A sub-mesh whose array lengths do not
//! fit together is skipped with a diagnostic and loading continues; the
//! sub-meshes that remain are merged into one vertex list and one index
//! list, the indices shifted past the vertices already merged.

use vstd::prelude::*;

verus! {

/// One vertex: a position (three scalars), a normal (three scalars) and a
/// texture coordinate (two scalars), each scalar a raw bit pattern.
pub struct Vertex {
    pub position: Vec<u32>,
    pub normals: Vec<u32>,
    pub tex_coords: Vec<u32>,
}

/// Mathematical image of a `Vertex`.
pub ghost struct VertexV {
    pub position: Seq<u32>,
    pub normals: Seq<u32>,
    pub tex_coords: Seq<u32>,
}

impl View for Vertex {
    type V = VertexV;

    open spec fn view(&self) -> VertexV {
        VertexV { position: self.position@, normals: self.normals@, tex_coords: self.tex_coords@ }
    }
}

/// One sub-mesh as parsed from a mesh file, before validation.
pub struct SubMesh {
    pub name: String,
    pub positions: Vec<u32>,
    pub normals: Vec<u32>,
    pub texcoords: Vec<u32>,
    pub indices: Vec<u32>,
}

/// Mathematical image of a `SubMesh`.
pub ghost struct SubMeshV {
    pub name: Seq<char>,
    pub positions: Seq<u32>,
    pub normals: Seq<u32>,
    pub texcoords: Seq<u32>,
    pub indices: Seq<u32>,
}

impl View for SubMesh {
    type V = SubMeshV;

    open spec fn view(&self) -> SubMeshV {
        SubMeshV {
            name: self.name@,
            positions: self.positions@,
            normals: self.normals@,
            texcoords: self.texcoords@,
            indices: self.indices@,
        }
    }
}

/// A merged mesh: one vertex list and one triangle index list over it.
pub struct ObjModel {
    pub indices: Vec<u32>,
    pub vertices: Vec<Vertex>,
}

impl ObjModel {
    /// The vertices as their mathematical images.
    pub open spec fn vertices_view(&self) -> Seq<VertexV> {
        self.vertices@.map_values(|v: Vertex| v@)
    }
}

/// Why a sub-mesh was rejected.
#[derive(Clone, Copy, Debug, PartialEq, Eq, Structural)]
pub enum MeshDefect {
    /// Position count not divisible by 3.
    PositionCount,
    /// Texture-coordinate count not divisible by 2.
    TexcoordCount,
    /// Index count not divisible by 3.
    IndexCount,
    /// Normals present but not one per position scalar.
    NormalMismatch,
    /// Texture coordinates present but not one pair per vertex.
    TexcoordMismatch,
    /// An index does not point at a vertex of this sub-mesh.
    IndexRange,
    /// Merging would push the vertex count past what an index can address.
    VertexBudget,
}

/// Diagnostic for one skipped sub-mesh.
pub struct MeshSkip {
    /// Position of the sub-mesh in the file.
    pub index: usize,
    /// The sub-mesh's name.
    pub name: String,
    /// Why it was skipped.
    pub defect: MeshDefect,
}

impl View for MeshSkip {
    type V = (int, Seq<char>, MeshDefect);

    open spec fn view(&self) -> (int, Seq<char>, MeshDefect) {
        (self.index as int, self.name@, self.defect)
    }
}

/// How many vertices a sub-mesh defines.
pub open spec fn vertex_count(m: SubMeshV) -> int {
    m.positions.len() as int / 3
}

/// The first defect of a sub-mesh, checked against the number of vertices
/// `base` already merged; `None` when the sub-mesh is well-formed.
pub open spec fn defect_of(m: SubMeshV, base: int) -> Option<MeshDefect> {
    if m.positions.len() % 3 != 0 {
        Some(MeshDefect::PositionCount)
    } else if m.texcoords.len() % 2 != 0 {
        Some(MeshDefect::TexcoordCount)
    } else if m.indices.len() % 3 != 0 {
        Some(MeshDefect::IndexCount)
    } else if m.normals.len() != 0 && m.normals.len() != m.positions.len() {
        Some(MeshDefect::NormalMismatch)
    } else if m.texcoords.len() != 0 && m.texcoords.len() * 3 != m.positions.len() * 2 {
        Some(MeshDefect::TexcoordMismatch)
    } else if exists|i: int| 0 <= i < m.indices.len() && m.indices[i] >= vertex_count(m) {
        Some(MeshDefect::IndexRange)
    } else if base + vertex_count(m) > u32::MAX {
        Some(MeshDefect::VertexBudget)
    } else {
        None
    }
}

/// The vertices of a well-formed sub-mesh: position scalars regrouped in
/// threes, normals likewise or zero when absent, texture coordinates in
/// twos or zero when absent.
pub open spec fn vertices_of(m: SubMeshV) -> Seq<VertexV> {
    Seq::new(
        vertex_count(m) as nat,
        |v: int|
            VertexV {
                position: m.positions.subrange(3 * v, 3 * v + 3),
                normals: if m.normals.len() == 0 {
                    seq![0u32, 0u32, 0u32]
                } else {
                    m.normals.subrange(3 * v, 3 * v + 3)
                },
                tex_coords: if m.texcoords.len() == 0 {
                    seq![0u32, 0u32]
                } else {
                    m.texcoords.subrange(2 * v, 2 * v + 2)
                },
            },
    )
}

/// A sub-mesh's indices shifted past the `base` vertices already merged.
pub open spec fn offset_indices(ind: Seq<u32>, base: int) -> Seq<u32> {
    Seq::new(ind.len(), |i: int| (ind[i] + base) as u32)
}

/// The outcome of merging a list of sub-meshes.
pub ghost struct BuildV {
    pub vertices: Seq<VertexV>,
    pub indices: Seq<u32>,
    pub skipped: Seq<(int, Seq<char>, MeshDefect)>,
}

/// Merge sub-meshes in file order: a well-formed one appends its vertices
/// and its shifted indices, a defective one is recorded and contributes
/// nothing.
pub open spec fn build_spec(ms: Seq<SubMeshV>) -> BuildV
    decreases ms.len(),
{
    if ms.len() == 0 {
        BuildV {
            vertices: Seq::empty(),
            indices: Seq::empty(),
            skipped: Seq::empty(),
        }
    } else {
        let prev = build_spec(ms.drop_last());
        let m = ms.last();
        let base = prev.vertices.len() as int;
        match defect_of(m, base) {
            Some(d) => BuildV {
                vertices: prev.vertices,
                indices: prev.indices,
                skipped: prev.skipped.push((ms.len() - 1, m.name, d)),
            },
            None => BuildV {
                vertices: prev.vertices + vertices_of(m),
                indices: prev.indices + offset_indices(m.indices, base),
                skipped: prev.skipped,
            },
        }
    }
}

/// The sub-meshes as their mathematical images.
pub open spec fn submeshes_view(ms: Seq<SubMesh>) -> Seq<SubMeshV> {
    ms.map_values(|m: SubMesh| m@)
}

/// The skip diagnostics as their mathematical images.
pub open spec fn skips_view(ss: Seq<MeshSkip>) -> Seq<(int, Seq<char>, MeshDefect)> {
    ss.map_values(|s: MeshSkip| s@)
}

/// Check one sub-mesh against the vertex budget `base`.
#[verifier::loop_isolation(false)]
fn check_submesh(m: &SubMesh, base: usize) -> (r: Option<MeshDefect>)
    requires
        base <= u32::MAX,
    ensures
        r == defect_of(m@, base as int),
{
    if m.positions.len() % 3 != 0 {
        return Some(MeshDefect::PositionCount);
    }
    if m.texcoords.len() % 2 != 0 {
        return Some(MeshDefect::TexcoordCount);
    }
    if m.indices.len() % 3 != 0 {
        return Some(MeshDefect::IndexCount);
    }
    if m.normals.len() != 0 && m.normals.len() != m.positions.len() {
        return Some(MeshDefect::NormalMismatch);
    }
    let nverts: usize = m.positions.len() / 3;
    if m.texcoords.len() != 0 && m.texcoords.len() / 2 != nverts {
        proof {
            assert(m.texcoords@.len() * 3 != m.positions@.len() * 2);
        }
        return Some(MeshDefect::TexcoordMismatch);
    }
    proof {
        if m.texcoords@.len() != 0 {
            assert(m.texcoords@.len() * 3 == m.positions@.len() * 2);
        }
    }
    let n: usize = m.indices.len();
    let mut i: usize = 0;
    while i < n
        invariant
            n == m.indices@.len(),
            0 <= i <= n,
            nverts == vertex_count(m@),
            forall|j: int| 0 <= j < i ==> m.indices@[j] < vertex_count(m@),
        decreases n - i,
    {
        if m.indices[i] as usize >= nverts {
            return Some(MeshDefect::IndexRange);
        }
        i = i + 1;
    }
    if base as u64 + nverts as u64 > 4294967295u64 {
        return Some(MeshDefect::VertexBudget);
    }
    None
}

/// Append the vertices and shifted indices of one well-formed sub-mesh.
#[verifier::loop_isolation(false)]
fn append_submesh(model: &mut ObjModel, m: &SubMesh)
    requires
        defect_of(m@, old(model).vertices@.len() as int) == None::<MeshDefect>,
    ensures
        final(model).vertices_view() == old(model).vertices_view() + vertices_of(m@),
        final(model).indices@ == old(model).indices@ + offset_indices(
            m.indices@,
            old(model).vertices@.len() as int,
        ),
{
    let base: usize = model.vertices.len();
    let base32: u32 = base as u32;
    let nverts: usize = m.positions.len() / 3;
    let ghost base_verts = model.vertices_view();
    let mut v: usize = 0;
    while v < nverts
        invariant
            nverts == vertex_count(m@),
            defect_of(m@, base as int) == None::<MeshDefect>,
            0 <= v <= nverts,
            model.indices@ == old(model).indices@,
            base_verts == old(model).vertices_view(),
            model.vertices_view() == base_verts + vertices_of(m@).subrange(0, v as int),
        decreases nverts - v,
    {
        let mut position: Vec<u32> = Vec::new();
        position.push(m.positions[3 * v]);
        position.push(m.positions[3 * v + 1]);
        position.push(m.positions[3 * v + 2]);
        let mut normals: Vec<u32> = Vec::new();
        if m.normals.len() == 0 {
            normals.push(0);
            normals.push(0);
            normals.push(0);
        } else {
            normals.push(m.normals[3 * v]);
            normals.push(m.normals[3 * v + 1]);
            normals.push(m.normals[3 * v + 2]);
        }
        let mut tex_coords: Vec<u32> = Vec::new();
        if m.texcoords.len() == 0 {
            tex_coords.push(0);
            tex_coords.push(0);
        } else {
            tex_coords.push(m.texcoords[2 * v]);
            tex_coords.push(m.texcoords[2 * v + 1]);
        }
        let vert = Vertex { position, normals, tex_coords };
        proof {
            assert(vert@.position =~= m.positions@.subrange(3 * v as int, 3 * v as int + 3));
            if m.normals@.len() == 0 {
                assert(vert@.normals =~= seq![0u32, 0u32, 0u32]);
            } else {
                assert(vert@.normals =~= m.normals@.subrange(3 * v as int, 3 * v as int + 3));
            }
            if m.texcoords@.len() == 0 {
                assert(vert@.tex_coords =~= seq![0u32, 0u32]);
            } else {
                assert(vert@.tex_coords =~= m.texcoords@.subrange(2 * v as int, 2 * v as int + 2));
            }
            assert(vert@ == vertices_of(m@)[v as int]);
        }
        let ghost before = model.vertices_view();
        model.vertices.push(vert);
        proof {
            assert(model.vertices_view() =~= before.push(vert@));
            assert(model.vertices_view() =~= base_verts + vertices_of(m@).subrange(0, v + 1));
        }
        v = v + 1;
    }
    proof {
        assert(vertices_of(m@).subrange(0, nverts as int) =~= vertices_of(m@));
    }
    let n: usize = m.indices.len();
    let ghost base_inds = model.indices@;
    let mut i: usize = 0;
    while i < n
        invariant
            n == m.indices@.len(),
            0 <= i <= n,
            nverts == vertex_count(m@),
            defect_of(m@, base as int) == None::<MeshDefect>,
            base32 == base as u32,
            base + nverts <= u32::MAX,
            model.vertices_view() == old(model).vertices_view() + vertices_of(m@),
            base_inds == old(model).indices@,
            model.indices@ == base_inds + offset_indices(m.indices@, base as int).subrange(
                0,
                i as int,
            ),
        decreases n - i,
    {
        let idx = m.indices[i];
        proof {
            assert(m.indices@[i as int] < vertex_count(m@));
        }
        model.indices.push(idx + base32);
        proof {
            assert(model.indices@ =~= base_inds + offset_indices(m.indices@, base as int).subrange(
                0,
                i + 1,
            ));
        }
        i = i + 1;
    }
    proof {
        assert(offset_indices(m.indices@, base as int).subrange(0, n as int) =~= offset_indices(
            m.indices@,
            base as int,
        ));
    }
}

/// Merge parsed sub-meshes into one model, exactly as `build_spec`
/// describes: defective sub-meshes are skipped and reported, the rest are
/// merged in order.
#[verifier::loop_isolation(false)]
pub fn build_obj_model(submeshes: &Vec<SubMesh>) -> (r: (ObjModel, Vec<MeshSkip>))
    ensures
        ({
            let b = build_spec(submeshes_view(submeshes@));
            r.0.vertices_view() == b.vertices && r.0.indices@ == b.indices
                && skips_view(r.1@) == b.skipped
        }),
{
    let mut model = ObjModel { indices: Vec::new(), vertices: Vec::new() };
    let mut skipped: Vec<MeshSkip> = Vec::new();
    let n: usize = submeshes.len();
    proof {
        assert(model.vertices_view() =~= Seq::<VertexV>::empty());
        assert(skips_view(skipped@) =~= Seq::<(int, Seq<char>, MeshDefect)>::empty());
        assert(submeshes_view(submeshes@).subrange(0, 0) =~= Seq::<SubMeshV>::empty());
    }
    let mut k: usize = 0;
    while k < n
        invariant
            n == submeshes@.len(),
            0 <= k <= n,
            ({
                let b = build_spec(submeshes_view(submeshes@).subrange(0, k as int));
                model.vertices_view() == b.vertices && model.indices@ == b.indices
                    && skips_view(skipped@) == b.skipped
            }),
        decreases n - k,
    {
        let ghost views = submeshes_view(submeshes@);
        proof {
            assert(views.subrange(0, k + 1).drop_last() =~= views.subrange(0, k as int));
            assert(views.subrange(0, k + 1).last() == views[k as int]);
            assert(views[k as int] == submeshes@[k as int]@);
        }
        let m = &submeshes[k];
        let base: usize = model.vertices.len();
        proof {
            assert(base <= u32::MAX) by {
                lemma_build_vertices_bounded(views.subrange(0, k as int));
            }
        }
        match check_submesh(m, base) {
            Some(defect) => {
                let ghost before = skips_view(skipped@);
                skipped.push(MeshSkip { index: k, name: m.name.clone(), defect });
                proof {
                    assert(skips_view(skipped@) =~= before.push(
                        (k as int, m.name@, defect),
                    ));
                }
            },
            None => {
                append_submesh(&mut model, m);
            },
        }
        k = k + 1;
    }
    proof {
        assert(submeshes_view(submeshes@).subrange(0, n as int) =~= submeshes_view(submeshes@));
    }
    (model, skipped)
}

/// The merged vertex list never outgrows what an index can address.
pub proof fn lemma_build_vertices_bounded(ms: Seq<SubMeshV>)
    ensures
        build_spec(ms).vertices.len() <= u32::MAX,
    decreases ms.len(),
{
    if ms.len() > 0 {
        lemma_build_vertices_bounded(ms.drop_last());
    }
}

/// Whether merging `ms` records a skip diagnostic for the sub-mesh at
/// position `i`, under that sub-mesh's name.
pub open spec fn skip_recorded(ms: Seq<SubMeshV>, i: int) -> bool {
    exists|k: int|
        0 <= k < build_spec(ms).skipped.len() && (#[trigger] build_spec(ms).skipped[k]).0 == i
            && build_spec(ms).skipped[k].1 == ms[i].name
}

/// A sub-mesh whose texture-coordinate count is not divisible by 2 is
/// skipped with a diagnostic, and loading continues: the merged vertices
/// and indices are exactly those of the file without that sub-mesh.
pub proof fn lemma_defective_submesh_skipped(ms: Seq<SubMeshV>, i: int)
    requires
        0 <= i < ms.len(),
        ms[i].texcoords.len() % 2 != 0,
    ensures
        skip_recorded(ms, i),
        build_spec(ms).vertices == build_spec(ms.remove(i)).vertices,
        build_spec(ms).indices == build_spec(ms.remove(i)).indices,
    decreases ms.len(),
{
    let p = ms.drop_last();
    let pb = build_spec(p);
    let base = pb.vertices.len() as int;
    if i == ms.len() - 1 {
        assert(defect_of(ms[i], base) matches Some(_));
        assert(ms.remove(i) =~= p);
        let k = pb.skipped.len() as int;
        assert(build_spec(ms).skipped[k].0 == i && build_spec(ms).skipped[k].1 == ms[i].name);
    } else {
        lemma_defective_submesh_skipped(p, i);
        let q = ms.remove(i);
        assert(q.drop_last() =~= p.remove(i));
        assert(q.last() == ms.last());
        let qb = build_spec(q.drop_last());
        assert(qb.vertices == pb.vertices && qb.indices == pb.indices);
        let kp = choose|k: int|
            0 <= k < pb.skipped.len() && (#[trigger] pb.skipped[k]).0 == i && pb.skipped[k].1
                == p[i].name;
        match defect_of(ms.last(), base) {
            Some(d) => {
                assert(build_spec(ms).skipped[kp] == pb.skipped[kp]);
                assert((build_spec(ms).skipped[kp]).0 == i);
            },
            None => {
                assert((build_spec(ms).skipped[kp]).0 == i);
            },
        }
    }
}

} // verus!
