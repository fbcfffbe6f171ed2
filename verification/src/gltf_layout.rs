use crate::gltf::{mode_topology, primitive_counts, topology_from_mode, GltfLoadingError, Mode, PrimitiveTopology};
use crate::mesh::MeshCounts;
use std::ops::Range;
use vstd::prelude::*;

verus! {

/// A glTF mesh, as far as laying out the document reads it: the material
/// index of each of its primitives, `None` for the default material.
#[derive(Clone, Debug)]
pub struct MeshDesc {
    pub primitive_materials: Vec<Option<usize>>,
}

/// A glTF node: the indices of its children and of its mesh.
#[derive(Clone, Debug)]
pub struct NodeDesc {
    pub children: Vec<usize>,
    pub mesh: Option<usize>,
}

/// A glTF scene: the indices of its root nodes.
#[derive(Clone, Debug)]
pub struct SceneDesc {
    pub nodes: Vec<usize>,
}

/// The structure of a glTF document: meshes, nodes, scenes and the default
/// scene. Transforms and resources are handled elsewhere.
#[derive(Clone, Debug)]
pub struct DocumentDesc {
    pub meshes: Vec<MeshDesc>,
    pub nodes: Vec<NodeDesc>,
    pub scenes: Vec<SceneDesc>,
    pub default_scene: Option<usize>,
}

/// The material a primitive is drawn with.
#[derive(Clone, Copy, Debug, PartialEq, Eq, Structural)]
pub enum MaterialRef {
    /// The document's material of this index.
    Material(usize),
    /// The loader's default material.
    Default,
}

/// The mesh of a laid-out node: the range of its primitives among all the
/// document's primitives, and the material of each primitive.
#[derive(Debug)]
pub struct NodeMesh {
    pub primitives: Range<usize>,
    pub materials: Vec<MaterialRef>,
}

/// A laid-out node: its children and its mesh.
#[derive(Debug)]
pub struct LayoutNode {
    pub children: Vec<usize>,
    pub mesh: Option<NodeMesh>,
}

/// A glTF document laid out for drawing: all primitives of all meshes are
/// numbered in one sequence, mesh by mesh.
#[derive(Debug)]
pub struct GltfLayout {
    /// For each mesh, the range of its primitives.
    pub primitive_ranges: Vec<Range<usize>>,
    pub nodes: Vec<LayoutNode>,
    /// For each scene, its root nodes.
    pub scenes: Vec<Vec<usize>>,
    /// The scene to show.
    pub scene: Option<usize>,
}

/// Number of primitives of the first `j` meshes.
pub open spec fn primitive_offset(meshes: Seq<MeshDesc>, j: int) -> int
    decreases j,
{
    if j <= 0 {
        0
    } else {
        primitive_offset(meshes, j - 1) + meshes[j - 1].primitive_materials@.len()
    }
}

/// The material a primitive with this material index is drawn with.
pub open spec fn material_ref(index: Option<usize>) -> MaterialRef {
    match index {
        Some(i) => MaterialRef::Material(i),
        None => MaterialRef::Default,
    }
}

/// Every node's mesh is one of the document's meshes.
pub open spec fn node_meshes_exist(doc: DocumentDesc) -> bool {
    forall|n: int| 0 <= n < doc.nodes@.len() ==>
        (#[trigger] doc.nodes@[n].mesh matches Some(m) ==> m < doc.meshes@.len())
}

/// `node` is the layout of the document's node `n`, given the primitive
/// ranges of the meshes.
pub open spec fn node_laid_out(doc: DocumentDesc, ranges: Seq<Range<usize>>, n: int, node: LayoutNode) -> bool {
    &&& node.children@ == doc.nodes@[n].children@
    &&& match doc.nodes@[n].mesh {
        None => node.mesh is None,
        Some(m) => node.mesh matches Some(nm) && {
            &&& nm.primitives == ranges[m as int]
            &&& nm.materials@.len() == doc.meshes@[m as int].primitive_materials@.len()
            &&& forall|k: int| 0 <= k < nm.materials@.len() ==>
                #[trigger] nm.materials@[k] == material_ref(doc.meshes@[m as int].primitive_materials@[k])
        },
    }
}

proof fn lemma_offset_mono(meshes: Seq<MeshDesc>, i: int, j: int)
    requires
        0 <= i <= j <= meshes.len(),
    ensures
        primitive_offset(meshes, i) <= primitive_offset(meshes, j),
    decreases j - i,
{
    if i < j {
        lemma_offset_mono(meshes, i, j - 1);
    }
}

fn copy_indices(v: &Vec<usize>) -> (r: Vec<usize>)
    ensures
        r@ == v@,
{
    let mut r: Vec<usize> = Vec::new();
    let mut i: usize = 0;
    while i < v.len()
        invariant
            i <= v@.len(),
            r@ == v@.subrange(0, i as int),
        decreases v@.len() - i,
    {
        r.push(v[i]);
        i = i + 1;
        assert(r@ =~= v@.subrange(0, i as int));
    }
    assert(v@.subrange(0, v@.len() as int) =~= v@);
    r
}

fn materials_of(mesh: &MeshDesc) -> (r: Vec<MaterialRef>)
    ensures
        r@.len() == mesh.primitive_materials@.len(),
        forall|k: int| 0 <= k < r@.len() ==> #[trigger] r@[k] == material_ref(mesh.primitive_materials@[k]),
{
    let mut r: Vec<MaterialRef> = Vec::new();
    let mut k: usize = 0;
    while k < mesh.primitive_materials.len()
        invariant
            k <= mesh.primitive_materials@.len(),
            r@.len() == k,
            forall|i: int| 0 <= i < k ==> #[trigger] r@[i] == material_ref(mesh.primitive_materials@[i]),
        decreases mesh.primitive_materials@.len() - k,
    {
        let m = match mesh.primitive_materials[k] {
            Some(i) => MaterialRef::Material(i),
            None => MaterialRef::Default,
        };
        r.push(m);
        k = k + 1;
    }
    r
}

/// Lays out a glTF document: numbers the primitives of all meshes in one
/// sequence, mesh by mesh, gives each node its children and, where it has a
/// mesh, that mesh's primitive range and per-primitive materials, and keeps
/// the scenes' root nodes and the default scene.
pub fn gltf_layout(doc: &DocumentDesc) -> (r: GltfLayout)
    requires
        primitive_offset(doc.meshes@, doc.meshes@.len() as int) <= usize::MAX,
        node_meshes_exist(*doc),
    ensures
        r.primitive_ranges@.len() == doc.meshes@.len(),
        forall|j: int| 0 <= j < doc.meshes@.len() ==> {
            &&& (#[trigger] r.primitive_ranges@[j]).start == primitive_offset(doc.meshes@, j)
            &&& r.primitive_ranges@[j].end == primitive_offset(doc.meshes@, j) + doc.meshes@[j].primitive_materials@.len()
        },
        r.nodes@.len() == doc.nodes@.len(),
        forall|n: int| 0 <= n < doc.nodes@.len() ==> node_laid_out(*doc, r.primitive_ranges@, n, #[trigger] r.nodes@[n]),
        r.scenes@.len() == doc.scenes@.len(),
        forall|s: int| 0 <= s < doc.scenes@.len() ==> (#[trigger] r.scenes@[s])@ == doc.scenes@[s].nodes@,
        r.scene == doc.default_scene,
{
    let mut ranges: Vec<Range<usize>> = Vec::new();
    let mut offset: usize = 0;
    let mut j: usize = 0;
    while j < doc.meshes.len()
        invariant
            j <= doc.meshes@.len(),
            primitive_offset(doc.meshes@, doc.meshes@.len() as int) <= usize::MAX,
            offset == primitive_offset(doc.meshes@, j as int),
            ranges@.len() == j,
            forall|i: int| 0 <= i < j ==> {
                &&& (#[trigger] ranges@[i]).start == primitive_offset(doc.meshes@, i)
                &&& ranges@[i].end == primitive_offset(doc.meshes@, i) + doc.meshes@[i].primitive_materials@.len()
            },
        decreases doc.meshes@.len() - j,
    {
        proof {
            lemma_offset_mono(doc.meshes@, j + 1, doc.meshes@.len() as int);
        }
        let size: usize = doc.meshes[j].primitive_materials.len();
        let end: usize = offset + size;
        ranges.push(Range { start: offset, end });
        offset = end;
        j = j + 1;
    }

    let mut nodes: Vec<LayoutNode> = Vec::new();
    let mut n: usize = 0;
    while n < doc.nodes.len()
        invariant
            n <= doc.nodes@.len(),
            node_meshes_exist(*doc),
            ranges@.len() == doc.meshes@.len(),
            nodes@.len() == n,
            forall|i: int| 0 <= i < n ==> node_laid_out(*doc, ranges@, i, #[trigger] nodes@[i]),
        decreases doc.nodes@.len() - n,
    {
        let node = &doc.nodes[n];
        let children = copy_indices(&node.children);
        let mesh = match node.mesh {
            None => None,
            Some(m) => {
                assert(doc.nodes@[n as int].mesh matches Some(mm) ==> mm < doc.meshes@.len());
                let range = &ranges[m];
                Some(NodeMesh { primitives: Range { start: range.start, end: range.end }, materials: materials_of(&doc.meshes[m]) })
            },
        };
        let laid = LayoutNode { children, mesh };
        assert(node_laid_out(*doc, ranges@, n as int, laid));
        nodes.push(laid);
        n = n + 1;
    }

    let mut scenes: Vec<Vec<usize>> = Vec::new();
    let mut s: usize = 0;
    while s < doc.scenes.len()
        invariant
            s <= doc.scenes@.len(),
            scenes@.len() == s,
            forall|i: int| 0 <= i < s ==> (#[trigger] scenes@[i])@ == doc.scenes@[i].nodes@,
        decreases doc.scenes@.len() - s,
    {
        scenes.push(copy_indices(&doc.scenes[s].nodes));
        s = s + 1;
    }

    GltfLayout { primitive_ranges: ranges, nodes, scenes, scene: doc.default_scene }
}


/// What loading one primitive's data found: its vertex count, its index
/// count where it has indices, and its mode.
#[derive(Clone, Copy, Debug, PartialEq, Eq, Structural)]
pub struct PrimitiveLoad {
    pub vertex_count: usize,
    pub index_count: Option<usize>,
    pub mode: Mode,
}

/// The mesh one primitive is drawn as: its counts and topology.
#[derive(Clone, Copy, Debug, PartialEq, Eq, Structural)]
pub struct PrimitiveMesh {
    pub counts: MeshCounts,
    pub topology: PrimitiveTopology,
}

/// The mesh of a loaded primitive: drawn with its index count where it has
/// indices, else its vertex count; a count over `u32` is an out-of-memory
/// error, and a line loop is refused.
pub open spec fn primitive_mesh_spec(p: PrimitiveLoad) -> Result<PrimitiveMesh, GltfLoadingError> {
    let count = match p.index_count {
        Some(n) => n,
        None => p.vertex_count,
    };
    if count > u32::MAX || p.vertex_count > u32::MAX {
        Err(GltfLoadingError::OutOfMemory)
    } else {
        match mode_topology(p.mode) {
            Err(e) => Err(e),
            Ok(topology) => Ok(PrimitiveMesh {
                counts: MeshCounts { count: count as u32, vertex_count: p.vertex_count as u32 },
                topology,
            }),
        }
    }
}

/// The mesh of one loaded primitive.
pub fn primitive_mesh(p: &PrimitiveLoad) -> (r: Result<PrimitiveMesh, GltfLoadingError>)
    ensures
        r == primitive_mesh_spec(*p),
{
    let counts = match primitive_counts(p.vertex_count, p.index_count) {
        Ok(c) => c,
        Err(e) => return Err(e),
    };
    let topology = match topology_from_mode(p.mode) {
        Ok(t) => t,
        Err(e) => return Err(e),
    };
    Ok(PrimitiveMesh { counts, topology })
}

/// Builds one mesh per primitive of the document, in the order of the
/// primitive ranges, from what loading each primitive found: so there are as
/// many meshes as primitives. The first primitive that fails decides the error.
pub fn primitive_meshes(doc: &DocumentDesc, loaded: &[PrimitiveLoad]) -> (r: Result<Vec<PrimitiveMesh>, GltfLoadingError>)
    requires
        loaded@.len() == primitive_offset(doc.meshes@, doc.meshes@.len() as int),
    ensures
        match r {
            Ok(meshes) => {
                &&& meshes@.len() == primitive_offset(doc.meshes@, doc.meshes@.len() as int)
                &&& forall|k: int| 0 <= k < loaded@.len() ==> primitive_mesh_spec(#[trigger] loaded@[k]) == Ok::<PrimitiveMesh, GltfLoadingError>(meshes@[k])
            },
            Err(e) => exists|k: int| 0 <= k < loaded@.len() && {
                &&& primitive_mesh_spec(#[trigger] loaded@[k]) == Err::<PrimitiveMesh, GltfLoadingError>(e)
                &&& forall|j: int| 0 <= j < k ==> (#[trigger] primitive_mesh_spec(loaded@[j])) is Ok
            },
        },
{
    let mut meshes: Vec<PrimitiveMesh> = Vec::new();
    let mut k: usize = 0;
    while k < loaded.len()
        invariant
            k <= loaded@.len(),
            meshes@.len() == k,
            forall|i: int| 0 <= i < k ==> primitive_mesh_spec(#[trigger] loaded@[i]) == Ok::<PrimitiveMesh, GltfLoadingError>(meshes@[i]),
        decreases loaded@.len() - k,
    {
        match primitive_mesh(&loaded[k]) {
            Ok(m) => meshes.push(m),
            Err(e) => {
                assert(forall|j: int| 0 <= j < k ==> (#[trigger] primitive_mesh_spec(loaded@[j])) is Ok);
                return Err(e);
            },
        }
        k = k + 1;
    }
    Ok(meshes)
}


/// The primitive ranges start at 0, follow each other without gap or
/// overlap, and each is as long as its mesh has primitives.
pub proof fn law_primitive_ranges_consecutive(meshes: Seq<MeshDesc>, j: int)
    requires
        0 <= j < meshes.len(),
    ensures
        primitive_offset(meshes, 0) == 0,
        primitive_offset(meshes, j + 1) == primitive_offset(meshes, j) + meshes[j].primitive_materials@.len(),
        primitive_offset(meshes, j) <= primitive_offset(meshes, j + 1),
{
}


/// A primitive is drawn with its index count where it has indices and with
/// its vertex count otherwise, over all its vertices; it fails exactly when a
/// count exceeds `u32` (out of memory) or it is a line loop.
pub proof fn law_primitive_mesh(p: PrimitiveLoad)
    ensures
        match primitive_mesh_spec(p) {
            Ok(m) => {
                &&& m.counts.vertex_count == p.vertex_count
                &&& m.counts.count == (match p.index_count { Some(n) => n, None => p.vertex_count })
                &&& p.mode != Mode::LineLoop
            },
            Err(e) => {
                let count = match p.index_count { Some(n) => n, None => p.vertex_count };
                if count > u32::MAX || p.vertex_count > u32::MAX {
                    e == GltfLoadingError::OutOfMemory
                } else {
                    p.mode == Mode::LineLoop && e == GltfLoadingError::UnsupportedTopology { unsupported: Mode::LineLoop }
                }
            },
        },
{
}

} // verus!
