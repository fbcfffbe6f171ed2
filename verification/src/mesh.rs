use crate::gltf::PrimitiveTopology;
use crate::sbt::OutOfMemory;
use crate::vertex::VertexLayout;
use vstd::prelude::*;

verus! {

/// Type of mesh indices.
#[derive(Clone, Copy, Debug, PartialEq, Eq, Structural, Hash)]
pub enum IndexType {
    U16,
    U32,
}

impl IndexType {
    /// Size of one index in bytes.
    pub fn size(&self) -> (r: u8)
        ensures
            r == (match *self {
                IndexType::U16 => 2u8,
                IndexType::U32 => 4u8,
            }),
    {
        match self {
            IndexType::U16 => 2,
            IndexType::U32 => 4,
        }
    }
}

/// Whether a topology is the default, triangle lists.
pub fn topology_is_triangles(topology: &PrimitiveTopology) -> (r: bool)
    ensures
        r == (*topology == PrimitiveTopology::TriangleList),
{
    *topology == PrimitiveTopology::TriangleList
}

/// The default topology: triangle lists.
pub fn topology_triangles() -> (r: PrimitiveTopology)
    ensures
        r == PrimitiveTopology::TriangleList,
{
    PrimitiveTopology::TriangleList
}

/// Size of the data of one vertex binding and the stride of its elements.
#[derive(Clone, Copy, Debug, PartialEq, Eq, Structural)]
pub struct BindingExtent {
    pub data_len: usize,
    pub stride: u32,
}

/// Size of the index data and the type of its indices.
#[derive(Clone, Copy, Debug, PartialEq, Eq, Structural)]
pub struct IndicesExtent {
    pub data_len: usize,
    pub index_type: IndexType,
}

pub open spec fn index_size(t: IndexType) -> int {
    match t {
        IndexType::U16 => 2,
        IndexType::U32 => 4,
    }
}

/// Whole elements a binding holds.
pub open spec fn element_count(b: BindingExtent) -> int {
    b.data_len as int / b.stride as int
}

/// Every binding's element count fits in `u32`.
pub open spec fn bindings_fit(bindings: Seq<BindingExtent>) -> bool {
    forall|i: int| 0 <= i < bindings.len() ==> #[trigger] element_count(bindings[i]) <= u32::MAX
}

/// The least element count over the bindings; `u32::MAX` when there are none.
pub open spec fn min_count(bindings: Seq<BindingExtent>) -> int
    decreases bindings.len(),
{
    if bindings.len() == 0 {
        u32::MAX as int
    } else {
        let rest = min_count(bindings.drop_last());
        let c = element_count(bindings.last());
        if c < rest { c } else { rest }
    }
}

/// Counts of a mesh: how many elements to draw, and how many vertices every
/// binding can supply.
#[derive(Clone, Copy, Debug, PartialEq, Eq, Structural)]
pub struct MeshCounts {
    pub count: u32,
    pub vertex_count: u32,
}

/// Computes the counts of a mesh from the sizes of its data. The vertex count
/// is the least over the bindings; the draw count is the number of indices
/// where there are indices, else the vertex count. A count that does not fit
/// in `u32` is an out-of-memory error.
pub fn mesh_counts(bindings: &[BindingExtent], indices: Option<IndicesExtent>) -> (r: Result<MeshCounts, OutOfMemory>)
    requires
        forall|i: int| 0 <= i < bindings@.len() ==> #[trigger] bindings@[i].stride > 0,
    ensures
        match r {
            Ok(c) => {
                &&& bindings_fit(bindings@)
                &&& c.vertex_count == min_count(bindings@)
                &&& forall|i: int| 0 <= i < bindings@.len() ==> c.vertex_count <= #[trigger] element_count(bindings@[i])
                &&& bindings@.len() > 0 ==> exists|i: int| 0 <= i < bindings@.len() && c.vertex_count == #[trigger] element_count(bindings@[i])
                &&& bindings@.len() == 0 ==> c.vertex_count == u32::MAX
                &&& match indices {
                    None => c.count == c.vertex_count,
                    Some(ix) => ix.data_len as int / index_size(ix.index_type) <= u32::MAX
                        && c.count == ix.data_len as int / index_size(ix.index_type),
                }
            },
            Err(_) => !bindings_fit(bindings@) || match indices {
                None => false,
                Some(ix) => ix.data_len as int / index_size(ix.index_type) > u32::MAX,
            },
        },
{
    let mut min_vertex_count: u32 = u32::MAX;
    let mut i: usize = 0;
    while i < bindings.len()
        invariant
            i <= bindings@.len(),
            forall|j: int| 0 <= j < bindings@.len() ==> #[trigger] bindings@[j].stride > 0,
            bindings_fit(bindings@.subrange(0, i as int)),
            min_vertex_count == min_count(bindings@.subrange(0, i as int)),
        decreases bindings@.len() - i,
    {
        let b = bindings[i];
        let vertex_count: u64 = b.data_len as u64 / b.stride as u64;
        let ghost prefix = bindings@.subrange(0, i + 1);
        assert(prefix.drop_last() =~= bindings@.subrange(0, i as int));
        if vertex_count > u32::MAX as u64 {
            assert(!bindings_fit(bindings@)) by {
                assert(element_count(bindings@[i as int]) > u32::MAX);
            }
            return Err(OutOfMemory);
        }
        let vertex_count: u32 = vertex_count as u32;
        if vertex_count < min_vertex_count {
            min_vertex_count = vertex_count;
        }
        i = i + 1;
        assert(bindings_fit(prefix)) by {
            assert forall|j: int| 0 <= j < prefix.len() implies #[trigger] element_count(prefix[j]) <= u32::MAX by {
                if j < i - 1 {
                    assert(prefix[j] == bindings@.subrange(0, i - 1)[j]);
                }
            }
        }
    }
    assert(bindings@.subrange(0, bindings@.len() as int) =~= bindings@);
    let count: u32 = match indices {
        None => min_vertex_count,
        Some(ix) => {
            let index_count: u64 = ix.data_len as u64 / ix.index_type.size() as u64;
            if index_count > u32::MAX as u64 {
                return Err(OutOfMemory);
            }
            index_count as u32
        },
    };
    proof {
        law_min_count_is_least(bindings@);
    }
    Ok(MeshCounts { count, vertex_count: min_vertex_count })
}


/// A vertex buffer bound to a mesh: the buffer, the offset of the data in it,
/// and the layout of its elements.
#[derive(Clone, Debug)]
pub struct Binding<B, F> {
    pub buffer: B,
    pub offset: u64,
    pub layout: VertexLayout<F>,
}

/// The index buffer of a mesh.
#[derive(Clone, Debug)]
pub struct Indices<B> {
    pub buffer: B,
    pub offset: u64,
    pub index_type: IndexType,
}

/// Collects the buffers of a mesh.
#[derive(Debug)]
pub struct MeshBuilder<B, F> {
    pub bindings: Vec<Binding<B, F>>,
    pub indices: Option<Indices<B>>,
    pub topology: PrimitiveTopology,
}

impl<B, F> MeshBuilder<B, F> {
    /// A builder for a triangle list mesh.
    pub fn new() -> (r: Self)
        ensures
            r.bindings@.len() == 0,
            r.indices.is_none(),
            r.topology == PrimitiveTopology::TriangleList,
    {
        Self::with_topology(PrimitiveTopology::TriangleList)
    }

    pub fn with_topology(topology: PrimitiveTopology) -> (r: Self)
        ensures
            r.bindings@.len() == 0,
            r.indices.is_none(),
            r.topology == topology,
    {
        MeshBuilder { bindings: Vec::new(), indices: None, topology }
    }

    pub fn with_binding(self, buffer: B, offset: u64, layout: VertexLayout<F>) -> (r: Self)
        ensures
            r.bindings@ == self.bindings@.push(Binding { buffer, offset, layout }),
            r.indices == self.indices,
            r.topology == self.topology,
    {
        let mut this = self;
        this.add_binding(buffer, offset, layout);
        this
    }

    /// Appends a vertex buffer binding.
    pub fn add_binding(&mut self, buffer: B, offset: u64, layout: VertexLayout<F>) -> (r: &mut Self)
        ensures
            r.bindings@ == old(self).bindings@.push(Binding { buffer, offset, layout }),
            r.indices == old(self).indices,
            r.topology == old(self).topology,
            *final(self) == *final(r),
    {
        self.bindings.push(Binding { buffer, offset, layout });
        self
    }

    pub fn with_indices(self, buffer: B, offset: u64, index_type: IndexType) -> (r: Self)
        ensures
            r.bindings@ == self.bindings@,
            r.indices == Some(Indices { buffer, offset, index_type }),
            r.topology == self.topology,
    {
        let mut this = self;
        this.set_indices(buffer, offset, index_type);
        this
    }

    /// Sets the index buffer, replacing any earlier one.
    pub fn set_indices(&mut self, buffer: B, offset: u64, index_type: IndexType) -> (r: &mut Self)
        ensures
            r.bindings@ == old(self).bindings@,
            r.indices == Some(Indices { buffer, offset, index_type }),
            r.topology == old(self).topology,
            *final(self) == *final(r),
    {
        self.indices = Some(Indices { buffer, offset, index_type });
        self
    }

    /// Finishes the mesh with the given draw and vertex counts.
    pub fn build(self, count: u32, vertex_count: u32) -> (r: Mesh<B, F>)
        ensures
            r.bindings_spec() == self.bindings@,
            r.indices_spec() == self.indices,
            r.topology_spec() == self.topology,
            r.count_spec() == count,
            r.vertex_count_spec() == vertex_count,
    {
        Mesh {
            bindings: self.bindings,
            indices: self.indices,
            count,
            vertex_count,
            topology: self.topology,
        }
    }
}

/// A mesh: vertex buffer bindings, optional indices, topology and counts.
#[derive(Clone, Debug)]
pub struct Mesh<B, F> {
    bindings: Vec<Binding<B, F>>,
    indices: Option<Indices<B>>,
    count: u32,
    vertex_count: u32,
    topology: PrimitiveTopology,
}

impl<B, F> Mesh<B, F> {
    pub closed spec fn bindings_spec(&self) -> Seq<Binding<B, F>> {
        self.bindings@
    }

    pub closed spec fn indices_spec(&self) -> Option<Indices<B>> {
        self.indices
    }

    pub closed spec fn topology_spec(&self) -> PrimitiveTopology {
        self.topology
    }

    pub closed spec fn count_spec(&self) -> u32 {
        self.count
    }

    pub closed spec fn vertex_count_spec(&self) -> u32 {
        self.vertex_count
    }

    /// A builder for a triangle list mesh.
    pub fn builder() -> (r: MeshBuilder<B, F>)
        ensures
            r.bindings@.len() == 0,
            r.indices.is_none(),
            r.topology == PrimitiveTopology::TriangleList,
    {
        MeshBuilder::new()
    }

    pub fn count(&self) -> (r: u32)
        ensures
            r == self.count_spec(),
    {
        self.count
    }

    pub fn vertex_count(&self) -> (r: u32)
        ensures
            r == self.vertex_count_spec(),
    {
        self.vertex_count
    }

    pub fn topology(&self) -> (r: PrimitiveTopology)
        ensures
            r == self.topology_spec(),
    {
        self.topology
    }

    pub fn bindings(&self) -> (r: &[Binding<B, F>])
        ensures
            r@ == self.bindings_spec(),
    {
        self.bindings.as_slice()
    }

    pub fn indices(&self) -> (r: Option<&Indices<B>>)
        ensures
            r == (match self.indices_spec() {
                Some(i) => Some(&i),
                None => None,
            }),
    {
        match &self.indices {
            Some(i) => Some(i),
            None => None,
        }
    }
}


/// The data of one vertex binding, already uploaded to `buffer`: its layout
/// and its size in bytes.
#[derive(Debug)]
pub struct BindingData<B, F> {
    pub buffer: B,
    pub layout: VertexLayout<F>,
    pub data_len: usize,
}

/// Index data, already uploaded to `buffer`: the type of its indices and its
/// size in bytes.
#[derive(Debug)]
pub struct IndicesData<B> {
    pub buffer: B,
    pub index_type: IndexType,
    pub data_len: usize,
}

/// The extent of a binding's data: its size and its layout's stride.
pub open spec fn extent_of<B, F>(b: BindingData<B, F>) -> BindingExtent {
    BindingExtent { data_len: b.data_len, stride: b.layout.stride }
}

/// The extent of index data.
pub open spec fn indices_extent_of<B>(ix: Option<IndicesData<B>>) -> Option<IndicesExtent> {
    match ix {
        Some(i) => Some(IndicesExtent { data_len: i.data_len, index_type: i.index_type }),
        None => None,
    }
}

/// Builds a mesh from uploaded data: each binding reads its buffer from
/// offset 0 with its layout, in order; the indices read theirs from offset 0;
/// the counts are those `mesh_counts` computes, and an out-of-memory error
/// exactly where it gives one.
pub fn mesh_from_data<B, F>(bindings: Vec<BindingData<B, F>>, indices: Option<IndicesData<B>>, topology: PrimitiveTopology) -> (r: Result<Mesh<B, F>, OutOfMemory>)
    requires
        forall|i: int| 0 <= i < bindings@.len() ==> #[trigger] bindings@[i].layout.stride > 0,
    ensures
        ({
            let extents = bindings@.map_values(|b: BindingData<B, F>| extent_of(b));
            let count_fits = match indices {
                None => true,
                Some(ix) => ix.data_len as int / index_size(ix.index_type) <= u32::MAX,
            };
            match r {
                Ok(m) => {
                    &&& bindings_fit(extents) && count_fits
                    &&& m.bindings_spec().len() == bindings@.len()
                    &&& forall|i: int| 0 <= i < bindings@.len() ==> #[trigger] m.bindings_spec()[i] == (Binding {
                        buffer: bindings@[i].buffer,
                        offset: 0,
                        layout: bindings@[i].layout,
                    })
                    &&& m.indices_spec() == (match indices {
                        Some(ix) => Some(Indices { buffer: ix.buffer, offset: 0, index_type: ix.index_type }),
                        None => None,
                    })
                    &&& m.topology_spec() == topology
                    &&& m.vertex_count_spec() == min_count(extents)
                    &&& m.count_spec() == (match indices {
                        Some(ix) => (ix.data_len as int / index_size(ix.index_type)) as u32,
                        None => m.vertex_count_spec(),
                    })
                },
                Err(_) => !(bindings_fit(extents) && count_fits),
            }
        }),
{
    let ghost original = bindings@;
    let ghost extents_spec = bindings@.map_values(|b: BindingData<B, F>| extent_of(b));
    let mut extents: Vec<BindingExtent> = Vec::new();
    let mut i: usize = 0;
    while i < bindings.len()
        invariant
            i <= bindings@.len(),
            extents@ == extents_spec.subrange(0, i as int),
            extents_spec == bindings@.map_values(|b: BindingData<B, F>| extent_of(b)),
        decreases bindings@.len() - i,
    {
        extents.push(BindingExtent { data_len: bindings[i].data_len, stride: bindings[i].layout.stride });
        i = i + 1;
        assert(extents@ =~= extents_spec.subrange(0, i as int));
    }
    assert(extents@ =~= extents_spec);
    let index_extent = match &indices {
        Some(ix) => Some(IndicesExtent { data_len: ix.data_len, index_type: ix.index_type }),
        None => None,
    };
    let counts = match mesh_counts(extents.as_slice(), index_extent) {
        Ok(c) => c,
        Err(e) => return Err(e),
    };
    let mut builder: MeshBuilder<B, F> = MeshBuilder::with_topology(topology);
    let mut rest = bindings;
    while rest.len() > 0
        invariant
            rest@ == original.subrange(builder.bindings@.len() as int, original.len() as int),
            builder.bindings@.len() <= original.len(),
            builder.indices.is_none(),
            builder.topology == topology,
            forall|k: int| 0 <= k < builder.bindings@.len() ==> #[trigger] builder.bindings@[k] == (Binding {
                buffer: original[k].buffer,
                offset: 0,
                layout: original[k].layout,
            }),
        decreases rest@.len(),
    {
        let b = rest.remove(0);
        let ghost n: int = builder.bindings@.len() as int;
        builder.add_binding(b.buffer, 0, b.layout);
        assert(rest@ =~= original.subrange(n + 1, original.len() as int));
    }
    let builder = match indices {
        Some(ix) => builder.with_indices(ix.buffer, 0, ix.index_type),
        None => builder,
    };
    Ok(builder.build(counts.count, counts.vertex_count))
}


/// The vertex count of a mesh is the least element count of its bindings: no
/// binding holds fewer elements, and some binding holds exactly that many;
/// without bindings it is `u32::MAX`.
pub proof fn law_min_count_is_least(bindings: Seq<BindingExtent>)
    requires
        bindings_fit(bindings),
    ensures
        forall|i: int| 0 <= i < bindings.len() ==> min_count(bindings) <= #[trigger] element_count(bindings[i]),
        bindings.len() > 0 ==> exists|i: int| 0 <= i < bindings.len() && min_count(bindings) == #[trigger] element_count(bindings[i]),
        bindings.len() == 0 ==> min_count(bindings) == u32::MAX,
    decreases bindings.len(),
{
    if bindings.len() > 0 {
        let rest = bindings.drop_last();
        assert(bindings_fit(rest)) by {
            assert forall|i: int| 0 <= i < rest.len() implies #[trigger] element_count(rest[i]) <= u32::MAX by {
                assert(rest[i] == bindings[i]);
            }
        }
        law_min_count_is_least(rest);
        let last = bindings.len() - 1;
        assert(element_count(bindings[last]) <= u32::MAX);
        assert forall|i: int| 0 <= i < bindings.len() implies min_count(bindings) <= #[trigger] element_count(bindings[i]) by {
            if i < last {
                assert(rest[i] == bindings[i]);
            }
        }
        if rest.len() == 0 {
            assert(min_count(bindings) == element_count(bindings[last]));
        } else {
            let j = choose|j: int| 0 <= j < rest.len() && min_count(rest) == #[trigger] element_count(rest[j]);
            assert(rest[j] == bindings[j]);
            if element_count(bindings[last]) < min_count(rest) {
                assert(min_count(bindings) == element_count(bindings[last]));
            } else {
                assert(min_count(bindings) == element_count(bindings[j]));
            }
        }
    }
}

} // verus!
