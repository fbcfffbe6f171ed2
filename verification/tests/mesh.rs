use wilds::gltf::PrimitiveTopology;
use wilds::mesh::{mesh_counts, topology_is_triangles, topology_triangles, BindingExtent, IndexType, IndicesExtent, MeshCounts};
use wilds::pipeline::{entry_is_main, entry_main};

#[test]
fn mesh_counts_take_least_vertex_count() {
    let bindings = [
        BindingExtent { data_len: 120, stride: 12 },
        BindingExtent { data_len: 100, stride: 16 },
    ];
    assert_eq!(mesh_counts(&bindings, None), Ok(MeshCounts { count: 6, vertex_count: 6 }));
}

#[test]
fn mesh_counts_with_indices() {
    let bindings = [BindingExtent { data_len: 48, stride: 12 }];
    let indices = IndicesExtent { data_len: 36, index_type: IndexType::U16 };
    assert_eq!(mesh_counts(&bindings, Some(indices)), Ok(MeshCounts { count: 18, vertex_count: 4 }));
    let indices = IndicesExtent { data_len: 36, index_type: IndexType::U32 };
    assert_eq!(mesh_counts(&bindings, Some(indices)), Ok(MeshCounts { count: 9, vertex_count: 4 }));
}

#[test]
fn mesh_counts_without_bindings() {
    assert_eq!(mesh_counts(&[], None), Ok(MeshCounts { count: u32::MAX, vertex_count: u32::MAX }));
}

#[test]
fn mesh_counts_too_many_is_out_of_memory() {
    if usize::BITS >= 64 {
        let bindings = [BindingExtent { data_len: 1usize << 40, stride: 1 }];
        assert!(mesh_counts(&bindings, None).is_err());
    }
}

#[test]
fn mesh_topology_default_is_triangles() {
    assert_eq!(topology_triangles(), PrimitiveTopology::TriangleList);
    assert!(topology_is_triangles(&PrimitiveTopology::TriangleList));
    assert!(!topology_is_triangles(&PrimitiveTopology::LineList));
    assert_eq!(IndexType::U16.size(), 2);
    assert_eq!(IndexType::U32.size(), 4);
}

#[test]
fn pipeline_entry_main() {
    assert_eq!(entry_main(), "main");
    assert!(entry_is_main("main"));
    assert!(!entry_is_main("mainly"));
    assert!(!entry_is_main(""));
}

use wilds::mesh::{Mesh, MeshBuilder};
use wilds::vertex::{VertexInputRate, VertexLayout};

#[test]
fn mesh_builder_collects_buffers() {
    let layout = VertexLayout::<u8> { locations: vec![], stride: 12, rate: VertexInputRate::Vertex };
    let mut builder: MeshBuilder<&str, u8> = Mesh::builder();
    builder.add_binding("positions", 0, layout.clone()).add_binding("normals", 16, layout.clone());
    let mesh = builder.with_indices("indices", 8, IndexType::U16).build(36, 24);
    assert_eq!(mesh.count(), 36);
    assert_eq!(mesh.vertex_count(), 24);
    assert_eq!(mesh.topology(), PrimitiveTopology::TriangleList);
    assert_eq!(mesh.bindings().len(), 2);
    assert_eq!(mesh.bindings()[1].buffer, "normals");
    assert_eq!(mesh.bindings()[1].offset, 16);
    let indices = mesh.indices().unwrap();
    assert_eq!((indices.buffer, indices.offset, indices.index_type), ("indices", 8, IndexType::U16));
    let lines: Mesh<&str, u8> = MeshBuilder::with_topology(PrimitiveTopology::LineList).build(2, 2);
    assert!(lines.indices().is_none());
    assert_eq!(lines.topology(), PrimitiveTopology::LineList);
}

fn layout(stride: u32) -> wilds::vertex::VertexLayout<u8> {
    wilds::vertex::VertexLayout {
        locations: vec![wilds::vertex::VertexLocation { format: 1u8, offset: 0 }],
        stride,
        rate: wilds::vertex::VertexInputRate::Vertex,
    }
}

#[test]
fn mesh_from_data_keeps_order_and_offsets() {
    use_mesh_from_data();
}

fn use_mesh_from_data() {
    let bindings = vec![
        wilds::mesh::BindingData { buffer: "positions", layout: layout(12), data_len: 120 },
        wilds::mesh::BindingData { buffer: "colors", layout: layout(16), data_len: 96 },
    ];
    let indices = wilds::mesh::IndicesData { buffer: "indices", index_type: IndexType::U16, data_len: 30 };
    let mesh = wilds::mesh::mesh_from_data(bindings, Some(indices), PrimitiveTopology::LineList).unwrap();
    assert_eq!(mesh.vertex_count(), 6);
    assert_eq!(mesh.count(), 15);
    assert_eq!(mesh.topology(), PrimitiveTopology::LineList);
    let b = mesh.bindings();
    assert_eq!((b[0].buffer, b[0].offset, b[0].layout.stride), ("positions", 0, 12));
    assert_eq!((b[1].buffer, b[1].offset, b[1].layout.stride), ("colors", 0, 16));
    let ix = mesh.indices().unwrap();
    assert_eq!((ix.buffer, ix.offset, ix.index_type), ("indices", 0, IndexType::U16));
    let none = wilds::mesh::mesh_from_data::<&str, u8>(Vec::new(), None, PrimitiveTopology::TriangleList).unwrap();
    assert_eq!(none.count(), u32::MAX);
    assert!(none.indices().is_none());
}

#[test]
fn terrain_mesh_is_a_triangle_list() {
    let counts = wilds::terrain::terrain_counts(3, 2).unwrap();
    let mesh = wilds::terrain::terrain_mesh("buffer", "buffer", layout(48), 288, counts);
    assert_eq!(mesh.topology(), PrimitiveTopology::TriangleList);
    assert_eq!(mesh.count(), 12);
    assert_eq!(mesh.vertex_count(), 6);
    assert_eq!(mesh.bindings().len(), 1);
    assert_eq!(mesh.bindings()[0].offset, 0);
    let ix = mesh.indices().unwrap();
    assert_eq!((ix.offset, ix.index_type), (288, IndexType::U32));
}
