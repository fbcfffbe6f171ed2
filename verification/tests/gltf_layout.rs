use wilds::gltf::{GltfLoadingError, Mode, PrimitiveTopology};
use wilds::gltf_layout::{gltf_layout, primitive_meshes, PrimitiveLoad, DocumentDesc, MaterialRef, MeshDesc, NodeDesc, SceneDesc};

fn document() -> DocumentDesc {
    DocumentDesc {
        meshes: vec![
            MeshDesc { primitive_materials: vec![Some(0), None] },
            MeshDesc { primitive_materials: vec![] },
            MeshDesc { primitive_materials: vec![Some(1), Some(0), None] },
        ],
        nodes: vec![
            NodeDesc { children: vec![1, 2], mesh: None },
            NodeDesc { children: vec![], mesh: Some(2) },
            NodeDesc { children: vec![], mesh: Some(0) },
        ],
        scenes: vec![SceneDesc { nodes: vec![0] }, SceneDesc { nodes: vec![] }],
        default_scene: Some(1),
    }
}

#[test]
fn gltf_layout_numbers_primitives_mesh_by_mesh() {
    let layout = gltf_layout(&document());
    assert_eq!(layout.primitive_ranges, vec![0..2, 2..2, 2..5]);
}

#[test]
fn gltf_layout_nodes_scenes_and_default() {
    let layout = gltf_layout(&document());
    assert_eq!(layout.nodes.len(), 3);
    assert_eq!(layout.nodes[0].children, vec![1, 2]);
    assert!(layout.nodes[0].mesh.is_none());
    let m = layout.nodes[1].mesh.as_ref().unwrap();
    assert_eq!(m.primitives, 2..5);
    assert_eq!(m.materials, vec![MaterialRef::Material(1), MaterialRef::Material(0), MaterialRef::Default]);
    let m = layout.nodes[2].mesh.as_ref().unwrap();
    assert_eq!(m.primitives, 0..2);
    assert_eq!(m.materials, vec![MaterialRef::Material(0), MaterialRef::Default]);
    assert_eq!(layout.scenes, vec![vec![0], vec![]]);
    assert_eq!(layout.scene, Some(1));
}

#[test]
fn gltf_primitive_meshes_one_per_primitive() {
    let doc = document();
    let load = |vertex_count, index_count, mode| PrimitiveLoad { vertex_count, index_count, mode };
    let loaded = vec![
        load(4, Some(6), Mode::Triangles),
        load(3, None, Mode::Lines),
        load(8, Some(12), Mode::TriangleStrip),
        load(2, None, Mode::Points),
        load(5, Some(5), Mode::TriangleFan),
    ];
    let meshes = primitive_meshes(&doc, &loaded).unwrap();
    assert_eq!(meshes.len(), 5);
    assert_eq!((meshes[0].counts.count, meshes[0].counts.vertex_count), (6, 4));
    assert_eq!(meshes[0].topology, PrimitiveTopology::TriangleList);
    assert_eq!((meshes[1].counts.count, meshes[1].counts.vertex_count), (3, 3));
    assert_eq!(meshes[1].topology, PrimitiveTopology::LineList);
    assert_eq!(meshes[4].topology, PrimitiveTopology::TriangleFan);
    let mut bad = loaded.clone();
    bad[3] = load(2, None, Mode::LineLoop);
    assert_eq!(
        primitive_meshes(&doc, &bad).unwrap_err(),
        GltfLoadingError::UnsupportedTopology { unsupported: Mode::LineLoop }
    );
}
