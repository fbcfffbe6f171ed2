use wilds::vertex::{
    vertex_layouts_for_pipeline, VertexInputAttribute, VertexInputBinding, VertexInputRate,
    VertexLayout, VertexLocation,
};

#[test]
fn vertex_layouts_number_locations_across_bindings() {
    let layouts = [
        VertexLayout {
            locations: vec![
                VertexLocation { format: 'a', offset: 0 },
                VertexLocation { format: 'b', offset: 12 },
            ],
            stride: 20,
            rate: VertexInputRate::Vertex,
        },
        VertexLayout {
            locations: vec![VertexLocation { format: 'c', offset: 0 }],
            stride: 64,
            rate: VertexInputRate::Instance,
        },
    ];
    let (bindings, attributes) = vertex_layouts_for_pipeline(&layouts);
    assert_eq!(
        bindings,
        vec![
            VertexInputBinding { stride: 20, rate: VertexInputRate::Vertex },
            VertexInputBinding { stride: 64, rate: VertexInputRate::Instance },
        ]
    );
    assert_eq!(
        attributes,
        vec![
            VertexInputAttribute { location: 0, format: 'a', offset: 0, binding: 0 },
            VertexInputAttribute { location: 1, format: 'b', offset: 12, binding: 0 },
            VertexInputAttribute { location: 2, format: 'c', offset: 0, binding: 1 },
        ]
    );
}
