use wilds::gltf::{
    accessor_bytes, align_vec, decode_gltf_sources, try_decode_gltf_sources, external_sources, external_uris, load_indices,
    load_joints_attribute, primitive_counts, DataSource, topology_from_mode, AccessorDesc, DataType,
    Dimensions, ExpectedDataTypes, GltfLoadingError, IndicesAux, Joints, Mode, PrimitiveTopology, ViewDesc,
};

fn accessor(data_type: DataType, count: usize, size: usize, stride: Option<usize>, length: usize) -> AccessorDesc {
    AccessorDesc {
        dimensions: Dimensions::Scalar,
        data_type,
        count,
        size,
        offset: 0,
        view: Some(ViewDesc { offset: 0, length, stride }),
    }
}

#[test]
fn gltf_align_vec_pads_with_fe() {
    let mut bytes = vec![1u8, 2, 3];
    align_vec(&mut bytes, 15);
    assert_eq!(bytes.len(), 16);
    assert_eq!(&bytes[..3], &[1, 2, 3]);
    assert!(bytes[3..].iter().all(|&b| b == 0xfe));
    let mut aligned = vec![0u8; 16];
    align_vec(&mut aligned, 15);
    assert_eq!(aligned.len(), 16);
    let mut empty = Vec::new();
    align_vec(&mut empty, 3);
    assert!(empty.is_empty());
}

#[test]
fn gltf_load_u16_indices_widens_to_u32() {
    let source = [1u8, 0, 2, 0, 0xff, 0xff];
    let mut out = vec![9u8];
    let r = load_indices(&accessor(DataType::U16, 3, 2, None, 6), Some(&source), true, &mut out);
    match r {
        Ok(IndicesAux::U32(range)) => assert_eq!(range, 1..13),
        other => panic!("unexpected {:?}", other),
    }
    assert_eq!(out, vec![9, 1, 0, 0, 0, 2, 0, 0, 0, 0xff, 0xff, 0, 0]);
}

#[test]
fn gltf_load_u16_indices_big_endian_host() {
    let source = [1u8, 0];
    let mut out = Vec::new();
    load_indices(&accessor(DataType::U16, 1, 2, None, 2), Some(&source), false, &mut out).unwrap();
    assert_eq!(out, vec![0, 0, 0, 1]);
}

#[test]
fn gltf_load_u32_indices_packed_and_strided_agree() {
    let packed = [1u8, 2, 3, 4, 5, 6, 7, 8];
    let mut fast = Vec::new();
    load_indices(&accessor(DataType::U32, 2, 4, None, 8), Some(&packed), true, &mut fast).unwrap();
    assert_eq!(fast, packed.to_vec());
    let strided = [1u8, 2, 3, 4, 0, 0, 5, 6, 7, 8];
    let mut slow = Vec::new();
    load_indices(&accessor(DataType::U32, 2, 4, Some(6), 10), Some(&strided), true, &mut slow).unwrap();
    assert_eq!(slow, fast);
}

#[test]
fn gltf_load_indices_errors() {
    let source = [0u8; 8];
    let mut out = Vec::new();
    let mut a = accessor(DataType::U16, 2, 2, None, 64);
    a.dimensions = Dimensions::Vec2;
    assert_eq!(
        load_indices(&a, Some(&source), true, &mut out).unwrap_err(),
        GltfLoadingError::UnexpectedDimensions { unexpected: Dimensions::Vec2, expected: Dimensions::Scalar }
    );
    let mut a = accessor(DataType::U16, 2, 2, None, 64);
    a.view = None;
    assert_eq!(load_indices(&a, Some(&source), true, &mut out).unwrap_err(), GltfLoadingError::SparseAccessorUnsupported);
    assert_eq!(
        load_indices(&accessor(DataType::U16, 2, 2, None, 64), None, true, &mut out).unwrap_err(),
        GltfLoadingError::MissingSource
    );
    assert_eq!(
        load_indices(&accessor(DataType::U16, 2, 2, None, 64), Some(&source), true, &mut out).unwrap_err(),
        GltfLoadingError::ViewOutOfBound
    );
    assert_eq!(
        load_indices(&accessor(DataType::U8, 2, 1, None, 64), Some(&[0u8; 64]), true, &mut out).unwrap_err(),
        GltfLoadingError::UnexpectedDataType { unexpected: DataType::U8, expected: ExpectedDataTypes::U16OrU32 }
    );
    assert!(out.is_empty());
}

#[test]
fn gltf_accessor_out_of_view() {
    let mut a = accessor(DataType::U32, 20, 4, None, 64);
    a.offset = 1;
    assert_eq!(accessor_bytes(&a, Some(&[0u8; 64])).unwrap_err(), GltfLoadingError::AccessorOutOfBound);
    let a = AccessorDesc {
        dimensions: Dimensions::Scalar,
        data_type: DataType::U8,
        count: 2,
        size: 1,
        offset: 1,
        view: Some(ViewDesc { offset: 2, length: 4, stride: Some(2) }),
    };
    let (bytes, stride) = accessor_bytes(&a, Some(&[0, 1, 2, 3, 4, 5, 6])).unwrap();
    assert_eq!(bytes, &[3, 4, 5]);
    assert_eq!(stride, 2);
}

#[test]
fn gltf_topology_from_mode() {
    assert_eq!(topology_from_mode(Mode::Triangles), Ok(PrimitiveTopology::TriangleList));
    assert_eq!(topology_from_mode(Mode::Points), Ok(PrimitiveTopology::PointList));
    assert_eq!(
        topology_from_mode(Mode::LineLoop),
        Err(GltfLoadingError::UnsupportedTopology { unsupported: Mode::LineLoop })
    );
}

#[test]
fn gltf_joints_from_bytes() {
    assert_eq!(Joints::from_bytes(DataType::U8, &[1, 2, 3, 4]), Some(Joints([1, 2, 3, 4])));
    assert_eq!(Joints::from_bytes(DataType::U8, &[1, 2, 3]), None);
    assert_eq!(
        Joints::from_bytes(DataType::U16, &[1, 0, 2, 0, 3, 0, 0, 1, 9]),
        Some(Joints([1, 2, 3, 256]))
    );
    assert_eq!(Joints::from_bytes(DataType::U16, &[1, 0]), None);
    let mut bytes = [0u8; 16];
    bytes[12] = 5;
    assert_eq!(Joints::from_bytes(DataType::U32, &bytes), Some(Joints([0, 0, 0, 5])));
}

#[test]
fn gltf_joints_iter() {
    let data = [1u8, 2, 3, 4, 5, 6, 7, 8, 9];
    let mut it = Joints::from_bytes_iter(DataType::U8, &data, 4).unwrap();
    assert_eq!(it.next(), Some(Joints([1, 2, 3, 4])));
    assert_eq!(it.next(), Some(Joints([5, 6, 7, 8])));
    assert_eq!(it.next(), None);
    assert_eq!(it.next(), None);
    assert_eq!(
        Joints::from_bytes_iter(DataType::F32, &data, 4).unwrap_err(),
        GltfLoadingError::UnexpectedDataType { unexpected: DataType::F32, expected: ExpectedDataTypes::U8OrU16 }
    );
}

fn joints_accessor(data_type: DataType, count: usize, stride: usize, length: usize) -> AccessorDesc {
    AccessorDesc {
        dimensions: Dimensions::Vec4,
        data_type,
        count,
        size: 4,
        offset: 0,
        view: Some(ViewDesc { offset: 0, length, stride: Some(stride) }),
    }
}

#[test]
fn gltf_load_joints_attribute_reads_u8_joints() {
    let source = [1u8, 2, 3, 4, 5, 6, 7, 8];
    let mut it = load_joints_attribute(&joints_accessor(DataType::U8, 2, 4, 8), Some(&source)).unwrap();
    assert_eq!(it.next(), Some(Joints([1, 2, 3, 4])));
    assert_eq!(it.next(), Some(Joints([5, 6, 7, 8])));
    assert_eq!(it.next(), None);
    // A `U8` element decodes from exactly four bytes: with padding between
    // elements none decodes.
    let padded = [1u8, 2, 3, 4, 0, 5, 6, 7, 8];
    let mut it = load_joints_attribute(&joints_accessor(DataType::U8, 2, 5, 9), Some(&padded)).unwrap();
    assert_eq!(it.next(), None);
}

#[test]
fn gltf_load_joints_attribute_errors() {
    let source = [0u8; 8];
    let mut scalar = joints_accessor(DataType::U8, 1, 4, 8);
    scalar.dimensions = Dimensions::Scalar;
    assert_eq!(
        load_joints_attribute(&scalar, Some(&source)).unwrap_err(),
        GltfLoadingError::UnexpectedDimensions { unexpected: Dimensions::Scalar, expected: Dimensions::Vec4 }
    );
    assert_eq!(
        load_joints_attribute(&joints_accessor(DataType::U32, 1, 16, 16), Some(&[0u8; 16])).unwrap_err(),
        GltfLoadingError::UnexpectedDataType { unexpected: DataType::U32, expected: ExpectedDataTypes::U8OrU16 }
    );
    assert_eq!(
        load_joints_attribute(&joints_accessor(DataType::U8, 3, 4, 8), Some(&source)).unwrap_err(),
        GltfLoadingError::AccessorOutOfBound
    );
    assert_eq!(
        load_joints_attribute(&joints_accessor(DataType::U8, 1, 4, 8), None).unwrap_err(),
        GltfLoadingError::MissingSource
    );
}

#[test]
fn gltf_external_uris_keep_order() {
    let sources = vec![
        DataSource::Uri("a.bin".to_string()),
        DataSource::Embedded,
        DataSource::Uri("b.bin".to_string()),
    ];
    assert_eq!(external_uris(&sources), vec!["a.bin".to_string(), "b.bin".to_string()]);
    assert!(external_uris(&[DataSource::Embedded]).is_empty());
}

#[test]
fn gltf_external_sources_need_a_scene() {
    let buffers = vec![DataSource::Uri("a.bin".to_string())];
    let images = vec![DataSource::Embedded, DataSource::Uri("t.png".to_string())];
    assert_eq!(external_sources(0, &buffers, &images), Err(GltfLoadingError::NoScenes));
    let found = external_sources(1, &buffers, &images).unwrap();
    assert_eq!(found.buffers, vec!["a.bin".to_string()]);
    assert_eq!(found.images, vec!["t.png".to_string()]);
}

#[test]
fn gltf_primitive_counts() {
    let c = primitive_counts(24, Some(36)).unwrap();
    assert_eq!((c.count, c.vertex_count), (36, 24));
    let c = primitive_counts(24, None).unwrap();
    assert_eq!((c.count, c.vertex_count), (24, 24));
    if usize::BITS > 32 {
        let big = u32::MAX as usize + 1;
        assert_eq!(primitive_counts(big, Some(3)), Err(GltfLoadingError::OutOfMemory));
        assert_eq!(primitive_counts(3, Some(big)), Err(GltfLoadingError::OutOfMemory));
    }
}

#[test]
fn gltf_decode_sources_from_bytes() {
    let json = br#"{"asset":{"version":"2.0"},"scenes":[{"nodes":[]}],"buffers":[{"byteLength":4,"uri":"a.bin"}],"images":[{"uri":"t.png"}]}"#;
    let found = decode_gltf_sources(json).unwrap();
    assert_eq!(found.buffers, vec!["a.bin".to_string()]);
    assert_eq!(found.images, vec!["t.png".to_string()]);
}

#[test]
fn gltf_decode_sources_errors() {
    let no_scenes = br#"{"asset":{"version":"2.0"}}"#;
    assert_eq!(decode_gltf_sources(no_scenes), Err(GltfLoadingError::NoScenes));
    assert_eq!(decode_gltf_sources(b"not a document"), Err(GltfLoadingError::GltfError));
}

#[test]
fn gltf_try_decode_refuses_images_without_source() {
    let no_source = br#"{"asset":{"version":"2.0"},"scenes":[{"nodes":[]}],"images":[{}]}"#;
    assert!(try_decode_gltf_sources(no_source).is_none());
    let no_scene = br#"{"asset":{"version":"2.0"},"images":[{}]}"#;
    assert_eq!(try_decode_gltf_sources(no_scene), Some(Err(GltfLoadingError::NoScenes)));
    let view = br#"{"asset":{"version":"2.0"},"scenes":[{"nodes":[]}],"buffers":[{"byteLength":8}],"bufferViews":[{"buffer":0,"byteLength":8}],"images":[{"bufferView":0,"mimeType":"image/png"},{"uri":"b.png"}]}"#;
    let found = try_decode_gltf_sources(view).unwrap().unwrap();
    assert!(found.buffers.is_empty());
    assert_eq!(found.images, vec!["b.png".to_string()]);
    let view_without_mime = br#"{"asset":{"version":"2.0"},"scenes":[{"nodes":[]}],"buffers":[{"byteLength":8}],"bufferViews":[{"buffer":0,"byteLength":8}],"images":[{"bufferView":0}]}"#;
    assert!(try_decode_gltf_sources(view_without_mime).is_none());
    assert_eq!(try_decode_gltf_sources(b"{"), Some(Err(GltfLoadingError::GltfError)));
}
