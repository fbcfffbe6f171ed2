use wilds::descriptor::{
    descriptor_type_from_index, DescriptorPoolSize, DescriptorSetLayoutBinding, DescriptorSizes,
    DescriptorSizesBuilder, DescriptorType,
};

#[test]
fn descriptor_sizes_group_by_type_in_type_order() {
    let bindings = [
        DescriptorSetLayoutBinding { binding: 0, ty: DescriptorType::UniformBuffer, count: 2 },
        DescriptorSetLayoutBinding { binding: 1, ty: DescriptorType::Sampler, count: 1 },
        DescriptorSetLayoutBinding { binding: 2, ty: DescriptorType::UniformBuffer, count: 3 },
    ];
    let sizes = DescriptorSizes::from_bindings(&bindings);
    assert_eq!(
        sizes.as_slice(),
        &[
            DescriptorPoolSize { ty: DescriptorType::Sampler, descriptor_count: 1 },
            DescriptorPoolSize { ty: DescriptorType::UniformBuffer, descriptor_count: 5 },
        ]
    );
}

#[test]
fn descriptor_sizes_zero_builds_empty() {
    assert!(DescriptorSizesBuilder::zero().build().as_slice().is_empty());
}

#[test]
fn descriptor_builder_add_binding() {
    let mut builder = DescriptorSizesBuilder::zero();
    builder.add_binding(&DescriptorSetLayoutBinding {
        binding: 0,
        ty: DescriptorType::AccelerationStructure,
        count: 7,
    });
    assert_eq!(
        builder.build().as_slice(),
        &[DescriptorPoolSize { ty: DescriptorType::AccelerationStructure, descriptor_count: 7 }]
    );
}

#[test]
fn descriptor_type_indices_round_trip() {
    for i in 0..12 {
        assert_eq!(descriptor_type_from_index(i).index(), i);
    }
    assert_eq!(descriptor_type_from_index(4), DescriptorType::UniformTexelBuffer);
}

#[test]
fn descriptor_sizes_ignore_binding_order() {
    let a = DescriptorSetLayoutBinding { binding: 0, ty: DescriptorType::StorageImage, count: 4 };
    let b = DescriptorSetLayoutBinding { binding: 1, ty: DescriptorType::Sampler, count: 2 };
    let c = DescriptorSetLayoutBinding { binding: 2, ty: DescriptorType::StorageImage, count: 1 };
    let x = DescriptorSizes::from_bindings(&[a, b, c]);
    let y = DescriptorSizes::from_bindings(&[c, a, b]);
    assert_eq!(x.as_slice(), y.as_slice());
    assert!(x == y);
}

#[test]
fn descriptor_sizes_eq_compares_common_prefix() {
    let a = DescriptorSetLayoutBinding { binding: 0, ty: DescriptorType::Sampler, count: 1 };
    let b = DescriptorSetLayoutBinding { binding: 1, ty: DescriptorType::StorageImage, count: 1 };
    let short = DescriptorSizes::from_bindings(&[a]);
    let long = DescriptorSizes::from_bindings(&[a, b]);
    assert!(short == long);
    let other = DescriptorSizes::from_bindings(&[b]);
    assert!(short != other);
}
