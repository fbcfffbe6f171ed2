use wilds::gltf::{GltfLoadingError, ViewDesc};
use wilds::textures::{
    material_texture, material_textures, sampler_settings, texture_sampler, view_bytes, Filter,
    MagFilter, MaterialTextureIndices, MinFilter, MipmapMode, SamplerAddressMode, SamplerDesc,
    WrappingMode,
};

#[test]
fn textures_default_sampler_is_nearest_and_repeats_w() {
    let s = sampler_settings(&SamplerDesc {
        mag_filter: None,
        min_filter: None,
        wrap_s: WrappingMode::ClampToEdge,
        wrap_t: WrappingMode::MirroredRepeat,
    });
    assert_eq!(s.mag_filter, Filter::Nearest);
    assert_eq!(s.min_filter, Filter::Nearest);
    assert_eq!(s.mipmap_mode, MipmapMode::Nearest);
    assert_eq!(s.address_mode_u, SamplerAddressMode::ClampToEdge);
    assert_eq!(s.address_mode_v, SamplerAddressMode::MirroredRepeat);
    assert_eq!(s.address_mode_w, SamplerAddressMode::Repeat);
}

#[test]
fn textures_min_filter_splits_into_filter_and_mipmap_mode() {
    let cases = [
        (MinFilter::Nearest, Filter::Nearest, MipmapMode::Nearest),
        (MinFilter::Linear, Filter::Linear, MipmapMode::Nearest),
        (MinFilter::NearestMipmapNearest, Filter::Nearest, MipmapMode::Nearest),
        (MinFilter::LinearMipmapNearest, Filter::Linear, MipmapMode::Nearest),
        (MinFilter::NearestMipmapLinear, Filter::Nearest, MipmapMode::Linear),
        (MinFilter::LinearMipmapLinear, Filter::Linear, MipmapMode::Linear),
    ];
    for (min, filter, mipmap) in cases {
        let s = sampler_settings(&SamplerDesc {
            mag_filter: Some(MagFilter::Linear),
            min_filter: Some(min),
            wrap_s: WrappingMode::Repeat,
            wrap_t: WrappingMode::Repeat,
        });
        assert_eq!(s.mag_filter, Filter::Linear);
        assert_eq!(s.min_filter, filter);
        assert_eq!(s.mipmap_mode, mipmap);
        assert_eq!(s.address_mode_u, SamplerAddressMode::Repeat);
    }
}

#[test]
fn textures_texture_sampler_prefers_named_then_default() {
    let samplers = ["a", "b"];
    let default = "d";
    assert_eq!(texture_sampler(Some(1), &samplers, Some(&default)), Some(&"b"));
    assert_eq!(texture_sampler(None, &samplers, Some(&default)), Some(&"d"));
    assert_eq!(texture_sampler(None, &samplers, None), None);
}

#[test]
fn textures_material_texture_lookup() {
    let textures = [10u32, 20, 30];
    assert_eq!(material_texture(None, &textures), Ok(None));
    assert_eq!(material_texture(Some(2), &textures), Ok(Some(&30)));
    assert_eq!(material_texture(Some(3), &textures), Err(GltfLoadingError::MissingTexture));
}

#[test]
fn textures_material_textures_fail_on_any_missing() {
    let textures = [10u32, 20];
    let ok = material_textures(
        &MaterialTextureIndices { albedo: Some(1), metallic_roughness: None, emissive: Some(0), normal: None },
        &textures,
    )
    .unwrap();
    assert_eq!(ok.albedo, Some(&20));
    assert_eq!(ok.metallic_roughness, None);
    assert_eq!(ok.emissive, Some(&10));
    assert_eq!(ok.normal, None);
    let missing = material_textures(
        &MaterialTextureIndices { albedo: None, metallic_roughness: None, emissive: None, normal: Some(2) },
        &textures,
    );
    assert_eq!(missing.unwrap_err(), GltfLoadingError::MissingTexture);
}

#[test]
fn textures_view_bytes_checks_source() {
    let source = [1u8, 2, 3, 4, 5];
    let view = ViewDesc { offset: 1, length: 3, stride: None };
    assert_eq!(view_bytes(&view, Some(&source)), Ok(&[2u8, 3, 4][..]));
    assert_eq!(view_bytes(&view, None), Err(GltfLoadingError::MissingSource));
    assert_eq!(
        view_bytes(&ViewDesc { offset: 3, length: 3, stride: None }, Some(&source)),
        Err(GltfLoadingError::ViewOutOfBound)
    );
}
