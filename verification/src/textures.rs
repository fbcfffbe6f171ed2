use crate::gltf::{GltfLoadingError, ViewDesc};
use vstd::prelude::*;

verus! {

/// Magnification filter a glTF sampler asks for.
#[derive(Clone, Copy, Debug, PartialEq, Eq, Structural)]
pub enum MagFilter {
    Nearest,
    Linear,
}

/// Minification filter a glTF sampler asks for.
#[derive(Clone, Copy, Debug, PartialEq, Eq, Structural)]
pub enum MinFilter {
    Nearest,
    Linear,
    NearestMipmapNearest,
    LinearMipmapNearest,
    NearestMipmapLinear,
    LinearMipmapLinear,
}

/// Wrapping of texture coordinates a glTF sampler asks for.
#[derive(Clone, Copy, Debug, PartialEq, Eq, Structural)]
pub enum WrappingMode {
    ClampToEdge,
    MirroredRepeat,
    Repeat,
}

/// A glTF sampler, as far as loading reads it.
#[derive(Clone, Copy, Debug, PartialEq, Eq, Structural)]
pub struct SamplerDesc {
    pub mag_filter: Option<MagFilter>,
    pub min_filter: Option<MinFilter>,
    pub wrap_s: WrappingMode,
    pub wrap_t: WrappingMode,
}

/// Texel filter of a device sampler.
#[derive(Clone, Copy, Debug, PartialEq, Eq, Structural)]
pub enum Filter {
    Nearest,
    Linear,
}

/// Filter between mipmap levels of a device sampler.
#[derive(Clone, Copy, Debug, PartialEq, Eq, Structural)]
pub enum MipmapMode {
    Nearest,
    Linear,
}

/// Addressing of coordinates outside the texture by a device sampler.
#[derive(Clone, Copy, Debug, PartialEq, Eq, Structural)]
pub enum SamplerAddressMode {
    Repeat,
    MirroredRepeat,
    ClampToEdge,
    ClampToBorder,
    MirrorClampToEdge,
}

/// The filters and address modes of a device sampler. The level-of-detail
/// range, bias and border colour are fixed by the caller.
#[derive(Clone, Copy, Debug, PartialEq, Eq, Structural)]
pub struct SamplerSettings {
    pub mag_filter: Filter,
    pub min_filter: Filter,
    pub mipmap_mode: MipmapMode,
    pub address_mode_u: SamplerAddressMode,
    pub address_mode_v: SamplerAddressMode,
    pub address_mode_w: SamplerAddressMode,
}

/// Magnification is linear only where the sampler asks for it.
pub open spec fn mag_filter_of(f: Option<MagFilter>) -> Filter {
    match f {
        Some(MagFilter::Linear) => Filter::Linear,
        _ => Filter::Nearest,
    }
}

/// Minification is nearest when unset or when the texels are picked nearest,
/// whatever the mipmap filter.
pub open spec fn min_filter_of(f: Option<MinFilter>) -> Filter {
    match f {
        None | Some(MinFilter::Nearest) | Some(MinFilter::NearestMipmapNearest) | Some(MinFilter::NearestMipmapLinear) => Filter::Nearest,
        _ => Filter::Linear,
    }
}

/// Mipmap levels are blended only for the two `MipmapLinear` filters.
pub open spec fn mipmap_mode_of(f: Option<MinFilter>) -> MipmapMode {
    match f {
        Some(MinFilter::NearestMipmapLinear) | Some(MinFilter::LinearMipmapLinear) => MipmapMode::Linear,
        _ => MipmapMode::Nearest,
    }
}

/// Each glTF wrapping mode has the device address mode of the same name.
pub open spec fn address_mode_of(w: WrappingMode) -> SamplerAddressMode {
    match w {
        WrappingMode::ClampToEdge => SamplerAddressMode::ClampToEdge,
        WrappingMode::MirroredRepeat => SamplerAddressMode::MirroredRepeat,
        WrappingMode::Repeat => SamplerAddressMode::Repeat,
    }
}

/// How a glTF sampler's settings carry over: magnification is linear exactly
/// for a linear magnification filter; minification is linear exactly for the
/// three filters that pick texels linearly; mipmap levels are blended exactly
/// for the two `MipmapLinear` filters; each wrapping mode keeps its name.
pub proof fn law_sampler_filters(desc: SamplerDesc)
    ensures
        (mag_filter_of(desc.mag_filter) == Filter::Linear) <==> desc.mag_filter == Some(MagFilter::Linear),
        (mag_filter_of(desc.mag_filter) == Filter::Nearest) <==> desc.mag_filter != Some(MagFilter::Linear),
        (min_filter_of(desc.min_filter) == Filter::Linear) <==> (desc.min_filter == Some(MinFilter::Linear)
            || desc.min_filter == Some(MinFilter::LinearMipmapNearest) || desc.min_filter == Some(MinFilter::LinearMipmapLinear)),
        (min_filter_of(desc.min_filter) == Filter::Nearest) <==> !(desc.min_filter == Some(MinFilter::Linear)
            || desc.min_filter == Some(MinFilter::LinearMipmapNearest) || desc.min_filter == Some(MinFilter::LinearMipmapLinear)),
        (mipmap_mode_of(desc.min_filter) == MipmapMode::Linear) <==> (desc.min_filter == Some(MinFilter::NearestMipmapLinear)
            || desc.min_filter == Some(MinFilter::LinearMipmapLinear)),
        (mipmap_mode_of(desc.min_filter) == MipmapMode::Nearest) <==> !(desc.min_filter == Some(MinFilter::NearestMipmapLinear)
            || desc.min_filter == Some(MinFilter::LinearMipmapLinear)),
        (address_mode_of(desc.wrap_s) == SamplerAddressMode::ClampToEdge) <==> desc.wrap_s == WrappingMode::ClampToEdge,
        (address_mode_of(desc.wrap_s) == SamplerAddressMode::MirroredRepeat) <==> desc.wrap_s == WrappingMode::MirroredRepeat,
        (address_mode_of(desc.wrap_s) == SamplerAddressMode::Repeat) <==> desc.wrap_s == WrappingMode::Repeat,
        (address_mode_of(desc.wrap_t) == SamplerAddressMode::ClampToEdge) <==> desc.wrap_t == WrappingMode::ClampToEdge,
        (address_mode_of(desc.wrap_t) == SamplerAddressMode::MirroredRepeat) <==> desc.wrap_t == WrappingMode::MirroredRepeat,
        (address_mode_of(desc.wrap_t) == SamplerAddressMode::Repeat) <==> desc.wrap_t == WrappingMode::Repeat,
{
}

fn address_mode(w: WrappingMode) -> (r: SamplerAddressMode)
    ensures
        r == address_mode_of(w),
{
    match w {
        WrappingMode::ClampToEdge => SamplerAddressMode::ClampToEdge,
        WrappingMode::MirroredRepeat => SamplerAddressMode::MirroredRepeat,
        WrappingMode::Repeat => SamplerAddressMode::Repeat,
    }
}

/// The device sampler settings for a glTF sampler; the third coordinate,
/// which glTF does not describe, repeats.
pub fn sampler_settings(desc: &SamplerDesc) -> (r: SamplerSettings)
    ensures
        r.mag_filter == mag_filter_of(desc.mag_filter),
        r.min_filter == min_filter_of(desc.min_filter),
        r.mipmap_mode == mipmap_mode_of(desc.min_filter),
        r.address_mode_u == address_mode_of(desc.wrap_s),
        r.address_mode_v == address_mode_of(desc.wrap_t),
        r.address_mode_w == SamplerAddressMode::Repeat,
        (r.mag_filter == Filter::Linear) <==> desc.mag_filter == Some(MagFilter::Linear),
        (r.min_filter == Filter::Linear) <==> (desc.min_filter == Some(MinFilter::Linear)
            || desc.min_filter == Some(MinFilter::LinearMipmapNearest) || desc.min_filter == Some(MinFilter::LinearMipmapLinear)),
        (r.mipmap_mode == MipmapMode::Linear) <==> (desc.min_filter == Some(MinFilter::NearestMipmapLinear)
            || desc.min_filter == Some(MinFilter::LinearMipmapLinear)),
{
    proof {
        law_sampler_filters(*desc);
    }
    let mag_filter = match desc.mag_filter {
        None | Some(MagFilter::Nearest) => Filter::Nearest,
        Some(MagFilter::Linear) => Filter::Linear,
    };
    let min_filter = match desc.min_filter {
        None | Some(MinFilter::Nearest) | Some(MinFilter::NearestMipmapNearest) | Some(MinFilter::NearestMipmapLinear) => Filter::Nearest,
        _ => Filter::Linear,
    };
    let mipmap_mode = match desc.min_filter {
        None | Some(MinFilter::Nearest) | Some(MinFilter::Linear) | Some(MinFilter::NearestMipmapNearest) | Some(MinFilter::LinearMipmapNearest) => MipmapMode::Nearest,
        _ => MipmapMode::Linear,
    };
    SamplerSettings {
        mag_filter,
        min_filter,
        mipmap_mode,
        address_mode_u: address_mode(desc.wrap_s),
        address_mode_v: address_mode(desc.wrap_t),
        address_mode_w: SamplerAddressMode::Repeat,
    }
}

/// The sampler a texture uses: the one it names, else the shared default.
/// `None` means the texture names none and no default has been made yet, so
/// the caller makes one and keeps it as the default.
pub fn texture_sampler<'a, S>(index: Option<usize>, samplers: &'a [S], default_sampler: Option<&'a S>) -> (r: Option<&'a S>)
    requires
        index matches Some(i) ==> i < samplers@.len(),
    ensures
        match index {
            Some(i) => r matches Some(s) && *s == samplers@[i as int],
            None => r == default_sampler,
        },
{
    match index {
        Some(i) => Some(&samplers[i]),
        None => default_sampler,
    }
}

/// The texture a material refers to by index: none where it names none, and
/// `MissingTexture` where the index is out of range.
pub fn material_texture<'a, T>(index: Option<usize>, textures: &'a [T]) -> (r: Result<Option<&'a T>, GltfLoadingError>)
    ensures
        match index {
            None => r matches Ok(None),
            Some(i) => if i < textures@.len() {
                r matches Ok(Some(t)) && *t == textures@[i as int]
            } else {
                r == Err::<Option<&T>, GltfLoadingError>(GltfLoadingError::MissingTexture)
            },
        },
{
    match index {
        None => Ok(None),
        Some(i) => if i < textures.len() {
            Ok(Some(&textures[i]))
        } else {
            Err(GltfLoadingError::MissingTexture)
        },
    }
}

/// The texture indices a glTF material names.
#[derive(Clone, Copy, Debug, PartialEq, Eq, Structural)]
pub struct MaterialTextureIndices {
    pub albedo: Option<usize>,
    pub metallic_roughness: Option<usize>,
    pub emissive: Option<usize>,
    pub normal: Option<usize>,
}

/// The textures of a material, looked up by index.
#[derive(Debug)]
pub struct MaterialTextures<'a, T> {
    pub albedo: Option<&'a T>,
    pub metallic_roughness: Option<&'a T>,
    pub emissive: Option<&'a T>,
    pub normal: Option<&'a T>,
}

/// An optional index names no texture, or one in range.
pub open spec fn texture_found(index: Option<usize>, len: int) -> bool {
    match index {
        Some(i) => i < len,
        None => true,
    }
}

/// `found` is the texture `index` names, if it names one.
pub open spec fn texture_is<T>(found: Option<&T>, index: Option<usize>, textures: Seq<T>) -> bool {
    match index {
        Some(i) => found matches Some(t) && *t == textures[i as int],
        None => found is None,
    }
}

/// Looks up the four textures of a material; fails with `MissingTexture`
/// exactly when one of its indices is out of range.
pub fn material_textures<'a, T>(indices: &MaterialTextureIndices, textures: &'a [T]) -> (r: Result<MaterialTextures<'a, T>, GltfLoadingError>)
    ensures
        match r {
            Ok(m) => {
                &&& texture_is(m.albedo, indices.albedo, textures@)
                &&& texture_is(m.metallic_roughness, indices.metallic_roughness, textures@)
                &&& texture_is(m.emissive, indices.emissive, textures@)
                &&& texture_is(m.normal, indices.normal, textures@)
            },
            Err(e) => e == GltfLoadingError::MissingTexture,
        },
        r is Ok <==> {
            &&& texture_found(indices.albedo, textures@.len() as int)
            &&& texture_found(indices.metallic_roughness, textures@.len() as int)
            &&& texture_found(indices.emissive, textures@.len() as int)
            &&& texture_found(indices.normal, textures@.len() as int)
        },
{
    let albedo = match material_texture(indices.albedo, textures) {
        Ok(t) => t,
        Err(e) => return Err(e),
    };
    let metallic_roughness = match material_texture(indices.metallic_roughness, textures) {
        Ok(t) => t,
        Err(e) => return Err(e),
    };
    let emissive = match material_texture(indices.emissive, textures) {
        Ok(t) => t,
        Err(e) => return Err(e),
    };
    let normal = match material_texture(indices.normal, textures) {
        Ok(t) => t,
        Err(e) => return Err(e),
    };
    Ok(MaterialTextures { albedo, metallic_roughness, emissive, normal })
}

/// The bytes of an image's buffer view, or the error that loading reports.
pub open spec fn view_bytes_spec(v: ViewDesc, source: Option<Seq<u8>>) -> Result<Seq<u8>, GltfLoadingError> {
    match source {
        None => Err(GltfLoadingError::MissingSource),
        Some(src) => if src.len() < v.offset + v.length {
            Err(GltfLoadingError::ViewOutOfBound)
        } else {
            Ok(src.subrange(v.offset as int, v.offset + v.length))
        },
    }
}

/// Checks an image's buffer view against the buffer it lies in and returns
/// its bytes.
pub fn view_bytes<'a>(v: &ViewDesc, source: Option<&'a [u8]>) -> (r: Result<&'a [u8], GltfLoadingError>)
    requires
        v.offset + v.length <= usize::MAX,
    ensures
        match (r, view_bytes_spec(*v, match source { Some(s) => Some(s@), None => None })) {
            (Ok(b), Ok(sb)) => b@ == sb,
            (Err(e), Err(se)) => e == se,
            _ => false,
        },
{
    let bytes = match source {
        None => return Err(GltfLoadingError::MissingSource),
        Some(b) => b,
    };
    if bytes.len() < v.offset + v.length {
        return Err(GltfLoadingError::ViewOutOfBound);
    }
    Ok(&bytes[v.offset..v.offset + v.length])
}

} // verus!
