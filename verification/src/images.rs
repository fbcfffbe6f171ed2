use vstd::prelude::*;

verus! {

/// Pixel layout of a decoded image: channels and bits per channel.
#[derive(Clone, Copy, Debug, PartialEq, Eq, Structural)]
pub enum ColorType {
    L8,
    La8,
    Rgb8,
    Rgba8,
    Bgr8,
    Bgra8,
    L16,
    La16,
    Rgb16,
    Rgba16,
}

/// Format of a device image.
#[derive(Clone, Copy, Debug, PartialEq, Eq, Structural)]
pub enum ImageFormat {
    R8Unorm,
    RG8Unorm,
    RGB8Unorm,
    RGBA8Unorm,
    BGR8Unorm,
    BGRA8Unorm,
    R16Unorm,
    RG16Unorm,
    RGB16Unorm,
    RGBA16Unorm,
}

/// The device format that holds pixels of a color type unchanged, as
/// normalized unsigned values.
pub open spec fn format_of(color: ColorType) -> ImageFormat {
    match color {
        ColorType::L8 => ImageFormat::R8Unorm,
        ColorType::La8 => ImageFormat::RG8Unorm,
        ColorType::Rgb8 => ImageFormat::RGB8Unorm,
        ColorType::Rgba8 => ImageFormat::RGBA8Unorm,
        ColorType::Bgr8 => ImageFormat::BGR8Unorm,
        ColorType::Bgra8 => ImageFormat::BGRA8Unorm,
        ColorType::L16 => ImageFormat::R16Unorm,
        ColorType::La16 => ImageFormat::RG16Unorm,
        ColorType::Rgb16 => ImageFormat::RGB16Unorm,
        ColorType::Rgba16 => ImageFormat::RGBA16Unorm,
    }
}

/// The device format for pixels of a color type.
pub fn image_format(color: ColorType) -> (r: ImageFormat)
    ensures
        r == format_of(color),
{
    match color {
        ColorType::L8 => ImageFormat::R8Unorm,
        ColorType::La8 => ImageFormat::RG8Unorm,
        ColorType::Rgb8 => ImageFormat::RGB8Unorm,
        ColorType::Rgba8 => ImageFormat::RGBA8Unorm,
        ColorType::Bgr8 => ImageFormat::BGR8Unorm,
        ColorType::Bgra8 => ImageFormat::BGRA8Unorm,
        ColorType::L16 => ImageFormat::R16Unorm,
        ColorType::La16 => ImageFormat::RG16Unorm,
        ColorType::Rgb16 => ImageFormat::RGB16Unorm,
        ColorType::Rgba16 => ImageFormat::RGBA16Unorm,
    }
}

/// The device image a decoded image is uploaded to: two-dimensional, of the
/// image's size and format, with one mip level, one array layer and one
/// sample, to be sampled by shaders.
#[derive(Clone, Copy, Debug, PartialEq, Eq, Structural)]
pub struct ImageDesc {
    pub width: u32,
    pub height: u32,
    pub format: ImageFormat,
    pub levels: u32,
    pub layers: u32,
    pub samples: u32,
    pub sampled: bool,
}

/// Describes the device image for a decoded image of the given size and
/// color type.
pub fn image_desc(width: u32, height: u32, color: ColorType) -> (r: ImageDesc)
    ensures
        r == (ImageDesc {
            width,
            height,
            format: format_of(color),
            levels: 1,
            layers: 1,
            samples: 1,
            sampled: true,
        }),
{
    ImageDesc { width, height, format: image_format(color), levels: 1, layers: 1, samples: 1, sampled: true }
}


/// Each pixel layout is kept: one, two, three or four channels, in the same
/// order, of eight or sixteen bits, as normalized values.
pub proof fn law_format_keeps_layout(color: ColorType)
    ensures
        format_of(color) == (match color {
            ColorType::L8 => ImageFormat::R8Unorm,
            ColorType::La8 => ImageFormat::RG8Unorm,
            ColorType::Rgb8 => ImageFormat::RGB8Unorm,
            ColorType::Rgba8 => ImageFormat::RGBA8Unorm,
            ColorType::Bgr8 => ImageFormat::BGR8Unorm,
            ColorType::Bgra8 => ImageFormat::BGRA8Unorm,
            ColorType::L16 => ImageFormat::R16Unorm,
            ColorType::La16 => ImageFormat::RG16Unorm,
            ColorType::Rgb16 => ImageFormat::RGB16Unorm,
            ColorType::Rgba16 => ImageFormat::RGBA16Unorm,
        }),
        forall|other: ColorType| format_of(other) == format_of(color) ==> other == color,
{
}

} // verus!
