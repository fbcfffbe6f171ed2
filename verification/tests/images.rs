use wilds::images::{image_desc, image_format, ColorType, ImageDesc, ImageFormat};

#[test]
fn images_formats_follow_color_types() {
    assert_eq!(image_format(ColorType::L8), ImageFormat::R8Unorm);
    assert_eq!(image_format(ColorType::La8), ImageFormat::RG8Unorm);
    assert_eq!(image_format(ColorType::Bgra8), ImageFormat::BGRA8Unorm);
    assert_eq!(image_format(ColorType::Rgb16), ImageFormat::RGB16Unorm);
    assert_eq!(image_format(ColorType::Rgba16), ImageFormat::RGBA16Unorm);
}

#[test]
fn images_desc_is_single_level_sampled() {
    assert_eq!(
        image_desc(640, 480, ColorType::Rgba8),
        ImageDesc {
            width: 640,
            height: 480,
            format: ImageFormat::RGBA8Unorm,
            levels: 1,
            layers: 1,
            samples: 1,
            sampled: true,
        }
    );
}
