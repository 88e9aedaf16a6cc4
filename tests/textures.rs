use render_core::texture::{
    decode_texture, pixel_format, texture_from_decoded, DecodedImage, PixelFormat, SampleType,
    TextureCache, TextureKind,
};
use render_core::AssetError;

fn png_bytes(img: image::DynamicImage) -> Vec<u8> {
    let mut out = std::io::Cursor::new(Vec::new());
    img.write_to(&mut out, image::ImageOutputFormat::Png).unwrap();
    out.into_inner()
}

#[test]
fn pixel_format_follows_channel_count() {
    assert_eq!(pixel_format(1), Some(PixelFormat::Red));
    assert_eq!(pixel_format(2), Some(PixelFormat::Rg));
    assert_eq!(pixel_format(3), Some(PixelFormat::Rgb));
    assert_eq!(pixel_format(4), Some(PixelFormat::Rgba));
    assert_eq!(pixel_format(0), None);
    assert_eq!(pixel_format(5), None);
}

#[test]
fn decoded_rgb_image_becomes_rgb_texture() {
    let img = DecodedImage {
        width: 2,
        height: 1,
        channels: 3,
        bytes_per_pixel: 3,
        pixels: vec![1, 2, 3, 4, 5, 6],
    };
    let t = texture_from_decoded(img).unwrap();
    assert_eq!(t.width, 2);
    assert_eq!(t.height, 1);
    assert_eq!(t.format, PixelFormat::Rgb);
    assert_eq!(t.sample, SampleType::UnsignedByte);
    assert_eq!(t.pixels, vec![1, 2, 3, 4, 5, 6]);
}

#[test]
fn sixteen_bit_samples_become_unsigned_shorts() {
    let img = DecodedImage {
        width: 1,
        height: 1,
        channels: 3,
        bytes_per_pixel: 6,
        pixels: vec![0, 1, 2, 3, 4, 5],
    };
    let t = texture_from_decoded(img).unwrap();
    assert_eq!(t.format, PixelFormat::Rgb);
    assert_eq!(t.sample, SampleType::UnsignedShort);
    assert_eq!(t.pixels, vec![0, 1, 2, 3, 4, 5]);
}

#[test]
fn float_samples_become_floats() {
    let img = DecodedImage {
        width: 1,
        height: 1,
        channels: 4,
        bytes_per_pixel: 16,
        pixels: vec![0; 16],
    };
    let t = texture_from_decoded(img).unwrap();
    assert_eq!(t.format, PixelFormat::Rgba);
    assert_eq!(t.sample, SampleType::Float);
}

#[test]
fn odd_sample_width_is_refused() {
    let img = DecodedImage {
        width: 1,
        height: 1,
        channels: 1,
        bytes_per_pixel: 3,
        pixels: vec![0, 0, 0],
    };
    assert_eq!(texture_from_decoded(img).err(), Some(AssetError::TextureDecodeFailed));
}

#[test]
fn channel_count_without_format_is_refused() {
    let img = DecodedImage {
        width: 1,
        height: 1,
        channels: 5,
        bytes_per_pixel: 5,
        pixels: vec![0; 5],
    };
    assert_eq!(texture_from_decoded(img).err(), Some(AssetError::TextureDecodeFailed));
}

#[test]
fn png_rgba_decodes_to_rgba_texture() {
    let mut rgba = image::RgbaImage::new(2, 1);
    rgba.put_pixel(0, 0, image::Rgba([10, 20, 30, 40]));
    rgba.put_pixel(1, 0, image::Rgba([50, 60, 70, 80]));
    let bytes = png_bytes(image::DynamicImage::ImageRgba8(rgba));
    let t = decode_texture(&bytes).unwrap();
    assert_eq!((t.width, t.height), (2, 1));
    assert_eq!(t.format, PixelFormat::Rgba);
    assert_eq!(t.pixels, vec![10, 20, 30, 40, 50, 60, 70, 80]);
}

#[test]
fn png_gray_decodes_to_red_texture() {
    let mut gray = image::GrayImage::new(1, 2);
    gray.put_pixel(0, 0, image::Luma([7]));
    gray.put_pixel(0, 1, image::Luma([9]));
    let bytes = png_bytes(image::DynamicImage::ImageLuma8(gray));
    let t = decode_texture(&bytes).unwrap();
    assert_eq!((t.width, t.height), (1, 2));
    assert_eq!(t.format, PixelFormat::Red);
    assert_eq!(t.sample, SampleType::UnsignedByte);
    assert_eq!(t.pixels, vec![7, 9]);
}

#[test]
fn png_sixteen_bit_decodes_to_short_texture() {
    let mut gray = image::ImageBuffer::<image::Luma<u16>, Vec<u16>>::new(2, 1);
    gray.put_pixel(0, 0, image::Luma([0x0102]));
    gray.put_pixel(1, 0, image::Luma([0xfffe]));
    let bytes = png_bytes(image::DynamicImage::ImageLuma16(gray));
    let t = decode_texture(&bytes).unwrap();
    assert_eq!((t.width, t.height), (2, 1));
    assert_eq!(t.format, PixelFormat::Red);
    assert_eq!(t.sample, SampleType::UnsignedShort);
    let mut expected = Vec::new();
    expected.extend_from_slice(&0x0102u16.to_ne_bytes());
    expected.extend_from_slice(&0xfffeu16.to_ne_bytes());
    assert_eq!(t.pixels, expected);
}

#[test]
fn png_sixteen_bit_rgba_decodes_to_rgba_shorts() {
    let rgba = image::ImageBuffer::<image::Rgba<u16>, Vec<u16>>::new(1, 1);
    let bytes = png_bytes(image::DynamicImage::ImageRgba16(rgba));
    let t = decode_texture(&bytes).unwrap();
    assert_eq!(t.format, PixelFormat::Rgba);
    assert_eq!(t.sample, SampleType::UnsignedShort);
    assert_eq!(t.pixels.len(), 8);
}

#[test]
fn undecodable_bytes_fail() {
    assert_eq!(decode_texture(b"not an image").err(), Some(AssetError::TextureDecodeFailed));
    assert_eq!(decode_texture(&[]).err(), Some(AssetError::TextureDecodeFailed));
}

#[test]
fn cache_keeps_one_entry_per_path() {
    let mut cache = TextureCache::new();
    let a = String::from("brick.png");
    let b = String::from("brick_spec.png");
    assert_eq!(cache.find(&a), None);
    let first = cache.load_or_get(&a, TextureKind::Diffuse);
    let second = cache.load_or_get(&b, TextureKind::Specular);
    let again = cache.load_or_get(&a, TextureKind::Specular);
    assert_eq!(cache.get(first).path, "brick.png");
    assert_eq!(first, 0);
    assert_eq!(second, 1);
    assert_eq!(again, first);
    assert_eq!(cache.len(), 2);
    assert_eq!(cache.find(&b), Some(1));
    assert_eq!(cache.get(0).path, "brick.png");
    assert_eq!(cache.get(0).kind, TextureKind::Diffuse);
    assert_eq!(cache.get(1).kind, TextureKind::Specular);
}

#[test]
fn kind_names() {
    assert_eq!(TextureKind::Diffuse.name(), "diffuse");
    assert_eq!(TextureKind::Specular.name(), "specular");
    assert_eq!(TextureKind::Normal.name(), "normal");
}
