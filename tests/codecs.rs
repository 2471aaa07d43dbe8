use imcon::pipeline::{decode_heif_outcome, HeifFailure};
use imcon::raster::{apply_resize, decode_raster, encode_raster};
use imcon::{ConvertError, DataSource, Format, Image, PixelLayout, RasterImage, Resize};

fn sample(width: u32, height: u32) -> RasterImage {
    let mut pixels = Vec::new();
    for i in 0..(width * height) {
        pixels.extend_from_slice(&[(i * 7) as u8, (i * 13) as u8, (i * 29) as u8, 255]);
    }
    RasterImage::new(width, height, PixelLayout::Rgba8, pixels).unwrap()
}

#[test]
fn raster_new_checks_length() {
    assert!(RasterImage::new(2, 2, PixelLayout::Rgb8, vec![0; 12]).is_some());
    assert!(RasterImage::new(2, 2, PixelLayout::Rgb8, vec![0; 16]).is_none());
    assert!(RasterImage::new(2, 2, PixelLayout::Rgba8, vec![0; 16]).is_some());
}

#[test]
fn png_round_trip() {
    let img = sample(5, 3);
    let expected = img.pixels().clone();
    let bytes = encode_raster(img, Format::Png).unwrap();
    assert_eq!(&bytes[1..4], b"PNG");
    let back = decode_raster(&bytes, Format::Png).unwrap();
    assert_eq!((back.width(), back.height()), (5, 3));
    assert_eq!(back.layout(), PixelLayout::Rgba8);
    assert_eq!(back.pixels(), &expected);
}

#[test]
fn bmp_and_jpeg_encode() {
    let bytes = encode_raster(sample(4, 4), Format::Bmp).unwrap();
    assert_eq!(&bytes[0..2], b"BM");
    let bytes = encode_raster(sample(4, 4), Format::Jpeg).unwrap();
    assert_eq!(&bytes[0..2], &[0xFF, 0xD8]);
    let back = decode_raster(&bytes, Format::Jpeg).unwrap();
    assert_eq!((back.width(), back.height()), (4, 4));
}

#[test]
fn encode_needs_raster_format() {
    assert_eq!(encode_raster(sample(2, 2), Format::Pdf), Err(ConvertError::EncodeError));
    assert_eq!(encode_raster(sample(2, 2), Format::Heif), Err(ConvertError::EncodeError));
}

#[test]
fn decode_errors() {
    assert!(matches!(decode_raster(b"not an image", Format::Png), Err(ConvertError::DecodeError)));
    assert!(matches!(decode_raster(b"", Format::Pdf), Err(ConvertError::DecodeError)));
}

#[test]
fn resize_changes_size() {
    let r = Resize { width: Some(2), ..Resize::default() };
    let out = apply_resize(sample(4, 6), Some(r)).unwrap();
    assert_eq!((out.width(), out.height()), (2, 3));
    assert_eq!(out.pixels().len(), 2 * 3 * 4);
    let same = apply_resize(sample(4, 6), None).unwrap();
    assert_eq!(same.pixels(), sample(4, 6).pixels());
}

#[test]
fn fallback_decode() {
    let jpeg = encode_raster(sample(8, 6), Format::Jpeg).unwrap();
    let img = decode_heif_outcome(Err(HeifFailure::MissingContainerHeader), &jpeg).unwrap();
    assert_eq!((img.width(), img.height()), (8, 6));
    let im = Image::read(&jpeg, Format::Heif).unwrap().load_heif(Err(HeifFailure::MissingContainerHeader)).unwrap();
    assert!(matches!(im.source(), DataSource::Image(_)));
    let out = im.to_image(None).unwrap();
    assert_eq!((out.width(), out.height()), (8, 6));
}

#[test]
fn heif_failures() {
    assert!(matches!(
        decode_heif_outcome(Err(HeifFailure::Malformed), b"whatever"),
        Err(ConvertError::DecodeError)
    ));
    assert!(matches!(
        decode_heif_outcome(Err(HeifFailure::MissingContainerHeader), b"no jpeg"),
        Err(ConvertError::DecodeError)
    ));
    let decoded = decode_heif_outcome(Ok(sample(3, 2)), b"").unwrap();
    assert_eq!(decoded.pixels(), sample(3, 2).pixels());
}

#[test]
fn heif_fallback_keeps_pixels_through_pipeline() {
    let jpeg = encode_raster(sample(4, 4), Format::Jpeg).unwrap();
    let direct = decode_raster(&jpeg, Format::Jpeg).unwrap();
    let im = Image::read(&jpeg, Format::Heif).unwrap().load_heif(Err(HeifFailure::MissingContainerHeader)).unwrap();
    let out = im.to_image(None).unwrap();
    assert_eq!(out.pixels(), direct.pixels());
    let im = Image::read(b"x", Format::Heif).unwrap();
    assert!(matches!(im.load_heif(Err(HeifFailure::Malformed)), Err(ConvertError::DecodeError)));
}
