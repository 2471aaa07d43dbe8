use imcon::pdf::page_outcome;
use imcon::pipeline::check_overwrite;
use imcon::raster::encode_raster;
use imcon::{ConvertError, DataSource, Format, Image, PixelLayout, RasterImage, Scale};

#[test]
fn it_works() -> Result<(), ConvertError> {
    let im = Image::open("data/1024.png")?;
    let _ = im.scale(Scale::new(2, 1).unwrap()).to_image(None);
    assert_eq!(2 + 2, 4);
    Ok(())
}

#[test]
fn overwrite_guard() {
    assert_eq!(check_overwrite("/tmp/a.png", "/tmp/a.png", false), Err(ConvertError::WouldOverwriteInput));
    assert_eq!(check_overwrite("/tmp/a.png", "/tmp/a.png", true), Ok(()));
    assert_eq!(check_overwrite("/tmp/b.png", "/tmp/a.png", false), Ok(()));
}

#[test]
fn open_reads_extension() {
    let im = Image::open("shots/IMG_1.JPG").unwrap();
    assert!(matches!(im.source(), DataSource::File(_, Format::Jpeg)));
    assert!(matches!(Image::open("README"), Err(ConvertError::UnknownFormat)));
    assert!(matches!(Image::open("clip.mov"), Err(ConvertError::UnknownFormat)));
}

#[test]
fn unread_file_is_not_found() {
    let im = Image::open("missing.png").unwrap();
    assert!(matches!(im.to_image(None), Err(ConvertError::FileNotFound)));
    let im = Image::open("missing.png").unwrap();
    assert!(matches!(im.load(None), Err(ConvertError::FileNotFound)));
}

#[test]
fn loaded_file_keeps_its_path() {
    let pixels = vec![9u8; 3 * 3 * 4];
    let png = encode_raster(RasterImage::new(3, 3, PixelLayout::Rgba8, pixels).unwrap(), Format::Png).unwrap();
    let im = Image::open("in/square.png").unwrap().set_width(6).load(Some(png)).unwrap();
    assert!(matches!(im.source(), DataSource::Memory(_, Format::Png)));
    assert_eq!(im.frame_count(None), Ok(1));
    assert_eq!(im.frame_path("{}_big.png", 0, 1), Ok("square_big.png".to_string()));
    let out = im.render_frame(None, 0).unwrap();
    assert_eq!((out.width(), out.height()), (6, 6));
    assert!(matches!(im.render_frame(None, 1), Err(ConvertError::PageOutOfBounds)));
}

#[test]
fn document_needs_backend() {
    let im = Image::read(b"%PDF-1.4", Format::Pdf).unwrap();
    assert_eq!(im.frame_count(None), Err(ConvertError::DocumentLoadError));
    assert!(matches!(im.render_frame(None, 0), Err(ConvertError::DocumentLoadError)));
}

#[test]
fn undecoded_heif_is_a_decode_error() {
    let im = Image::read(b"....", Format::Heif).unwrap();
    assert!(matches!(im.render_frame(None, 0), Err(ConvertError::DecodeError)));
}

#[test]
fn setters_fill_one_resize() {
    let im = Image::read(&[], Format::Png)
        .unwrap()
        .set_width(10)
        .set_height(20)
        .max_width(30)
        .max_height(40)
        .set_width(11);
    let r = im.resize().unwrap();
    assert_eq!((r.width, r.height, r.max_width, r.max_height), (Some(11), Some(20), Some(30), Some(40)));
    assert!(r.scale.is_none());
}

#[test]
fn apply_keeps_path_and_clears_resize() {
    let img = RasterImage::new(4, 2, PixelLayout::Rgb8, vec![1; 24]).unwrap();
    let im = Image::new(DataSource::Image(img)).max_width(2).apply(None).unwrap();
    assert!(im.resize().is_none());
    match im.source() {
        DataSource::Image(out) => assert_eq!((out.width(), out.height()), (2, 1)),
        _ => panic!("apply must leave a decoded image"),
    }
}

#[test]
fn input_file_of_sources() {
    let s = DataSource::File("x.png".to_string(), Format::Png);
    assert_eq!(s.input_file().map(|p| p.as_str()), Some("x.png"));
    assert!(DataSource::Memory(vec![], Format::Png).input_file().is_none());
}

#[test]
fn error_messages() {
    assert_eq!(ConvertError::WouldOverwriteInput.message(), "output path is the same as input path");
}

#[test]
fn page_outcome_settles_pages() {
    assert!(matches!(page_outcome(3, 3, None), Err(ConvertError::PageOutOfBounds)));
    assert!(matches!(page_outcome(0, 0, Some((1, 1, vec![0; 4]))), Err(ConvertError::PageOutOfBounds)));
    assert!(matches!(page_outcome(1, 3, None), Err(ConvertError::DecodeError)));
    assert!(matches!(page_outcome(0, 3, Some((2, 2, vec![0; 15]))), Err(ConvertError::DecodeError)));
    let img = page_outcome(2, 3, Some((2, 1, vec![7; 8]))).unwrap();
    assert_eq!((img.width(), img.height(), img.layout()), (2, 1, PixelLayout::Rgba8));
    assert_eq!(img.pixels(), &vec![7; 8]);
}

#[test]
fn output_paths_enumerate_frames() {
    let im = Image::new(DataSource::File("scans/book.pdf".to_string(), Format::Pdf));
    assert_eq!(im.output_paths("{}_{i}.png", 3), Ok(vec![
        "book_1.png".to_string(),
        "book_2.png".to_string(),
        "book_3.png".to_string(),
    ]));
    let paths = im.output_paths("{}-{i}.jpg", 12).unwrap();
    assert_eq!(paths.len(), 12);
    assert_eq!(paths[0], "book-01.jpg");
    assert_eq!(paths[11], "book-12.jpg");
    let im = Image::new(DataSource::Memory(vec![], Format::Png));
    assert_eq!(im.output_paths("{}.png", 1), Ok(vec!["stdin".to_string()]));
    let im = Image::new(DataSource::File("/".to_string(), Format::Png));
    assert_eq!(im.output_paths("{}.png", 1), Err(ConvertError::MissingFileStem));
}

#[test]
fn frame_output_guards_before_rendering() {
    let im = Image::read(b"not decodable", Format::Png).unwrap();
    assert_eq!(
        im.frame_output(None, 0, "/x/a.png", Some("/x/a.png"), false, Format::Png),
        Err(ConvertError::WouldOverwriteInput)
    );
    assert_eq!(
        im.frame_output(None, 0, "/x/a.png", Some("/x/a.png"), true, Format::Png),
        Err(ConvertError::DecodeError)
    );
    let img = RasterImage::new(2, 2, PixelLayout::Rgb8, vec![5; 12]).unwrap();
    let im = Image::new(DataSource::Image(img));
    let bytes = im.frame_output(None, 0, "/x/b.bmp", None, false, Format::Bmp).unwrap();
    assert_eq!(&bytes[0..2], b"BM");
    assert_eq!(im.frame_output(None, 1, "/x/b.bmp", None, false, Format::Bmp), Err(ConvertError::PageOutOfBounds));
    assert_eq!(im.frame_output(None, 0, "/x/b.pdf", None, false, Format::Pdf), Err(ConvertError::EncodeError));
}

#[test]
fn apply_keeps_pixels_without_resize() {
    let img = RasterImage::new(1, 2, PixelLayout::Rgb8, vec![1, 2, 3, 4, 5, 6]).unwrap();
    let im = Image::new(DataSource::Image(img)).apply(None).unwrap();
    match im.source() {
        DataSource::Image(out) => assert_eq!(out.pixels(), &vec![1, 2, 3, 255, 4, 5, 6, 255]),
        _ => panic!("apply must leave a decoded image"),
    }
}
