use imcon::format::{resolve_input_format, resolve_output_format};
use imcon::{ConvertError, Format};

#[test]
fn format_round_trip() {
    for f in [Format::Png, Format::Jpeg, Format::Bmp] {
        assert_eq!(Format::from_str(f.as_str()), Ok(f));
    }
    assert_eq!(Format::Heif.as_str(), "heic");
    assert_eq!(Format::from_str("heic"), Ok(Format::Heif));
    assert_eq!(Format::from_str(Format::Pdf.as_str()), Ok(Format::Pdf));
}

#[test]
fn format_names_ignore_case() {
    assert_eq!(Format::from_str("PNG"), Ok(Format::Png));
    assert_eq!(Format::from_str("JpEg"), Ok(Format::Jpeg));
    assert_eq!(Format::from_str("jpg"), Ok(Format::Jpeg));
    assert_eq!(Format::from_str("HEIC"), Ok(Format::Heif));
    assert_eq!(Format::from_str("gif"), Err(()));
    assert_eq!(Format::from_str(""), Err(()));
    assert_eq!(Format::from_str("pngx"), Err(()));
}

#[test]
fn input_format_from_override() {
    assert_eq!(resolve_input_format("photo.png", Some("pdf")), Ok(Format::Pdf));
    assert_eq!(resolve_input_format("photo.png", Some("tiff")), Err(ConvertError::UnknownFormat));
}

#[test]
fn input_format_of_color_literal() {
    assert_eq!(resolve_input_format("#fff", None), Ok(Format::Bmp));
    assert_eq!(resolve_input_format("#ffff", None), Ok(Format::Bmp));
    assert_eq!(resolve_input_format("#ffffff", None), Ok(Format::Bmp));
    assert_eq!(resolve_input_format("#ffffffff", None), Ok(Format::Bmp));
    assert_eq!(resolve_input_format("#ff", None), Err(ConvertError::UnknownFormat));
}

#[test]
fn input_format_from_extension() {
    assert_eq!(resolve_input_format("dir/scan.PDF", None), Ok(Format::Pdf));
    assert_eq!(resolve_input_format("IMG_0001.heic", None), Ok(Format::Heif));
    assert_eq!(resolve_input_format("noext", None), Err(ConvertError::UnknownFormat));
    assert_eq!(resolve_input_format("anim.gif", None), Err(ConvertError::UnknownFormat));
}

#[test]
fn output_format_resolution() {
    assert_eq!(resolve_output_format(None, Some("png"), Format::Heif), Ok(Format::Png));
    assert_eq!(resolve_output_format(Some("out.JPG"), None, Format::Png), Ok(Format::Jpeg));
    assert_eq!(resolve_output_format(Some("out.gif"), None, Format::Png), Err(ConvertError::UnknownFormat));
    assert_eq!(resolve_output_format(Some("out"), None, Format::Pdf), Ok(Format::Png));
    assert_eq!(resolve_output_format(None, None, Format::Pdf), Ok(Format::Png));
    assert_eq!(resolve_output_format(None, None, Format::Heif), Ok(Format::Jpeg));
    assert_eq!(resolve_output_format(None, None, Format::Jpeg), Ok(Format::Jpeg));
    assert_eq!(resolve_output_format(None, None, Format::Bmp), Ok(Format::Bmp));
    assert_eq!(Format::Png.default_output(), Format::Png);
}
