use imcon::pipeline::default_template;
use imcon::template::{create_path, decimal_string, expand_template, zero_padded_string};
use imcon::{ConvertError, DataSource, Format, Image};

#[test]
fn path_template_round_trip() {
    assert_eq!(create_path("{}_{i}.png", "photo.pdf", 3, 12), Ok("photo_03.png".to_string()));
    assert_eq!(create_path("{}_{i}.png", "photo.pdf", 3, 150), Ok("photo_003.png".to_string()));
}

#[test]
fn multi_page_enumeration() {
    let im = Image::new(DataSource::File("docs/report.pdf".to_string(), Format::Pdf));
    let paths: Vec<String> = (0..3).map(|i| im.frame_path("{}_{i}.png", i, 3).unwrap()).collect();
    assert_eq!(paths, vec!["report_1.png", "report_2.png", "report_3.png"]);
}

#[test]
fn single_frame_path() {
    let im = Image::new(DataSource::File("a/b/cat.jpeg".to_string(), Format::Jpeg));
    assert_eq!(im.frame_path("{}.png", 0, 1), Ok("cat.png".to_string()));
    let im = Image::new(DataSource::Memory(vec![1, 2, 3], Format::Png));
    assert_eq!(im.frame_path("{}.png", 0, 1), Ok("stdin".to_string()));
}

#[test]
fn unknown_placeholders_pass_through() {
    assert_eq!(expand_template("{x}/{}-{i}{", "cat", 7, 9), "{x}/cat-7{");
    assert_eq!(expand_template("{dir}{i}}", "cat", 2, 10), "{dir}02}");
    assert_eq!(expand_template("", "cat", 1, 1), "");
}

#[test]
fn missing_file_stem() {
    assert_eq!(create_path("{}.png", "/", 1, 1), Err(ConvertError::MissingFileStem));
}

#[test]
fn decimal_rendering() {
    assert_eq!(decimal_string(0), "0");
    assert_eq!(decimal_string(1234567890), "1234567890");
    assert_eq!(zero_padded_string(7, 3), "007");
    assert_eq!(zero_padded_string(1234, 2), "1234");
    assert_eq!(zero_padded_string(0, 0), "0");
}

#[test]
fn default_templates() {
    assert_eq!(default_template(Format::Pdf, Format::Png), "{}_{i}.png");
    assert_eq!(default_template(Format::Heif, Format::Jpeg), "{}.jpg");
}
