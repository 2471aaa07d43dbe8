use imcon::color::resolve_hex_color;
use imcon::pipeline::resolve_image;
use imcon::{ConvertError, DataSource, Format, PixelLayout};

fn assert_solid_red_rgb(input: &str) {
    let im = resolve_image(input, Format::Bmp).unwrap();
    match im.source() {
        DataSource::Image(img) => {
            assert_eq!((img.width(), img.height()), (512, 512));
            assert_eq!(img.layout(), PixelLayout::Rgb8);
            assert_eq!(img.pixels().len(), 512 * 512 * 3);
            assert!(img.pixels().chunks(3).all(|p| p == [255, 0, 0]));
        }
        _ => panic!("a color literal must give a decoded image"),
    }
}

#[test]
fn hex_literal_decode() {
    assert_solid_red_rgb("#f00");
    assert_solid_red_rgb("#ff0000");
}

#[test]
fn hex_literal_with_alpha_is_rgba() {
    let im = resolve_image("#00ff0080", Format::Bmp).unwrap();
    match im.source() {
        DataSource::Image(img) => {
            assert_eq!(img.layout(), PixelLayout::Rgba8);
            assert!(img.pixels().chunks(4).all(|p| p == [0, 255, 0, 128]));
        }
        _ => panic!("a color literal must give a decoded image"),
    }
}

#[test]
fn hex_color_bytes() {
    assert_eq!(resolve_hex_color("#F00A"), Ok(vec![255, 0, 0, 170]));
    assert_eq!(resolve_hex_color("1a2B3c"), Ok(vec![0x1a, 0x2b, 0x3c]));
    assert_eq!(resolve_hex_color("#01020304"), Ok(vec![1, 2, 3, 4]));
}

#[test]
fn invalid_hex_color() {
    assert_eq!(resolve_hex_color("#12345"), Err(ConvertError::InvalidHexColor));
    assert_eq!(resolve_hex_color("#ggg"), Err(ConvertError::InvalidHexColor));
    assert_eq!(resolve_hex_color(""), Err(ConvertError::InvalidHexColor));
    assert!(matches!(resolve_image("#xyz", Format::Bmp), Err(ConvertError::InvalidHexColor)));
}

#[test]
fn file_inputs_stay_files() {
    let im = resolve_image("pics/cat.png", Format::Png).unwrap();
    match im.source() {
        DataSource::File(p, f) => {
            assert_eq!(p, "pics/cat.png");
            assert_eq!(*f, Format::Png);
        }
        _ => panic!("a path must give a file source"),
    }
    assert_eq!(im.input_path().map(|p| p.as_str()), Some("pics/cat.png"));
}

#[test]
fn rgba_promotion_of_color_image() {
    let im = resolve_image("#f00", Format::Bmp).unwrap();
    let img = im.to_image(None).unwrap();
    assert_eq!(img.layout(), PixelLayout::Rgba8);
    assert_eq!((img.width(), img.height()), (512, 512));
    assert!(img.pixels().chunks(4).all(|p| p == [255, 0, 0, 255]));
}
