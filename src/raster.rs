use vstd::prelude::*;

use crate::error::ConvertError;
use crate::format::Format;
use crate::geometry::{saturate, spec_dimensions, Resize};

verus! {

#[verifier::external_type_specification]
pub struct ExImageFormat(image::ImageFormat);

#[verifier::external_type_specification]
#[verifier::external_body]
pub struct ExImageError(image::ImageError);

/// How the bytes of a pixel are laid out: 8-bit RGB or 8-bit RGBA.
#[derive(Clone, Copy, Debug, PartialEq, Eq, Structural)]
pub enum PixelLayout {
    Rgb8,
    Rgba8,
}

impl PixelLayout {
    pub open spec fn spec_channels(self) -> nat {
        match self {
            PixelLayout::Rgb8 => 3,
            PixelLayout::Rgba8 => 4,
        }
    }

    pub fn channels(&self) -> (r: usize)
        ensures
            r == self.spec_channels(),
    {
        match self {
            PixelLayout::Rgb8 => 3,
            PixelLayout::Rgba8 => 4,
        }
    }
}

/// The size in bytes of a `width` by `height` buffer of `layout`.
pub open spec fn buffer_len(layout: PixelLayout, width: int, height: int) -> int {
    layout.spec_channels() * width * height
}

proof fn lemma_buffer_fits(c: int, width: u32, height: u32)
    requires
        0 <= c <= 4,
    ensures
        0 <= c * width <= 4 * u32::MAX,
        0 <= c * width * height <= 4 * u32::MAX * u32::MAX,
{
    assert(0 <= c * width <= 4 * u32::MAX) by (nonlinear_arith)
        requires
            0 <= c <= 4,
            width <= u32::MAX,
    ;
    assert(0 <= c * width * height <= 4 * u32::MAX * u32::MAX) by (nonlinear_arith)
        requires
            0 <= c * width <= 4 * u32::MAX,
            height <= u32::MAX,
    ;
}

/// A decoded image: its size, its pixel layout and its pixels, row by row.
#[derive(Debug)]
pub struct RasterImage {
    pub(crate) width: u32,
    pub(crate) height: u32,
    pub(crate) layout: PixelLayout,
    pub(crate) pixels: Vec<u8>,
}

impl RasterImage {
    #[verifier::type_invariant]
    spec fn well_formed(self) -> bool {
        self.pixels@.len() == buffer_len(self.layout, self.width as int, self.height as int)
    }

    pub open(crate) spec fn spec_width(&self) -> int {
        self.width as int
    }

    pub open(crate) spec fn spec_height(&self) -> int {
        self.height as int
    }

    pub open(crate) spec fn spec_layout(&self) -> PixelLayout {
        self.layout
    }

    pub open(crate) spec fn spec_pixels(&self) -> Seq<u8> {
        self.pixels@
    }

    /// An image over `pixels`, which must hold exactly one pixel of `layout`
    /// for each of `width * height` positions.
    pub fn new(width: u32, height: u32, layout: PixelLayout, pixels: Vec<u8>) -> (r: Option<
        RasterImage,
    >)
        ensures
            r is Some <==> pixels@.len() == buffer_len(layout, width as int, height as int),
            r matches Some(img) ==> img.spec_width() == width && img.spec_height() == height
                && img.spec_layout() == layout && img.spec_pixels() == pixels@,
    {
        let c = layout.channels() as u128;
        proof {
            lemma_buffer_fits(c as int, width, height);
        }
        if pixels.len() as u128 == c * (width as u128) * (height as u128) {
            Some(RasterImage { width, height, layout, pixels })
        } else {
            None
        }
    }

    pub fn width(&self) -> (r: u32)
        ensures
            r == self.spec_width(),
    {
        self.width
    }

    pub fn height(&self) -> (r: u32)
        ensures
            r == self.spec_height(),
    {
        self.height
    }

    pub fn layout(&self) -> (r: PixelLayout)
        ensures
            r == self.spec_layout(),
    {
        self.layout
    }

    pub fn pixels(&self) -> (r: &Vec<u8>)
        ensures
            r@ == self.spec_pixels(),
            r@.len() == buffer_len(self.spec_layout(), self.spec_width(), self.spec_height()),
    {
        proof {
            use_type_invariant(self);
        }
        &self.pixels
    }

    /// The image `width` by `height` in which every pixel is `color`: RGB for
    /// three channel bytes, RGBA for four.
    pub fn solid(width: u32, height: u32, color: &Vec<u8>) -> (r: Result<RasterImage, ConvertError>)
        ensures
            color@.len() != 3 && color@.len() != 4 ==> r == Err::<RasterImage, ConvertError>(
                ConvertError::InvalidHexColor,
            ),
            (color@.len() == 3 || color@.len() == 4) && buffer_len(
                if color@.len() == 3 {
                    PixelLayout::Rgb8
                } else {
                    PixelLayout::Rgba8
                },
                width as int,
                height as int,
            ) > usize::MAX ==> r == Err::<RasterImage, ConvertError>(ConvertError::ImageTooLarge),
            r matches Ok(img) ==> img.spec_width() == width && img.spec_height() == height
                && img.spec_layout().spec_channels() == color@.len() && forall|i: int|
                0 <= i < img.spec_pixels().len() ==> #[trigger] img.spec_pixels()[i] == color@[i
                % color@.len() as int],
            (color@.len() == 3 || color@.len() == 4) && buffer_len(
                if color@.len() == 3 {
                    PixelLayout::Rgb8
                } else {
                    PixelLayout::Rgba8
                },
                width as int,
                height as int,
            ) <= usize::MAX ==> r is Ok,
    {
        let n = color.len();
        if n != 3 && n != 4 {
            return Err(ConvertError::InvalidHexColor);
        }
        proof {
            lemma_buffer_fits(n as int, width, height);
        }
        let size = (n as u128) * (width as u128) * (height as u128);
        if size > usize::MAX as u128 {
            return Err(ConvertError::ImageTooLarge);
        }
        if n == 3 {
            let pixels = fill_rgb(width, height, color[0], color[1], color[2]);
            assert forall|i: int| 0 <= i < pixels@.len() implies #[trigger] pixels@[i] == color@[i
                % 3] by {
                assert(i % 3 == 0 || i % 3 == 1 || i % 3 == 2);
            }
            Ok(RasterImage { width, height, layout: PixelLayout::Rgb8, pixels })
        } else {
            let pixels = fill_rgba(width, height, color[0], color[1], color[2], color[3]);
            assert forall|i: int| 0 <= i < pixels@.len() implies #[trigger] pixels@[i] == color@[i
                % 4] by {
                assert(i % 4 == 0 || i % 4 == 1 || i % 4 == 2 || i % 4 == 3);
            }
            Ok(RasterImage { width, height, layout: PixelLayout::Rgba8, pixels })
        }
    }
}

/// Relies on `image::ImageBuffer::from_pixel` for RGB pixels: a buffer of
/// `width * height` copies of the pixel, three bytes each. It panics only
/// when the buffer length overflows `usize`, which `requires` excludes.
#[verifier::external_body]
fn fill_rgb(width: u32, height: u32, r: u8, g: u8, b: u8) -> (out: Vec<u8>)
    requires
        3 * width * height <= usize::MAX,
    ensures
        out@.len() == 3 * width * height,
        forall|i: int|
            0 <= i < out@.len() ==> #[trigger] out@[i] == (if i % 3 == 0 {
                r
            } else if i % 3 == 1 {
                g
            } else {
                b
            }),
{
    image::RgbImage::from_pixel(width, height, image::Rgb([r, g, b])).into_raw()
}

/// Relies on `image::ImageBuffer::from_pixel` for RGBA pixels: a buffer of
/// `width * height` copies of the pixel, four bytes each. It panics only
/// when the buffer length overflows `usize`, which `requires` excludes.
#[verifier::external_body]
fn fill_rgba(width: u32, height: u32, r: u8, g: u8, b: u8, a: u8) -> (out: Vec<u8>)
    requires
        4 * width * height <= usize::MAX,
    ensures
        out@.len() == 4 * width * height,
        forall|i: int|
            0 <= i < out@.len() ==> #[trigger] out@[i] == (if i % 4 == 0 {
                r
            } else if i % 4 == 1 {
                g
            } else if i % 4 == 2 {
                b
            } else {
                a
            }),
{
    image::RgbaImage::from_pixel(width, height, image::Rgba([r, g, b, a])).into_raw()
}

impl Format {
    /// The raster codec's name for this format; documents and HEIF have none.
    pub fn to_image_format(&self) -> (r: Option<image::ImageFormat>)
        ensures
            r == codec_of(*self),
            r is Some <==> self.is_raster(),
    {
        match self {
            Format::Png => Some(image::ImageFormat::Png),
            Format::Jpeg => Some(image::ImageFormat::Jpeg),
            Format::Bmp => Some(image::ImageFormat::Bmp),
            _ => None,
        }
    }
}

/// The RGBA form of RGB pixels: each pixel's three bytes, then an opaque
/// alpha byte.
pub open spec fn rgb_to_rgba(p: Seq<u8>) -> Seq<u8> {
    Seq::new(
        (p.len() / 3 * 4) as nat,
        |i: int|
            if i % 4 == 3 {
                255u8
            } else {
                p[i / 4 * 3 + i % 4]
            },
    )
}

impl RasterImage {
    /// A copy of this image.
    pub fn duplicate(&self) -> (r: RasterImage)
        ensures
            r.spec_width() == self.spec_width(),
            r.spec_height() == self.spec_height(),
            r.spec_layout() == self.spec_layout(),
            r.spec_pixels() == self.spec_pixels(),
    {
        proof {
            use_type_invariant(self);
        }
        let pixels = self.pixels.clone();
        assert(pixels@ =~= self.pixels@);
        RasterImage { width: self.width, height: self.height, layout: self.layout, pixels }
    }

    /// This image with 8-bit RGBA pixels; RGB pixels gain an opaque alpha.
    pub fn into_rgba(self) -> (r: Result<RasterImage, ConvertError>)
        ensures
            self.spec_layout() == PixelLayout::Rgba8 ==> r is Ok && r->Ok_0.spec_pixels()
                == self.spec_pixels(),
            self.spec_layout() == PixelLayout::Rgb8 && buffer_len(
                PixelLayout::Rgba8,
                self.spec_width(),
                self.spec_height(),
            ) > usize::MAX ==> r == Err::<RasterImage, ConvertError>(ConvertError::ImageTooLarge),
            self.spec_layout() == PixelLayout::Rgb8 && buffer_len(
                PixelLayout::Rgba8,
                self.spec_width(),
                self.spec_height(),
            ) <= usize::MAX ==> r is Ok && r->Ok_0.spec_pixels() == rgb_to_rgba(
                self.spec_pixels(),
            ),
            r matches Ok(img) ==> img.spec_layout() == PixelLayout::Rgba8 && img.spec_width()
                == self.spec_width() && img.spec_height() == self.spec_height(),
    {
        proof {
            use_type_invariant(&self);
            lemma_buffer_fits(4, self.width, self.height);
        }
        if let PixelLayout::Rgba8 = self.layout {
            return Ok(self);
        }
        let size = 4 * (self.width as u128) * (self.height as u128);
        if size > usize::MAX as u128 {
            return Err(ConvertError::ImageTooLarge);
        }
        let n = self.pixels.len() / 3;
        let mut out: Vec<u8> = Vec::new();
        let mut i: usize = 0;
        while i < n
            invariant
                n == self.pixels@.len() / 3,
                self.pixels@.len() == 3 * self.width * self.height,
                4 * self.width * self.height <= usize::MAX,
                i <= n,
                out@.len() == 4 * i,
                forall|j: int| 0 <= j < out@.len() ==> #[trigger] out@[j] == rgb_to_rgba(self.pixels@)[j],
            decreases n - i,
        {
            assert(4 * i + 4 <= usize::MAX) by (nonlinear_arith)
                requires
                    i < n,
                    n == self.pixels@.len() / 3,
                    self.pixels@.len() == 3 * self.width * self.height,
                    4 * self.width * self.height <= usize::MAX,
            ;
            let ghost before = out@;
            out.push(self.pixels[3 * i]);
            out.push(self.pixels[3 * i + 1]);
            out.push(self.pixels[3 * i + 2]);
            out.push(255);
            assert forall|j: int| 0 <= j < out@.len() implies #[trigger] out@[j] == rgb_to_rgba(
                self.pixels@,
            )[j] by {
                if j >= 4 * i {
                    assert(j / 4 == i && j % 4 == j - 4 * i);
                } else {
                    assert(out@[j] == before[j]);
                }
            }
            i = i + 1;
        }
        assert(out@ =~= rgb_to_rgba(self.pixels@));
        assert(4 * n == 4 * self.width * self.height) by (nonlinear_arith)
            requires
                n == self.pixels@.len() / 3,
                self.pixels@.len() == 3 * self.width * self.height,
        ;
        Ok(RasterImage { width: self.width, height: self.height, layout: PixelLayout::Rgba8, pixels: out })
    }
}

/// The raster codec's name for each raster format.
pub open spec fn codec_of(format: Format) -> Option<image::ImageFormat> {
    match format {
        Format::Png => Some(image::ImageFormat::Png),
        Format::Jpeg => Some(image::ImageFormat::Jpeg),
        Format::Bmp => Some(image::ImageFormat::Bmp),
        _ => None,
    }
}

/// What the raster codec decodes `bytes` to, read as `format`: the width,
/// the height and the 8-bit RGBA pixels, or nothing where it fails.
pub uninterp spec fn decoded_rgba(bytes: Seq<u8>, format: Format) -> Option<(u32, u32, Seq<u8>)>;

/// What the raster codec encodes `width` by `height` RGBA pixels to as
/// `format`, or nothing where it fails.
pub uninterp spec fn encoded_rgba(pixels: Seq<u8>, width: u32, height: u32, format: Format) -> Option<
    Seq<u8>,
>;

/// The RGBA pixels of a `width` by `height` image resampled with the
/// Lanczos3 filter to `new_width` by `new_height`.
pub uninterp spec fn lanczos_resized(
    pixels: Seq<u8>,
    width: u32,
    height: u32,
    new_width: u32,
    new_height: u32,
) -> Seq<u8>;

/// Relies on `image::load_from_memory_with_format`, which decodes `bytes`
/// as `codec` without sniffing; the decoded image is handed back as its
/// width, height and 8-bit RGBA pixels (`DynamicImage::to_rgba8`).
#[verifier::external_body]
fn load_rgba(bytes: &[u8], format: Format, codec: image::ImageFormat) -> (r: Result<
    (u32, u32, Vec<u8>),
    image::ImageError,
>)
    requires
        codec_of(format) == Some(codec),
    ensures
        decoded_rgba(bytes@, format) == match r {
            Ok((w, h, p)) => Some((w, h, p@)),
            Err(_) => None::<(u32, u32, Seq<u8>)>,
        },
{
    let rgba = image::load_from_memory_with_format(bytes, codec)?.to_rgba8();
    Ok((rgba.width(), rgba.height(), rgba.into_raw()))
}

/// Relies on `image::imageops::resize` with the Lanczos3 filter: its result
/// is `new_width` by `new_height` RGBA pixels. `requires` keeps every buffer
/// it allocates, the intermediate one included, within `usize`, and makes the
/// input buffer exactly the size that `ImageBuffer::from_raw` accepts.
#[verifier::external_body]
fn resize_rgba(width: u32, height: u32, pixels: Vec<u8>, new_width: u32, new_height: u32) -> (r:
    Vec<u8>)
    requires
        pixels@.len() == 4 * width * height,
        4 * width * new_height <= usize::MAX,
        4 * new_width * new_height <= usize::MAX,
    ensures
        r@ == lanczos_resized(pixels@, width, height, new_width, new_height),
        r@.len() == 4 * new_width * new_height,
{
    let source = image::RgbaImage::from_raw(width, height, pixels).unwrap_or_default();
    image::imageops::resize(&source, new_width, new_height, image::imageops::FilterType::Lanczos3)
        .into_raw()
}

/// Relies on `image::DynamicImage::write_to`, which encodes RGBA pixels as
/// `codec`, converting them first where the codec takes no alpha. The buffer
/// is exactly the size that `ImageBuffer::from_raw` accepts.
#[verifier::external_body]
fn encode_rgba(
    width: u32,
    height: u32,
    pixels: Vec<u8>,
    format: Format,
    codec: image::ImageFormat,
) -> (r: Result<Vec<u8>, image::ImageError>)
    requires
        pixels@.len() == 4 * width * height,
        codec_of(format) == Some(codec),
    ensures
        encoded_rgba(pixels@, width, height, format) == match r {
            Ok(b) => Some(b@),
            Err(_) => None::<Seq<u8>>,
        },
{
    let source = image::RgbaImage::from_raw(width, height, pixels).unwrap_or_default();
    let mut out = std::io::Cursor::new(Vec::new());
    image::DynamicImage::ImageRgba8(source).write_to(&mut out, codec)?;
    Ok(out.into_inner())
}

/// `r` is what decoding `bytes` as `format` gives: the codec's RGBA image,
/// or a decode error where the codec fails or its buffer does not match its
/// size.
pub open spec fn decodes_to(r: Result<RasterImage, ConvertError>, bytes: Seq<u8>, format: Format) -> bool {
    match decoded_rgba(bytes, format) {
        Some((w, h, p)) => if p.len() == buffer_len(PixelLayout::Rgba8, w as int, h as int) {
            r is Ok && r->Ok_0.spec_width() == w && r->Ok_0.spec_height() == h
                && r->Ok_0.spec_layout() == PixelLayout::Rgba8 && r->Ok_0.spec_pixels() == p
        } else {
            r == Err::<RasterImage, ConvertError>(ConvertError::DecodeError)
        },
        None => r == Err::<RasterImage, ConvertError>(ConvertError::DecodeError),
    }
}

/// Decodes `bytes` as the raster format `format` into RGBA pixels.
pub fn decode_raster(bytes: &[u8], format: Format) -> (r: Result<RasterImage, ConvertError>)
    ensures
        !format.is_raster() ==> r == Err::<RasterImage, ConvertError>(ConvertError::DecodeError),
        format.is_raster() ==> decodes_to(r, bytes@, format),
        r is Err ==> r == Err::<RasterImage, ConvertError>(ConvertError::DecodeError),
        r matches Ok(img) ==> img.spec_layout() == PixelLayout::Rgba8,
{
    let codec = match format.to_image_format() {
        Some(c) => c,
        None => return Err(ConvertError::DecodeError),
    };
    match load_rgba(bytes, format, codec) {
        Ok((width, height, pixels)) => match RasterImage::new(width, height, PixelLayout::Rgba8, pixels) {
            Some(img) => Ok(img),
            None => Err(ConvertError::DecodeError),
        },
        Err(_) => Err(ConvertError::DecodeError),
    }
}

/// The RGBA pixels of an image: RGB pixels gain an opaque alpha.
pub open spec fn rgba_pixels(layout: PixelLayout, pixels: Seq<u8>) -> Seq<u8> {
    if layout == PixelLayout::Rgb8 {
        rgb_to_rgba(pixels)
    } else {
        pixels
    }
}

/// `r` is what encoding `img` as `format` gives: the raster codec's bytes
/// for its RGBA form, `EncodeError` for a format the codec does not write or
/// where it fails, `ImageTooLarge` where the RGBA buffer would not fit.
pub open spec fn encodes_to(r: Result<Vec<u8>, ConvertError>, img: RasterImage, format: Format) -> bool {
    if !format.is_raster() {
        r == Err::<Vec<u8>, ConvertError>(ConvertError::EncodeError)
    } else if buffer_len(PixelLayout::Rgba8, img.spec_width(), img.spec_height()) > usize::MAX {
        r == Err::<Vec<u8>, ConvertError>(ConvertError::ImageTooLarge)
    } else {
        match encoded_rgba(
            rgba_pixels(img.spec_layout(), img.spec_pixels()),
            img.spec_width() as u32,
            img.spec_height() as u32,
            format,
        ) {
            Some(b) => r is Ok && r->Ok_0@ == b,
            None => r == Err::<Vec<u8>, ConvertError>(ConvertError::EncodeError),
        }
    }
}

/// Encodes an image as the raster format `format`, from its RGBA form.
pub fn encode_raster(img: RasterImage, format: Format) -> (r: Result<Vec<u8>, ConvertError>)
    ensures
        encodes_to(r, img, format),
{
    let codec = match format.to_image_format() {
        Some(c) => c,
        None => return Err(ConvertError::EncodeError),
    };
    proof {
        use_type_invariant(&img);
        lemma_buffer_fits(4, img.width, img.height);
    }
    if 4 * (img.width as u128) * (img.height as u128) > usize::MAX as u128 {
        return Err(ConvertError::ImageTooLarge);
    }
    let rgba = img.into_rgba()?;
    proof {
        use_type_invariant(&rgba);
    }
    match encode_rgba(rgba.width, rgba.height, rgba.pixels, format, codec) {
        Ok(bytes) => Ok(bytes),
        Err(_) => Err(ConvertError::EncodeError),
    }
}

/// The size of an image of `w` by `h` after an optional pending resize.
pub open spec fn resized_size(resize: Option<Resize>, w: int, h: int) -> (int, int) {
    match resize {
        None => (w, h),
        Some(rs) => (saturate(spec_dimensions(rs, w, h).0), saturate(spec_dimensions(rs, w, h).1)),
    }
}

/// The RGBA buffers that a resize of a `w` by `h` image allocates fit in
/// `usize`: the source, the intermediate one of the result's height, and
/// the result.
pub open spec fn resize_fits(resize: Option<Resize>, w: int, h: int) -> bool {
    let (nw, nh) = resized_size(resize, w, h);
    buffer_len(PixelLayout::Rgba8, w, h) <= usize::MAX && buffer_len(PixelLayout::Rgba8, w, nh)
        <= usize::MAX && buffer_len(PixelLayout::Rgba8, nw, nh) <= usize::MAX
}

/// `r` is a `w` by `h` image of `layout` with pixels `p`, brought to RGBA
/// and, if a resize is pending, resampled to the size that the resize
/// computes; or `ImageTooLarge` where a buffer would not fit.
pub open spec fn transformed(
    r: Result<RasterImage, ConvertError>,
    resize: Option<Resize>,
    w: int,
    h: int,
    layout: PixelLayout,
    p: Seq<u8>,
) -> bool {
    &&& (r is Ok <==> resize_fits(resize, w, h))
    &&& (r is Err ==> r == Err::<RasterImage, ConvertError>(ConvertError::ImageTooLarge))
    &&& (r matches Ok(out) ==> out.spec_layout() == PixelLayout::Rgba8 && (
    out.spec_width(),
    out.spec_height(),
    ) == resized_size(resize, w, h) && out.spec_pixels() == match resize {
        None => rgba_pixels(layout, p),
        Some(_) => lanczos_resized(
            rgba_pixels(layout, p),
            w as u32,
            h as u32,
            out.spec_width() as u32,
            out.spec_height() as u32,
        ),
    })
}

/// `r` comes from raw RGBA output of a decoder: nothing, or a width, height
/// and pixels that must match in size, then transformed as above.
pub open spec fn raw_then_transformed(
    r: Result<RasterImage, ConvertError>,
    resize: Option<Resize>,
    raw: Option<(u32, u32, Seq<u8>)>,
) -> bool {
    match raw {
        Some((w, h, p)) => if p.len() == buffer_len(PixelLayout::Rgba8, w as int, h as int) {
            transformed(r, resize, w as int, h as int, PixelLayout::Rgba8, p)
        } else {
            r == Err::<RasterImage, ConvertError>(ConvertError::DecodeError)
        },
        None => r == Err::<RasterImage, ConvertError>(ConvertError::DecodeError),
    }
}

/// The image brought to RGBA and, if a resize is pending, to the size that
/// the resize computes from the image's own size.
pub fn apply_resize(img: RasterImage, resize: Option<Resize>) -> (r: Result<RasterImage, ConvertError>)
    ensures
        transformed(
            r,
            resize,
            img.spec_width(),
            img.spec_height(),
            img.spec_layout(),
            img.spec_pixels(),
        ),
{
    proof {
        use_type_invariant(&img);
        lemma_buffer_fits(4, img.width, img.height);
    }
    if 4 * (img.width as u128) * (img.height as u128) > usize::MAX as u128 {
        return Err(ConvertError::ImageTooLarge);
    }
    let rgba = img.into_rgba()?;
    match resize {
        None => Ok(rgba),
        Some(rs) => {
            let (new_width, new_height) = rs.calculate_dimensions(rgba.width, rgba.height);
            proof {
                use_type_invariant(&rgba);
                lemma_buffer_fits(4, rgba.width, new_height);
                lemma_buffer_fits(4, new_width, new_height);
            }
            if 4 * (rgba.width as u128) * (new_height as u128) > usize::MAX as u128 || 4 * (
            new_width as u128) * (new_height as u128) > usize::MAX as u128 {
                return Err(ConvertError::ImageTooLarge);
            }
            let pixels = resize_rgba(rgba.width, rgba.height, rgba.pixels, new_width, new_height);
            Ok(
                RasterImage {
                    width: new_width,
                    height: new_height,
                    layout: PixelLayout::Rgba8,
                    pixels,
                },
            )
        },
    }
}

} // verus!
