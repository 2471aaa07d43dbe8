use vstd::prelude::*;

use pdfium_render::prelude::{PdfDocument, PdfPage, PdfRenderConfig, Pdfium, PdfiumError};

use crate::error::ConvertError;
use crate::raster::{buffer_len, PixelLayout, RasterImage};

verus! {

#[verifier::external_type_specification]
#[verifier::external_body]
pub struct ExPdfium(Pdfium);

#[verifier::external_type_specification]
#[verifier::external_body]
pub struct ExPdfDocument<'a>(PdfDocument<'a>);

#[verifier::external_type_specification]
#[verifier::external_body]
pub struct ExPdfPage<'a>(PdfPage<'a>);

#[verifier::external_type_specification]
#[verifier::external_body]
pub struct ExPdfRenderConfig(PdfRenderConfig);

#[verifier::external_type_specification]
#[verifier::external_body]
pub struct ExPdfiumError(PdfiumError);

/// Relies on `Pdfium::load_pdf_from_byte_slice`: loads the document held in
/// `bytes`, which has no password.
#[verifier::external_body]
fn load_document<'a>(pdfium: &'a Pdfium, bytes: &'a [u8]) -> (r: Result<PdfDocument<'a>, PdfiumError>) {
    pdfium.load_pdf_from_byte_slice(bytes, None)
}

/// Relies on `PdfPages::len`: the number of pages of the document.
#[verifier::external_body]
fn document_page_count(doc: &PdfDocument) -> (r: u16) {
    doc.pages().len()
}

/// Relies on `PdfPages::get`: the page at a 0-based index.
#[verifier::external_body]
fn document_page<'a>(doc: &PdfDocument<'a>, index: u16) -> (r: Result<PdfPage<'a>, PdfiumError>) {
    doc.pages().get(index)
}

/// Relies on `PdfRenderConfig::new`: the default rendering settings, which
/// render a page at its own size.
#[verifier::external_body]
fn default_render_config() -> (r: PdfRenderConfig) {
    PdfRenderConfig::new()
}

/// Relies on `PdfPage::render_with_config`: the page rendered to a bitmap,
/// handed back as its width, height and RGBA bytes (`PdfBitmap::as_rgba_bytes`).
#[verifier::external_body]
fn render_rgba(page: &PdfPage, config: &PdfRenderConfig) -> (r: Result<
    (u32, u32, Vec<u8>),
    PdfiumError,
>) {
    let bitmap = page.render_with_config(config)?;
    Ok((bitmap.width() as u32, bitmap.height() as u32, bitmap.as_rgba_bytes()))
}

/// The number of pages of the document in `bytes`.
pub fn page_count(pdfium: &Pdfium, bytes: &[u8]) -> (r: Result<usize, ConvertError>)
    ensures
        r is Err ==> r == Err::<usize, ConvertError>(ConvertError::DocumentLoadError),
{
    match load_document(pdfium, bytes) {
        Ok(doc) => Ok(document_page_count(&doc) as usize),
        Err(_) => Err(ConvertError::DocumentLoadError),
    }
}

/// What a render of page `index` of a `count`-page document gives: past the
/// last page, `PageOutOfBounds`; else the rendered RGBA bitmap, or a decode
/// error where there is none or its buffer does not match its size.
pub open spec fn page_result(
    r: Result<RasterImage, ConvertError>,
    index: int,
    count: u16,
    rendered: Option<(u32, u32, Seq<u8>)>,
) -> bool {
    if index >= count {
        r == Err::<RasterImage, ConvertError>(ConvertError::PageOutOfBounds)
    } else {
        match rendered {
            Some((w, h, p)) => if p.len() == buffer_len(PixelLayout::Rgba8, w as int, h as int) {
                r is Ok && r->Ok_0.spec_width() == w && r->Ok_0.spec_height() == h
                    && r->Ok_0.spec_layout() == PixelLayout::Rgba8 && r->Ok_0.spec_pixels() == p
            } else {
                r == Err::<RasterImage, ConvertError>(ConvertError::DecodeError)
            },
            None => r == Err::<RasterImage, ConvertError>(ConvertError::DecodeError),
        }
    }
}

pub open spec fn raw_view(raw: Option<(u32, u32, Vec<u8>)>) -> Option<(u32, u32, Seq<u8>)> {
    match raw {
        Some((w, h, p)) => Some((w, h, p@)),
        None => None,
    }
}

/// Settles page `index` of a `count`-page document from what the backend
/// rendered for it (`None` where fetching or rendering the page failed).
pub fn page_outcome(index: usize, count: u16, rendered: Option<(u32, u32, Vec<u8>)>) -> (r: Result<
    RasterImage,
    ConvertError,
>)
    ensures
        page_result(r, index as int, count, raw_view(rendered)),
{
    if index >= count as usize {
        return Err(ConvertError::PageOutOfBounds);
    }
    match rendered {
        Some((width, height, pixels)) => match RasterImage::new(width, height, PixelLayout::Rgba8, pixels) {
            Some(img) => Ok(img),
            None => Err(ConvertError::DecodeError),
        },
        None => Err(ConvertError::DecodeError),
    }
}

/// The page at the 0-based `index` of the document in `bytes`, rendered at
/// its own size to RGBA pixels. The load fails with `DocumentLoadError`;
/// otherwise the result is `page_outcome` of the page count and the render.
pub fn render_page(pdfium: &Pdfium, bytes: &[u8], index: usize) -> (r: Result<
    RasterImage,
    ConvertError,
>)
    ensures
        r == Err::<RasterImage, ConvertError>(ConvertError::DocumentLoadError) || exists|
            count: u16,
            rendered: Option<(u32, u32, Seq<u8>)>,
        | #[trigger] page_result(r, index as int, count, rendered),
{
    let doc = match load_document(pdfium, bytes) {
        Ok(doc) => doc,
        Err(_) => return Err(ConvertError::DocumentLoadError),
    };
    let count = document_page_count(&doc);
    let rendered = if index >= count as usize {
        None
    } else {
        match document_page(&doc, index as u16) {
            Ok(page) => {
                let config = default_render_config();
                match render_rgba(&page, &config) {
                    Ok(raw) => Some(raw),
                    Err(_) => None,
                }
            },
            Err(_) => None,
        }
    };
    let ghost seen = raw_view(rendered);
    let r = page_outcome(index, count, rendered);
    assert(page_result(r, index as int, count, seen));
    r
}

} // verus!
