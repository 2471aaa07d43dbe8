use vstd::prelude::*;
use vstd::slice::slice_to_vec;

use pdfium_render::prelude::Pdfium;

use crate::color::{color_bytes, resolve_hex_color};
use crate::error::ConvertError;
use crate::format::{format_named, Format};
use crate::geometry::{Resize, Scale};
use crate::paths::{extension_of, file_stem_of, path_extension, path_file_stem};
use crate::pdf::{page_count, page_result, render_page};
use crate::raster::{
    apply_resize, decode_raster, decoded_rgba, decodes_to, encode_raster, encodes_to,
    raw_then_transformed, transformed,
    RasterImage,
};
use crate::template::{create_path, expand, expand_template};

verus! {

/// Where the bytes of an image live.
pub enum DataSource {
    /// A file on disk, not read yet.
    File(String, Format),
    /// Encoded bytes in memory.
    Memory(Vec<u8>, Format),
    /// An image that is already decoded.
    Image(RasterImage),
}

impl DataSource {
    /// The path of a `File` source.
    pub fn input_file(&self) -> (r: Option<&String>)
        ensures
            r is Some <==> self is File,
            r matches Some(p) ==> self matches DataSource::File(q, _) && p@ == q@,
    {
        match self {
            DataSource::File(path, _) => Some(path),
            _ => None,
        }
    }
}

/// How the HEIF decoder failed.
#[derive(Clone, Copy, Debug, PartialEq, Eq, Structural)]
pub enum HeifFailure {
    /// The bytes carry no HEIF container header; such files are often JPEG.
    MissingContainerHeader,
    /// Any other failure.
    Malformed,
}

/// `r` settles a HEIF decoding of `bytes`: a decoded image stands; bytes
/// without a HEIF container header are what the JPEG codec makes of them;
/// any other failure is a decode error.
pub open spec fn heif_settled(
    r: Result<RasterImage, ConvertError>,
    outcome: Result<RasterImage, HeifFailure>,
    bytes: Seq<u8>,
) -> bool {
    match outcome {
        Ok(img) => r is Ok && r->Ok_0.spec_width() == img.spec_width() && r->Ok_0.spec_height()
            == img.spec_height() && r->Ok_0.spec_layout() == img.spec_layout()
            && r->Ok_0.spec_pixels() == img.spec_pixels(),
        Err(HeifFailure::MissingContainerHeader) => decodes_to(r, bytes, Format::Jpeg),
        Err(HeifFailure::Malformed) => r == Err::<RasterImage, ConvertError>(ConvertError::DecodeError),
    }
}

/// Settles a HEIF decoding: a decoded image stands; bytes that lack a HEIF
/// container header are decoded once more as JPEG; any other failure is a
/// decode error.
pub fn decode_heif_outcome(outcome: Result<RasterImage, HeifFailure>, bytes: &[u8]) -> (r: Result<
    RasterImage,
    ConvertError,
>)
    ensures
        heif_settled(r, outcome, bytes@),
{
    match outcome {
        Ok(img) => Ok(img),
        Err(HeifFailure::MissingContainerHeader) => decode_raster(bytes, Format::Jpeg),
        Err(HeifFailure::Malformed) => Err(ConvertError::DecodeError),
    }
}

/// Refuses to write `output` over `input` unless `force` is set. The caller
/// hands in both paths in canonical form, so that equal text means the same
/// file.
pub fn check_overwrite(output: &str, input: &str, force: bool) -> (r: Result<(), ConvertError>)
    ensures
        r is Err <==> output@ == input@ && !force,
        r is Err ==> r == Err::<(), ConvertError>(ConvertError::WouldOverwriteInput),
{
    let a = String::from_str(output);
    let b = String::from_str(input);
    if !force && a == b {
        Err(ConvertError::WouldOverwriteInput)
    } else {
        Ok(())
    }
}

/// The template used when no output path is given: one file per page for a
/// document, else one file named after the input.
pub open spec fn spec_default_template(input_format: Format, output_format: Format) -> Seq<char> {
    if input_format is Pdf {
        "{}_{i}."@ + output_format.spec_as_str()
    } else {
        "{}."@ + output_format.spec_as_str()
    }
}

pub fn default_template(input_format: Format, output_format: Format) -> (r: String)
    ensures
        r@ == spec_default_template(input_format, output_format),
{
    let mut t = if let Format::Pdf = input_format {
        String::from_str("{}_{i}.")
    } else {
        String::from_str("{}.")
    };
    t.append(output_format.as_str());
    t
}

/// Encoded PDF bytes in memory.
pub open spec fn is_pdf_bytes(s: DataSource) -> bool {
    match s {
        DataSource::Memory(_, f) => f is Pdf,
        _ => false,
    }
}

/// Encoded HEIF bytes in memory.
pub open spec fn is_heif_bytes(s: DataSource) -> bool {
    match s {
        DataSource::Memory(_, f) => f is Heif,
        _ => false,
    }
}

/// Encoded bytes in memory in a format that the raster codec reads.
pub open spec fn holds_raster_bytes(s: DataSource) -> bool {
    match s {
        DataSource::Memory(_, f) => f.is_raster(),
        _ => false,
    }
}

/// The overwrite guard refuses `output`: it is the input and `force` is not
/// set.
pub open spec fn guard_trips(output: Seq<char>, input: Option<&str>, force: bool) -> bool {
    match input {
        Some(i) => output == i@ && !force,
        None => false,
    }
}

/// `r` is frame `index` of a page of a `count`-page document, from what the
/// backend rendered for it, then transformed by `resize`.
pub open spec fn document_frame(
    r: Result<RasterImage, ConvertError>,
    resize: Option<Resize>,
    index: int,
    count: u16,
    rendered: Option<(u32, u32, Seq<u8>)>,
) -> bool {
    if index >= count {
        r == Err::<RasterImage, ConvertError>(ConvertError::PageOutOfBounds)
    } else {
        raw_then_transformed(r, resize, rendered)
    }
}

/// What rendering frame `index` of `source` gives, with `resize` pending and
/// the PDF backend present or not.
///
/// An unread file is not found; HEIF bytes must first be settled; without the
/// backend a document cannot load. A single-frame source has only frame 0: an
/// image is transformed as it is, raster bytes as the codec decodes them. A
/// document either fails to load, or its page is settled from the backend's
/// page count and render and then transformed.
pub open spec fn frame_result(
    source: DataSource,
    resize: Option<Resize>,
    has_backend: bool,
    index: int,
    r: Result<RasterImage, ConvertError>,
) -> bool {
    match source {
        DataSource::File(..) => r == Err::<RasterImage, ConvertError>(ConvertError::FileNotFound),
        DataSource::Memory(bytes, f) => if f is Heif {
            r == Err::<RasterImage, ConvertError>(ConvertError::DecodeError)
        } else if f is Pdf {
            if !has_backend {
                r == Err::<RasterImage, ConvertError>(ConvertError::DocumentLoadError)
            } else {
                r == Err::<RasterImage, ConvertError>(ConvertError::DocumentLoadError) || exists|
                    count: u16,
                    rendered: Option<(u32, u32, Seq<u8>)>,
                | #[trigger] document_frame(r, resize, index, count, rendered)
            }
        } else if index != 0 {
            r == Err::<RasterImage, ConvertError>(ConvertError::PageOutOfBounds)
        } else {
            raw_then_transformed(r, resize, decoded_rgba(bytes@, f))
        },
        DataSource::Image(img) => if index != 0 {
            r == Err::<RasterImage, ConvertError>(ConvertError::PageOutOfBounds)
        } else {
            transformed(r, resize, img.spec_width(), img.spec_height(), img.spec_layout(), img.spec_pixels())
        },
    }
}

/// The pipeline value: a source, the path it came from, and a pending resize.
pub struct Image {
    pub(crate) source: DataSource,
    pub(crate) input_path: Option<String>,
    pub(crate) resize: Option<Resize>,
}

/// The resize after a setter: an absent resize starts from no constraint.
pub open spec fn base_resize(r: Option<Resize>) -> Resize {
    match r {
        Some(rs) => rs,
        None => Resize { width: None, height: None, max_width: None, max_height: None, scale: None },
    }
}

/// The path of a file source.
pub open spec fn source_path(s: DataSource) -> Option<Seq<char>> {
    match s {
        DataSource::File(p, _) => Some(p@),
        _ => None,
    }
}

impl Image {
    pub open(crate) spec fn spec_source(&self) -> DataSource {
        self.source
    }

    pub open(crate) spec fn spec_input_path(&self) -> Option<Seq<char>> {
        match self.input_path {
            Some(p) => Some(p@),
            None => None,
        }
    }

    pub open(crate) spec fn spec_resize(&self) -> Option<Resize> {
        self.resize
    }

    pub fn source(&self) -> (r: &DataSource)
        ensures
            *r == self.spec_source(),
    {
        &self.source
    }

    pub fn input_path(&self) -> (r: Option<&String>)
        ensures
            r is Some <==> self.spec_input_path() is Some,
            r matches Some(p) ==> Some(p@) == self.spec_input_path(),
    {
        match &self.input_path {
            Some(p) => Some(p),
            None => None,
        }
    }

    pub fn resize(&self) -> (r: Option<Resize>)
        ensures
            r == self.spec_resize(),
    {
        self.resize
    }

    pub fn new(source: DataSource) -> (r: Image)
        ensures
            r.spec_source() == source,
            r.spec_input_path() == source_path(source),
            r.spec_resize() is None,
    {
        let input_path = match &source {
            DataSource::File(p, _) => Some(p.clone()),
            _ => None,
        };
        Image { source, input_path, resize: None }
    }

    /// A file source whose format is given by the extension of `path`.
    pub fn open(path: &str) -> (r: Result<Image, ConvertError>)
        ensures
            (match extension_of(path@) {
                Some(e) => format_named(e) is None,
                None => true,
            }) ==> r == Err::<Image, ConvertError>(ConvertError::UnknownFormat),
            r matches Ok(im) ==> extension_of(path@) is Some && (im.spec_source() matches DataSource::File(
                p,
                f,
            ) && p@ == path@ && Some(f) == format_named(extension_of(path@)->0))
                && im.spec_input_path() == Some(path@) && im.spec_resize() is None,
            (match extension_of(path@) {
                Some(e) => format_named(e) is Some,
                None => false,
            }) ==> r is Ok,
    {
        let ext = match path_extension(path) {
            Some(e) => e,
            None => return Err(ConvertError::UnknownFormat),
        };
        match Format::from_str(ext.as_str()) {
            Ok(format) => Ok(Image::new(DataSource::File(String::from_str(path), format))),
            Err(_) => Err(ConvertError::UnknownFormat),
        }
    }

    /// An in-memory source of encoded bytes in `format`.
    pub fn read(data: &[u8], format: Format) -> (r: Result<Image, ConvertError>)
        ensures
            r is Ok,
            r matches Ok(im) ==> (im.spec_source() matches DataSource::Memory(b, f) && b@ == data@
                && f == format),
            r matches Ok(im) ==> im.spec_input_path() is None && im.spec_resize() is None,
    {
        Ok(Image::new(DataSource::Memory(slice_to_vec(data), format)))
    }

    fn with_resize(self, rs: Resize) -> (r: Image)
        ensures
            r.spec_source() == self.spec_source(),
            r.spec_input_path() == self.spec_input_path(),
            r.spec_resize() == Some(rs),
    {
        Image { source: self.source, input_path: self.input_path, resize: Some(rs) }
    }

    fn current_resize(&self) -> (r: Resize)
        ensures
            r == base_resize(self.spec_resize()),
    {
        match self.resize {
            Some(rs) => rs,
            None => Resize::default(),
        }
    }

    /// Sets the target width; the other fields of the resize stay.
    pub fn set_width(self, width: u32) -> (r: Image)
        ensures
            r.spec_source() == self.spec_source(),
            r.spec_input_path() == self.spec_input_path(),
            r.spec_resize() == Some(Resize { width: Some(width), ..base_resize(self.spec_resize()) }),
    {
        let rs = self.current_resize();
        self.with_resize(Resize { width: Some(width), ..rs })
    }

    /// Sets the target height; the other fields of the resize stay.
    pub fn set_height(self, height: u32) -> (r: Image)
        ensures
            r.spec_source() == self.spec_source(),
            r.spec_input_path() == self.spec_input_path(),
            r.spec_resize() == Some(Resize { height: Some(height), ..base_resize(self.spec_resize()) }),
    {
        let rs = self.current_resize();
        self.with_resize(Resize { height: Some(height), ..rs })
    }

    /// Sets the maximum width; the other fields of the resize stay.
    pub fn max_width(self, max_width: u32) -> (r: Image)
        ensures
            r.spec_source() == self.spec_source(),
            r.spec_input_path() == self.spec_input_path(),
            r.spec_resize() == Some(
                Resize { max_width: Some(max_width), ..base_resize(self.spec_resize()) },
            ),
    {
        let rs = self.current_resize();
        self.with_resize(Resize { max_width: Some(max_width), ..rs })
    }

    /// Sets the maximum height; the other fields of the resize stay.
    pub fn max_height(self, max_height: u32) -> (r: Image)
        ensures
            r.spec_source() == self.spec_source(),
            r.spec_input_path() == self.spec_input_path(),
            r.spec_resize() == Some(
                Resize { max_height: Some(max_height), ..base_resize(self.spec_resize()) },
            ),
    {
        let rs = self.current_resize();
        self.with_resize(Resize { max_height: Some(max_height), ..rs })
    }

    /// Sets the scale factor; the other fields of the resize stay.
    pub fn scale(self, scale: Scale) -> (r: Image)
        ensures
            r.spec_source() == self.spec_source(),
            r.spec_input_path() == self.spec_input_path(),
            r.spec_resize() == Some(Resize { scale: Some(scale), ..base_resize(self.spec_resize()) }),
    {
        let rs = self.current_resize();
        self.with_resize(Resize { scale: Some(scale), ..rs })
    }
}

impl Image {
    /// Hands a file source the bytes that were read from its path, or `None`
    /// where the file was not found; other sources stay as they are. The path
    /// stays recorded for output naming.
    pub fn load(self, contents: Option<Vec<u8>>) -> (r: Result<Image, ConvertError>)
        ensures
            !(self.spec_source() is File) ==> r is Ok && r->Ok_0.spec_source() == self.spec_source(),
            self.spec_source() is File && contents is None ==> r == Err::<Image, ConvertError>(
                ConvertError::FileNotFound,
            ),
            self.spec_source() is File && contents is Some ==> r is Ok && r->Ok_0.spec_source()
                == DataSource::Memory(contents->0, self.spec_source()->File_1),
            r matches Ok(im) ==> im.spec_input_path() == self.spec_input_path() && im.spec_resize()
                == self.spec_resize(),
    {
        match self.source {
            DataSource::File(path, format) => match contents {
                Some(bytes) => Ok(
                    Image {
                        source: DataSource::Memory(bytes, format),
                        input_path: self.input_path,
                        resize: self.resize,
                    },
                ),
                None => Err(ConvertError::FileNotFound),
            },
            source => Ok(Image { source, input_path: self.input_path, resize: self.resize }),
        }
    }

    /// Settles the HEIF decoding of an in-memory HEIF source (see
    /// `decode_heif_outcome`) into a decoded source; other sources stay.
    pub fn load_heif(self, outcome: Result<RasterImage, HeifFailure>) -> (r: Result<
        Image,
        ConvertError,
    >)
        ensures
            !is_heif_bytes(self.spec_source()) ==> r is Ok && r->Ok_0.spec_source()
                == self.spec_source(),
            is_heif_bytes(self.spec_source()) ==> match r {
                Ok(im) => im.spec_source() is Image && heif_settled(
                    Ok(im.spec_source()->Image_0),
                    outcome,
                    self.spec_source()->Memory_0@,
                ),
                Err(e) => heif_settled(Err(e), outcome, self.spec_source()->Memory_0@),
            },
            r matches Ok(im) ==> im.spec_input_path() == self.spec_input_path() && im.spec_resize()
                == self.spec_resize(),
    {
        match self.source {
            DataSource::Memory(bytes, Format::Heif) => {
                let img = decode_heif_outcome(outcome, bytes.as_slice())?;
                Ok(Image { source: DataSource::Image(img), input_path: self.input_path, resize: self.resize })
            },
            source => Ok(Image { source, input_path: self.input_path, resize: self.resize }),
        }
    }

    /// The number of frames: the page count of a document, one otherwise.
    pub fn frame_count(&self, pdfium: Option<&Pdfium>) -> (r: Result<usize, ConvertError>)
        ensures
            self.spec_source() is File ==> r == Err::<usize, ConvertError>(ConvertError::FileNotFound),
            is_pdf_bytes(self.spec_source()) && pdfium is None ==> r
                == Err::<usize, ConvertError>(ConvertError::DocumentLoadError),
            is_pdf_bytes(self.spec_source()) ==> (r is Err ==> r
                == Err::<usize, ConvertError>(ConvertError::DocumentLoadError)),
            !(self.spec_source() is File) && !is_pdf_bytes(self.spec_source()) ==> r == Ok::<usize, ConvertError>(1),
    {
        match &self.source {
            DataSource::File(..) => Err(ConvertError::FileNotFound),
            DataSource::Memory(bytes, Format::Pdf) => match pdfium {
                Some(p) => page_count(p, bytes.as_slice()),
                None => Err(ConvertError::DocumentLoadError),
            },
            _ => Ok(1),
        }
    }

    /// Frame `index` (0-based) decoded, brought to RGBA and resized. A file
    /// source must be loaded first, and HEIF bytes settled with `load_heif`;
    /// a document needs the PDF backend.
    pub fn render_frame(&self, pdfium: Option<&Pdfium>, index: usize) -> (r: Result<
        RasterImage,
        ConvertError,
    >)
        ensures
            frame_result(self.spec_source(), self.spec_resize(), pdfium is Some, index as int, r),
    {
        match &self.source {
            DataSource::File(..) => Err(ConvertError::FileNotFound),
            DataSource::Memory(_, Format::Heif) => Err(ConvertError::DecodeError),
            DataSource::Memory(bytes, Format::Pdf) => match pdfium {
                Some(p) => {
                    let page = render_page(p, bytes.as_slice(), index);
                    let ghost g = page;
                    match page {
                        Ok(img) => {
                            let r = apply_resize(img, self.resize);
                            proof {
                                let (c, rd) = choose|c: u16, rd: Option<(u32, u32, Seq<u8>)>|
                                    #[trigger] page_result(g, index as int, c, rd);
                                assert(document_frame(r, self.resize, index as int, c, rd));
                            }
                            r
                        },
                        Err(e) => {
                            proof {
                                if e != ConvertError::DocumentLoadError {
                                    let (c, rd) = choose|c: u16, rd: Option<(u32, u32, Seq<u8>)>|
                                        #[trigger] page_result(g, index as int, c, rd);
                                    assert(document_frame(Err(e), self.resize, index as int, c, rd));
                                }
                            }
                            Err(e)
                        },
                    }
                },
                None => Err(ConvertError::DocumentLoadError),
            },
            DataSource::Memory(bytes, format) => {
                if index != 0 {
                    return Err(ConvertError::PageOutOfBounds);
                }
                let native = decode_raster(bytes.as_slice(), *format)?;
                apply_resize(native, self.resize)
            },
            DataSource::Image(img) => {
                if index != 0 {
                    return Err(ConvertError::PageOutOfBounds);
                }
                apply_resize(img.duplicate(), self.resize)
            },
        }
    }

    /// The output path of frame `index` (0-based) of `count`: the template
    /// expanded with the input's file stem and the 1-based frame number; an
    /// image that came from no file is written to `stdin`.
    pub fn frame_path(&self, path_template: &str, index: usize, count: usize) -> (r: Result<
        String,
        ConvertError,
    >)
        requires
            index < count,
        ensures
            self.spec_input_path() is None ==> r is Ok && r->Ok_0@ == "stdin"@,
            self.spec_input_path() is Some && file_stem_of(self.spec_input_path()->0) is None ==> r
                == Err::<String, ConvertError>(ConvertError::MissingFileStem),
            self.spec_input_path() is Some && file_stem_of(self.spec_input_path()->0) is Some ==> r is Ok
                && r->Ok_0@ == expand(
                path_template@,
                file_stem_of(self.spec_input_path()->0)->0,
                (index + 1) as nat,
                count as nat,
            ),
    {
        match &self.input_path {
            Some(path) => create_path(path_template, path.as_str(), index + 1, count),
            None => Ok(String::from_str("stdin")),
        }
    }

    /// The output paths of all `count` frames, in order: the template
    /// expanded with the input's file stem and the 1-based frame number; an
    /// image that came from no file is written to `stdin`.
    pub fn output_paths(&self, path_template: &str, count: usize) -> (r: Result<
        Vec<String>,
        ConvertError,
    >)
        ensures
            self.spec_input_path() is None ==> r is Ok && r->Ok_0@.len() == count && forall|i: int|
                0 <= i < count ==> (#[trigger] r->Ok_0@[i])@ == "stdin"@,
            self.spec_input_path() is Some && file_stem_of(self.spec_input_path()->0) is None ==> r
                == Err::<Vec<String>, ConvertError>(ConvertError::MissingFileStem),
            self.spec_input_path() is Some && file_stem_of(self.spec_input_path()->0) is Some ==> r is Ok
                && r->Ok_0@.len() == count && forall|i: int|
                0 <= i < count ==> (#[trigger] r->Ok_0@[i])@ == expand(
                    path_template@,
                    file_stem_of(self.spec_input_path()->0)->0,
                    (i + 1) as nat,
                    count as nat,
                ),
    {
        let stem: Option<String> = match &self.input_path {
            Some(path) => match path_file_stem(path.as_str()) {
                Some(stem) => Some(stem),
                None => {
                    return Err(ConvertError::MissingFileStem);
                },
            },
            None => None,
        };
        let mut paths: Vec<String> = Vec::new();
        let mut i: usize = 0;
        while i < count
            invariant
                i <= count,
                paths@.len() == i,
                self.spec_input_path() is None ==> stem is None,
                self.spec_input_path() is Some ==> stem is Some && Some(stem->0@) == file_stem_of(
                    self.spec_input_path()->0,
                ),
                forall|k: int|
                    0 <= k < i ==> (#[trigger] paths@[k])@ == match stem {
                        Some(st) => expand(path_template@, st@, (k + 1) as nat, count as nat),
                        None => "stdin"@,
                    },
            decreases count - i,
        {
            let path = match &stem {
                Some(st) => expand_template(path_template, st.as_str(), i + 1, count),
                None => String::from_str("stdin"),
            };
            paths.push(path);
            i = i + 1;
        }
        Ok(paths)
    }

    /// The encoded bytes of frame `index` for the output at `output`, with
    /// `output` and the input path (if any) in canonical form. The overwrite
    /// guard comes first: an output that is the input is refused unless
    /// `force` is set, before anything is decoded. Then the frame is rendered
    /// and encoded as `format`; the first failure ends the step.
    pub fn frame_output(
        &self,
        pdfium: Option<&Pdfium>,
        index: usize,
        output: &str,
        input: Option<&str>,
        force: bool,
        format: Format,
    ) -> (r: Result<Vec<u8>, ConvertError>)
        ensures
            guard_trips(output@, input, force) ==> r == Err::<Vec<u8>, ConvertError>(
                ConvertError::WouldOverwriteInput,
            ),
            !guard_trips(output@, input, force) ==> exists|
                frame: Result<RasterImage, ConvertError>,
            |
                #[trigger] frame_result(
                    self.spec_source(),
                    self.spec_resize(),
                    pdfium is Some,
                    index as int,
                    frame,
                ) && match frame {
                    Ok(img) => encodes_to(r, img, format),
                    Err(e) => r == Err::<Vec<u8>, ConvertError>(e),
                },
    {
        if let Some(i) = input {
            if let Err(e) = check_overwrite(output, i, force) {
                return Err(e);
            }
        }
        let frame = self.render_frame(pdfium, index);
        let ghost g = frame;
        match frame {
            Ok(img) => {
                let r = encode_raster(img, format);
                assert(frame_result(self.spec_source(), self.spec_resize(), pdfium is Some, index as int, g));
                r
            },
            Err(e) => {
                assert(frame_result(self.spec_source(), self.spec_resize(), pdfium is Some, index as int, g));
                Err(e)
            },
        }
    }

    /// The first frame, decoded, brought to RGBA and resized.
    pub fn to_image(self, pdfium: Option<&Pdfium>) -> (r: Result<RasterImage, ConvertError>)
        ensures
            frame_result(self.spec_source(), self.spec_resize(), pdfium is Some, 0, r),
    {
        self.render_frame(pdfium, 0)
    }

    /// Decodes and transforms the first frame now: the result holds that
    /// frame as a decoded source with no resize pending, and keeps the input
    /// path.
    pub fn apply(self, pdfium: Option<&Pdfium>) -> (r: Result<Image, ConvertError>)
        ensures
            match r {
                Ok(im) => im.spec_source() is Image && frame_result(
                    self.spec_source(),
                    self.spec_resize(),
                    pdfium is Some,
                    0,
                    Ok(im.spec_source()->Image_0),
                ),
                Err(e) => frame_result(self.spec_source(), self.spec_resize(), pdfium is Some, 0, Err(e)),
            },
            r matches Ok(im) ==> im.spec_resize() is None && im.spec_input_path() == self.spec_input_path(),
    {
        let img = self.render_frame(pdfium, 0)?;
        Ok(Image { source: DataSource::Image(img), input_path: self.input_path, resize: None })
    }
}

/// The side of the square image that a color literal stands for.
pub const COLOR_IMAGE_SIDE: u32 = 512;

/// The source named by one input token: a color literal (starting with `#`)
/// becomes a solid 512 by 512 image, RGB for three channels and RGBA for
/// four; anything else is a file path in `input_format`.
pub fn resolve_image(input: &str, input_format: Format) -> (r: Result<Image, ConvertError>)
    ensures
        !(input@.len() > 0 && input@[0] == '#') ==> r is Ok && (r->Ok_0.spec_source()
            matches DataSource::File(p, f) && p@ == input@ && f == input_format),
        input@.len() > 0 && input@[0] == '#' && color_bytes(input@) is None ==> r == Err::<
            Image,
            ConvertError,
        >(ConvertError::InvalidHexColor),
        input@.len() > 0 && input@[0] == '#' && color_bytes(input@) is Some ==> r is Ok && ({
            let c = color_bytes(input@)->0;
            r->Ok_0.spec_source() matches DataSource::Image(img) && img.spec_width() == 512
                && img.spec_height() == 512 && img.spec_layout().spec_channels() == c.len()
                && forall|i: int|
                0 <= i < img.spec_pixels().len() ==> #[trigger] img.spec_pixels()[i] == c[i
                    % c.len() as int]
        }),
        r matches Ok(im) ==> im.spec_resize() is None && im.spec_input_path() == source_path(
            im.spec_source(),
        ),
{
    let n = input.unicode_len();
    if n > 0 && input.get_char(0) == '#' {
        let color = resolve_hex_color(input)?;
        let img = RasterImage::solid(COLOR_IMAGE_SIDE, COLOR_IMAGE_SIDE, &color)?;
        return Ok(Image::new(DataSource::Image(img)));
    }
    Ok(Image::new(DataSource::File(String::from_str(input), input_format)))
}

} // verus!
