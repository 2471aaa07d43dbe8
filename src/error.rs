use vstd::prelude::*;

verus! {

/// Why a conversion did not complete.
#[derive(Clone, Copy, Debug, PartialEq, Eq, Structural)]
pub enum ConvertError {
    /// An extension or a format name that names no known format.
    UnknownFormat,
    /// The source file is missing.
    FileNotFound,
    /// The bytes are not a document that the document backend can load.
    DocumentLoadError,
    /// A page index at or past the page count.
    PageOutOfBounds,
    /// A malformed raster or HEIF payload.
    DecodeError,
    /// A malformed color literal.
    InvalidHexColor,
    /// The output would replace the input and overwriting was not allowed.
    WouldOverwriteInput,
    /// The raster codec could not encode the image.
    EncodeError,
    /// The output could not be written.
    WriteError,
    /// The input path has no file stem to put into a path template.
    MissingFileStem,
    /// The requested pixel buffer does not fit in memory's address range.
    ImageTooLarge,
}

impl ConvertError {
    /// A human-readable cause.
    pub fn message(&self) -> &'static str {
        match self {
            ConvertError::UnknownFormat => "unknown image format",
            ConvertError::FileNotFound => "file not found",
            ConvertError::DocumentLoadError => "failed to load document",
            ConvertError::PageOutOfBounds => "page out of bounds",
            ConvertError::DecodeError => "failed to decode image",
            ConvertError::InvalidHexColor => "invalid hex color code",
            ConvertError::WouldOverwriteInput => "output path is the same as input path",
            ConvertError::EncodeError => "failed to encode image",
            ConvertError::WriteError => "failed to write output",
            ConvertError::MissingFileStem => "input path has no file name",
            ConvertError::ImageTooLarge => "image dimensions are too large",
        }
    }
}

} // verus!
