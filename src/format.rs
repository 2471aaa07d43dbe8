use vstd::prelude::*;

use crate::error::ConvertError;
use crate::paths::{extension_of, path_extension};

verus! {

/// The file formats that the pipeline reads or writes.
#[derive(Clone, Copy, Debug, PartialEq, Eq, Structural)]
pub enum Format {
    Pdf,
    Heif,
    Png,
    Jpeg,
    Bmp,
}

/// `c` is `lower` or, where `lower` is an ASCII lowercase letter, its
/// uppercase form.
pub open spec fn same_letter(c: char, lower: char) -> bool {
    c == lower || ('a' <= lower <= 'z' && c as u32 + 32 == lower as u32)
}

/// `s` spells `lower` with ASCII letters in either case.
pub open spec fn matches_ignoring_case(s: Seq<char>, lower: Seq<char>) -> bool {
    s.len() == lower.len() && forall|i: int| 0 <= i < s.len() ==> same_letter(#[trigger] s[i], lower[i])
}

/// The format that an extension or a format name denotes, in any letter case.
pub open spec fn format_named(s: Seq<char>) -> Option<Format> {
    if matches_ignoring_case(s, "png"@) {
        Some(Format::Png)
    } else if matches_ignoring_case(s, "pdf"@) {
        Some(Format::Pdf)
    } else if matches_ignoring_case(s, "jpeg"@) || matches_ignoring_case(s, "jpg"@) {
        Some(Format::Jpeg)
    } else if matches_ignoring_case(s, "heic"@) {
        Some(Format::Heif)
    } else if matches_ignoring_case(s, "bmp"@) {
        Some(Format::Bmp)
    } else {
        None
    }
}

/// The input token is a color literal: `#` and then 3, 4, 6 or 8 more
/// characters.
pub open spec fn is_color_literal(s: Seq<char>) -> bool {
    s.len() > 0 && s[0] == '#' && (s.len() == 4 || s.len() == 5 || s.len() == 7 || s.len() == 9)
}

/// The input format: the override if given, a color literal as BMP, else the
/// extension of the input path.
pub open spec fn input_format_of(input: Seq<char>, over: Option<Seq<char>>) -> Result<
    Format,
    ConvertError,
> {
    match over {
        Some(o) => match format_named(o) {
            Some(f) => Ok(f),
            None => Err(ConvertError::UnknownFormat),
        },
        None => if is_color_literal(input) {
            Ok(Format::Bmp)
        } else {
            match extension_of(input) {
                Some(e) => match format_named(e) {
                    Some(f) => Ok(f),
                    None => Err(ConvertError::UnknownFormat),
                },
                None => Err(ConvertError::UnknownFormat),
            }
        },
    }
}

/// The output format: the override if given, else the extension of the
/// output path if it has one, else the default for the input format.
pub open spec fn output_format_of(
    output_path: Option<Seq<char>>,
    over: Option<Seq<char>>,
    input_format: Format,
) -> Result<Format, ConvertError> {
    match over {
        Some(o) => match format_named(o) {
            Some(f) => Ok(f),
            None => Err(ConvertError::UnknownFormat),
        },
        None => match output_path {
            Some(p) if extension_of(p) is Some => match format_named(extension_of(p)->0) {
                Some(f) => Ok(f),
                None => Err(ConvertError::UnknownFormat),
            },
            _ => Ok(input_format.spec_default_output()),
        },
    }
}

impl Format {
    /// The canonical extension of each format.
    pub open spec fn spec_as_str(self) -> Seq<char> {
        match self {
            Format::Pdf => "pdf"@,
            Format::Heif => "heic"@,
            Format::Png => "png"@,
            Format::Jpeg => "jpg"@,
            Format::Bmp => "bmp"@,
        }
    }

    /// A format that the raster codec reads and writes.
    pub open spec fn is_raster(self) -> bool {
        self is Png || self is Jpeg || self is Bmp
    }

    /// Documents become PNG, HEIF becomes JPEG, a raster format stays itself.
    pub open spec fn spec_default_output(self) -> Format {
        match self {
            Format::Pdf => Format::Png,
            Format::Heif => Format::Jpeg,
            other => other,
        }
    }

    pub fn as_str(&self) -> (r: &'static str)
        ensures
            r@ == self.spec_as_str(),
    {
        match self {
            Format::Pdf => "pdf",
            Format::Heif => "heic",
            Format::Png => "png",
            Format::Jpeg => "jpg",
            Format::Bmp => "bmp",
        }
    }

    /// The format named by `input`, compared without regard to ASCII case.
    pub fn from_str(input: &str) -> (r: Result<Format, ()>)
        ensures
            r is Ok <==> format_named(input@) is Some,
            r matches Ok(f) ==> format_named(input@) == Some(f),
    {
        if eq_ignoring_case(input, "png") {
            Ok(Format::Png)
        } else if eq_ignoring_case(input, "pdf") {
            Ok(Format::Pdf)
        } else if eq_ignoring_case(input, "jpeg") || eq_ignoring_case(input, "jpg") {
            Ok(Format::Jpeg)
        } else if eq_ignoring_case(input, "heic") {
            Ok(Format::Heif)
        } else if eq_ignoring_case(input, "bmp") {
            Ok(Format::Bmp)
        } else {
            Err(())
        }
    }

    pub fn default_output(&self) -> (r: Format)
        ensures
            r == self.spec_default_output(),
    {
        match self {
            Format::Pdf => Format::Png,
            Format::Heif => Format::Jpeg,
            other => *other,
        }
    }
}

/// Whether `s` spells `lower` with ASCII letters in either case.
fn eq_ignoring_case(s: &str, lower: &str) -> (r: bool)
    ensures
        r == matches_ignoring_case(s@, lower@),
{
    let n = s.unicode_len();
    if n != lower.unicode_len() {
        return false;
    }
    let mut i: usize = 0;
    while i < n
        invariant
            n == s@.len() == lower@.len(),
            i <= n,
            forall|j: int| 0 <= j < i ==> same_letter(#[trigger] s@[j], lower@[j]),
        decreases n - i,
    {
        let c = s.get_char(i);
        let l = lower.get_char(i);
        let same = c == l || ('a' <= l && l <= 'z' && (c as u32) + 32 == l as u32);
        if !same {
            return false;
        }
        i = i + 1;
    }
    true
}

/// Every format reads back from its canonical extension; HEIF's is `heic`.
pub proof fn lemma_format_round_trip(f: Format)
    ensures
        format_named(f.spec_as_str()) == Some(f),
        Format::Heif.spec_as_str() == "heic"@,
{
    reveal_strlit("png");
    reveal_strlit("pdf");
    reveal_strlit("jpeg");
    reveal_strlit("jpg");
    reveal_strlit("heic");
    reveal_strlit("bmp");
    let s = f.spec_as_str();
    assert(matches_ignoring_case(s, s));
    match f {
        Format::Png => {},
        Format::Pdf => {
            assert(!same_letter(s[1], "png"@[1]));
        },
        Format::Jpeg => {
            assert(!same_letter(s[0], "png"@[0]));
            assert(!same_letter(s[0], "pdf"@[0]));
        },
        Format::Heif => {
            assert(!same_letter(s[0], "jpeg"@[0]));
        },
        Format::Bmp => {
            assert(!same_letter(s[0], "png"@[0]));
            assert(!same_letter(s[0], "pdf"@[0]));
            assert(!same_letter(s[0], "jpg"@[0]));
        },
    }
}

/// Resolves the format of one input: `input_format` when given, BMP for a
/// color literal, else the extension of the input path.
pub fn resolve_input_format(input: &str, input_format: Option<&str>) -> (r: Result<
    Format,
    ConvertError,
>)
    ensures
        r == input_format_of(
            input@,
            match input_format {
                Some(o) => Some(o@),
                None => None::<Seq<char>>,
            },
        ),
{
    if let Some(format) = input_format {
        return match Format::from_str(format) {
            Ok(f) => Ok(f),
            Err(_) => Err(ConvertError::UnknownFormat),
        };
    }
    let n = input.unicode_len();
    if n > 0 && input.get_char(0) == '#' && (n == 4 || n == 5 || n == 7 || n == 9) {
        return Ok(Format::Bmp);
    }
    match path_extension(input) {
        Some(ext) => match Format::from_str(ext.as_str()) {
            Ok(f) => Ok(f),
            Err(_) => Err(ConvertError::UnknownFormat),
        },
        None => Err(ConvertError::UnknownFormat),
    }
}

/// Resolves the output format: `output_format` when given, else the
/// extension of `output_path`, else the default for `input_format`.
pub fn resolve_output_format(
    output_path: Option<&str>,
    output_format: Option<&str>,
    input_format: Format,
) -> (r: Result<Format, ConvertError>)
    ensures
        r == output_format_of(
            match output_path {
                Some(p) => Some(p@),
                None => None::<Seq<char>>,
            },
            match output_format {
                Some(o) => Some(o@),
                None => None::<Seq<char>>,
            },
            input_format,
        ),
{
    if let Some(output) = output_format {
        return match Format::from_str(output) {
            Ok(f) => Ok(f),
            Err(_) => Err(ConvertError::UnknownFormat),
        };
    }
    if let Some(output) = output_path {
        if let Some(ext) = path_extension(output) {
            return match Format::from_str(ext.as_str()) {
                Ok(f) => Ok(f),
                Err(_) => Err(ConvertError::UnknownFormat),
            };
        }
    }
    Ok(input_format.default_output())
}

} // verus!
