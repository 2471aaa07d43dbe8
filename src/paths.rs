use vstd::prelude::*;

verus! {

/// The extension of the last component of a path, as `std::path::Path`
/// splits it off.
pub uninterp spec fn extension_of(path: Seq<char>) -> Option<Seq<char>>;

/// The file name of a path without its extension, as `std::path::Path`
/// determines it.
pub uninterp spec fn file_stem_of(path: Seq<char>) -> Option<Seq<char>>;

/// Relies on `std::path::Path::extension`: the extension of the path's last
/// component, if it has one. Taken from a `&str`, it is valid UTF-8, so the
/// conversion to `String` loses nothing.
#[verifier::external_body]
pub(crate) fn path_extension(path: &str) -> (r: Option<String>)
    ensures
        extension_of(path@) == (match r {
            Some(e) => Some(e@),
            None => None::<Seq<char>>,
        }),
{
    std::path::Path::new(path).extension().map(|e| e.to_string_lossy().into_owned())
}

/// Relies on `std::path::Path::file_stem`: the last component's name without
/// its extension, if the path has a last component that is a file name.
#[verifier::external_body]
pub(crate) fn path_file_stem(path: &str) -> (r: Option<String>)
    ensures
        file_stem_of(path@) == (match r {
            Some(e) => Some(e@),
            None => None::<Seq<char>>,
        }),
{
    std::path::Path::new(path).file_stem().map(|e| e.to_string_lossy().into_owned())
}

} // verus!
