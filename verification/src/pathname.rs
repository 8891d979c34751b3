//! Path arithmetic, as `std::path` does it on the platform the library is built
//! for. Nothing here touches the file system: a path is a string.

use vstd::prelude::*;

verus! {

/// What `Path::join` makes of `base` and `rel`.
pub uninterp spec fn path_join(base: Seq<char>, rel: Seq<char>) -> Seq<char>;

/// What `Path::strip_prefix` leaves of `path` below `base`, where `base` is a
/// prefix of `path` by whole components.
pub uninterp spec fn path_relative(path: Seq<char>, base: Seq<char>) -> Option<Seq<char>>;

/// What `Path::file_name` finds as the last component of `path`, where it has one.
pub uninterp spec fn path_file_name(path: Seq<char>) -> Option<Seq<char>>;

/// Calls `std::path::Path::join`. The contract only names the result: the same
/// two strings always give the same path.
#[verifier::external_body]
pub(crate) fn join(base: &str, rel: &str) -> (out: String)
    ensures
        out@ == path_join(base@, rel@),
{
    std::path::Path::new(base).join(rel).to_string_lossy().into_owned()
}

/// Calls `std::path::Path::strip_prefix`. The contract only names the result,
/// `None` where `base` is no prefix of `path`.
#[verifier::external_body]
pub(crate) fn relative(path: &str, base: &str) -> (out: Option<String>)
    ensures
        out.deep_view() == path_relative(path@, base@),
{
    match std::path::Path::new(path).strip_prefix(base) {
        Ok(rest) => Some(rest.to_string_lossy().into_owned()),
        Err(_) => None,
    }
}

/// Calls `std::path::Path::file_name`. The contract only names the result,
/// `None` where the path ends in `..` or has no component.
#[verifier::external_body]
pub(crate) fn file_name(path: &str) -> (out: Option<String>)
    ensures
        out.deep_view() == path_file_name(path@),
{
    match std::path::Path::new(path).file_name() {
        Some(name) => Some(name.to_string_lossy().into_owned()),
        None => None,
    }
}

} // verus!
