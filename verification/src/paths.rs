//! File-system paths, compared component by component as `std::path::Path`
//! does.
use vstd::prelude::*;

verus! {

/// Whether `base`'s components are a prefix of `path`'s components, as
/// `std::path::Path::starts_with` decides it.
pub uninterp spec fn path_prefix(path: Seq<char>, base: Seq<char>) -> bool;

/// What is left of `path` after `base`'s components, as
/// `std::path::Path::strip_prefix` gives it; `None` when `base` is not a
/// prefix.
pub uninterp spec fn stripped_path(path: Seq<char>, base: Seq<char>) -> Option<Seq<char>>;

/// `std::path::Path::starts_with`: the result is named `path_prefix`, a
/// function of the two paths alone; nothing more is claimed of it here.
#[verifier::external_body]
pub(crate) fn path_starts_with(path: &str, base: &str) -> (b: bool)
    ensures
        b == path_prefix(path@, base@),
{
    std::path::Path::new(path).starts_with(base)
}

/// `std::path::Path::strip_prefix`, with the remainder turned back into a
/// string (it is valid Unicode because `path` is): the result is named
/// `stripped_path`, a function of the two paths alone.
#[verifier::external_body]
pub(crate) fn path_strip_prefix(path: &str, base: &str) -> (r: Option<String>)
    ensures
        match r {
            Some(s) => stripped_path(path@, base@) == Some(s@),
            None => stripped_path(path@, base@) is None,
        },
{
    match std::path::Path::new(path).strip_prefix(base) {
        Ok(rest) => Some(rest.to_string_lossy().into_owned()),
        Err(_) => None,
    }
}

} // verus!
