//! What the standard library reads off a path: its extension, and what is
//! left of it below another path.

use std::path::{Path, StripPrefixError};
use vstd::prelude::*;

verus! {

/// `std::path::StripPrefixError`, carried and never looked into.
#[verifier::external_type_specification]
#[verifier::external_body]
pub struct ExStripPrefixError(StripPrefixError);

/// The extension of a path's last component, without the dot, as the
/// platform's path syntax has it; `None` where that component has none.
pub uninterp spec fn extension_of(path: Seq<char>) -> Option<Seq<char>>;

/// What is left of `path` once the leading components that make up `base` are
/// taken away, as the platform's path syntax has it; `None` where `path` does
/// not begin with `base`.
pub uninterp spec fn relative_to(path: Seq<char>, base: Seq<char>) -> Option<Seq<char>>;

/// `Path::extension`. The result depends on the path alone, and the contract
/// gives it its name.
#[verifier::external_body]
pub(crate) fn extension(path: &str) -> (ext: Option<String>)
    ensures
        ext.deep_view() == extension_of(path@),
{
    match Path::new(path).extension() {
        Some(ext) => Some(ext.to_string_lossy().into_owned()),
        None => None,
    }
}

/// `Path::strip_prefix`. The result depends on the two paths alone, and the
/// contract gives it its name; the error is the standard library's own.
#[verifier::external_body]
pub(crate) fn strip_prefix(path: &str, base: &str) -> (rest: Result<String, StripPrefixError>)
    ensures
        match rest {
            Ok(rest) => relative_to(path@, base@) == Some(rest@),
            Err(_) => relative_to(path@, base@).is_none(),
        },
{
    match Path::new(path).strip_prefix(Path::new(base)) {
        Ok(rest) => Ok(rest.to_string_lossy().into_owned()),
        Err(error) => Err(error),
    }
}

} // verus!
