//! Which files get a page: those whose extension, in lower case, is one of
//! the accepted ones.

use crate::path::{extension, extension_of};
use crate::text::{lowercase, to_lowercase};
use vstd::prelude::*;
use vstd::string::StringExecFns;

verus! {

/// Whether the file at `path` gets a page. It gets none without an
/// extension, none with an empty one, and none with one that, in lower case,
/// is not among `accepted`. The accepted extensions are compared as they
/// are: they are meant to be in lower case.
pub open spec fn qualifies(path: Seq<char>, accepted: Seq<Seq<char>>) -> bool {
    match extension_of(path) {
        Some(ext) => ext.len() > 0 && accepted.contains(lowercase(ext)),
        None => false,
    }
}

/// The extensions that are accepted where none are named.
pub open spec fn default_extensions_view() -> Seq<Seq<char>> {
    seq!["rs"@, "py"@, "js"@, "ts"@, "html"@, "css"@, "scss"@, "md"@, "txt"@]
}

/// A file without an extension, or with an empty one, gets no page, whatever
/// is accepted.
pub proof fn lemma_no_extension_no_page(path: Seq<char>, accepted: Seq<Seq<char>>)
    requires
        extension_of(path) matches Some(ext) ==> ext.len() == 0,
    ensures
        !qualifies(path, accepted),
{
}

/// Extensions are matched without regard to case: two files whose
/// extensions are the same in lower case both get a page or both get none.
pub proof fn lemma_case_is_ignored(first: Seq<char>, second: Seq<char>, accepted: Seq<Seq<char>>)
    requires
        extension_of(first) matches Some(a) && extension_of(second) matches Some(b) && a.len() > 0
            && b.len() > 0 && lowercase(a) == lowercase(b),
    ensures
        qualifies(first, accepted) == qualifies(second, accepted),
{
}

/// The extensions that are accepted where none are named.
pub fn default_extensions() -> (accepted: Vec<String>)
    ensures
        accepted.deep_view() == default_extensions_view(),
{
    let mut accepted: Vec<String> = Vec::new();
    accepted.push(String::from_str("rs"));
    accepted.push(String::from_str("py"));
    accepted.push(String::from_str("js"));
    accepted.push(String::from_str("ts"));
    accepted.push(String::from_str("html"));
    accepted.push(String::from_str("css"));
    accepted.push(String::from_str("scss"));
    accepted.push(String::from_str("md"));
    accepted.push(String::from_str("txt"));
    assert(accepted.deep_view() =~= default_extensions_view());
    accepted
}

fn same_text(first: &String, second: &String) -> (same: bool)
    ensures
        same == (first@ == second@),
{
    *first == *second
}

/// Whether `ext` is one of the accepted extensions, letter for letter.
pub fn accepts(accepted: &Vec<String>, ext: &String) -> (found: bool)
    ensures
        found == accepted.deep_view().contains(ext@),
{
    let mut i: usize = 0;
    while i < accepted.len()
        invariant
            i <= accepted.len(),
            forall|j: int| 0 <= j < i ==> accepted.deep_view()[j] != ext@,
        decreases accepted.len() - i,
    {
        if same_text(&accepted[i], ext) {
            assert(accepted.deep_view()[i as int] == accepted@[i as int]@);
            return true;
        }
        i += 1;
    }
    false
}

/// Whether the file at `path` gets a page.
pub fn file_qualifies(path: &str, accepted: &Vec<String>) -> (wanted: bool)
    ensures
        wanted == qualifies(path@, accepted.deep_view()),
{
    match extension(path) {
        Some(ext) => {
            if ext.as_str().is_empty() {
                false
            } else {
                let lower = to_lowercase(ext.as_str());
                accepts(accepted, &lower)
            }
        },
        None => false,
    }
}

} // verus!
