//! Filesystem paths held as text, with `std::path` doing the path arithmetic.
use std::path::Path;
use vstd::prelude::*;

verus! {

/// The text of `Path::new(base).join(tail)`.
pub uninterp spec fn path_join(base: Seq<char>, tail: Seq<char>) -> Seq<char>;

/// The text of `Path::new(path).parent()`.
pub uninterp spec fn path_parent(path: Seq<char>) -> Option<Seq<char>>;

/// The text of `Path::new(path).file_name()`.
pub uninterp spec fn path_file_name(path: Seq<char>) -> Option<Seq<char>>;

/// `Path::join`. Stated: the result is a function of the two texts, and a
/// non-empty relative tail joined to a non-empty base that does not end in '/'
/// follows the base after one '/', as the documentation's examples show. Not
/// stated: absolute tails, empty texts and bases ending in a separator.
#[verifier::external_body]
pub(crate) fn join_path(base: &str, tail: &str) -> (r: String)
    ensures
        r@ == path_join(base@, tail@),
        base@.len() > 0 && base@.last() != '/' && tail@.len() > 0 && tail@[0] != '/' ==> r@
            == base@ + seq!['/'] + tail@,
{
    Path::new(base).join(tail).to_string_lossy().into_owned()
}

/// `Path::parent`: the path without its final component, if it has one.
/// Stated: the result is a function of the text. Not stated: how components
/// are found.
#[verifier::external_body]
pub(crate) fn parent_path(path: &str) -> (r: Option<String>)
    ensures
        match r {
            Some(p) => path_parent(path@) == Some(p@),
            None => path_parent(path@) is None,
        },
{
    match Path::new(path).parent() {
        Some(parent) => Some(parent.to_string_lossy().into_owned()),
        None => None,
    }
}

/// `Path::file_name`: the final component, if it is a normal one. Stated:
/// the result is a function of the text. Not stated: how components are
/// found.
#[verifier::external_body]
pub(crate) fn file_name_of(path: &str) -> (r: Option<String>)
    ensures
        match r {
            Some(n) => path_file_name(path@) == Some(n@),
            None => path_file_name(path@) is None,
        },
{
    match Path::new(path).file_name() {
        Some(name) => Some(name.to_string_lossy().into_owned()),
        None => None,
    }
}

/// Whether two texts are equal.
pub fn same_text(a: &str, b: &str) -> (r: bool)
    ensures
        r == (a@ == b@),
{
    let x = String::from_str(a);
    let y = String::from_str(b);
    x == y
}

} // verus!
