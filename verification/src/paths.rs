//! Paths of the file system, which the library carries and shows but never
//! takes apart.

use std::path::PathBuf;
use vstd::prelude::*;

verus! {

/// The path type of the standard library.
#[verifier::external_type_specification]
#[verifier::external_body]
pub struct ExPathBuf(PathBuf);

/// The text by which a path is shown.
pub uninterp spec fn path_text(p: PathBuf) -> Seq<char>;

/// `PathBuf::clone` gives the same path again.
pub assume_specification[ <PathBuf as Clone>::clone ](p: &PathBuf) -> (r: PathBuf)
    ensures
        r == *p,
;

/// `Path::display` gives the text by which a path is shown.
#[verifier::external_body]
pub(crate) fn display_path(p: &PathBuf) -> (s: String)
    ensures
        s@ == path_text(*p),
{
    p.display().to_string()
}

/// The text by which a path is shown to developers, in quotes.
pub uninterp spec fn path_debug_text(p: PathBuf) -> Seq<char>;

/// The `Debug` formatting of a path gives the text by which it is shown to
/// developers.
#[verifier::external_body]
pub(crate) fn debug_path(p: &PathBuf) -> (s: String)
    ensures
        s@ == path_debug_text(*p),
{
    format!("{:?}", p)
}

}
