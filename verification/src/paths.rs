//! File-system paths as text.

use crate::text::{cat2, cat3};
use vstd::prelude::*;
use vstd::string::*;

verus! {

/// The directory a path names its last component in, if it has one.
pub uninterp spec fn parent_of(p: Seq<char>) -> Option<Seq<char>>;

/// Whether two paths have the same components.
pub uninterp spec fn same_components(a: Seq<char>, b: Seq<char>) -> bool;

/// `std::path::Path::parent`: the path without its last component; none for a root or an
/// empty path.
#[verifier::external_body]
pub(crate) fn parent(p: &str) -> (r: Option<String>)
    ensures
        match r {
            Some(d) => parent_of(p@) == Some(d@),
            None => parent_of(p@) is None,
        },
{
    std::path::Path::new(p).parent().map(|d| d.display().to_string())
}

/// The extension of a path's file name, if it has one.
pub uninterp spec fn extension_of(p: Seq<char>) -> Option<Seq<char>>;

/// `std::path::Path::extension`: what follows the last dot of the file name; none where there
/// is no such dot, or where it begins the name.
#[verifier::external_body]
pub(crate) fn extension(p: &str) -> (r: Option<String>)
    ensures
        match r {
            Some(e) => extension_of(p@) == Some(e@),
            None => extension_of(p@) is None,
        },
{
    std::path::Path::new(p).extension().map(|e| e.display().to_string())
}

/// A path's file name without its extension, if it has a file name.
pub uninterp spec fn stem_of(p: Seq<char>) -> Option<Seq<char>>;

/// `std::path::Path::file_stem`: the file name up to its last dot, or all of it where there is
/// no such dot, or where it begins the name.
#[verifier::external_body]
pub(crate) fn stem(p: &str) -> (r: Option<String>)
    ensures
        match r {
            Some(n) => stem_of(p@) == Some(n@),
            None => stem_of(p@) is None,
        },
{
    std::path::Path::new(p).file_stem().map(|n| n.display().to_string())
}

/// `std::path::Path`'s `==`: paths compare by their components, so equal texts are equal
/// paths.
#[verifier::external_body]
pub(crate) fn same_path(a: &str, b: &str) -> (r: bool)
    ensures
        r == same_components(a@, b@),
        a@ == b@ ==> r,
{
    std::path::Path::new(a) == std::path::Path::new(b)
}

/// `name`, which is relative, inside the directory `dir`.
pub open spec fn joined(dir: Seq<char>, name: Seq<char>) -> Seq<char> {
    if dir.len() == 0 || dir.last() == '/' {
        dir + name
    } else {
        dir + "/"@ + name
    }
}

/// `name`, which is relative, inside the directory `dir`.
pub fn join(dir: &str, name: &str) -> (s: String)
    ensures
        s@ == joined(dir@, name@),
{
    let n = dir.unicode_len();
    if n == 0 || dir.get_char(n - 1) == '/' {
        cat2(dir, name)
    } else {
        cat3(dir, "/", name)
    }
}

} // verus!
