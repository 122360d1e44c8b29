//! Where a task file lies, and the call that tells the directory it is in.

use vstd::prelude::*;

verus! {

/// The parent of a location by the rules of `std::path::Path` for POSIX
/// paths, or nothing where the location ends in a root or is empty.
pub uninterp spec fn path_parent(path: Seq<char>) -> Option<Seq<char>>;

/// Asks `std::path::Path::parent` for the directory that holds `path`.
///
/// Believed, not proved: the answer is a function of the text alone, and
/// the empty location has no parent.
#[verifier::external_body]
pub(crate) fn parent_of(path: &String) -> (parent: Option<String>)
    ensures
        match parent {
            Some(folder) => path_parent(path@) == Some(folder@),
            None => path_parent(path@).is_none(),
        },
        path@.len() == 0 ==> parent.is_none(),
{
    std::path::Path::new(path).parent().map(|folder| folder.to_string_lossy().into_owned())
}

} // verus!
