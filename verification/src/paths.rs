//! File paths, held as text.
use vstd::prelude::*;

verus! {

/// A file name that is one plain path component on every platform: no
/// separator, no drive mark, and not made of dots alone.
pub open spec fn plain_name(name: Seq<char>) -> bool {
    &&& forall|i: int|
        0 <= i < name.len() ==> {
            &&& #[trigger] name[i] != '/'
            &&& name[i] != '\\'
            &&& name[i] != ':'
        }
    &&& exists|i: int| 0 <= i < name.len() && #[trigger] name[i] != '.'
}

/// The text of the path that `std::path::Path::join` makes of a directory and
/// a relative path, on the platform that the library is compiled for.
pub uninterp spec fn joined_path(dir: Seq<char>, name: Seq<char>) -> Seq<char>;

/// Calls `std::path::Path::join`. The result is `joined_path` of the two
/// texts. Joining two different plain file names to one directory gives two
/// different paths.
#[verifier::external_body]
pub(crate) fn join_path(dir: &str, name: &str) -> (r: String)
    ensures
        r@ == joined_path(dir@, name@),
        plain_name(name@) ==> forall|other: Seq<char>|
            plain_name(other) && #[trigger] joined_path(dir@, other) == r@ ==> other == name@,
{
    std::path::Path::new(dir).join(name).to_string_lossy().into_owned()
}

} // verus!
