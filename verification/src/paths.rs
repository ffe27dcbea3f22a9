//! Joining a directory and a file name into a path string.

use vstd::prelude::*;

verus! {

/// A single relative file-name component: non-empty, with no separator and
/// no drive-prefix colon.
pub open spec fn is_plain_name(name: Seq<char>) -> bool {
    &&& name.len() > 0
    &&& forall|i: int| 0 <= i < name.len() ==> #[trigger] name[i] != '/' && name[i] != '\\' && name[i] != ':'
}

/// The text `Path::new(dir).join(name)` gives on the platform the library
/// is built for.
pub uninterp spec fn path_joined(dir: Seq<char>, name: Seq<char>) -> Seq<char>;

/// `res` is what joining `name` onto `dir` gives: the platform's join, and
/// for a plain file name: the name alone under an empty directory, the
/// directory, a separator and the name when the directory does not already
/// end in a separator or a drive colon, and in any case the directory
/// followed by the name with at most one separator between them.
pub open spec fn joined(dir: Seq<char>, name: Seq<char>, res: Seq<char>) -> bool {
    &&& res == path_joined(dir, name)
    &&& is_plain_name(name) ==> {
        &&& dir.len() == 0 ==> res == name
        &&& (dir.len() > 0 && dir.last() != '/' && dir.last() != '\\' && dir.last() != ':') ==> (res == dir
            + seq!['/'] + name || res == dir + seq!['\\'] + name)
        &&& (res == dir + name || res == dir + seq!['/'] + name || res == dir + seq!['\\'] + name)
    }
}

/// `Path::new(dir).join(name)` as a string. `std` documents that joining a
/// relative path extends the directory with it, adding the platform's
/// separator (`/`, or `\` on Windows) unless the directory is empty or
/// already ends in a separator, and paths built from `&str` convert back to
/// text unchanged; the result is the named `path_joined(dir, name)`. For
/// names that are not plain file names (absolute paths, drive prefixes,
/// several components) only the name is stated.
#[verifier::external_body]
pub(crate) fn path_join(dir: &str, name: &str) -> (res: String)
    ensures
        res@ == path_joined(dir@, name@),
        joined(dir@, name@, res@),
{
    std::path::Path::new(dir).join(name).to_string_lossy().into_owned()
}

} // verus!
