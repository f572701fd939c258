//! The window title: the current file, relative to the working directory.
use vstd::prelude::*;

use crate::text::string_from;

verus! {

/// What `Path::strip_prefix` gives for the path and the base, as text (none
/// where the base is not a prefix, or the rest is not UTF-8).
pub uninterp spec fn path_without_prefix(path: Seq<char>, base: Seq<char>) -> Option<Seq<char>>;

/// `std::path::Path::strip_prefix` followed by `to_str`: claimed to give what
/// `path_without_prefix` names for these arguments. How paths split into
/// components is not written out here.
#[verifier::external_body]
pub(crate) fn strip_prefix(path: &str, base: &str) -> (r: Option<String>)
    ensures
        match r {
            Some(s) => path_without_prefix(path@, base@) == Some(s@),
            None => path_without_prefix(path@, base@) is None,
        },
{
    std::path::Path::new(path).strip_prefix(base).ok().and_then(|p| p.to_str()).map(|s| s.to_owned())
}

/// The title for the file `file_path` with `dir` the working directory:
/// `[No Name]` for a buffer without a file, the path relative to `dir` where
/// it is inside it, the path itself otherwise.
pub fn window_title(file_path: &str, dir: &str) -> (t: String)
    ensures
        t@ == (if file_path@.len() == 0 {
            "[No Name]"@
        } else {
            match path_without_prefix(file_path@, dir@) {
                Some(rel) => rel,
                None => file_path@,
            }
        }),
{
    if file_path.unicode_len() == 0 {
        return string_from("[No Name]");
    }
    match strip_prefix(file_path, dir) {
        Some(rel) => rel,
        None => string_from(file_path),
    }
}

} // verus!
