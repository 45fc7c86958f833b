//! Path utilities (file-system access itself lives outside the library). The
//! contracts of the path functions state the behaviour of `std::path` on Unix
//! targets, where the separator is `/`.

use vstd::prelude::*;
use crate::stdlib::string::split_seq;

verus! {

broadcast use vstd::string::group_string_axioms;

/// The contents of an optional string.
pub open spec fn opt_view(o: Option<String>) -> Option<Seq<char>> {
    match o {
        Some(s) => Some(s@),
        None => None,
    }
}

/// The named components of a Unix path: the text between `/` separators, leaving out
/// empty pieces (repeated or trailing separators) and `.` pieces.
pub open spec fn path_parts(p: Seq<char>) -> Seq<Seq<char>> {
    split_seq(p, seq!['/']).filter(|x: Seq<char>| x.len() > 0 && x != seq!['.'])
}

/// The final component of a Unix path, unless the path ends in `..` or has none.
pub open spec fn file_name_of(p: Seq<char>) -> Option<Seq<char>> {
    let parts = path_parts(p);
    if parts.len() == 0 || parts.last() == seq!['.', '.'] {
        None
    } else {
        Some(parts.last())
    }
}

/// Position of the last `.` in `name`, if any.
pub open spec fn last_dot(name: Seq<char>) -> Option<int>
    decreases name.len(),
{
    if name.len() == 0 {
        None
    } else if name.last() == '.' {
        Some(name.len() - 1)
    } else {
        last_dot(name.drop_last())
    }
}

/// The extension of a Unix path: what follows the last `.` of the file name, unless the
/// name has no `.` or its only `.` is its first character.
pub open spec fn extension_of(p: Seq<char>) -> Option<Seq<char>> {
    match file_name_of(p) {
        None => None,
        Some(name) => match last_dot(name) {
            Some(k) if k > 0 => Some(name.skip(k + 1)),
            _ => None,
        },
    }
}

/// The stem of a Unix path: the file name up to its last `.`, or the whole name when it
/// has no `.` or its only `.` is its first character.
pub open spec fn stem_of(p: Seq<char>) -> Option<Seq<char>> {
    match file_name_of(p) {
        None => None,
        Some(name) => match last_dot(name) {
            Some(k) if k > 0 => Some(name.take(k)),
            _ => Some(name),
        },
    }
}

/// What `Path::parent` returns for the given path text.
pub uninterp spec fn parent_of(p: Seq<char>) -> Option<Seq<char>>;

/// What `PathBuf::push` (as used by `Path::join`) gives for a base and a child path.
pub uninterp spec fn joined_path(base: Seq<char>, child: Seq<char>) -> Seq<char>;

/// Calls `Path::extension`. Its documentation: no extension when there is no file name,
/// when the name has no `.`, or when it begins with `.` and has no other `.`; otherwise
/// the part after the final `.`. The file name is the final component, none when the
/// path ends in `..`; components are normalized (repeated and trailing separators and
/// `.` components dropped). This states the Unix behaviour.
#[verifier::external_body]
fn path_extension(path: &str) -> (r: Option<String>)
    ensures
        opt_view(r) == extension_of(path@),
{
    std::path::Path::new(path).extension().map(|e| e.to_string_lossy().to_string())
}

/// Calls `Path::file_stem`. Its documentation: none when there is no file name; the
/// whole name when it has no `.` or begins with `.` and has no other `.`; otherwise the
/// part before the final `.`. This states the Unix behaviour.
#[verifier::external_body]
fn path_file_stem(path: &str) -> (r: Option<String>)
    ensures
        opt_view(r) == stem_of(path@),
{
    std::path::Path::new(path).file_stem().map(|s| s.to_string_lossy().to_string())
}

/// Calls `Path::parent`; the result is named `parent_of(path@)`. Its documentation:
/// none for the empty path and for a path that ends in a root (here `/`). How much
/// trailing separator and `.` text a parent keeps is left unstated.
#[verifier::external_body]
fn path_parent(path: &str) -> (r: Option<String>)
    ensures
        opt_view(r) == parent_of(path@),
        path@.len() == 0 ==> r is None,
        path@ == seq!['/'] ==> r is None,
{
    std::path::Path::new(path).parent().map(|p| p.to_string_lossy().to_string())
}

/// Calls `Path::join`; the result is named `joined_path(base@, child@)`. Its
/// documentation: an absolute child (starting with `/`) replaces the base; otherwise
/// the child is appended to a non-empty base, with a separator unless the base already
/// ends in one. The result for an empty base and a relative child is left unstated.
#[verifier::external_body]
fn path_join(base: &str, child: &str) -> (r: String)
    ensures
        r@ == joined_path(base@, child@),
        child@.len() > 0 && child@[0] == '/' ==> r@ == child@,
        !(child@.len() > 0 && child@[0] == '/') && base@.len() > 0 ==> r@ == if base@.last()
            == '/' {
            base@ + child@
        } else {
            base@ + seq!['/'] + child@
        },
{
    std::path::Path::new(base).join(child).to_string_lossy().to_string()
}

/// Get the file extension.
pub fn file_extension(path: &str) -> (r: Option<String>)
    ensures
        opt_view(r) == extension_of(path@),
{
    path_extension(path)
}

/// Get the file stem (name without extension).
pub fn file_stem(path: &str) -> (r: Option<String>)
    ensures
        opt_view(r) == stem_of(path@),
{
    path_file_stem(path)
}

/// Get the parent directory: none for the empty path and for the root `/`.
pub fn parent_dir(path: &str) -> (r: Option<String>)
    ensures
        opt_view(r) == parent_of(path@),
        path@.len() == 0 ==> r is None,
        path@ == seq!['/'] ==> r is None,
{
    path_parent(path)
}

/// Join two paths.
pub fn join_path(base: &str, child: &str) -> (r: String)
    ensures
        r@ == joined_path(base@, child@),
        child@.len() > 0 && child@[0] == '/' ==> r@ == child@,
        !(child@.len() > 0 && child@[0] == '/') && base@.len() > 0 ==> r@ == if base@.last()
            == '/' {
            base@ + child@
        } else {
            base@ + seq!['/'] + child@
        },
{
    path_join(base, child)
}

} // verus!
