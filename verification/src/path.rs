//! File paths as the agent handles them: UTF-8 strings, put together here
//! and taken apart by the standard library's path functions.

use vstd::prelude::*;
use vstd::string::StrSliceExecFns;
use vstd::string::StringExecFns;

verus! {

/// The character that separates the components of a path.
pub const SEPARATOR: char = '/';

/// The path of the entry `name` in the directory `dir`: a name that starts
/// at the root stands for itself; any other follows the directory, after a
/// separator where the directory does not end in one already.
pub open spec fn joined_path(dir: Seq<char>, name: Seq<char>) -> Seq<char> {
    if name.len() > 0 && name[0] == SEPARATOR {
        name
    } else if dir.len() == 0 || dir.last() == SEPARATOR {
        dir + name
    } else {
        dir + seq![SEPARATOR] + name
    }
}

/// What `std::path::Path::parent` finds in a path.
pub uninterp spec fn parent_of(path: Seq<char>) -> Option<Seq<char>>;

/// What `std::path::Path::file_name` finds in a path.
pub uninterp spec fn file_name_of(path: Seq<char>) -> Option<Seq<char>>;

/// What `std::path::Path::extension` finds in a path.
pub uninterp spec fn extension_of(path: Seq<char>) -> Option<Seq<char>>;

/// The extension of compressed log archives, which are never read.
pub open spec fn excluded_extension() -> Seq<char> {
    seq!['g', 'z']
}

/// Whether a path names a file that the agent never opens.
pub open spec fn excluded(path: Seq<char>) -> bool {
    extension_of(path) == Some(excluded_extension())
}

/// The path of the entry `name` in the directory `dir`.
pub fn join(dir: &String, name: &String) -> (path: String)
    ensures
        path@ == joined_path(dir@, name@),
{
    let name_len = name.as_str().unicode_len();
    if name_len > 0 && name.as_str().get_char(0) == SEPARATOR {
        return name.clone();
    }
    let dir_len = dir.as_str().unicode_len();
    let mut path = dir.clone();
    if dir_len > 0 && dir.as_str().get_char(dir_len - 1) != SEPARATOR {
        proof {
            reveal_strlit("/");
            assert("/"@ == seq![SEPARATOR]);
        }
        path.append("/");
    }
    path.append(name.as_str());
    path
}

/// Calls `std::path::Path::parent`. Trusted: the result is the standard
/// library's, known to the proofs only under the name `parent_of`.
#[verifier::external_body]
pub(crate) fn parent(path: &String) -> (dir: Option<String>)
    ensures
        dir is Some <==> parent_of(path@) is Some,
        dir matches Some(d) ==> parent_of(path@) == Some(d@),
{
    std::path::Path::new(path).parent().map(|d| d.to_string_lossy().into_owned())
}

/// Calls `std::path::Path::file_name`. Trusted: the result is the standard
/// library's, known to the proofs only under the name `file_name_of`.
#[verifier::external_body]
pub(crate) fn file_name(path: &String) -> (name: Option<String>)
    ensures
        name is Some <==> file_name_of(path@) is Some,
        name matches Some(n) ==> file_name_of(path@) == Some(n@),
{
    std::path::Path::new(path).file_name().map(|n| n.to_string_lossy().into_owned())
}

/// Calls `std::path::Path::extension`. Trusted: the result is the standard
/// library's, known to the proofs only under the name `extension_of`.
#[verifier::external_body]
pub(crate) fn extension(path: &String) -> (ext: Option<String>)
    ensures
        ext is Some <==> extension_of(path@) is Some,
        ext matches Some(e) ==> extension_of(path@) == Some(e@),
{
    std::path::Path::new(path).extension().map(|e| e.to_string_lossy().into_owned())
}

/// Whether `path` names a compressed archive, by its extension.
pub fn is_excluded(path: &String) -> (skip: bool)
    ensures
        skip == excluded(path@),
{
    match extension(path) {
        Some(ext) => {
            let gz = "gz".to_owned();
            proof {
                reveal_strlit("gz");
                assert(gz@ =~= excluded_extension());
            }
            ext == gz
        },
        None => false,
    }
}

} // verus!
