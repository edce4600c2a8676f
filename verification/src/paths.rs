//! File paths and `file:` URLs, as the platform's path syntax reads them.
//! The path arithmetic is std's and the URL conversion is the `url` crate's;
//! each result is named by a function of the arguments alone.

use vstd::prelude::*;

verus! {

/// The parent of path `p` (`std::path::Path::parent`), none when `p` ends in
/// a root or is empty.
pub uninterp spec fn path_parent(p: Seq<char>) -> Option<Seq<char>>;

/// Path `rel` resolved against `base` (`std::path::Path::join`).
pub uninterp spec fn path_joined(base: Seq<char>, rel: Seq<char>) -> Seq<char>;

/// Whether path `p` is absolute (`std::path::Path::is_absolute`).
pub uninterp spec fn path_is_absolute(p: Seq<char>) -> bool;

/// The `file:` URL of path `p` (`url::Url::from_file_path`), none when the
/// conversion fails.
pub uninterp spec fn file_url_of(p: Seq<char>) -> Option<Seq<char>>;

/// Calls `std::path::Path::parent` on `path`. Claimed: the result is
/// `path_parent` of the path. The parent of a path given as a string is a
/// prefix of it that ends at a component boundary, so it is valid UTF-8 and
/// taking it as a string loses nothing.
#[verifier::external_body]
pub(crate) fn parent_of(path: &str) -> (r: Option<String>)
    ensures
        match r {
            None => path_parent(path@) is None,
            Some(s) => path_parent(path@) == Some(s@),
        },
{
    match std::path::Path::new(path).parent() {
        None => None,
        Some(p) => Some(p.to_string_lossy().into_owned()),
    }
}

/// Calls `std::path::Path::join`. Claimed: the result is `path_joined` of
/// the two paths. Joining two strings gives a string again, so taking the
/// result as a string loses nothing.
#[verifier::external_body]
pub(crate) fn join_paths(base: &str, rel: &str) -> (r: String)
    ensures
        r@ == path_joined(base@, rel@),
{
    std::path::Path::new(base).join(rel).to_string_lossy().into_owned()
}

/// Calls `std::path::Path::is_absolute`. Claimed: the result is
/// `path_is_absolute` of the path.
#[verifier::external_body]
pub(crate) fn is_absolute_path(path: &str) -> (b: bool)
    ensures
        b == path_is_absolute(path@),
{
    std::path::Path::new(path).is_absolute()
}

/// Calls `url::Url::from_file_path` (through `tower_lsp::lsp_types::Url`) and
/// takes the URL as its text. Claimed: the result is `file_url_of` of the
/// path, none where the crate returns an error.
#[verifier::external_body]
pub(crate) fn file_url(path: &str) -> (r: Option<String>)
    ensures
        match r {
            None => file_url_of(path@) is None,
            Some(s) => file_url_of(path@) == Some(s@),
        },
{
    match tower_lsp::lsp_types::Url::from_file_path(path) {
        Err(()) => None,
        Ok(u) => Some(String::from(u)),
    }
}

/// Where a definition in another file lies: the file itself when its path is
/// absolute, else that path resolved against the working directory of the
/// document's F* processes.
pub open spec fn definition_path_of(working_dir: Seq<char>, file: Seq<char>) -> Seq<char> {
    if path_is_absolute(file) {
        file
    } else {
        path_joined(working_dir, file)
    }
}

pub fn definition_path(working_dir: &str, file: &str) -> (r: String)
    ensures
        r@ == definition_path_of(working_dir@, file@),
{
    if is_absolute_path(file) {
        file.to_owned()
    } else {
        join_paths(working_dir, file)
    }
}

/// The `file:` URL of a definition in another file (see
/// `definition_path_of`); none when that path has no such URL.
pub fn definition_file_url(working_dir: &str, file: &str) -> (r: Option<String>)
    ensures
        match r {
            None => file_url_of(definition_path_of(working_dir@, file@)) is None,
            Some(s) => file_url_of(definition_path_of(working_dir@, file@)) == Some(s@),
        },
{
    let path = definition_path(working_dir, file);
    file_url(path.as_str())
}

} // verus!
