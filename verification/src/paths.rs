//! File-system paths as text.
//!
//! The library keeps every path as a `String` and leaves the rules of the
//! platform's path syntax to `std::path`.

use std::path::Path;
use vstd::prelude::*;

verus! {

/// The path that `Path::join` gives for `base` and `rel`, on the platform
/// the crate is built for.
pub uninterp spec fn path_joined(base: Seq<char>, rel: Seq<char>) -> Seq<char>;

/// The path that `Path::with_file_name` gives for `anchor` and `name`, on
/// the platform the crate is built for.
pub uninterp spec fn path_beside(anchor: Seq<char>, name: Seq<char>) -> Seq<char>;

/// What `{:?}` prints for a path.
pub uninterp spec fn path_quoted(path: Seq<char>) -> Seq<char>;

/// `Path::join`: `rel` adjoined to `base`. The contract only names the
/// result; what `join` does with separators and absolute paths is not
/// restated.
#[verifier::external_body]
pub(crate) fn join_path(base: &str, rel: &str) -> (joined: String)
    ensures
        joined@ == path_joined(base@, rel@),
{
    Path::new(base).join(rel).to_string_lossy().into_owned()
}

/// `Path::with_file_name`: `anchor` with its last component replaced by
/// `name`. The contract only names the result.
#[verifier::external_body]
pub(crate) fn path_with_file_name(anchor: &str, name: &str) -> (beside: String)
    ensures
        beside@ == path_beside(anchor@, name@),
{
    Path::new(anchor).with_file_name(name).to_string_lossy().into_owned()
}

/// Formats `path` with `{:?}`, the `Debug` impl of `Path`. The contract
/// only names the result.
#[verifier::external_body]
pub(crate) fn debug_path(path: &str) -> (quoted: String)
    ensures
        quoted@ == path_quoted(path@),
{
    format!("{:?}", Path::new(path))
}

} // verus!
