//! The filesystem as storage: keys are local paths.

use vstd::prelude::*;

verus! {

/// Storage on the local filesystem.
#[derive(Clone, Copy, Debug, PartialEq, Eq, Structural)]
pub struct FsAdapter;

/// Whether `a` and `b` are equal as `std::path::Path` values.
pub uninterp spec fn same_path(a: Seq<char>, b: Seq<char>) -> bool;

/// Compares `a` and `b` with `==` of `std::path::Path`. The contract names
/// the result.
#[verifier::external_body]
fn path_eq(a: &str, b: &str) -> (equal: bool)
    ensures
        equal == same_path(a@, b@),
{
    std::path::Path::new(a) == std::path::Path::new(b)
}

impl FsAdapter {
    /// The filesystem adapter.
    pub fn new() -> (adapter: Self)
        ensures
            adapter == FsAdapter,
    {
        FsAdapter
    }

    /// Whether a download of `key` to `local_path`, or an upload of
    /// `local_path` to `key`, has to copy the file: it has unless both name
    /// the same path.
    pub fn needs_copy(&self, key: &str, local_path: &str) -> (copy: bool)
        ensures
            copy == !same_path(key@, local_path@),
    {
        !path_eq(key, local_path)
    }
}

} // verus!
