//! The repository gate: does a directory contain repository metadata as a
//! direct child? Speculative cache warming is worth its cost only inside
//! version-controlled trees, so the forerunner is gated on this check.

use vstd::prelude::*;

verus! {

/// Relies on `std::path::Path::exists`: returns whether the path points to
/// an existing filesystem entity; a lookup that errors reports as false.
/// The result depends on the state of the disk, so nothing more is claimed
/// of it.
#[verifier::external_body]
fn path_exists(p: &str) -> bool {
    std::path::Path::new(p).exists()
}

/// The path of the repository metadata directory that would make `dir` a
/// repository: its direct child `.git`.
pub fn git_metadata_path(dir: &str) -> (r: String)
    ensures
        r@ == dir@ + "/.git"@,
{
    let mut gitdir = String::from_str(dir);
    gitdir.append("/.git");
    gitdir
}

/// True iff the directory has a repository metadata directory (`.git`) as
/// a direct child. Read-only and synchronous; the verdict reflects the
/// state of the disk at the moment of the call, so nothing more is claimed
/// of it.
pub fn is_git_repo(dir: &str) -> bool {
    let gitdir = git_metadata_path(dir);
    path_exists(gitdir.as_str())
}

} // verus!
