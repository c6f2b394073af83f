use vstd::prelude::*;
use std::io::Write;

use crate::tips::CommitId;

verus! {

/// git2's repository handle; opaque here, carried between backend calls.
#[verifier::external_type_specification]
#[verifier::external_body]
pub struct ExGitRepository(git2::Repository);

/// git2's error value; opaque here, read only through [`error_message`].
#[verifier::external_type_specification]
#[verifier::external_body]
pub struct ExGitError(git2::Error);

/// Relies on git2::Repository::open: opens the repository standing at
/// `path` on disk; what comes back depends on the disk's state.
#[verifier::external_body]
pub(crate) fn open_repository(path: &String) -> Result<git2::Repository, git2::Error> {
    git2::Repository::open(path.as_str())
}

/// Relies on git2::Repository::statuses, with untracked files included:
/// one status word per working-tree entry, where zero is git2's
/// Status::CURRENT, the unmodified state. What comes back depends on the
/// working tree on disk.
#[verifier::external_body]
pub(crate) fn status_bits(repo: &git2::Repository) -> Result<Vec<u32>, git2::Error> {
    let mut opts = git2::StatusOptions::new();
    opts.include_untracked(true);
    let statuses = repo.statuses(Some(&mut opts))?;
    Ok(statuses.iter().map(|e| e.status().bits()).collect())
}

/// Relies on git2::Repository::branches: every branch of the requested
/// kind, as its short name and the bytes of its tip commit's id. A
/// branch whose name or tip does not resolve is handed over as an
/// absent entry. What comes back depends on the refs on disk.
#[verifier::external_body]
pub(crate) fn branch_entries(repo: &git2::Repository, remote: bool) -> Result<
    Vec<Option<(String, CommitId)>>,
    git2::Error,
> {
    let kind = if remote { git2::BranchType::Remote } else { git2::BranchType::Local };
    let branches = repo.branches(Some(kind))?;
    Ok(branches.map(|item| match item {
        Ok((branch, _)) => match (branch.get().shorthand(), branch.get().peel_to_commit()) {
            (Ok(name), Ok(commit)) => Some((
                name.to_owned(),
                CommitId { bytes: commit.id().as_bytes().to_vec() },
            )),
            _ => None,
        },
        Err(_) => None,
    }).collect())
}

/// Relies on git2::Repository::graph_ahead_behind: how many commits the
/// local tip is ahead of and behind the remote tip; the counts depend on
/// the commit graph on disk. Relies on git2::Oid::from_bytes to turn the
/// stored id bytes back into object ids.
#[verifier::external_body]
pub(crate) fn graph_ahead_behind(
    repo: &git2::Repository,
    local: &CommitId,
    remote: &CommitId,
) -> Result<(usize, usize), git2::Error> {
    let l = git2::Oid::from_bytes(&local.bytes)?;
    let r = git2::Oid::from_bytes(&remote.bytes)?;
    repo.graph_ahead_behind(l, r)
}

/// Relies on git2::Error::message: the error's human-readable text.
#[verifier::external_body]
pub(crate) fn error_message(e: &git2::Error) -> String {
    e.message().to_owned()
}

/// Relies on std::io::stdout: puts one whole report on the primary
/// output stream in a single locked write, so reports from parallel
/// workers cannot interleave.
#[verifier::external_body]
pub(crate) fn emit_report(text: &String) {
    let _ = write!(std::io::stdout().lock(), "{}", text);
}

/// Relies on std::io::stderr: puts one whole diagnostic line on the
/// error stream in a single locked write.
#[verifier::external_body]
pub(crate) fn emit_diagnostic(text: &String) {
    let _ = write!(std::io::stderr().lock(), "{}", text);
}

} // verus!
