//! Committing everything that is pending in one call.

use vstd::prelude::*;

use crate::error::SyncError;
use crate::ops::git_operations::{GitAnswer, GitCall, GitOperations};
use crate::ops::process::CommandRunner;
use crate::ops::real_git::RealGitOperations;

verus! {

/// The backend was asked to stage everything in `path` and, if that
/// succeeded, to commit under `message`; `r` is the first failure, or the
/// success of the commit.
pub open spec fn staged_and_committed<T: GitOperations>(
    before: T,
    path: Seq<char>,
    message: Seq<char>,
    after: T,
    r: Result<(), SyncError>,
) -> bool {
    exists|staged: Result<(), SyncError>, mid: T|
        {
            &&& #[trigger] T::answered(before, GitCall::AddAll(path), mid, GitAnswer::Done(staged))
            &&& match staged {
                Err(e) => r == Err::<(), SyncError>(e) && after == mid,
                Ok(_) => T::answered(
                    mid,
                    GitCall::Commit(path, message),
                    after,
                    GitAnswer::Done(r),
                ),
            }
        }
}

/// Stages every pending change and commits it under `message`, so that new
/// files are part of the commit as well. Nothing is committed when staging fails.
pub fn git_commit_with_ops<T: GitOperations>(git_ops: &mut T, path: &str, message: &str) -> (r:
    Result<(), SyncError>)
    ensures
        staged_and_committed(*old(git_ops), path@, message@, *final(git_ops), r),
{
    let staged = git_ops.add_all(path);
    let ghost answer = staged;
    let ghost mid = *git_ops;
    let r = match staged {
        Err(e) => Err(e),
        Ok(_) => git_ops.commit(path, message),
    };
    assert(T::answered(*old(git_ops), GitCall::AddAll(path@), mid, GitAnswer::Done(answer)));
    r
}

/// Stages and commits through the `git` executable, with `runner` to start it.
pub fn git_commit_real<R: CommandRunner>(runner: R, path: &str, message: &str) -> (r: Result<
    (),
    SyncError,
>)
    ensures
        exists|before: RealGitOperations<R>, after: RealGitOperations<R>|
            before.tools() == runner && #[trigger] staged_and_committed(
                before,
                path@,
                message@,
                after,
                r,
            ),
{
    let mut git_ops = RealGitOperations::new(runner);
    let ghost before = git_ops;
    let r = git_commit_with_ops(&mut git_ops, path, message);
    assert(staged_and_committed(before, path@, message@, git_ops, r));
    r
}

} // verus!
