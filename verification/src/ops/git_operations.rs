//! The capability interface through which the destination repository is driven.

use vstd::prelude::*;

use crate::error::SyncError;

verus! {

/// One request to a Git backend, as a specification sees it.
pub enum GitCall {
    /// `init(path)`
    Init(Seq<char>),
    /// `config_user(path, name, email)`
    ConfigUser(Seq<char>, Seq<char>, Seq<char>),
    /// `add_all(path)`
    AddAll(Seq<char>),
    /// `commit(path, message)`
    Commit(Seq<char>, Seq<char>),
    /// `status(path)`
    Status(Seq<char>),
    /// `log(path, count)`
    Log(Seq<char>, Option<usize>),
    /// `is_clean(path)`
    IsClean(Seq<char>),
}

/// What a Git backend answered.
pub enum GitAnswer {
    /// The answer of an operation that is carried out for its effect.
    Done(Result<(), SyncError>),
    /// The answer of a query for a listing.
    Text(Result<String, SyncError>),
    /// The answer of a yes-or-no query.
    Flag(Result<bool, SyncError>),
}

/// Everything the synchronisation needs from a Git repository at `path`.
///
/// Implementations decide where the work happens: in a subprocess, or in an
/// in-memory model. What an implementation promises about its answers it
/// says in [`GitOperations::answered`]; callers know that much and no more.
pub trait GitOperations: Sized {
    /// In state `before`, the backend may answer `call` with `answer` and be
    /// in state `after`. A backend that promises nothing keeps the default.
    open spec fn answered(before: Self, call: GitCall, after: Self, answer: GitAnswer) -> bool {
        true
    }

    /// Creates the repository. Fails if one already exists at `path`.
    fn init(&mut self, path: &str) -> (r: Result<(), SyncError>)
        ensures
            Self::answered(*old(self), GitCall::Init(path@), *final(self), GitAnswer::Done(r)),
    ;

    /// Sets the committer identity. May be repeated freely.
    fn config_user(&mut self, path: &str, name: &str, email: &str) -> (r: Result<(), SyncError>)
        ensures
            Self::answered(
                *old(self),
                GitCall::ConfigUser(path@, name@, email@),
                *final(self),
                GitAnswer::Done(r),
            ),
    ;

    /// Stages every pending change.
    fn add_all(&mut self, path: &str) -> (r: Result<(), SyncError>)
        ensures
            Self::answered(*old(self), GitCall::AddAll(path@), *final(self), GitAnswer::Done(r)),
    ;

    /// Records the staged changes under `message`.
    fn commit(&mut self, path: &str, message: &str) -> (r: Result<(), SyncError>)
        ensures
            Self::answered(
                *old(self),
                GitCall::Commit(path@, message@),
                *final(self),
                GitAnswer::Done(r),
            ),
    ;

    /// One line per pending path, each led by a two-character status code;
    /// empty when nothing is pending.
    fn status(&mut self, path: &str) -> (r: Result<String, SyncError>)
        ensures
            Self::answered(*old(self), GitCall::Status(path@), *final(self), GitAnswer::Text(r)),
    ;

    /// One line per commit, newest first, at most `count` of them if given.
    fn log(&mut self, path: &str, count: Option<usize>) -> (r: Result<String, SyncError>)
        ensures
            Self::answered(
                *old(self),
                GitCall::Log(path@, count),
                *final(self),
                GitAnswer::Text(r),
            ),
    ;

    /// Whether no path is pending.
    fn is_clean(&mut self, path: &str) -> (r: Result<bool, SyncError>)
        ensures
            Self::answered(*old(self), GitCall::IsClean(path@), *final(self), GitAnswer::Flag(r)),
    ;
}

} // verus!
