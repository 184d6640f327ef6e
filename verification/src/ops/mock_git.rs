//! An in-memory model of Git repositories.
//!
//! The model keeps, per repository path, the state of each file and the list
//! of commits, and enforces the same preconditions as the real tool: a
//! repository is initialised once, staging needs an initialised repository,
//! and a commit needs at least one staged file.

use vstd::prelude::*;
use vstd::string::*;

use crate::error::{app_failure, SyncError};
use crate::lookup::{
    distinct, index_of, is_first, lemma_first_exists, lemma_index_of_absent, lemma_index_of_found,
};
use crate::ops::git_operations::{GitAnswer, GitCall, GitOperations};
use crate::text::{decimal, decimal_successor, text_eq};

verus! {

/// The state of one file in a modelled repository.
#[derive(Debug, Clone, Copy, PartialEq, Eq, Structural)]
pub enum GitFileStatus {
    /// Present in the working tree, unknown to the repository.
    Untracked,
    /// Recorded for the next commit.
    Staged,
    /// Identical to the last commit.
    Committed,
    /// Changed since the last commit, not yet staged.
    Modified,
}

/// One file of a modelled repository.
#[derive(Debug, PartialEq, Eq)]
pub struct TrackedFile {
    pub path: String,
    pub status: GitFileStatus,
}

/// One commit of a modelled repository.
#[derive(Debug, PartialEq, Eq)]
pub struct GitCommit {
    /// A short identifier: `commit` followed by the commit's number.
    pub hash: String,
    /// The commit message.
    pub message: String,
    /// The time of the commit.
    pub timestamp: String,
    /// The paths recorded by the commit.
    pub files: Vec<String>,
}

/// A file as the specifications see it: its path and its state.
pub type FileModel = (Seq<char>, GitFileStatus);

/// A commit as the specifications see it.
pub struct CommitModel {
    pub hash: Seq<char>,
    pub message: Seq<char>,
    pub timestamp: Seq<char>,
    pub files: Seq<Seq<char>>,
}

/// A repository as the specifications see it. Files are kept in the order in
/// which they first appeared.
pub struct RepoModel {
    pub path: Seq<char>,
    pub files: Seq<FileModel>,
    pub commits: Seq<CommitModel>,
    pub initialized: bool,
    pub branch: Seq<char>,
}

impl View for TrackedFile {
    type V = FileModel;

    open spec fn view(&self) -> FileModel {
        (self.path@, self.status)
    }
}

impl View for GitCommit {
    type V = CommitModel;

    open spec fn view(&self) -> CommitModel {
        CommitModel {
            hash: self.hash@,
            message: self.message@,
            timestamp: self.timestamp@,
            files: self.files@.map_values(|s: String| s@),
        }
    }
}

/// The models of a sequence of files.
pub open spec fn file_models(files: Seq<TrackedFile>) -> Seq<FileModel> {
    files.map_values(|f: TrackedFile| f@)
}

/// The models of a sequence of commits.
pub open spec fn commit_models(commits: Seq<GitCommit>) -> Seq<CommitModel> {
    commits.map_values(|c: GitCommit| c@)
}

/// The paths of a sequence of files.
pub open spec fn file_paths(files: Seq<FileModel>) -> Seq<Seq<char>> {
    files.map_values(|f: FileModel| f.0)
}

/// The state recorded for `path`, if the repository knows the file.
pub open spec fn file_status(files: Seq<FileModel>, path: Seq<char>) -> Option<GitFileStatus> {
    match index_of(file_paths(files), path) {
        Some(i) => Some(files[i].1),
        None => None,
    }
}

/// The files after `path` appeared in the working tree: a known file becomes
/// untracked again, an unknown one is added at the end.
pub open spec fn with_file(files: Seq<FileModel>, path: Seq<char>) -> Seq<FileModel> {
    match index_of(file_paths(files), path) {
        Some(i) => files.update(i, (path, GitFileStatus::Untracked)),
        None => files.push((path, GitFileStatus::Untracked)),
    }
}

/// Staging promotes untracked and modified files and leaves the others alone.
pub open spec fn staged_one(f: FileModel) -> FileModel {
    if f.1 == GitFileStatus::Untracked || f.1 == GitFileStatus::Modified {
        (f.0, GitFileStatus::Staged)
    } else {
        f
    }
}

/// The files after everything pending was staged.
pub open spec fn staged_all(files: Seq<FileModel>) -> Seq<FileModel> {
    files.map_values(|f: FileModel| staged_one(f))
}

/// Committing turns staged files into committed ones and leaves the others alone.
pub open spec fn committed_one(f: FileModel) -> FileModel {
    if f.1 == GitFileStatus::Staged {
        (f.0, GitFileStatus::Committed)
    } else {
        f
    }
}

/// The files after a commit.
pub open spec fn committed_all(files: Seq<FileModel>) -> Seq<FileModel> {
    files.map_values(|f: FileModel| committed_one(f))
}

/// The paths of the staged files, in order.
pub open spec fn staged_paths(files: Seq<FileModel>) -> Seq<Seq<char>>
    decreases files.len(),
{
    if files.len() == 0 {
        Seq::empty()
    } else if files.last().1 == GitFileStatus::Staged {
        staged_paths(files.drop_last()).push(files.last().0)
    } else {
        staged_paths(files.drop_last())
    }
}

/// Every file is in the committed state.
pub open spec fn all_committed(files: Seq<FileModel>) -> bool {
    forall|i: int| 0 <= i < files.len() ==> (#[trigger] files[i]).1 == GitFileStatus::Committed
}

/// The two-character code that a status listing shows for a pending file.
pub open spec fn status_code(status: GitFileStatus) -> Seq<char> {
    match status {
        GitFileStatus::Untracked => "??"@,
        GitFileStatus::Staged => "A "@,
        GitFileStatus::Modified => " M"@,
        GitFileStatus::Committed => "  "@,
    }
}

/// The status listing: one line per file that is not committed, in order.
pub open spec fn status_listing(files: Seq<FileModel>) -> Seq<char>
    decreases files.len(),
{
    if files.len() == 0 {
        Seq::empty()
    } else if files.last().1 == GitFileStatus::Committed {
        status_listing(files.drop_last())
    } else {
        status_listing(files.drop_last()) + status_code(files.last().1) + " "@ + files.last().0
            + "\n"@
    }
}

/// One line of a history listing.
pub open spec fn log_line(c: CommitModel) -> Seq<char> {
    c.hash + " "@ + c.message + "\n"@
}

/// The history listing: the newest `limit` commits, newest first.
pub open spec fn log_listing(commits: Seq<CommitModel>, limit: nat) -> Seq<char>
    decreases commits.len(),
{
    if commits.len() == 0 || limit == 0 {
        Seq::empty()
    } else {
        log_line(commits.last()) + log_listing(commits.drop_last(), (limit - 1) as nat)
    }
}

/// The number of commits a history query shows.
pub open spec fn log_limit(count: Option<usize>, available: nat) -> nat {
    match count {
        Some(n) => n as nat,
        None => available,
    }
}

/// A repository that nothing has happened to yet.
pub open spec fn fresh_repo(path: Seq<char>) -> RepoModel {
    RepoModel {
        path,
        files: Seq::empty(),
        commits: Seq::empty(),
        initialized: false,
        branch: "main"@,
    }
}

/// The commit that `commit` would record in `repo`.
pub open spec fn next_commit(repo: RepoModel, message: Seq<char>) -> CommitModel {
    CommitModel {
        hash: "commit"@ + decimal(repo.commits.len() + 1),
        message,
        timestamp: "2024-01-01T00:00:00Z"@,
        files: staged_paths(repo.files),
    }
}

/// Whether `commit` succeeds on `repo`.
pub open spec fn can_commit(repo: RepoModel) -> bool {
    repo.initialized && staged_paths(repo.files).len() > 0
}

/// The repository after `init`.
pub open spec fn after_init(repo: RepoModel) -> RepoModel {
    RepoModel { initialized: true, ..repo }
}

/// The repository after `add_file`.
pub open spec fn after_add_file(repo: RepoModel, path: Seq<char>) -> RepoModel {
    RepoModel { files: with_file(repo.files, path), ..repo }
}

/// The repository after `add_all`.
pub open spec fn after_add_all(repo: RepoModel) -> RepoModel {
    if repo.initialized {
        RepoModel { files: staged_all(repo.files), ..repo }
    } else {
        repo
    }
}

/// The repository after `commit`.
pub open spec fn after_commit(repo: RepoModel, message: Seq<char>) -> RepoModel {
    if can_commit(repo) {
        RepoModel {
            files: committed_all(repo.files),
            commits: repo.commits.push(next_commit(repo, message)),
            ..repo
        }
    } else {
        repo
    }
}

/// The repository after `modify_file`.
pub open spec fn after_modify(repo: RepoModel, path: Seq<char>) -> RepoModel {
    match index_of(file_paths(repo.files), path) {
        Some(i) => if repo.files[i].1 == GitFileStatus::Committed {
            RepoModel { files: repo.files.update(i, (path, GitFileStatus::Modified)), ..repo }
        } else {
            repo
        },
        None => repo,
    }
}

/// The position of the first file with the given path.
fn find_file(files: &Vec<TrackedFile>, path: &str) -> (r: Option<usize>)
    ensures
        match r {
            Some(i) => index_of(file_paths(file_models(files@)), path@) == Some(i as int) && i
                < files.len(),
            None => index_of(file_paths(file_models(files@)), path@) is None,
        },
{
    let ghost keys = file_paths(file_models(files@));
    let mut i: usize = 0;
    while i < files.len()
        invariant
            i <= files.len(),
            keys == file_paths(file_models(files@)),
            forall|j: int| 0 <= j < i ==> keys[j] != path@,
        decreases files.len() - i,
    {
        if text_eq(files[i].path.as_str(), path) {
            proof {
                assert(keys[i as int] == path@);
                lemma_index_of_found(keys, path@, i as int);
            }
            return Some(i);
        }
        i = i + 1;
    }
    proof {
        lemma_index_of_absent(keys, path@);
    }
    None
}

/// One Git repository held in memory.
#[derive(Debug)]
pub struct MockGitRepo {
    /// Where the repository lives.
    pub path: String,
    files: Vec<TrackedFile>,
    commits: Vec<GitCommit>,
    initialized: bool,
    branch: String,
}

impl View for MockGitRepo {
    type V = RepoModel;

    closed spec fn view(&self) -> RepoModel {
        RepoModel {
            path: self.path@,
            files: file_models(self.files@),
            commits: commit_models(self.commits@),
            initialized: self.initialized,
            branch: self.branch@,
        }
    }
}

impl MockGitRepo {
    /// An uninitialised repository at `path` on branch `main`, without files or commits.
    pub fn new(path: String) -> (r: Self)
        ensures
            r@ == fresh_repo(path@),
            repo_ok(r@),
    {
        proof {
            assert(file_paths(fresh_repo(path@).files) =~= Seq::<Seq<char>>::empty());
        }
        let r = MockGitRepo {
            path,
            files: Vec::new(),
            commits: Vec::new(),
            initialized: false,
            branch: String::from_str("main"),
        };
        assert(r@.files =~= Seq::empty());
        assert(r@.commits =~= Seq::empty());
        r
    }

    /// Initialises the repository; a second initialisation is refused.
    pub fn init(&mut self) -> (r: Result<(), SyncError>)
        ensures
            final(self)@ == after_init(old(self)@),
            !old(self)@.initialized ==> r is Ok,
            old(self)@.initialized ==> app_failure(r, "Git仓库已经初始化"@),
            repo_ok(old(self)@) ==> repo_ok(final(self)@),
    {
        if self.initialized {
            return Err(SyncError::App(String::from_str("Git仓库已经初始化")));
        }
        self.initialized = true;
        Ok(())
    }

    /// Whether `init` has succeeded on this repository.
    pub fn is_initialized(&self) -> (r: bool)
        ensures
            r == self@.initialized,
    {
        self.initialized
    }

    /// Records that `file_path` appeared in the working tree.
    pub fn add_file(&mut self, file_path: &str)
        ensures
            final(self)@ == after_add_file(old(self)@, file_path@),
            repo_ok(old(self)@) ==> repo_ok(final(self)@),
    {
        proof {
            if repo_ok(self@) {
                lemma_repo_stays_ok(self@, file_path@, file_path@);
            }
        }
        match find_file(&self.files, file_path) {
            Some(i) => {
                self.files[i].status = GitFileStatus::Untracked;
                assert(file_models(self.files@) =~= with_file(
                    file_models(old(self).files@),
                    file_path@,
                ));
            },
            None => {
                self.files.push(
                    TrackedFile {
                        path: String::from_str(file_path),
                        status: GitFileStatus::Untracked,
                    },
                );
                assert(file_models(self.files@) =~= with_file(
                    file_models(old(self).files@),
                    file_path@,
                ));
            },
        }
    }

    /// The state of `file_path`, or `None` for a file the repository has never seen.
    pub fn get_file_status(&self, file_path: &str) -> (r: Option<GitFileStatus>)
        ensures
            r == file_status(self@.files, file_path@),
    {
        match find_file(&self.files, file_path) {
            Some(i) => Some(self.files[i].status),
            None => None,
        }
    }

    /// Stages every untracked or modified file. Needs an initialised repository.
    pub fn add_all(&mut self) -> (r: Result<(), SyncError>)
        ensures
            final(self)@ == after_add_all(old(self)@),
            old(self)@.initialized ==> r is Ok,
            !old(self)@.initialized ==> app_failure(r, "Git仓库未初始化"@),
            repo_ok(old(self)@) ==> repo_ok(final(self)@),
    {
        proof {
            if repo_ok(self@) {
                lemma_repo_stays_ok(self@, self@.path, self@.path);
            }
        }
        if !self.initialized {
            return Err(SyncError::App(String::from_str("Git仓库未初始化")));
        }
        let ghost before = file_models(self.files@);
        let n = self.files.len();
        let mut i: usize = 0;
        while i < n
            invariant
                i <= n,
                n == self.files.len(),
                n == before.len(),
                self.path == old(self).path,
                self.commits == old(self).commits,
                self.initialized == old(self).initialized,
                self.branch == old(self).branch,
                forall|j: int| 0 <= j < i ==> (#[trigger] self.files@[j])@ == staged_one(before[j]),
                forall|j: int| i <= j < n ==> (#[trigger] self.files@[j])@ == before[j],
            decreases n - i,
        {
            let status = self.files[i].status;
            if status == GitFileStatus::Untracked || status == GitFileStatus::Modified {
                self.files[i].status = GitFileStatus::Staged;
            }
            i = i + 1;
        }
        assert(file_models(self.files@) =~= staged_all(before));
        Ok(())
    }

    /// Commits the staged files under `message`. Needs an initialised
    /// repository and at least one staged file.
    pub fn commit(&mut self, message: &str) -> (r: Result<(), SyncError>)
        ensures
            final(self)@ == after_commit(old(self)@, message@),
            can_commit(old(self)@) ==> r is Ok,
            !old(self)@.initialized ==> app_failure(r, "Git仓库未初始化"@),
            old(self)@.initialized && !can_commit(old(self)@) ==> app_failure(
                r,
                "没有暂存的文件可以提交"@,
            ),
            repo_ok(old(self)@) ==> repo_ok(final(self)@),
    {
        proof {
            if repo_ok(self@) {
                lemma_repo_stays_ok(self@, self@.path, message@);
            }
        }
        if !self.initialized {
            return Err(SyncError::App(String::from_str("Git仓库未初始化")));
        }
        let ghost before = file_models(self.files@);
        let n = self.files.len();
        let mut staged: Vec<String> = Vec::new();
        let mut i: usize = 0;
        while i < n
            invariant
                i <= n,
                n == self.files.len(),
                before == file_models(self.files@),
                staged@.map_values(|s: String| s@) == staged_paths(before.take(i as int)),
            decreases n - i,
        {
            assert(before.take(i + 1).drop_last() =~= before.take(i as int));
            if self.files[i].status == GitFileStatus::Staged {
                staged.push(self.files[i].path.clone());
                assert(staged@.map_values(|s: String| s@) =~= staged_paths(
                    before.take(i as int),
                ).push(before[i as int].0));
            }
            i = i + 1;
        }
        assert(before.take(n as int) =~= before);
        if staged.len() == 0 {
            return Err(SyncError::App(String::from_str("没有暂存的文件可以提交")));
        }
        let mut hash = String::from_str("commit");
        let number = decimal_successor(self.commits.len());
        hash.append(number.as_str());
        let commit = GitCommit {
            hash,
            message: String::from_str(message),
            timestamp: String::from_str("2024-01-01T00:00:00Z"),
            files: staged,
        };
        assert(commit@ == next_commit(old(self)@, message@));
        self.commits.push(commit);
        assert(commit_models(self.commits@) =~= old(self)@.commits.push(
            next_commit(old(self)@, message@),
        ));
        let mut k: usize = 0;
        while k < n
            invariant
                k <= n,
                n == self.files.len(),
                n == before.len(),
                self.path == old(self).path,
                self.initialized == old(self).initialized,
                self.branch == old(self).branch,
                commit_models(self.commits@) == old(self)@.commits.push(
                    next_commit(old(self)@, message@),
                ),
                forall|j: int|
                    0 <= j < k ==> (#[trigger] self.files@[j])@ == committed_one(before[j]),
                forall|j: int| k <= j < n ==> (#[trigger] self.files@[j])@ == before[j],
            decreases n - k,
        {
            if self.files[k].status == GitFileStatus::Staged {
                self.files[k].status = GitFileStatus::Committed;
            }
            k = k + 1;
        }
        assert(file_models(self.files@) =~= committed_all(before));
        Ok(())
    }

    /// The commits, oldest first.
    pub fn get_commits(&self) -> (r: &Vec<GitCommit>)
        ensures
            commit_models(r@) == self@.commits,
    {
        &self.commits
    }

    /// The name of the current branch.
    pub fn get_branch(&self) -> (r: &str)
        ensures
            r@ == self@.branch,
    {
        self.branch.as_str()
    }

    /// Whether every file is committed.
    pub fn is_working_directory_clean(&self) -> (r: bool)
        ensures
            r == all_committed(self@.files),
    {
        let mut i: usize = 0;
        while i < self.files.len()
            invariant
                i <= self.files.len(),
                forall|j: int|
                    0 <= j < i ==> (#[trigger] file_models(self.files@)[j]).1
                        == GitFileStatus::Committed,
            decreases self.files.len() - i,
        {
            if self.files[i].status != GitFileStatus::Committed {
                assert(file_models(self.files@)[i as int].1 != GitFileStatus::Committed);
                return false;
            }
            i = i + 1;
        }
        true
    }

    /// Marks a committed file as modified. Any other file is refused.
    pub fn modify_file(&mut self, file_path: &str) -> (r: Result<(), SyncError>)
        ensures
            final(self)@ == after_modify(old(self)@, file_path@),
            match file_status(old(self)@.files, file_path@) {
                Some(GitFileStatus::Committed) => r is Ok,
                Some(_) => app_failure(r, "文件 "@ + file_path@ + " 不是已提交状态，无法修改"@),
                None => app_failure(r, "文件 "@ + file_path@ + " 不存在"@),
            },
            repo_ok(old(self)@) ==> repo_ok(final(self)@),
    {
        proof {
            if repo_ok(self@) {
                lemma_repo_stays_ok(self@, file_path@, file_path@);
            }
        }
        match find_file(&self.files, file_path) {
            Some(i) => {
                if self.files[i].status == GitFileStatus::Committed {
                    self.files[i].status = GitFileStatus::Modified;
                    assert(file_models(self.files@) =~= old(self)@.files.update(
                        i as int,
                        (file_path@, GitFileStatus::Modified),
                    ));
                    Ok(())
                } else {
                    let mut m = String::from_str("文件 ");
                    m.append(file_path);
                    m.append(" 不是已提交状态，无法修改");
                    Err(SyncError::App(m))
                }
            },
            None => {
                let mut m = String::from_str("文件 ");
                m.append(file_path);
                m.append(" 不存在");
                Err(SyncError::App(m))
            },
        }
    }

    /// The status listing of the repository.
    pub fn status_text(&self) -> (r: String)
        ensures
            r@ == status_listing(self@.files),
    {
        let ghost files = file_models(self.files@);
        let mut out = String::new();
        let mut i: usize = 0;
        while i < self.files.len()
            invariant
                i <= self.files.len(),
                files == file_models(self.files@),
                out@ == status_listing(files.take(i as int)),
            decreases self.files.len() - i,
        {
            assert(files.take(i + 1).drop_last() =~= files.take(i as int));
            let status = self.files[i].status;
            if status != GitFileStatus::Committed {
                proof {
                    reveal_strlit("??");
                    reveal_strlit("A ");
                    reveal_strlit(" M");
                }
                let code = match status {
                    GitFileStatus::Untracked => "??",
                    GitFileStatus::Staged => "A ",
                    _ => " M",
                };
                assert(code@ == status_code(status));
                out.append(code);
                out.append(" ");
                out.append(self.files[i].path.as_str());
                out.append("\n");
            }
            i = i + 1;
        }
        assert(files.take(self.files.len() as int) =~= files);
        out
    }

    /// The history listing of the repository.
    pub fn log_text(&self, count: Option<usize>) -> (r: String)
        ensures
            r@ == log_listing(self@.commits, log_limit(count, self@.commits.len())),
    {
        let ghost commits = commit_models(self.commits@);
        let n = self.commits.len();
        let limit = match count {
            Some(c) => c,
            None => n,
        };
        let mut out = String::new();
        let mut k: usize = 0;
        proof {
            assert(commits.take(n as int) =~= commits);
            let whole = log_listing(commits, limit as nat);
            assert(out@ + whole =~= whole);
        }
        while k < limit && k < n
            invariant
                k <= n,
                k <= limit,
                n == self.commits.len(),
                commits == commit_models(self.commits@),
                out@ + log_listing(commits.take(n - k), (limit - k) as nat) == log_listing(
                    commits,
                    limit as nat,
                ),
            decreases n - k,
        {
            let c = &self.commits[n - 1 - k];
            proof {
                let rest = commits.take(n - k);
                assert(rest.last() == c@);
                assert(rest.drop_last() =~= commits.take(n - k - 1));
                assert(out@ + (log_line(c@) + log_listing(
                    commits.take(n - k - 1),
                    (limit - k - 1) as nat,
                )) =~= (out@ + c@.hash + " "@ + c@.message + "\n"@) + log_listing(
                    commits.take(n - k - 1),
                    (limit - k - 1) as nat,
                ));
            }
            out.append(c.hash.as_str());
            out.append(" ");
            out.append(c.message.as_str());
            out.append("\n");
            k = k + 1;
        }
        proof {
            assert(commits.take(n as int) =~= commits);
            assert(log_listing(commits.take(n - k), (limit - k) as nat) =~= Seq::<char>::empty());
            assert(out@ + Seq::<char>::empty() =~= out@);
        }
        out
    }
}

/// The paths of a sequence of repositories.
pub open spec fn repo_paths(repos: Seq<RepoModel>) -> Seq<Seq<char>> {
    repos.map_values(|r: RepoModel| r.path)
}

/// The table after `path` was looked up: a repository that was never
/// mentioned before is added, fresh, at the end.
pub open spec fn opened(repos: Seq<RepoModel>, path: Seq<char>) -> Seq<RepoModel> {
    match index_of(repo_paths(repos), path) {
        Some(_) => repos,
        None => repos.push(fresh_repo(path)),
    }
}

/// The position of the repository for `path` in `opened(repos, path)`.
pub open spec fn slot(repos: Seq<RepoModel>, path: Seq<char>) -> int {
    match index_of(repo_paths(repos), path) {
        Some(i) => i,
        None => repos.len() as int,
    }
}

/// The repository for `path`, fresh if it was never mentioned before.
pub open spec fn current(repos: Seq<RepoModel>, path: Seq<char>) -> RepoModel {
    opened(repos, path)[slot(repos, path)]
}

/// The table after the repository for `path` was replaced by `next`.
pub open spec fn replaced(repos: Seq<RepoModel>, path: Seq<char>, next: RepoModel) -> Seq<
    RepoModel,
> {
    opened(repos, path).update(slot(repos, path), next)
}

/// The files after each of `paths` appeared in the working tree, in order.
pub open spec fn with_files(files: Seq<FileModel>, paths: Seq<Seq<char>>) -> Seq<FileModel>
    decreases paths.len(),
{
    if paths.len() == 0 {
        files
    } else {
        with_file(with_files(files, paths.drop_last()), paths.last())
    }
}

/// A list that holds a staged file has a staged path.
pub proof fn lemma_staged_file_counts(files: Seq<FileModel>, k: int)
    requires
        0 <= k < files.len(),
        files[k].1 == GitFileStatus::Staged,
    ensures
        staged_paths(files).len() > 0,
    decreases files.len(),
{
    if k < files.len() - 1 {
        assert(files.drop_last()[k] == files[k]);
        lemma_staged_file_counts(files.drop_last(), k);
    }
}

/// Once files have appeared in an initialised repository, staging leaves
/// something to commit.
pub proof fn lemma_new_files_can_be_committed(repo: RepoModel, paths: Seq<Seq<char>>)
    requires
        paths.len() > 0,
    ensures
        can_commit(
            after_add_all(
                RepoModel { files: with_files(after_init(repo).files, paths), ..after_init(repo) },
            ),
        ),
{
    let before = with_files(repo.files, paths.drop_last());
    let filled = with_file(before, paths.last());
    assert(with_files(repo.files, paths) == filled);
    let k = match index_of(file_paths(before), paths.last()) {
        Some(i) => i,
        None => before.len() as int,
    };
    if index_of(file_paths(before), paths.last()) is Some {
        assert(is_first(file_paths(before), paths.last(), k));
    }
    assert(filled[k].1 == GitFileStatus::Untracked);
    assert(staged_all(filled)[k].1 == GitFileStatus::Staged);
    lemma_staged_file_counts(staged_all(filled), k);
}

/// Replacing the repository for a path keeps it findable under that path:
/// a second replacement overwrites the first.
pub proof fn lemma_replaced(repos: Seq<RepoModel>, path: Seq<char>, first: RepoModel)
    requires
        first.path == path,
    ensures
        current(replaced(repos, path, first), path) == first,
        opened(replaced(repos, path, first), path) == replaced(repos, path, first),
        forall|second: RepoModel|
            #[trigger] replaced(replaced(repos, path, first), path, second) == replaced(
                repos,
                path,
                second,
            ),
        current(repos, path).path == path,
        opened(opened(repos, path), path) == opened(repos, path),
        current(opened(repos, path), path) == current(repos, path),
{
    let keys = repo_paths(repos);
    let table = opened(repos, path);
    let i = slot(repos, path);
    match index_of(keys, path) {
        Some(k) => {
            assert(is_first(keys, path, k));
            assert(keys[k] == repos[k].path);
        },
        None => {
            assert forall|j: int| 0 <= j < keys.len() implies keys[j] != path by {
                if keys[j] == path {
                    lemma_first_exists(keys, path, j);
                }
            }
        },
    }
    assert(is_first(repo_paths(table), path, i)) by {
        assert forall|j: int| 0 <= j < i implies repo_paths(table)[j] != path by {
            assert(repo_paths(table)[j] == keys[j]);
        }
    }
    lemma_index_of_found(repo_paths(table), path, i);
    let next = replaced(repos, path, first);
    assert(is_first(repo_paths(next), path, i)) by {
        assert forall|j: int| 0 <= j < i implies repo_paths(next)[j] != path by {
            assert(repo_paths(next)[j] == repo_paths(table)[j]);
        }
    }
    lemma_index_of_found(repo_paths(next), path, i);
    assert forall|second: RepoModel| #[trigger]
        replaced(next, path, second) == replaced(repos, path, second) by {
        assert(next.update(i, second) =~= table.update(i, second));
    }
}

/// The invariant of a repository: it knows each path once.
pub open spec fn repo_ok(repo: RepoModel) -> bool {
    distinct(file_paths(repo.files))
}

/// The invariant of the table: it holds one repository per path, each
/// under its own path and each with its own invariant.
pub open spec fn table_ok(repos: Seq<RepoModel>) -> bool {
    &&& distinct(repo_paths(repos))
    &&& forall|i: int| 0 <= i < repos.len() ==> repo_ok(#[trigger] repos[i])
}

/// Every operation on a repository keeps its invariant, and a fresh
/// repository has it.
pub proof fn lemma_repo_stays_ok(repo: RepoModel, path: Seq<char>, message: Seq<char>)
    requires
        repo_ok(repo),
    ensures
        repo_ok(fresh_repo(path)),
        repo_ok(after_init(repo)),
        repo_ok(after_add_file(repo, path)),
        repo_ok(after_add_all(repo)),
        repo_ok(after_commit(repo, message)),
        repo_ok(after_modify(repo, path)),
{
    let keys = file_paths(repo.files);
    assert(file_paths(staged_all(repo.files)) =~= keys);
    assert(file_paths(committed_all(repo.files)) =~= keys);
    match index_of(keys, path) {
        Some(i) => {
            assert(is_first(keys, path, i));
            assert(file_paths(repo.files.update(i, (path, GitFileStatus::Untracked))) =~= keys);
            assert(file_paths(repo.files.update(i, (path, GitFileStatus::Modified))) =~= keys);
        },
        None => {
            let grown = file_paths(repo.files.push((path, GitFileStatus::Untracked)));
            assert(grown =~= keys.push(path));
            assert forall|i: int, j: int| 0 <= i < j < grown.len() implies grown[i]
                != grown[j] by {
                if j == keys.len() {
                    if keys[i] == path {
                        lemma_first_exists(keys, path, i);
                    }
                }
            }
        },
    }
}

/// Looking a path up and replacing its repository keep the invariant of the table.
pub proof fn lemma_table_stays_ok(repos: Seq<RepoModel>, path: Seq<char>, next: RepoModel)
    requires
        table_ok(repos),
        repo_ok(next),
        next.path == path,
    ensures
        table_ok(opened(repos, path)),
        table_ok(replaced(repos, path, next)),
{
    let keys = repo_paths(repos);
    let table = opened(repos, path);
    let i = slot(repos, path);
    lemma_replaced(repos, path, next);
    match index_of(keys, path) {
        Some(k) => {
            assert(is_first(keys, path, k));
        },
        None => {
            assert(repo_paths(table) =~= keys.push(path));
            assert forall|a: int, b: int| 0 <= a < b < table.len() implies repo_paths(table)[a]
                != repo_paths(table)[b] by {
                if b == keys.len() {
                    if keys[a] == path {
                        lemma_first_exists(keys, path, a);
                    }
                }
            }
            assert(repo_ok(fresh_repo(path))) by {
                assert(file_paths(fresh_repo(path).files) =~= Seq::<Seq<char>>::empty());
            }
            assert forall|a: int| 0 <= a < table.len() implies repo_ok(#[trigger] table[a]) by {
                if a < repos.len() {
                    assert(table[a] == repos[a]);
                }
            }
        },
    }
    let after = replaced(repos, path, next);
    assert(repo_paths(after) =~= repo_paths(table)) by {
        assert(repo_paths(table)[i] == path);
    }
    assert forall|a: int| 0 <= a < after.len() implies repo_ok(#[trigger] after[a]) by {
        if a != i {
            assert(after[a] == table[a]);
        }
    }
}

/// Git repositories held in memory, one per path.
#[derive(Debug)]
pub struct MockGitOperations {
    repos: Vec<MockGitRepo>,
}

impl View for MockGitOperations {
    type V = Seq<RepoModel>;

    closed spec fn view(&self) -> Seq<RepoModel> {
        self.repos@.map_values(|r: MockGitRepo| r@)
    }
}

impl MockGitOperations {
    /// A table without repositories.
    pub fn new() -> (r: Self)
        ensures
            r@ == Seq::<RepoModel>::empty(),
            table_ok(r@),
    {
        let r = MockGitOperations { repos: Vec::new() };
        assert(r@ =~= Seq::<RepoModel>::empty());
        r
    }

    fn find_repo(&self, path: &str) -> (r: Option<usize>)
        ensures
            match r {
                Some(i) => index_of(repo_paths(self@), path@) == Some(i as int) && i
                    < self.repos.len(),
                None => index_of(repo_paths(self@), path@) is None,
            },
    {
        let ghost keys = repo_paths(self@);
        let mut i: usize = 0;
        while i < self.repos.len()
            invariant
                i <= self.repos.len(),
                keys == repo_paths(self@),
                forall|j: int| 0 <= j < i ==> keys[j] != path@,
            decreases self.repos.len() - i,
        {
            if text_eq(self.repos[i].path.as_str(), path) {
                proof {
                    assert(keys[i as int] == path@);
                    lemma_index_of_found(keys, path@, i as int);
                }
                return Some(i);
            }
            i = i + 1;
        }
        proof {
            lemma_index_of_absent(keys, path@);
        }
        None
    }

    /// The position of the repository for `path`, which is created if the
    /// table does not hold it yet.
    pub fn get_or_create_repo(&mut self, path: &str) -> (i: usize)
        ensures
            final(self)@ == opened(old(self)@, path@),
            i == slot(old(self)@, path@),
            i < final(self)@.len(),
            table_ok(old(self)@) ==> table_ok(final(self)@),
    {
        proof {
            if table_ok(self@) {
                lemma_repo_stays_ok(fresh_repo(path@), path@, path@);
                lemma_table_stays_ok(self@, path@, fresh_repo(path@));
            }
        }
        match self.find_repo(path) {
            Some(i) => i,
            None => {
                let i = self.repos.len();
                self.repos.push(MockGitRepo::new(String::from_str(path)));
                assert(self@ =~= old(self)@.push(fresh_repo(path@)));
                i
            },
        }
    }

    /// Replaces the repository kept for `path` by `repo`.
    pub fn update_repo(&mut self, path: &str, repo: MockGitRepo) -> (r: Result<(), SyncError>)
        ensures
            r is Ok,
            final(self)@ == replaced(old(self)@, path@, repo@),
            table_ok(old(self)@) && repo_ok(repo@) && repo@.path == path@ ==> table_ok(
                final(self)@,
            ),
    {
        proof {
            if table_ok(self@) && repo_ok(repo@) && repo@.path == path@ {
                lemma_table_stays_ok(self@, path@, repo@);
            }
        }
        let i = self.get_or_create_repo(path);
        self.repos[i] = repo;
        assert(self@ =~= replaced(old(self)@, path@, repo@));
        Ok(())
    }

    /// Records that `file_path` appeared in the working tree of the repository at `repo_path`.
    pub fn add_file_to_mock(&mut self, repo_path: &str, file_path: &str) -> (r: Result<
        (),
        SyncError,
    >)
        ensures
            r is Ok,
            final(self)@ == replaced(
                old(self)@,
                repo_path@,
                after_add_file(current(old(self)@, repo_path@), file_path@),
            ),
            table_ok(old(self)@) ==> table_ok(final(self)@),
    {
        proof {
            if table_ok(self@) {
                lemma_request_keeps_table(
                    self@,
                    GitCall::AddAll(repo_path@),
                    file_path@,
                    file_path@,
                );
            }
        }
        let i = self.get_or_create_repo(repo_path);
        self.repos[i].add_file(file_path);
        assert(self@ =~= replaced(
            old(self)@,
            repo_path@,
            after_add_file(current(old(self)@, repo_path@), file_path@),
        ));
        Ok(())
    }

    /// The repository kept for `path`, if the table holds one.
    pub fn get_repo_state(&self, path: &str) -> (r: Option<&MockGitRepo>)
        ensures
            match index_of(repo_paths(self@), path@) {
                Some(i) => r matches Some(repo) && repo@ == self@[i],
                None => r is None,
            },
    {
        match self.find_repo(path) {
            Some(i) => Some(&self.repos[i]),
            None => None,
        }
    }
}

impl Default for MockGitOperations {
    fn default() -> (r: Self)
        ensures
            r@ == Seq::<RepoModel>::empty(),
    {
        MockGitOperations::new()
    }
}

/// Every request keeps the invariant of the table, and so does letting a
/// file appear.
pub proof fn lemma_request_keeps_table(
    repos: Seq<RepoModel>,
    call: GitCall,
    file: Seq<char>,
    message: Seq<char>,
)
    requires
        table_ok(repos),
    ensures
        ({
            let path = match call {
                GitCall::Init(path) => path,
                GitCall::ConfigUser(path, _, _) => path,
                GitCall::AddAll(path) => path,
                GitCall::Commit(path, _) => path,
                GitCall::Status(path) => path,
                GitCall::Log(path, _) => path,
                GitCall::IsClean(path) => path,
            };
            let repo = current(repos, path);
            &&& repo_ok(repo)
            &&& repo.path == path
            &&& table_ok(opened(repos, path))
            &&& table_ok(replaced(repos, path, after_init(repo)))
            &&& table_ok(replaced(repos, path, after_add_all(repo)))
            &&& table_ok(replaced(repos, path, after_add_file(repo, file)))
            &&& table_ok(replaced(repos, path, after_commit(repo, message)))
        }),
{
    let path = match call {
        GitCall::Init(path) => path,
        GitCall::ConfigUser(path, _, _) => path,
        GitCall::AddAll(path) => path,
        GitCall::Commit(path, _) => path,
        GitCall::Status(path) => path,
        GitCall::Log(path, _) => path,
        GitCall::IsClean(path) => path,
    };
    let repo = current(repos, path);
    lemma_repo_stays_ok(fresh_repo(path), path, path);
    lemma_table_stays_ok(repos, path, fresh_repo(path));
    lemma_replaced(repos, path, fresh_repo(path));
    assert(repo_ok(repo)) by {
        let table = opened(repos, path);
        assert(repo == table[slot(repos, path)]);
    }
    lemma_repo_stays_ok(repo, file, file);
    lemma_table_stays_ok(repos, path, after_init(repo));
    lemma_table_stays_ok(repos, path, after_add_all(repo));
    lemma_table_stays_ok(repos, path, after_add_file(repo, file));
    lemma_repo_stays_ok(repo, file, message);
    lemma_table_stays_ok(repos, path, after_commit(repo, message));
}

/// Whatever the in-memory backend is asked, its table keeps its invariant.
pub proof fn lemma_mock_keeps_table(
    before: Seq<RepoModel>,
    call: GitCall,
    after: Seq<RepoModel>,
    answer: GitAnswer,
)
    requires
        table_ok(before),
        mock_answered(before, call, after, answer),
    ensures
        table_ok(after),
{
    let message = match call {
        GitCall::Commit(_, message) => message,
        _ => Seq::empty(),
    };
    lemma_request_keeps_table(before, call, Seq::empty(), message);
}

/// What the in-memory backend does with a request: the repository for the
/// path is looked up (and created if the table does not hold it), the
/// operation is applied to it by the rules of the model, and the answer
/// says whether the rules allowed it.
pub open spec fn mock_answered(
    before: Seq<RepoModel>,
    call: GitCall,
    after: Seq<RepoModel>,
    answer: GitAnswer,
) -> bool {
    match call {
        GitCall::Init(path) => {
            let repo = current(before, path);
            &&& after == replaced(before, path, after_init(repo))
            &&& answer matches GitAnswer::Done(r)
            &&& !repo.initialized ==> r is Ok
            &&& repo.initialized ==> app_failure(r, "Git仓库已经初始化"@)
        },
        GitCall::ConfigUser(path, name, email) => {
            &&& after == before
            &&& answer matches GitAnswer::Done(r)
            &&& r is Ok
        },
        GitCall::AddAll(path) => {
            let repo = current(before, path);
            &&& after == replaced(before, path, after_add_all(repo))
            &&& answer matches GitAnswer::Done(r)
            &&& repo.initialized ==> r is Ok
            &&& !repo.initialized ==> app_failure(r, "Git仓库未初始化"@)
        },
        GitCall::Commit(path, message) => {
            let repo = current(before, path);
            &&& after == replaced(before, path, after_commit(repo, message))
            &&& answer matches GitAnswer::Done(r)
            &&& can_commit(repo) ==> r is Ok
            &&& !repo.initialized ==> app_failure(r, "Git仓库未初始化"@)
            &&& repo.initialized && !can_commit(repo) ==> app_failure(
                r,
                "没有暂存的文件可以提交"@,
            )
        },
        GitCall::Status(path) => {
            &&& after == opened(before, path)
            &&& answer matches GitAnswer::Text(Ok(text))
            &&& text@ == status_listing(current(before, path).files)
        },
        GitCall::Log(path, count) => {
            let commits = current(before, path).commits;
            &&& after == opened(before, path)
            &&& answer matches GitAnswer::Text(Ok(text))
            &&& text@ == log_listing(commits, log_limit(count, commits.len()))
        },
        GitCall::IsClean(path) => {
            &&& after == opened(before, path)
            &&& answer matches GitAnswer::Flag(Ok(clean))
            &&& clean == all_committed(current(before, path).files)
        },
    }
}

impl GitOperations for MockGitOperations {
    open spec fn answered(before: Self, call: GitCall, after: Self, answer: GitAnswer) -> bool {
        mock_answered(before@, call, after@, answer)
    }

    fn init(&mut self, path: &str) -> (r: Result<(), SyncError>) {
        let i = self.get_or_create_repo(path);
        let r = self.repos[i].init();
        assert(self@ =~= replaced(old(self)@, path@, after_init(current(old(self)@, path@))));
        r
    }

    fn config_user(&mut self, path: &str, name: &str, email: &str) -> (r: Result<(), SyncError>) {
        Ok(())
    }

    fn add_all(&mut self, path: &str) -> (r: Result<(), SyncError>) {
        let i = self.get_or_create_repo(path);
        let r = self.repos[i].add_all();
        assert(self@ =~= replaced(old(self)@, path@, after_add_all(current(old(self)@, path@))));
        r
    }

    fn commit(&mut self, path: &str, message: &str) -> (r: Result<(), SyncError>) {
        let i = self.get_or_create_repo(path);
        let r = self.repos[i].commit(message);
        assert(self@ =~= replaced(
            old(self)@,
            path@,
            after_commit(current(old(self)@, path@), message@),
        ));
        r
    }

    fn status(&mut self, path: &str) -> (r: Result<String, SyncError>) {
        let i = self.get_or_create_repo(path);
        Ok(self.repos[i].status_text())
    }

    fn log(&mut self, path: &str, count: Option<usize>) -> (r: Result<String, SyncError>) {
        let i = self.get_or_create_repo(path);
        Ok(self.repos[i].log_text(count))
    }

    fn is_clean(&mut self, path: &str) -> (r: Result<bool, SyncError>) {
        let i = self.get_or_create_repo(path);
        Ok(self.repos[i].is_working_directory_clean())
    }
}

} // verus!
