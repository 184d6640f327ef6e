//! Factories for configurations, data sets and populated repositories.

use vstd::prelude::*;
use vstd::string::*;

use crate::config::record::SyncConfig;
use crate::ops::git_operations::GitOperations;
use crate::ops::git_provider::ProviderType;
use crate::ops::mock_git::{
    after_add_all, after_commit, after_init, can_commit, current, lemma_replaced, replaced,
    with_files, MockGitOperations, RepoModel,
};
use crate::test_utils::helpers::{join_test_path, slice_texts, test_path_text};

verus! {

/// Creates configurations and data sets for tests.
pub struct TestFactory;

/// A data set for tests: a source, a destination and a few revisions.
#[derive(Debug)]
pub struct TestData {
    /// The SVN working copy.
    pub svn_dir: String,
    /// The Git repository.
    pub git_dir: String,
    /// Revision identifiers with their messages.
    pub commits: Vec<(&'static str, &'static str)>,
}

impl TestFactory {
    /// A configuration for `/test/svn` and `/test/git` with the chosen backend.
    pub fn create_sync_config(use_real_git: bool) -> (r: SyncConfig)
        ensures
            r.svn_dir@ == "/test/svn"@,
            r.git_dir@ == "/test/git"@,
            r.git_provider == if use_real_git {
                ProviderType::Real
            } else {
                ProviderType::Mock
            },
    {
        let svn_dir = String::from_str("/test/svn");
        let git_dir = String::from_str("/test/git");
        let git_provider = if use_real_git {
            ProviderType::Real
        } else {
            ProviderType::Mock
        };
        SyncConfig::with_git_provider(svn_dir, git_dir, git_provider)
    }

    /// The path below `/test` that the components name.
    pub fn test_path(components: &[&str]) -> (r: String)
        ensures
            r@ == test_path_text(slice_texts(components@)),
    {
        join_test_path(components)
    }

    /// The standard data set: three revisions between `/test/svn` and `/test/git`.
    pub fn create_test_data() -> (r: TestData)
        ensures
            r.svn_dir@ == "/test/svn"@,
            r.git_dir@ == "/test/git"@,
            r.commits@.len() == 3,
            r.commits@[0].0@ == "1"@ && r.commits@[0].1@ == "初始提交"@,
            r.commits@[1].0@ == "2"@ && r.commits@[1].1@ == "添加功能"@,
            r.commits@[2].0@ == "3"@ && r.commits@[2].1@ == "修复bug"@,
    {
        let mut commits: Vec<(&'static str, &'static str)> = Vec::new();
        commits.push(("1", "初始提交"));
        commits.push(("2", "添加功能"));
        commits.push(("3", "修复bug"));
        TestData {
            svn_dir: String::from_str("/test/svn"),
            git_dir: String::from_str("/test/git"),
            commits,
        }
    }
}

impl TestData {
    /// The configuration of the data set with the in-memory Git backend.
    pub fn create_mock_sync_config(&self) -> (r: SyncConfig)
        ensures
            r.svn_dir == self.svn_dir,
            r.git_dir == self.git_dir,
            r.git_provider == ProviderType::Mock,
    {
        SyncConfig::with_git_provider(
            self.svn_dir.clone(),
            self.git_dir.clone(),
            ProviderType::Mock,
        )
    }

    /// The configuration of the data set with the real Git backend.
    pub fn create_real_sync_config(&self) -> (r: SyncConfig)
        ensures
            r.svn_dir == self.svn_dir,
            r.git_dir == self.git_dir,
            r.git_provider == ProviderType::Real,
    {
        SyncConfig::with_git_provider(
            self.svn_dir.clone(),
            self.git_dir.clone(),
            ProviderType::Real,
        )
    }
}

/// The repository after `files` appeared in its working tree.
pub open spec fn after_add_files(repo: RepoModel, files: Seq<Seq<char>>) -> RepoModel {
    RepoModel { files: with_files(repo.files, files), ..repo }
}

/// The repository after it was initialised, `files` appeared, everything
/// was staged and the commit was attempted.
pub open spec fn after_commit_files(
    repo: RepoModel,
    files: Seq<Seq<char>>,
    message: Seq<char>,
) -> RepoModel {
    after_commit(after_add_all(after_add_files(after_init(repo), files)), message)
}

/// Populates in-memory repositories.
pub struct GitTestHelper;

impl GitTestHelper {
    /// An empty table of in-memory repositories.
    pub fn create_mock_git() -> (r: MockGitOperations)
        ensures
            r@ == Seq::<RepoModel>::empty(),
    {
        MockGitOperations::new()
    }

    /// Lets `files` appear in the working tree of the repository at `repo_path`.
    pub fn add_test_files(git_ops: &mut MockGitOperations, repo_path: &str, files: &[&str])
        ensures
            final(git_ops)@ == if files@.len() == 0 {
                old(git_ops)@
            } else {
                replaced(
                    old(git_ops)@,
                    repo_path@,
                    after_add_files(current(old(git_ops)@, repo_path@), slice_texts(files@)),
                )
            },
    {
        let ghost names = slice_texts(files@);
        let ghost start = git_ops@;
        let ghost first = current(start, repo_path@);
        let mut i: usize = 0;
        while i < files.len()
            invariant
                i <= files.len(),
                names == slice_texts(files@),
                first == current(start, repo_path@),
                i == 0 ==> git_ops@ == start,
                i > 0 ==> git_ops@ == replaced(
                    start,
                    repo_path@,
                    after_add_files(first, names.take(i as int)),
                ),
            decreases files.len() - i,
        {
            proof {
                assert(names.take(i + 1).drop_last() =~= names.take(i as int));
                assert(names.take(i + 1).last() == files@[i as int]@);
                lemma_replaced(start, repo_path@, after_add_files(first, names.take(i as int)));
                if i == 0 {
                    assert(names.take(0) =~= Seq::<Seq<char>>::empty());
                    assert(after_add_files(first, names.take(0)) == first);
                }
            }
            let _ = git_ops.add_file_to_mock(repo_path, files[i]);
            i = i + 1;
        }
        assert(names.take(files.len() as int) =~= names);
    }

    /// Initialises the repository at `repo_path`, lets `files` appear, stages
    /// them and commits them under `message`.
    ///
    /// The repository must not be initialised yet, and the commit must find
    /// something staged, which it does whenever `files` is not empty
    /// (`lemma_new_files_can_be_committed`).
    pub fn commit_files(
        git_ops: &mut MockGitOperations,
        repo_path: &str,
        files: &[&str],
        message: &str,
    )
        requires
            !current(old(git_ops)@, repo_path@).initialized,
            can_commit(
                after_add_all(
                    after_add_files(
                        after_init(current(old(git_ops)@, repo_path@)),
                        slice_texts(files@),
                    ),
                ),
            ),
        ensures
            final(git_ops)@ == replaced(
                old(git_ops)@,
                repo_path@,
                after_commit_files(
                    current(old(git_ops)@, repo_path@),
                    slice_texts(files@),
                    message@,
                ),
            ),
            current(final(git_ops)@, repo_path@) == after_commit_files(
                current(old(git_ops)@, repo_path@),
                slice_texts(files@),
                message@,
            ),
    {
        let ghost start = git_ops@;
        let ghost first = current(start, repo_path@);
        proof {
            lemma_replaced(start, repo_path@, after_init(first));
        }
        let initialised = git_ops.init(repo_path);
        assert(initialised is Ok);
        GitTestHelper::add_test_files(git_ops, repo_path, files);
        let ghost filled = after_add_files(after_init(first), slice_texts(files@));
        proof {
            if files@.len() == 0 {
                assert(filled == after_init(first));
            }
            lemma_replaced(start, repo_path@, filled);
        }
        assert(git_ops@ == replaced(start, repo_path@, filled));
        let staged = git_ops.add_all(repo_path);
        assert(staged is Ok);
        proof {
            lemma_replaced(start, repo_path@, after_add_all(filled));
        }
        let committed = git_ops.commit(repo_path, message);
        assert(committed is Ok);
        proof {
            lemma_replaced(
                start,
                repo_path@,
                after_commit_files(first, slice_texts(files@), message@),
            );
        }
    }
}

} // verus!
