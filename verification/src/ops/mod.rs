pub mod conflict;
pub mod git;
pub mod git_operations;
pub mod git_provider;
pub mod mock_git;
pub mod process;
pub mod real_git;
pub mod svn;
