//! Replays a linear SVN history as one-to-one Git commits.
//!
//! The crate holds the decisions: which operation comes next, what its
//! outcome means, and when to stop. Everything that touches the outside
//! world goes through a port: [`SvnOperations`] for the source,
//! [`GitOperations`] for the destination, [`UserInteractor`] for the
//! operator, [`FileStorage`] for the remembered pairings, and, below the
//! backends that drive the `svn` and `git` executables, [`CommandRunner`]
//! for starting a process.
//!
//! Each port comes with a relation that says what an implementation promises
//! about its answers. An implementation that works in memory defines the
//! relation exactly; one that reaches outside keeps the default and promises
//! nothing. Whatever is built on a port is proved against the relation, so a
//! contract reads the same for every implementation: this was asked, in this
//! order, and this is what was made of the answers.
//!
//! The orchestration itself is a state machine, [`SyncMachine`], whose laws
//! are proved once, for every course a run can take; [`SyncTool`] drives it
//! through the ports.

pub mod command;
pub mod config;
pub mod error;
pub mod interactor;
pub mod lookup;
pub mod ops;
pub mod sync;
pub mod test_utils;
pub mod text;

pub use command::{Cli, Commands, HistoryCommands};
pub use config::disk::{DiskStorage, MemoryStorage};
pub use config::manager::{FileStorage, HistoryManager};
pub use config::order::cmp_last_used;
pub use config::record::{title_line, HistoryRecord, SyncConfig, Timestamp};
pub use error::SyncError;
pub use interactor::helper::{confirm_sync, select_or_create_config};
pub use interactor::user::{DefaultUserInteractor, TestUserInteractor, UserInteractor};
pub use ops::git::{git_commit_real, git_commit_with_ops};
pub use ops::git_operations::GitOperations;
pub use ops::git_provider::{GitOperationsFactory, GitProvider, ProviderType};
pub use ops::mock_git::{GitCommit, GitFileStatus, MockGitOperations, MockGitRepo};
pub use ops::process::{CommandRunner, ToolCommand, ToolOutput};
pub use ops::real_git::RealGitOperations;
pub use ops::svn::{
    get_svn_logs, parse_svn_log_xml, svn_update_to_rev, RealSvnOperations, SvnLog, SvnOperations,
};
pub use sync::machine::{
    SyncAction, SyncEvent, SyncMachine, SyncOutcome, SyncPhase, SyncRunOptions,
};
pub use sync::tool::{SyncReport, SyncTool};
