//! What the operator can ask for on the command line.

use vstd::prelude::*;

verus! {

/// A parsed command line.
#[derive(Debug)]
pub struct Cli {
    /// What to do.
    pub command: Commands,
}

/// The commands of the tool.
#[derive(Debug)]
pub enum Commands {
    /// Replay the pending revisions of an SVN working copy into a Git repository.
    Sync {
        /// The SVN working copy; asked for if absent.
        svn_dir: Option<String>,
        /// The Git repository; asked for if absent.
        git_dir: Option<String>,
        /// Only report what would be done.
        dry_run: bool,
        /// Apply at most this many revisions.
        limit: Option<usize>,
    },
    /// Look at or change the remembered pairings.
    History {
        /// What to do with them.
        command: HistoryCommands,
    },
}

/// The commands on the remembered pairings.
#[derive(Debug, Clone, Copy, PartialEq, Eq, Structural)]
pub enum HistoryCommands {
    /// List them.
    List,
    /// Delete the one at position `id` of the list, counted from zero.
    Delete { id: usize },
}

} // verus!
