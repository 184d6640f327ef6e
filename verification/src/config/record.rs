//! One resolved pairing of a source and a destination directory, and the
//! record that remembers when it was last used.

use std::fmt::Write;
use vstd::prelude::*;
use vstd::string::*;

use crate::ops::git_provider::{GitOperationsFactory, GitProvider, ProviderType};
use crate::ops::mock_git::RepoModel;
use crate::ops::process::CommandRunner;
use crate::text::{decimal, decimal_string, text_eq};

verus! {

/// A point in time: seconds since the Unix epoch in UTC, and the nanoseconds
/// since the last full second.
///
/// The library reads no clock. Whoever records that a pairing is used says
/// when, so that what is remembered depends on nothing but what was handed in.
#[derive(Debug, Clone, Copy, PartialEq, Eq, Structural)]
pub struct Timestamp {
    pub secs: i64,
    pub nanos: u32,
}

/// `a` is not later than `b`.
pub open spec fn not_after(a: Timestamp, b: Timestamp) -> bool {
    a.secs < b.secs || (a.secs == b.secs && a.nanos <= b.nanos)
}

/// The text that `chrono` makes of an instant in UTC under a `strftime`
/// pattern; `None` for an instant that the calendar cannot hold and for a
/// pattern that `chrono` does not accept.
pub uninterp spec fn rendered_time(secs: i64, nanos: u32, pattern: Seq<char>) -> Option<Seq<char>>;

/// Renders an instant in UTC: builds it with
/// `chrono::DateTime::from_timestamp` and formats it with `DateTime::format`.
/// The outcome is named `rendered_time(at.secs, at.nanos, pattern@)`.
#[verifier::external_body]
pub(crate) fn utc_time_text(at: &Timestamp, pattern: &str) -> (r: Option<String>)
    ensures
        match r {
            Some(text) => rendered_time(at.secs, at.nanos, pattern@) == Some(text@),
            None => rendered_time(at.secs, at.nanos, pattern@) is None,
        },
{
    let utc = chrono::DateTime::from_timestamp(at.secs, at.nanos)?;
    let mut out = String::new();
    match write!(out, "{}", utc.format(pattern)) {
        Ok(()) => Some(out),
        Err(_) => None,
    }
}

impl Timestamp {
    /// Whether `self` is not later than `other`.
    pub fn is_not_after(&self, other: &Timestamp) -> (r: bool)
        ensures
            r == not_after(*self, *other),
    {
        self.secs < other.secs || (self.secs == other.secs && self.nanos <= other.nanos)
    }
}

/// What one run works on.
#[derive(Debug)]
pub struct SyncConfig {
    /// The SVN working copy to read from.
    pub svn_dir: String,
    /// The Git repository to commit into.
    pub git_dir: String,
    /// The Git backend to use.
    pub git_provider: ProviderType,
}

impl SyncConfig {
    /// A configuration that uses the real Git backend.
    pub fn new(svn_dir: String, git_dir: String) -> (r: Self)
        ensures
            r.svn_dir == svn_dir,
            r.git_dir == git_dir,
            r.git_provider == ProviderType::Real,
    {
        SyncConfig { svn_dir, git_dir, git_provider: ProviderType::Real }
    }

    /// A configuration that uses the given Git backend.
    pub fn with_git_provider(svn_dir: String, git_dir: String, git_provider: ProviderType) -> (r:
        Self)
        ensures
            r.svn_dir == svn_dir,
            r.git_dir == git_dir,
            r.git_provider == git_provider,
    {
        SyncConfig { svn_dir, git_dir, git_provider }
    }

    /// The Git backend that the configuration selects.
    pub fn create_git_operations<R: CommandRunner>(&self, runner: R) -> (r: GitProvider<R>)
        ensures
            self.git_provider == ProviderType::Real ==> (r matches GitProvider::Real(ops)
                && ops.tools() == runner),
            self.git_provider == ProviderType::Mock ==> (r matches GitProvider::Mock(m) && m@
                == Seq::<RepoModel>::empty()),
    {
        GitOperationsFactory::create(self.git_provider, runner)
    }
}

/// A remembered pairing.
///
/// `id` is the number the pairing got when it was first remembered, and it
/// keeps that number however often it is used again. The number is shown in
/// listings and nothing else: records are addressed by their position in
/// the list, and deleting a record renumbers nothing.
#[derive(Debug, PartialEq, Eq)]
pub struct HistoryRecord {
    id: usize,
    svn_path: String,
    git_path: String,
    last_used: Timestamp,
}

/// A record as the specifications see it.
pub struct RecordView {
    pub id: usize,
    pub svn_path: Seq<char>,
    pub git_path: Seq<char>,
    pub last_used: Timestamp,
}

impl View for HistoryRecord {
    type V = RecordView;

    closed spec fn view(&self) -> RecordView {
        RecordView {
            id: self.id,
            svn_path: self.svn_path@,
            git_path: self.git_path@,
            last_used: self.last_used,
        }
    }
}

/// The views of a sequence of records.
pub open spec fn record_views(records: Seq<HistoryRecord>) -> Seq<RecordView> {
    records.map_values(|r: HistoryRecord| r@)
}

/// The record is for the given pair of paths.
pub open spec fn same_pair(r: RecordView, svn_path: Seq<char>, git_path: Seq<char>) -> bool {
    r.svn_path == svn_path && r.git_path == git_path
}

/// The header above a listing of records.
pub open spec fn title_text() -> Seq<char> {
    "ID \tSVN Path \tGit Path \tLast Used"@
}

/// The pattern under which the time of last use is shown.
pub open spec fn time_pattern() -> Seq<char> {
    "%Y-%m-%d %H:%M:%S UTC"@
}

/// A record's line without its time.
pub open spec fn line_start(r: RecordView) -> Seq<char> {
    decimal(r.id as nat) + " \t"@ + r.svn_path + " \t"@ + r.git_path + " \t"@
}

/// The time of last use as a listing shows it: in UTC, and not at all for
/// an instant that the calendar cannot hold.
pub open spec fn time_shown(at: Timestamp) -> Seq<char> {
    match rendered_time(at.secs, at.nanos, time_pattern()) {
        Some(text) => text,
        None => Seq::empty(),
    }
}

/// A record's line in a listing: number, paths and time of last use.
pub open spec fn line_text(r: RecordView) -> Seq<char> {
    line_start(r) + time_shown(r.last_used)
}

/// The header above a listing of records.
pub fn title_line() -> (r: String)
    ensures
        r@ == title_text(),
{
    String::from_str("ID \tSVN Path \tGit Path \tLast Used")
}

impl Clone for HistoryRecord {
    fn clone(&self) -> (r: Self)
        ensures
            r == *self,
    {
        HistoryRecord {
            id: self.id,
            svn_path: self.svn_path.clone(),
            git_path: self.git_path.clone(),
            last_used: self.last_used,
        }
    }
}

impl HistoryRecord {
    /// A record for a pair that is used at `now`.
    pub fn new(id: usize, svn_path: String, git_path: String, now: Timestamp) -> (r: Self)
        ensures
            r@ == (RecordView { id, svn_path: svn_path@, git_path: git_path@, last_used: now }),
    {
        HistoryRecord::new_with(id, svn_path, git_path, now)
    }

    /// A record that was last used at `last_used`.
    pub fn new_with(id: usize, svn_path: String, git_path: String, last_used: Timestamp) -> (r:
        Self)
        ensures
            r@ == (RecordView { id, svn_path: svn_path@, git_path: git_path@, last_used }),
    {
        HistoryRecord { id, svn_path, git_path, last_used }
    }

    /// The sequence number.
    pub fn id(&self) -> (r: usize)
        ensures
            r == self@.id,
    {
        self.id
    }

    /// The source directory.
    pub fn svn_path(&self) -> (r: &str)
        ensures
            r@ == self@.svn_path,
    {
        self.svn_path.as_str()
    }

    /// The destination directory.
    pub fn git_path(&self) -> (r: &str)
        ensures
            r@ == self@.git_path,
    {
        self.git_path.as_str()
    }

    /// When the pairing was last used.
    pub fn last_used(&self) -> (r: Timestamp)
        ensures
            r == self@.last_used,
    {
        self.last_used
    }

    /// Whether the record has the given sequence number.
    pub fn id_eq(&self, id: usize) -> (r: bool)
        ensures
            r == (self@.id == id),
    {
        self.id == id
    }

    /// Whether the record is for exactly this pair of paths.
    pub fn path_eq(&self, svn_path: &str, git_path: &str) -> (r: bool)
        ensures
            r == same_pair(self@, svn_path@, git_path@),
    {
        text_eq(self.svn_path.as_str(), svn_path) && text_eq(self.git_path.as_str(), git_path)
    }

    /// The configuration for the remembered pairing, with the real Git backend.
    pub fn to_sync_config(&self) -> (r: SyncConfig)
        ensures
            r.svn_dir@ == self@.svn_path,
            r.git_dir@ == self@.git_path,
            r.git_provider == ProviderType::Real,
    {
        SyncConfig::new(self.svn_path.clone(), self.git_path.clone())
    }

    /// The record's line in a listing, with the given rendering of its time.
    pub fn line_with_time(&self, time: &str) -> (r: String)
        ensures
            r@ == line_start(self@) + time@,
    {
        let mut s = decimal_string(self.id);
        s.append(" \t");
        s.append(self.svn_path.as_str());
        s.append(" \t");
        s.append(self.git_path.as_str());
        s.append(" \t");
        s.append(time);
        s
    }

    /// The record's line in a listing: number, paths, and the time of last
    /// use in UTC.
    pub fn to_line(&self) -> (r: String)
        ensures
            r@ == line_text(self@),
    {
        match utc_time_text(&self.last_used, "%Y-%m-%d %H:%M:%S UTC") {
            Some(time) => self.line_with_time(time.as_str()),
            None => {
                let r = self.line_with_time("");
                proof {
                    reveal_strlit("");
                }
                assert(r@ =~= line_text(self@));
                r
            },
        }
    }
}

} // verus!
