//! An in-memory SVN working copy.

use vstd::prelude::*;
use vstd::string::*;

use crate::error::{app_failure, SyncError};
use crate::ops::svn::{SvnAnswer, SvnCall, SvnLog, SvnOperations};
use crate::sync::tool::copy_entries;
use crate::text::text_eq;

verus! {

/// An SVN working copy held in memory: the revisions it has not caught up
/// with, and the revisions it was moved to.
#[derive(Debug)]
pub struct MockSvnRepo {
    /// Where the working copy lives.
    pub path: String,
    initialized: bool,
    revisions: Vec<SvnLog>,
    updates: Vec<String>,
}

/// The working copy as the specifications see it.
pub struct SvnRepoModel {
    pub path: Seq<char>,
    pub initialized: bool,
    pub revisions: Seq<SvnLog>,
    pub updates: Seq<Seq<char>>,
}

impl View for MockSvnRepo {
    type V = SvnRepoModel;

    closed spec fn view(&self) -> SvnRepoModel {
        SvnRepoModel {
            path: self.path@,
            initialized: self.initialized,
            revisions: self.revisions@,
            updates: self.updates@.map_values(|s: String| s@),
        }
    }
}

/// Some pending revision has the given identifier.
pub open spec fn has_revision(revisions: Seq<SvnLog>, revision: Seq<char>) -> bool {
    exists|i: int| 0 <= i < revisions.len() && (#[trigger] revisions[i]).version@ == revision
}

impl MockSvnRepo {
    /// An uninitialised working copy at `path` without pending revisions.
    pub fn new(path: String) -> (r: Self)
        ensures
            r@ == (SvnRepoModel {
                path: path@,
                initialized: false,
                revisions: Seq::empty(),
                updates: Seq::empty(),
            }),
    {
        let r = MockSvnRepo {
            path,
            initialized: false,
            revisions: Vec::new(),
            updates: Vec::new(),
        };
        assert(r@.updates =~= Seq::<Seq<char>>::empty());
        assert(r@.revisions =~= Seq::<SvnLog>::empty());
        r
    }

    /// Initialises the working copy; a second initialisation is refused.
    pub fn init(&mut self) -> (r: Result<(), SyncError>)
        ensures
            final(self)@ == (SvnRepoModel { initialized: true, ..old(self)@ }),
            !old(self)@.initialized ==> r is Ok,
            old(self)@.initialized ==> app_failure(r, "SVN仓库已经初始化"@),
    {
        if self.initialized {
            return Err(SyncError::App(String::from_str("SVN仓库已经初始化")));
        }
        self.initialized = true;
        Ok(())
    }

    /// Whether `init` has succeeded on this working copy.
    pub fn is_initialized(&self) -> (r: bool)
        ensures
            r == self@.initialized,
    {
        self.initialized
    }

    /// Appends a pending revision.
    pub fn add_revision(&mut self, version: &str, message: &str)
        ensures
            final(self)@.revisions.len() == old(self)@.revisions.len() + 1,
            final(self)@.revisions.drop_last() == old(self)@.revisions,
            final(self)@.revisions.last().version@ == version@,
            final(self)@.revisions.last().message@ == message@,
            final(self)@.path == old(self)@.path,
            final(self)@.initialized == old(self)@.initialized,
            final(self)@.updates == old(self)@.updates,
    {
        self.revisions.push(
            SvnLog { version: String::from_str(version), message: String::from_str(message) },
        );
        assert(self@.revisions.drop_last() =~= old(self)@.revisions);
    }

    /// The pending revisions, oldest first.
    pub fn revisions(&self) -> (r: &Vec<SvnLog>)
        ensures
            r@ == self@.revisions,
    {
        &self.revisions
    }

    /// The revisions the working copy was moved to, in order.
    pub fn updates(&self) -> (r: &Vec<String>)
        ensures
            r@.map_values(|s: String| s@) == self@.updates,
    {
        &self.updates
    }

    fn knows(&self, revision: &str) -> (r: bool)
        ensures
            r == has_revision(self@.revisions, revision@),
    {
        let mut i: usize = 0;
        while i < self.revisions.len()
            invariant
                i <= self.revisions.len(),
                forall|j: int| 0 <= j < i ==> (#[trigger] self.revisions@[j]).version@ != revision@,
            decreases self.revisions.len() - i,
        {
            if text_eq(self.revisions[i].version.as_str(), revision) {
                return true;
            }
            i = i + 1;
        }
        false
    }
}

/// What the in-memory working copy does with a request: it serves its
/// pending revisions, and it moves to a revision that is among them and
/// remembers that it did.
pub open spec fn mock_svn_answered(
    before: SvnRepoModel,
    call: SvnCall,
    after: SvnRepoModel,
    answer: SvnAnswer,
) -> bool {
    match call {
        SvnCall::FetchLog(path) => {
            &&& after == before
            &&& answer matches SvnAnswer::Log(Ok(logs))
            &&& logs@ == before.revisions
        },
        SvnCall::Update(path, revision) => {
            &&& answer matches SvnAnswer::Done(r)
            &&& if has_revision(before.revisions, revision) {
                r is Ok && after == (SvnRepoModel {
                    updates: before.updates.push(revision),
                    ..before
                })
            } else {
                app_failure(r, "SVN 版本 "@ + revision + " 不存在"@) && after == before
            }
        },
    }
}

impl SvnOperations for MockSvnRepo {
    open spec fn answered(before: Self, call: SvnCall, after: Self, answer: SvnAnswer) -> bool {
        mock_svn_answered(before@, call, after@, answer)
    }

    fn fetch_log(&mut self, path: &str) -> (r: Result<Vec<SvnLog>, SyncError>) {
        Ok(copy_entries(&self.revisions))
    }

    fn update_to_revision(&mut self, path: &str, revision: &str) -> (r: Result<(), SyncError>) {
        if self.knows(revision) {
            self.updates.push(String::from_str(revision));
            assert(self@.updates =~= old(self)@.updates.push(revision@));
            Ok(())
        } else {
            let mut m = String::from_str("SVN 版本 ");
            m.append(revision);
            m.append(" 不存在");
            Err(SyncError::App(m))
        }
    }
}

} // verus!
