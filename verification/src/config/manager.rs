//! The history store: the list of remembered pairings, kept in order of last
//! use, and the storage port that persists it.

use vstd::prelude::*;
use vstd::string::*;

use crate::config::order::used_later;
use crate::config::record::{
    line_start, line_text, record_views, title_line, title_text, HistoryRecord, RecordView,
    Timestamp,
};
use crate::config::sorting::{
    added, history_ok, lemma_added_keeps_invariant, lemma_inserted_at,
    lemma_removed_keeps_invariant, new_record, pair_id, pairs_unique, stable_sorted,
    without_pair,
};
use crate::error::{app_failure, SyncError};

verus! {

/// Where the history list is persisted.
pub trait FileStorage: Sized {
    /// The store `store` may answer a request to load with `answer`. A store
    /// that promises nothing keeps the default.
    open spec fn loaded(store: Self, answer: Result<Vec<HistoryRecord>, SyncError>) -> bool {
        true
    }

    /// In state `before`, the store may answer a request to save `records`
    /// with `answer` and be in state `after`. A store that promises nothing
    /// keeps the default.
    open spec fn saved(
        before: Self,
        records: Seq<RecordView>,
        after: Self,
        answer: Result<(), SyncError>,
    ) -> bool {
        true
    }

    /// Reads the stored list. A store that does not exist yet holds the empty list.
    fn load(&self) -> (r: Result<Vec<HistoryRecord>, SyncError>)
        ensures
            Self::loaded(*self, r),
    ;

    /// Replaces the stored list, creating the store if need be.
    fn save(&mut self, records: &Vec<HistoryRecord>) -> (r: Result<(), SyncError>)
        ensures
            Self::saved(*old(self), record_views(records@), *final(self), r),
    ;
}

/// `r` is the history that `storage` answered with, or its failure to answer.
pub open spec fn opened_from<S: FileStorage>(
    storage: S,
    r: Result<HistoryManager<S>, SyncError>,
) -> bool {
    match r {
        Ok(history) => history.store() == storage && exists|records: Vec<HistoryRecord>|
            #[trigger] S::loaded(storage, Ok(records)) && history@ == record_views(records@),
        Err(e) => S::loaded(storage, Err(e)),
    }
}

/// The remembered pairings together with the store they are persisted in.
///
/// Records are addressed by their position in the list, counted from zero.
/// The list is meant to hold each pair once, in ascending order of last use
/// (`history_ok`). Adding a pair establishes the order whatever the store
/// handed in, and keeps the pairs unique; deleting keeps both.
pub struct HistoryManager<S: FileStorage> {
    records: Vec<HistoryRecord>,
    storage: S,
}

impl<S: FileStorage> View for HistoryManager<S> {
    type V = Seq<RecordView>;

    closed spec fn view(&self) -> Seq<RecordView> {
        record_views(self.records@)
    }
}

/// A copy of the records, in order.
pub fn copy_records(records: &Vec<HistoryRecord>) -> (r: Vec<HistoryRecord>)
    ensures
        r@ == records@,
{
    let mut out: Vec<HistoryRecord> = Vec::new();
    let mut i: usize = 0;
    while i < records.len()
        invariant
            i <= records.len(),
            out@ == records@.take(i as int),
        decreases records.len() - i,
    {
        out.push(records[i].clone());
        assert(out@ =~= records@.take(i + 1));
        i = i + 1;
    }
    assert(records@.take(records.len() as int) =~= records@);
    out
}

/// Orders records by time of last use, oldest first, keeping the order of
/// records that were used at the same time.
pub fn sort_records(records: Vec<HistoryRecord>) -> (r: Vec<HistoryRecord>)
    ensures
        record_views(r@) == stable_sorted(record_views(records@)),
{
    let ghost views = record_views(records@);
    let mut out: Vec<HistoryRecord> = Vec::new();
    let mut i: usize = 0;
    assert(record_views(out@) =~= stable_sorted(views.take(0)));
    while i < records.len()
        invariant
            i <= records.len(),
            views == record_views(records@),
            record_views(out@) == stable_sorted(views.take(i as int)),
        decreases records.len() - i,
    {
        let record = records[i].clone();
        let mut p: usize = out.len();
        while p > 0 && used_later(&out[p - 1], &record)
            invariant
                p <= out.len(),
                forall|j: int|
                    p <= j < out.len() ==> !crate::config::record::not_after(
                        #[trigger] record_views(out@)[j].last_used,
                        record@.last_used,
                    ),
            decreases p,
        {
            p = p - 1;
        }
        proof {
            let sorted = record_views(out@);
            if p > 0 {
                assert(sorted[p - 1] == out@[p - 1]@);
            }
            lemma_inserted_at(sorted, record@, p as int);
            assert(views.take(i + 1).drop_last() =~= views.take(i as int));
            assert(views.take(i + 1).last() == record@);
        }
        let ghost before = record_views(out@);
        out.insert(p, record);
        assert(record_views(out@) =~= before.insert(p as int, record@));
        i = i + 1;
    }
    assert(views.take(records.len() as int) =~= views);
    out
}

/// The lines of a listing: a note if there is no record, else the header and
/// one line per record.
pub open spec fn listing_ok(records: Seq<RecordView>, lines: Seq<String>) -> bool {
    if records.len() == 0 {
        lines.len() == 1 && lines[0]@ == "还没有记录"@
    } else {
        &&& lines.len() == records.len() + 1
        &&& lines[0]@ == title_text()
        &&& forall|i: int|
            0 <= i < records.len() ==> (#[trigger] lines[i + 1])@ == line_text(records[i])
    }
}

/// `lines` holds one line per record: number and paths, then the rendering
/// of its time that `times` holds for it.
pub open spec fn lines_ok(records: Seq<RecordView>, times: Seq<String>, lines: Seq<String>) -> bool {
    lines.len() == records.len() && forall|i: int|
        0 <= i < records.len() ==> (#[trigger] lines[i])@ == line_start(records[i]) + times[i]@
}

/// The lines of a listing in which the times are rendered as `times` has
/// them: a note if there is no record, else the header and one line per record.
pub open spec fn listing_with(
    records: Seq<RecordView>,
    times: Seq<String>,
    lines: Seq<String>,
) -> bool {
    if records.len() == 0 {
        lines.len() == 1 && lines[0]@ == "还没有记录"@
    } else {
        &&& lines.len() == records.len() + 1
        &&& lines[0]@ == title_text()
        &&& forall|i: int|
            0 <= i < records.len() ==> (#[trigger] lines[i + 1])@ == line_start(records[i])
                + times[i]@
    }
}

/// One line per record, with the times as the caller has rendered them, for
/// a caller that shows them in another zone than UTC.
pub fn record_lines(records: &Vec<HistoryRecord>, times: &Vec<String>) -> (r: Vec<String>)
    requires
        times@.len() == records@.len(),
    ensures
        lines_ok(record_views(records@), times@, r@),
{
    let mut lines: Vec<String> = Vec::new();
    let mut i: usize = 0;
    while i < records.len()
        invariant
            i <= records.len(),
            times@.len() == records@.len(),
            lines.len() == i,
            forall|k: int|
                0 <= k < i ==> (#[trigger] lines@[k])@ == line_start(record_views(records@)[k])
                    + times@[k]@,
        decreases records.len() - i,
    {
        lines.push(records[i].line_with_time(times[i].as_str()));
        i = i + 1;
    }
    lines
}

impl<S: FileStorage> HistoryManager<S> {
    /// The store, as a specification sees it.
    pub closed spec fn store(&self) -> S {
        self.storage
    }

    /// The history that `storage` holds.
    pub fn new(storage: S) -> (r: Result<Self, SyncError>)
        ensures
            opened_from(storage, r),
    {
        match storage.load() {
            Ok(records) => {
                let ghost loaded = records;
                let history = HistoryManager::from_records(records, storage);
                assert(S::loaded(storage, Ok(loaded)));
                Ok(history)
            },
            Err(e) => Err(e),
        }
    }

    /// A history with the given records, persisted in `storage`.
    pub fn from_records(records: Vec<HistoryRecord>, storage: S) -> (r: Self)
        ensures
            r@ == record_views(records@),
            r.store() == storage,
    {
        HistoryManager { records, storage }
    }

    /// Whether nothing is remembered.
    pub fn is_empty(&self) -> (r: bool)
        ensures
            r == (self@.len() == 0),
    {
        self.records.len() == 0
    }

    /// The remembered pairings, least recently used first.
    pub fn records(&self) -> (r: &Vec<HistoryRecord>)
        ensures
            record_views(r@) == self@,
    {
        &self.records
    }

    /// Gives the store back.
    pub fn into_storage(self) -> (r: S)
        ensures
            r == self.store(),
    {
        self.storage
    }

    /// Writes the list to the store.
    pub fn save(&mut self) -> (r: Result<(), SyncError>)
        ensures
            final(self)@ == old(self)@,
            S::saved(old(self).store(), old(self)@, final(self).store(), r),
    {
        self.storage.save(&self.records)
    }

    /// Records that the pair was used at `now`: a record for the same pair is
    /// dropped, a new one is appended, and the list is put in order of last
    /// use. A pair that was remembered keeps its number; a new pair is
    /// numbered one past the records of the list.
    pub fn add_record(&mut self, svn_path: String, git_path: String, now: Timestamp)
        requires
            old(self)@.len() < usize::MAX,
        ensures
            final(self)@ == added(old(self)@, svn_path@, git_path@, now),
            final(self).store() == old(self).store(),
            pairs_unique(old(self)@) ==> history_ok(final(self)@),
    {
        proof {
            if pairs_unique(self@) {
                lemma_added_keeps_invariant(self@, svn_path@, git_path@, now);
            }
        }
        let ghost views = record_views(self.records@);
        let n = self.records.len();
        let mut kept: Vec<HistoryRecord> = Vec::new();
        let mut known: Option<usize> = None;
        let mut i: usize = 0;
        assert(record_views(kept@) =~= without_pair(views.take(0), svn_path@, git_path@));
        while i < n
            invariant
                i <= n,
                n == self.records.len(),
                views == record_views(self.records@),
                record_views(kept@) == without_pair(views.take(i as int), svn_path@, git_path@),
                known == pair_id(views.take(i as int), svn_path@, git_path@),
                kept.len() <= i,
            decreases n - i,
        {
            assert(views.take(i + 1).drop_last() =~= views.take(i as int));
            assert(views.take(i + 1).last() == self.records@[i as int]@);
            if self.records[i].path_eq(svn_path.as_str(), git_path.as_str()) {
                known = Some(self.records[i].id());
            } else {
                let ghost before = record_views(kept@);
                kept.push(self.records[i].clone());
                assert(record_views(kept@) =~= before.push(self.records@[i as int]@));
            }
            i = i + 1;
        }
        assert(views.take(n as int) =~= views);
        let id = match known {
            Some(id) => id,
            None => n + 1,
        };
        let ghost before = record_views(kept@);
        kept.push(HistoryRecord::new_with(id, svn_path, git_path, now));
        assert(record_views(kept@) =~= before.push(
            new_record(views, svn_path@, git_path@, now),
        ));
        self.records = sort_records(kept);
    }

    /// Deletes the record at position `index` and writes the list to the
    /// store. A position past the end is refused and changes nothing.
    pub fn remove_record(&mut self, index: usize) -> (r: Result<(), SyncError>)
        ensures
            index >= old(self)@.len() ==> app_failure(r, "索引超出范围"@) && final(self)@ == old(
                self,
            )@ && final(self).store() == old(self).store(),
            index < old(self)@.len() ==> final(self)@ == old(self)@.remove(index as int)
                && S::saved(old(self).store(), final(self)@, final(self).store(), r),
            history_ok(old(self)@) ==> history_ok(final(self)@),
    {
        if index >= self.records.len() {
            return Err(SyncError::App(String::from_str("索引超出范围")));
        }
        proof {
            if history_ok(self@) {
                lemma_removed_keeps_invariant(self@, index as int);
            }
        }
        let ghost before = record_views(self.records@);
        self.records.remove(index);
        assert(record_views(self.records@) =~= before.remove(index as int));
        self.storage.save(&self.records)
    }

    /// The lines of a listing of the history.
    pub fn list(&self) -> (r: Vec<String>)
        ensures
            listing_ok(self@, r@),
    {
        let mut lines: Vec<String> = Vec::new();
        if self.records.len() == 0 {
            lines.push(String::from_str("还没有记录"));
            return lines;
        }
        lines.push(title_line());
        let mut i: usize = 0;
        while i < self.records.len()
            invariant
                i <= self.records.len(),
                lines.len() == i + 1,
                lines@[0]@ == title_text(),
                forall|k: int|
                    0 <= k < i ==> (#[trigger] lines@[k + 1])@ == line_text(
                        record_views(self.records@)[k],
                    ),
            decreases self.records.len() - i,
        {
            lines.push(self.records[i].to_line());
            i = i + 1;
        }
        lines
    }

    /// The lines of a listing of the history, with the times as the caller
    /// has rendered them.
    pub fn list_with_times(&self, times: &Vec<String>) -> (r: Vec<String>)
        requires
            times@.len() == self@.len(),
        ensures
            listing_with(self@, times@, r@),
    {
        let mut lines: Vec<String> = Vec::new();
        if self.records.len() == 0 {
            lines.push(String::from_str("还没有记录"));
            return lines;
        }
        lines.push(title_line());
        let mut i: usize = 0;
        while i < self.records.len()
            invariant
                i <= self.records.len(),
                times@.len() == self.records@.len(),
                lines.len() == i + 1,
                lines@[0]@ == title_text(),
                forall|k: int|
                    0 <= k < i ==> (#[trigger] lines@[k + 1])@ == line_start(
                        record_views(self.records@)[k],
                    ) + times@[k]@,
            decreases self.records.len() - i,
        {
            lines.push(self.records[i].line_with_time(times[i].as_str()));
            i = i + 1;
        }
        lines
    }
}

} // verus!
