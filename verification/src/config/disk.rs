//! Stores for the history list.

use vstd::prelude::*;
use vstd::string::*;

use crate::config::manager::{copy_records, opened_from, FileStorage, HistoryManager};
use crate::config::record::{record_views, HistoryRecord, RecordView};
use crate::error::SyncError;

verus! {

/// The place on disk where the history list is kept.
///
/// The type only names the file. Reading and writing it is the business of
/// whoever owns the file system; the library never touches it.
#[derive(Debug)]
pub struct DiskStorage {
    path: String,
}

impl DiskStorage {
    /// A store in the file at `path`.
    pub fn new(path: String) -> (r: Self)
        ensures
            r.path_text() == path@,
    {
        DiskStorage { path }
    }

    /// The path of the file, as a specification sees it.
    pub closed spec fn path_text(&self) -> Seq<char> {
        self.path@
    }

    /// The path of the file.
    pub fn path(&self) -> (r: &str)
        ensures
            r@ == self.path_text(),
    {
        self.path.as_str()
    }
}

/// What loading from a store with the given content yields: the content,
/// or the empty list if the store does not exist yet.
pub open spec fn content_list(content: Option<Seq<RecordView>>) -> Seq<RecordView> {
    match content {
        Some(records) => records,
        None => Seq::empty(),
    }
}

/// A store that lives in memory. It starts out non-existent.
pub struct MemoryStorage {
    content: Option<Vec<HistoryRecord>>,
}

impl View for MemoryStorage {
    type V = Option<Seq<RecordView>>;

    closed spec fn view(&self) -> Option<Seq<RecordView>> {
        match self.content {
            Some(records) => Some(record_views(records@)),
            None => None,
        }
    }
}

impl MemoryStorage {
    /// A store that does not exist yet.
    pub fn new() -> (r: Self)
        ensures
            r@ is None,
    {
        MemoryStorage { content: None }
    }

    /// A store that holds `records`.
    pub fn holding(records: Vec<HistoryRecord>) -> (r: Self)
        ensures
            r@ == Some(record_views(records@)),
    {
        MemoryStorage { content: Some(records) }
    }
}

impl FileStorage for MemoryStorage {
    /// Loading always succeeds and yields the content.
    open spec fn loaded(store: Self, answer: Result<Vec<HistoryRecord>, SyncError>) -> bool {
        answer matches Ok(records) && record_views(records@) == content_list(store@)
    }

    /// Saving always succeeds and makes the records the content.
    open spec fn saved(
        before: Self,
        records: Seq<RecordView>,
        after: Self,
        answer: Result<(), SyncError>,
    ) -> bool {
        answer is Ok && after@ == Some(records)
    }

    fn load(&self) -> (r: Result<Vec<HistoryRecord>, SyncError>) {
        match &self.content {
            Some(records) => Ok(copy_records(records)),
            None => {
                let records: Vec<HistoryRecord> = Vec::new();
                assert(record_views(records@) =~= Seq::<RecordView>::empty());
                Ok(records)
            },
        }
    }

    fn save(&mut self, records: &Vec<HistoryRecord>) -> (r: Result<(), SyncError>) {
        self.content = Some(copy_records(records));
        Ok(())
    }
}

/// Saving a list and loading it again yields the list that was saved,
/// whatever the store held before.
pub proof fn lemma_save_then_load(
    before: MemoryStorage,
    records: Seq<RecordView>,
    after: MemoryStorage,
    saving: Result<(), SyncError>,
    loading: Result<Vec<HistoryRecord>, SyncError>,
)
    requires
        MemoryStorage::saved(before, records, after, saving),
        MemoryStorage::loaded(after, loading),
    ensures
        saving is Ok,
        loading matches Ok(found) && record_views(found@) == records,
{
}

/// A history that was saved to a store in memory and is opened from it
/// again holds the records it held when it was saved.
pub proof fn lemma_history_round_trip(
    saved_from: HistoryManager<MemoryStorage>,
    store: MemoryStorage,
    saving: Result<(), SyncError>,
    reopened: Result<HistoryManager<MemoryStorage>, SyncError>,
)
    requires
        MemoryStorage::saved(saved_from.store(), saved_from@, store, saving),
        opened_from(store, reopened),
    ensures
        reopened matches Ok(history) && history@ == saved_from@,
{
}

} // verus!
