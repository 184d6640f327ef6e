//! The interaction port and two ways of filling it.

use vstd::prelude::*;
use vstd::string::*;

use crate::config::record::{line_text, record_views, HistoryRecord, RecordView};
use crate::error::{app_failure, SyncError};
use crate::lookup::{index_of, lemma_index_of_absent, lemma_index_of_found};
use crate::ops::process::texts;
use crate::ops::svn::SvnLog;
use crate::text::text_eq;

verus! {

/// One question to the operator, as a specification sees it.
pub enum Question {
    /// Which of these remembered pairings?
    SelectRecord(Seq<RecordView>),
    /// Where is the SVN working copy?
    SvnDir,
    /// Where is the Git repository?
    GitDir,
    /// Apply these entries?
    Confirm(Seq<SvnLog>),
}

/// What the operator replied.
pub enum Reply {
    /// The position of the picked record.
    Index(Result<usize, SyncError>),
    /// The path that was typed.
    Path(Result<String, SyncError>),
    /// Whether the operator consents.
    Consent(bool),
}

/// What the synchronisation asks of the operator.
pub trait UserInteractor: Sized {
    /// In state `before`, the operator may reply `reply` to `question` and
    /// be in state `after`. An operator at a console promises nothing, which
    /// is the default.
    open spec fn answered(before: Self, question: Question, after: Self, reply: Reply) -> bool {
        true
    }

    /// Lets the operator pick one of the remembered pairings; the answer is
    /// the position of the record in `records`.
    fn select_history_record(&mut self, records: &Vec<HistoryRecord>) -> (r: Result<
        usize,
        SyncError,
    >)
        ensures
            Self::answered(
                *old(self),
                Question::SelectRecord(record_views(records@)),
                *final(self),
                Reply::Index(r),
            ),
    ;

    /// Asks for the SVN working copy.
    fn input_svn_dir(&mut self) -> (r: Result<String, SyncError>)
        ensures
            Self::answered(*old(self), Question::SvnDir, *final(self), Reply::Path(r)),
    ;

    /// Asks for the Git repository; a blank answer means "the same directory".
    fn input_git_dir(&mut self) -> (r: Result<String, SyncError>)
        ensures
            Self::answered(*old(self), Question::GitDir, *final(self), Reply::Path(r)),
    ;

    /// Shows the pending entries and asks whether to apply them.
    fn confirm_sync(&mut self, svn_logs: &Vec<SvnLog>) -> (r: bool)
        ensures
            Self::answered(
                *old(self),
                Question::Confirm(svn_logs@),
                *final(self),
                Reply::Consent(r),
            ),
    ;
}

/// How the answers of a console prompt are read.
///
/// The prompts themselves are shown by whoever owns the console; this type
/// holds the rules that turn what came back into what the synchronisation
/// works with.
pub struct DefaultUserInteractor;

impl DefaultUserInteractor {
    /// The lines among which the operator picks a remembered pairing.
    pub fn selection_options(records: &Vec<HistoryRecord>) -> (r: Vec<String>)
        ensures
            r@.len() == records@.len(),
            forall|i: int|
                0 <= i < records@.len() ==> (#[trigger] r@[i])@ == line_text(
                    record_views(records@)[i],
                ),
    {
        let mut options: Vec<String> = Vec::new();
        let mut i: usize = 0;
        while i < records.len()
            invariant
                i <= records.len(),
                options.len() == i,
                forall|k: int|
                    0 <= k < i ==> (#[trigger] options@[k])@ == line_text(
                        record_views(records@)[k],
                    ),
            decreases records.len() - i,
        {
            options.push(records[i].to_line());
            i = i + 1;
        }
        options
    }

    /// The position of the line the operator picked: the first line equal to
    /// `choice`. A choice that is not among the lines is an application failure.
    pub fn selected_index(options: &Vec<String>, choice: &str) -> (r: Result<usize, SyncError>)
        ensures
            match index_of(texts(options@), choice@) {
                Some(i) => r == Ok::<usize, SyncError>(i as usize),
                None => app_failure(r, "未找到所选记录"@),
            },
    {
        let ghost keys = texts(options@);
        let mut i: usize = 0;
        while i < options.len()
            invariant
                i <= options.len(),
                keys == texts(options@),
                forall|j: int| 0 <= j < i ==> keys[j] != choice@,
            decreases options.len() - i,
        {
            if text_eq(options[i].as_str(), choice) {
                proof {
                    assert(keys[i as int] == choice@);
                    lemma_index_of_found(keys, choice@, i as int);
                }
                return Ok(i);
            }
            i = i + 1;
        }
        proof {
            lemma_index_of_absent(keys, choice@);
        }
        Err(SyncError::App(String::from_str("未找到所选记录")))
    }

    /// How the answer to a path prompt is read: a prompt that failed is an
    /// interaction failure, since the run cannot go on without the path.
    pub fn path_answer(answer: Result<String, String>) -> (r: Result<String, SyncError>)
        ensures
            r == match answer {
                Ok(path) => Ok::<String, SyncError>(path),
                Err(reason) => Err::<String, SyncError>(SyncError::Inquire(reason)),
            },
    {
        match answer {
            Ok(path) => Ok(path),
            Err(reason) => Err(SyncError::Inquire(reason)),
        }
    }

    /// How the answer to the confirmation prompt is read: a prompt that
    /// failed counts as "no", so that nothing is changed by accident.
    pub fn confirmation(answer: Result<bool, String>) -> (r: bool)
        ensures
            r == match answer {
                Ok(yes) => yes,
                Err(_) => false,
            },
    {
        match answer {
            Ok(yes) => yes,
            Err(_) => false,
        }
    }
}

/// An operator whose answers are fixed in advance.
#[derive(Debug)]
pub struct TestUserInteractor {
    /// The record that gets picked.
    pub selected_index: usize,
    /// The answer to the prompt for the SVN working copy.
    pub svn_dir_input: String,
    /// The answer to the prompt for the Git repository.
    pub git_dir_input: String,
    /// The answer to the confirmation prompt.
    pub confirm_result: bool,
}

impl Default for TestUserInteractor {
    fn default() -> (r: Self)
        ensures
            r.selected_index == 0,
            r.svn_dir_input@ == "svn"@,
            r.git_dir_input@ == "git"@,
            r.confirm_result,
    {
        TestUserInteractor {
            selected_index: 0,
            svn_dir_input: String::from_str("svn"),
            git_dir_input: String::from_str("git"),
            confirm_result: true,
        }
    }
}

impl TestUserInteractor {
    /// An operator who picks the first record, answers `svn` and `git`, and confirms.
    pub fn new() -> (r: Self)
        ensures
            r.selected_index == 0,
            r.svn_dir_input@ == "svn"@,
            r.git_dir_input@ == "git"@,
            r.confirm_result,
    {
        TestUserInteractor::default()
    }

    /// The same operator, picking the record at `index`.
    pub fn with_selected_index(self, index: usize) -> (r: Self)
        ensures
            r == (TestUserInteractor { selected_index: index, ..self }),
    {
        let mut r = self;
        r.selected_index = index;
        r
    }

    /// The same operator, answering `dir` for the SVN working copy.
    pub fn with_svn_dir(self, dir: &str) -> (r: Self)
        ensures
            r.svn_dir_input@ == dir@,
            r.selected_index == self.selected_index,
            r.git_dir_input == self.git_dir_input,
            r.confirm_result == self.confirm_result,
    {
        let mut r = self;
        r.svn_dir_input = String::from_str(dir);
        r
    }

    /// The same operator, answering `dir` for the Git repository.
    pub fn with_git_dir(self, dir: &str) -> (r: Self)
        ensures
            r.git_dir_input@ == dir@,
            r.selected_index == self.selected_index,
            r.svn_dir_input == self.svn_dir_input,
            r.confirm_result == self.confirm_result,
    {
        let mut r = self;
        r.git_dir_input = String::from_str(dir);
        r
    }

    /// The same operator, answering `result` to the confirmation prompt.
    pub fn with_confirm_result(self, result: bool) -> (r: Self)
        ensures
            r == (TestUserInteractor { confirm_result: result, ..self }),
    {
        let mut r = self;
        r.confirm_result = result;
        r
    }
}

impl UserInteractor for TestUserInteractor {
    /// The prepared operator gives the prepared answers and stays as it is.
    /// Picking a record fails where there is none at the prepared position.
    open spec fn answered(before: Self, question: Question, after: Self, reply: Reply) -> bool {
        &&& after == before
        &&& match question {
            Question::SelectRecord(records) => {
                &&& reply matches Reply::Index(r)
                &&& records.len() == 0 ==> app_failure(r, "没有历史记录可选择"@)
                &&& records.len() > 0 && before.selected_index >= records.len() ==> app_failure(
                    r,
                    "选择索引超出范围"@,
                )
                &&& before.selected_index < records.len() ==> r == Ok::<usize, SyncError>(
                    before.selected_index,
                )
            },
            Question::SvnDir => reply == Reply::Path(Ok(before.svn_dir_input)),
            Question::GitDir => reply == Reply::Path(Ok(before.git_dir_input)),
            Question::Confirm(_) => reply == Reply::Consent(before.confirm_result),
        }
    }

    fn select_history_record(&mut self, records: &Vec<HistoryRecord>) -> (r: Result<
        usize,
        SyncError,
    >) {
        if records.len() == 0 {
            return Err(SyncError::App(String::from_str("没有历史记录可选择")));
        }
        if self.selected_index >= records.len() {
            return Err(SyncError::App(String::from_str("选择索引超出范围")));
        }
        Ok(self.selected_index)
    }

    fn input_svn_dir(&mut self) -> (r: Result<String, SyncError>) {
        Ok(self.svn_dir_input.clone())
    }

    fn input_git_dir(&mut self) -> (r: Result<String, SyncError>) {
        Ok(self.git_dir_input.clone())
    }

    fn confirm_sync(&mut self, svn_logs: &Vec<SvnLog>) -> (r: bool) {
        self.confirm_result
    }
}

} // verus!
