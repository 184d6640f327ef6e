//! Resolving what a run works on: from explicit paths, from the history, or
//! from the operator's answers.

use vstd::prelude::*;
use vstd::string::*;

use crate::config::manager::{FileStorage, HistoryManager};
use crate::config::record::{record_views, HistoryRecord, RecordView, SyncConfig, Timestamp};
use crate::config::sorting::added;
use crate::error::{app_failure, SyncError};
use crate::interactor::user::{Question, Reply, UserInteractor};
use crate::ops::git_provider::ProviderType;
use crate::ops::svn::SvnLog;

verus! {

/// The destination that an answer to the destination prompt selects: the
/// source, if the answer is blank.
pub open spec fn destination_for(svn: Seq<char>, git: Seq<char>) -> Seq<char> {
    if git.len() == 0 {
        svn
    } else {
        git
    }
}

/// The configuration for the operator's answers. A blank destination means
/// that the Git repository lives in the SVN working copy.
pub fn config_from_input(svn: String, git: String) -> (r: SyncConfig)
    ensures
        config_for(r, svn@, destination_for(svn@, git@)),
{
    if git.as_str().unicode_len() == 0 {
        let destination = svn.clone();
        SyncConfig::new(svn, destination)
    } else {
        SyncConfig::new(svn, git)
    }
}

/// The configuration for the record the operator picked. A position that
/// names no record is an application failure.
pub fn config_from_selection(records: &Vec<HistoryRecord>, selection: usize) -> (r: Result<
    SyncConfig,
    SyncError,
>)
    ensures
        selected(record_views(records@), selection, r),
{
    if selection >= records.len() {
        return Err(SyncError::App(String::from_str("未找到所选记录")));
    }
    Ok(records[selection].to_sync_config())
}

/// `config` works on the given directories through the real Git backend.
pub open spec fn config_for(config: SyncConfig, svn: Seq<char>, git: Seq<char>) -> bool {
    config.svn_dir@ == svn && config.git_dir@ == git && config.git_provider == ProviderType::Real
}

/// `outcome` is the configuration for the record at `selection`, or the
/// refusal of a position that names no record.
pub open spec fn selected(
    records: Seq<RecordView>,
    selection: usize,
    outcome: Result<SyncConfig, SyncError>,
) -> bool {
    if selection < records.len() {
        outcome matches Ok(config) && config_for(
            config,
            records[selection as int].svn_path,
            records[selection as int].git_path,
        )
    } else {
        app_failure(outcome, "未找到所选记录"@)
    }
}

/// How a configuration is resolved. With both paths given, they are used as
/// they are and the operator is not asked. Otherwise the operator picks a
/// remembered pairing if there is one, and is asked for the source and then
/// for the destination if there is none. The first failure of the operator
/// to answer is the outcome.
pub open spec fn resolved<I: UserInteractor>(
    svn_dir: Option<String>,
    git_dir: Option<String>,
    records: Seq<RecordView>,
    before: I,
    after: I,
    outcome: Result<SyncConfig, SyncError>,
) -> bool {
    if svn_dir is Some && git_dir is Some {
        &&& after == before
        &&& outcome matches Ok(config)
        &&& config.svn_dir == svn_dir->0
        &&& config.git_dir == git_dir->0
        &&& config.git_provider == ProviderType::Real
    } else if records.len() > 0 {
        exists|reply: Result<usize, SyncError>|
            {
                &&& #[trigger] I::answered(
                    before,
                    Question::SelectRecord(records),
                    after,
                    Reply::Index(reply),
                )
                &&& match reply {
                    Ok(selection) => selected(records, selection, outcome),
                    Err(e) => outcome == Err::<SyncConfig, SyncError>(e),
                }
            }
    } else {
        exists|source: Result<String, SyncError>, mid: I|
            {
                &&& #[trigger] I::answered(before, Question::SvnDir, mid, Reply::Path(source))
                &&& match source {
                    Err(e) => outcome == Err::<SyncConfig, SyncError>(e) && after == mid,
                    Ok(svn) => exists|destination: Result<String, SyncError>|
                        {
                            &&& #[trigger] I::answered(
                                mid,
                                Question::GitDir,
                                after,
                                Reply::Path(destination),
                            )
                            &&& match destination {
                                Err(e) => outcome == Err::<SyncConfig, SyncError>(e),
                                Ok(git) => outcome matches Ok(config) && config_for(
                                    config,
                                    svn@,
                                    destination_for(svn@, git@),
                                ),
                            }
                        },
                }
            }
    }
}

/// Resolves the configuration of a run, asking the operator where the paths
/// are not both given.
pub fn resolve_config<S: FileStorage, I: UserInteractor>(
    svn_dir: Option<String>,
    git_dir: Option<String>,
    history: &HistoryManager<S>,
    interactor: &mut I,
) -> (r: Result<SyncConfig, SyncError>)
    ensures
        resolved(svn_dir, git_dir, history@, *old(interactor), *final(interactor), r),
{
    match (svn_dir, git_dir) {
        (Some(svn), Some(git)) => Ok(SyncConfig::new(svn, git)),
        _ => {
            if !history.is_empty() {
                let reply = interactor.select_history_record(history.records());
                let ghost asked = reply;
                let r = match reply {
                    Ok(selection) => config_from_selection(history.records(), selection),
                    Err(e) => Err(e),
                };
                assert(I::answered(
                    *old(interactor),
                    Question::SelectRecord(history@),
                    *interactor,
                    Reply::Index(asked),
                ));
                r
            } else {
                let source = interactor.input_svn_dir();
                let ghost first = source;
                let ghost mid = *interactor;
                assert(I::answered(*old(interactor), Question::SvnDir, mid, Reply::Path(first)));
                match source {
                    Err(e) => Err(e),
                    Ok(svn) => {
                        let destination = interactor.input_git_dir();
                        let ghost second = destination;
                        let r = match destination {
                            Err(e) => Err(e),
                            Ok(git) => Ok(config_from_input(svn, git)),
                        };
                        assert(I::answered(
                            mid,
                            Question::GitDir,
                            *interactor,
                            Reply::Path(second),
                        ));
                        r
                    },
                }
            }
        },
    }
}

/// What resolving and remembering a configuration at `now` amounts to: the
/// configuration is resolved; a failure to resolve it is the result and
/// leaves the history alone; otherwise the pair is recorded in the history
/// as used at `now`, the history is saved, and the result is the
/// configuration, or the failure of the store.
pub open spec fn resolved_and_remembered<S: FileStorage, I: UserInteractor>(
    svn_dir: Option<String>,
    git_dir: Option<String>,
    now: Timestamp,
    history_before: HistoryManager<S>,
    operator_before: I,
    history_after: HistoryManager<S>,
    operator_after: I,
    r: Result<SyncConfig, SyncError>,
) -> bool {
    exists|outcome: Result<SyncConfig, SyncError>|
        {
            &&& #[trigger] resolved(
                svn_dir,
                git_dir,
                history_before@,
                operator_before,
                operator_after,
                outcome,
            )
            &&& match outcome {
                Err(e) => r == Err::<SyncConfig, SyncError>(e) && history_after == history_before,
                Ok(config) => exists|saving: Result<(), SyncError>|
                    {
                        &&& history_after@ == added(
                            history_before@,
                            config.svn_dir@,
                            config.git_dir@,
                            now,
                        )
                        &&& #[trigger] S::saved(
                            history_before.store(),
                            history_after@,
                            history_after.store(),
                            saving,
                        )
                        &&& match saving {
                            Ok(_) => r == Ok::<SyncConfig, SyncError>(config),
                            Err(e) => r == Err::<SyncConfig, SyncError>(e),
                        }
                    },
            }
        }
}

/// Resolves the configuration of a run and remembers it.
///
/// With both paths given, they are used as they are and nobody is asked.
/// Otherwise the operator picks a remembered pairing if there is one, and is
/// asked for both paths if there is none. Whatever the way, the resulting
/// pair is recorded in the history as used at `now`, and the history is
/// saved before the configuration is handed out.
pub fn select_or_create_config<S: FileStorage, I: UserInteractor>(
    svn_dir: Option<String>,
    git_dir: Option<String>,
    history: &mut HistoryManager<S>,
    interactor: &mut I,
    now: Timestamp,
) -> (r: Result<SyncConfig, SyncError>)
    requires
        old(history)@.len() < usize::MAX,
    ensures
        resolved_and_remembered(
            svn_dir,
            git_dir,
            now,
            *old(history),
            *old(interactor),
            *final(history),
            *final(interactor),
            r,
        ),
{
    let outcome = resolve_config(svn_dir, git_dir, history, interactor);
    let ghost resolution = outcome;
    let r = match outcome {
        Err(e) => Err(e),
        Ok(config) => {
            history.add_record(config.svn_dir.clone(), config.git_dir.clone(), now);
            let saving = history.save();
            let ghost answer = saving;
            assert(S::saved(old(history).store(), history@, history.store(), answer));
            match saving {
                Ok(_) => Ok(config),
                Err(e) => Err(e),
            }
        },
    };
    assert(resolved(
        svn_dir,
        git_dir,
        old(history)@,
        *old(interactor),
        *interactor,
        resolution,
    ));
    r
}

/// Shows the pending entries to the operator and asks whether to apply them.
pub fn confirm_sync<I: UserInteractor>(svn_logs: &Vec<SvnLog>, interactor: &mut I) -> (r: bool)
    ensures
        I::answered(
            *old(interactor),
            Question::Confirm(svn_logs@),
            *final(interactor),
            Reply::Consent(r),
        ),
{
    interactor.confirm_sync(svn_logs)
}

} // verus!
