use svn2git::sync::machine::make_commit_message;
use svn2git::sync::tool::{preview_line, preview_lines};
use svn2git::{
    SvnLog, SyncAction, SyncError, SyncEvent, SyncMachine, SyncOutcome, SyncPhase, SyncRunOptions,
};

fn entry(version: &str, message: &str) -> SvnLog {
    SvnLog { version: String::from(version), message: String::from(message) }
}

fn started(dry_run: bool, limit: Option<usize>) -> SyncMachine {
    let (machine, first) = SyncMachine::start(&SyncRunOptions { dry_run, limit });
    assert_eq!(first, SyncAction::FetchLog);
    assert_eq!(machine.phase(), SyncPhase::AwaitLog);
    machine
}

fn two_entries() -> SyncEvent {
    SyncEvent::LogFetched(Ok(vec![entry("1", "m1"), entry("2", "m2")]))
}

#[test]
fn the_machine_walks_through_one_entry() {
    let machine = started(false, Some(1));
    let (machine, action) = machine.step(two_entries());
    assert_eq!(action, SyncAction::Confirm);
    assert_eq!(machine.pending(), &vec![entry("1", "m1")]);
    let (machine, action) = machine.step(SyncEvent::Confirmed(true));
    assert_eq!(action, SyncAction::Update { step: 1, revision: String::from("1") });
    assert_eq!(machine.phase(), SyncPhase::AwaitUpdate);
    let (machine, action) = machine.step(SyncEvent::Updated(Ok(())));
    assert_eq!(action, SyncAction::CheckStatus { step: 1 });
    let (machine, action) = machine.step(SyncEvent::StatusRead(Ok(String::from("?? a\n"))));
    assert_eq!(action, SyncAction::StageAll { step: 1 });
    let (machine, action) = machine.step(SyncEvent::Staged(Ok(())));
    assert_eq!(action, SyncAction::Commit { step: 1, message: String::from("SVN: m1") });
    assert_eq!(machine.applied(), 0);
    let (machine, action) = machine.step(SyncEvent::Committed(Ok(())));
    assert_eq!(action, SyncAction::SaveHistory);
    assert_eq!(machine.applied(), 1);
    let (machine, action) = machine.step(SyncEvent::HistorySaved(Ok(())));
    assert_eq!(action, SyncAction::Finish(Ok(SyncOutcome::Synced)));
    assert!(machine.is_finished());
}

#[test]
fn the_machine_moves_on_to_the_next_entry_after_a_commit() {
    let machine = started(false, None);
    let (machine, _) = machine.step(two_entries());
    let (machine, _) = machine.step(SyncEvent::Confirmed(true));
    let (machine, _) = machine.step(SyncEvent::Updated(Ok(())));
    let (machine, _) = machine.step(SyncEvent::StatusRead(Ok(String::new())));
    let (machine, _) = machine.step(SyncEvent::Staged(Ok(())));
    let (machine, action) = machine.step(SyncEvent::Committed(Ok(())));
    assert_eq!(action, SyncAction::Update { step: 2, revision: String::from("2") });
    assert_eq!(machine.applied(), 1);
    assert_eq!(machine.phase(), SyncPhase::AwaitUpdate);
}

#[test]
fn a_dry_run_finishes_on_the_log() {
    let (machine, action) = started(true, None).step(two_entries());
    assert_eq!(action, SyncAction::Finish(Ok(SyncOutcome::Previewed)));
    assert!(machine.is_finished());
    assert_eq!(machine.pending().len(), 2);
    let (_, action) =
        started(true, None).step(SyncEvent::LogFetched(Ok(Vec::new())));
    assert_eq!(action, SyncAction::Finish(Ok(SyncOutcome::NothingToSync)));
    let (_, action) = started(true, Some(0)).step(two_entries());
    assert_eq!(action, SyncAction::Finish(Ok(SyncOutcome::NothingToSync)));
}

#[test]
fn a_conflict_finishes_with_the_listing() {
    let machine = started(false, None);
    let (machine, _) = machine.step(two_entries());
    let (machine, _) = machine.step(SyncEvent::Confirmed(true));
    let (machine, _) = machine.step(SyncEvent::Updated(Ok(())));
    let (machine, action) =
        machine.step(SyncEvent::StatusRead(Ok(String::from("DU gone.txt\n"))));
    assert_eq!(
        action,
        SyncAction::Finish(Err(SyncError::Conflict {
            step: 1,
            revision: String::from("1"),
            status: String::from("DU gone.txt\n"),
        }))
    );
    assert!(machine.is_finished());
}

#[test]
fn a_failed_status_query_is_a_step_failure() {
    let machine = started(false, None);
    let (machine, _) = machine.step(two_entries());
    let (machine, _) = machine.step(SyncEvent::Confirmed(true));
    let (machine, _) = machine.step(SyncEvent::Updated(Ok(())));
    let (_, action) =
        machine.step(SyncEvent::StatusRead(Err(SyncError::Io(String::from("gone")))));
    assert_eq!(
        action,
        SyncAction::Finish(Err(SyncError::Step {
            step: 1,
            revision: String::from("1"),
            cause: Box::new(SyncError::Io(String::from("gone"))),
        }))
    );
}

#[test]
fn an_event_nobody_waits_for_stops_the_machine() {
    let (machine, action) = started(false, None).step(SyncEvent::Confirmed(true));
    assert_eq!(action, SyncAction::Finish(Err(SyncError::UnexpectedEvent)));
    let (_, action) = machine.step(two_entries());
    assert_eq!(action, SyncAction::Finish(Err(SyncError::UnexpectedEvent)));

    let (machine, _) = started(false, None).step(two_entries());
    let (machine, action) = machine.step(SyncEvent::Committed(Ok(())));
    assert_eq!(action, SyncAction::Finish(Err(SyncError::UnexpectedEvent)));
    assert!(machine.is_finished());
    assert_eq!(machine.applied(), 0);
}

#[test]
fn a_failed_log_query_is_passed_on_unwrapped() {
    let (_, action) =
        started(false, None).step(SyncEvent::LogFetched(Err(SyncError::Io(String::from("x")))));
    assert_eq!(action, SyncAction::Finish(Err(SyncError::Io(String::from("x")))));
}

#[test]
fn declining_finishes_without_an_update() {
    let (machine, _) = started(false, None).step(two_entries());
    let (machine, action) = machine.step(SyncEvent::Confirmed(false));
    assert_eq!(action, SyncAction::Finish(Ok(SyncOutcome::Declined)));
    assert_eq!(machine.applied(), 0);
}

#[test]
fn commit_messages_and_preview_lines() {
    assert_eq!(make_commit_message("fix the bug"), "SVN: fix the bug");
    assert_eq!(make_commit_message(""), "SVN: ");
    assert_eq!(preview_line(&entry("12", "fix")), "[dry-run] r12 -> SVN: fix");
    assert_eq!(
        preview_lines(&vec![entry("1", "a"), entry("2", "b")]),
        vec![String::from("[dry-run] r1 -> SVN: a"), String::from("[dry-run] r2 -> SVN: b")]
    );
    assert!(preview_lines(&Vec::new()).is_empty());
}
