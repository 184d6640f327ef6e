//! The orchestration as a state machine.
//!
//! The machine performs nothing. It names the next operation, is told how
//! that operation went, and names the one after. Whoever drives it decides
//! where the operations run; the order, the safety limits and the fail-fast
//! policy are decided here, once, for every driver.

use vstd::prelude::*;
use vstd::string::*;

use crate::error::SyncError;
use crate::ops::conflict::{has_conflict, status_has_conflict};
use crate::ops::svn::SvnLog;

verus! {

/// How much of the work is carried out.
#[derive(Debug, Clone, Copy)]
pub struct SyncRunOptions {
    /// Only report what would be done.
    pub dry_run: bool,
    /// Apply at most this many entries, counted from the oldest.
    pub limit: Option<usize>,
}

/// How a run ended when it did not fail.
#[derive(Debug, Clone, Copy, PartialEq, Eq, Structural)]
pub enum SyncOutcome {
    /// The log held no entry to apply.
    NothingToSync,
    /// The pending entries were listed and nothing was changed.
    Previewed,
    /// The operator declined.
    Declined,
    /// Every pending entry was applied and the history was saved.
    Synced,
}

/// What the machine is waiting for.
#[derive(Debug, Clone, Copy, PartialEq, Eq, Structural)]
pub enum SyncPhase {
    AwaitLog,
    AwaitConfirm,
    AwaitUpdate,
    AwaitStatus,
    AwaitStage,
    AwaitCommit,
    AwaitSave,
    Finished,
}

/// How an operation went.
#[derive(Debug, PartialEq, Eq)]
pub enum SyncEvent {
    /// The revision log of the source, oldest entry first.
    LogFetched(Result<Vec<SvnLog>, SyncError>),
    /// The operator's answer to the confirmation prompt.
    Confirmed(bool),
    /// The source working copy was moved to the revision asked for.
    Updated(Result<(), SyncError>),
    /// The status listing of the destination.
    StatusRead(Result<String, SyncError>),
    /// Everything pending in the destination was staged.
    Staged(Result<(), SyncError>),
    /// The staged changes were committed.
    Committed(Result<(), SyncError>),
    /// The history store was written.
    HistorySaved(Result<(), SyncError>),
}

/// What to do next. `step` counts the pending entries from one.
#[derive(Debug, PartialEq, Eq)]
pub enum SyncAction {
    /// Fetch the revision log of the source.
    FetchLog,
    /// Show the pending entries to the operator and ask whether to go on.
    Confirm,
    /// Move the source working copy to `revision`.
    Update { step: usize, revision: String },
    /// Read the status listing of the destination.
    CheckStatus { step: usize },
    /// Stage everything pending in the destination.
    StageAll { step: usize },
    /// Commit the staged changes under `message`.
    Commit { step: usize, message: String },
    /// Write the history store.
    SaveHistory,
    /// Stop; the run ended this way.
    Finish(Result<SyncOutcome, SyncError>),
}

/// An action as the specifications see it.
pub enum ActionModel {
    FetchLog,
    Confirm,
    Update { step: nat, revision: Seq<char> },
    CheckStatus { step: nat },
    StageAll { step: nat },
    Commit { step: nat, message: Seq<char> },
    SaveHistory,
    Finish(Result<SyncOutcome, SyncError>),
}

impl View for SyncAction {
    type V = ActionModel;

    open spec fn view(&self) -> ActionModel {
        match *self {
            SyncAction::FetchLog => ActionModel::FetchLog,
            SyncAction::Confirm => ActionModel::Confirm,
            SyncAction::Update { step, revision } => ActionModel::Update {
                step: step as nat,
                revision: revision@,
            },
            SyncAction::CheckStatus { step } => ActionModel::CheckStatus { step: step as nat },
            SyncAction::StageAll { step } => ActionModel::StageAll { step: step as nat },
            SyncAction::Commit { step, message } => ActionModel::Commit {
                step: step as nat,
                message: message@,
            },
            SyncAction::SaveHistory => ActionModel::SaveHistory,
            SyncAction::Finish(result) => ActionModel::Finish(result),
        }
    }
}

/// The views of a sequence of actions.
pub open spec fn action_views(actions: Seq<SyncAction>) -> Seq<ActionModel> {
    actions.map_values(|a: SyncAction| a@)
}

/// The state of the machine as the specifications see it.
pub struct SyncModel {
    /// Whether the run only previews.
    pub dry_run: bool,
    /// The cap on the number of entries.
    pub limit: Option<usize>,
    /// The entries selected for this run, oldest first.
    pub pending: Seq<SvnLog>,
    /// How many of them have been committed.
    pub done: nat,
    /// What the machine is waiting for.
    pub phase: SyncPhase,
}

/// The first `limit` entries of the log, or all of them without a limit;
/// the order is that of the log.
pub open spec fn truncated(logs: Seq<SvnLog>, limit: Option<usize>) -> Seq<SvnLog> {
    match limit {
        Some(n) => if n < logs.len() {
            logs.take(n as int)
        } else {
            logs
        },
        None => logs,
    }
}

/// The message under which an entry is committed. An empty source message is
/// kept: the commit message is then the bare prefix.
pub open spec fn commit_message(message: Seq<char>) -> Seq<char> {
    "SVN: "@ + message
}

/// The machine before anything happened.
pub open spec fn initial(options: SyncRunOptions) -> SyncModel {
    SyncModel {
        dry_run: options.dry_run,
        limit: options.limit,
        pending: Seq::empty(),
        done: 0,
        phase: SyncPhase::AwaitLog,
    }
}

/// The states the machine can be in.
pub open spec fn well_formed(m: SyncModel) -> bool {
    &&& m.pending.len() <= usize::MAX
    &&& m.done <= m.pending.len()
    &&& (m.limit matches Some(n) ==> m.pending.len() <= n)
    &&& match m.phase {
        SyncPhase::AwaitLog => m.pending.len() == 0,
        SyncPhase::AwaitConfirm => !m.dry_run && m.done == 0 && m.pending.len() > 0,
        SyncPhase::AwaitUpdate | SyncPhase::AwaitStatus | SyncPhase::AwaitStage
        | SyncPhase::AwaitCommit => !m.dry_run && m.done < m.pending.len(),
        SyncPhase::AwaitSave => !m.dry_run && m.done == m.pending.len() && m.done > 0,
        SyncPhase::Finished => true,
    }
}

/// The same state, stopped.
pub open spec fn stopped(m: SyncModel) -> SyncModel {
    SyncModel { phase: SyncPhase::Finished, ..m }
}

/// The same state, waiting for something else.
pub open spec fn waiting(m: SyncModel, phase: SyncPhase) -> SyncModel {
    SyncModel { phase, ..m }
}

/// The failure of the entry in progress, with its number and revision.
pub open spec fn step_failure(m: SyncModel, cause: SyncError) -> SyncError {
    SyncError::Step {
        step: (m.done + 1) as usize,
        revision: m.pending[m.done as int].version,
        cause: Box::new(cause),
    }
}

/// The conflict found while the entry in progress was being applied.
pub open spec fn conflict_failure(m: SyncModel, status: String) -> SyncError {
    SyncError::Conflict {
        step: (m.done + 1) as usize,
        revision: m.pending[m.done as int].version,
        status,
    }
}

/// The request to move the source to the entry in progress.
pub open spec fn update_action(m: SyncModel) -> ActionModel {
    ActionModel::Update { step: m.done + 1, revision: m.pending[m.done as int].version@ }
}

/// The machine stops and reports a failure.
pub open spec fn fail(m: SyncModel, e: SyncError) -> (SyncModel, ActionModel) {
    (stopped(m), ActionModel::Finish(Err(e)))
}

/// The machine stops and reports success.
pub open spec fn succeed(m: SyncModel, outcome: SyncOutcome) -> (SyncModel, ActionModel) {
    (stopped(m), ActionModel::Finish(Ok(outcome)))
}

/// The transition function: the state after `event`, and the action to take.
///
/// An event that the machine is not waiting for stops it.
pub open spec fn next(m: SyncModel, event: SyncEvent) -> (SyncModel, ActionModel) {
    match m.phase {
        SyncPhase::AwaitLog => match event {
            SyncEvent::LogFetched(Ok(logs)) => {
                let selected = SyncModel { pending: truncated(logs@, m.limit), ..m };
                if selected.pending.len() == 0 {
                    succeed(selected, SyncOutcome::NothingToSync)
                } else if m.dry_run {
                    succeed(selected, SyncOutcome::Previewed)
                } else {
                    (waiting(selected, SyncPhase::AwaitConfirm), ActionModel::Confirm)
                }
            },
            SyncEvent::LogFetched(Err(cause)) => fail(m, cause),
            _ => fail(m, SyncError::UnexpectedEvent),
        },
        SyncPhase::AwaitConfirm => match event {
            SyncEvent::Confirmed(true) => (waiting(m, SyncPhase::AwaitUpdate), update_action(m)),
            SyncEvent::Confirmed(false) => succeed(m, SyncOutcome::Declined),
            _ => fail(m, SyncError::UnexpectedEvent),
        },
        SyncPhase::AwaitUpdate => match event {
            SyncEvent::Updated(Ok(_)) => (
                waiting(m, SyncPhase::AwaitStatus),
                ActionModel::CheckStatus { step: m.done + 1 },
            ),
            SyncEvent::Updated(Err(cause)) => fail(m, step_failure(m, cause)),
            _ => fail(m, SyncError::UnexpectedEvent),
        },
        SyncPhase::AwaitStatus => match event {
            SyncEvent::StatusRead(Ok(status)) => if has_conflict(status@) {
                fail(m, conflict_failure(m, status))
            } else {
                (waiting(m, SyncPhase::AwaitStage), ActionModel::StageAll { step: m.done + 1 })
            },
            SyncEvent::StatusRead(Err(cause)) => fail(m, step_failure(m, cause)),
            _ => fail(m, SyncError::UnexpectedEvent),
        },
        SyncPhase::AwaitStage => match event {
            SyncEvent::Staged(Ok(_)) => (
                waiting(m, SyncPhase::AwaitCommit),
                ActionModel::Commit {
                    step: m.done + 1,
                    message: commit_message(m.pending[m.done as int].message@),
                },
            ),
            SyncEvent::Staged(Err(cause)) => fail(m, step_failure(m, cause)),
            _ => fail(m, SyncError::UnexpectedEvent),
        },
        SyncPhase::AwaitCommit => match event {
            SyncEvent::Committed(Ok(_)) => {
                let advanced = SyncModel { done: m.done + 1, ..m };
                if advanced.done < m.pending.len() {
                    (waiting(advanced, SyncPhase::AwaitUpdate), update_action(advanced))
                } else {
                    (waiting(advanced, SyncPhase::AwaitSave), ActionModel::SaveHistory)
                }
            },
            SyncEvent::Committed(Err(cause)) => fail(m, step_failure(m, cause)),
            _ => fail(m, SyncError::UnexpectedEvent),
        },
        SyncPhase::AwaitSave => match event {
            SyncEvent::HistorySaved(Ok(_)) => succeed(m, SyncOutcome::Synced),
            SyncEvent::HistorySaved(Err(cause)) => fail(m, cause),
            _ => fail(m, SyncError::UnexpectedEvent),
        },
        SyncPhase::Finished => fail(m, SyncError::UnexpectedEvent),
    }
}

/// An upper bound on the number of events a machine that has its log can still take.
pub open spec fn steps_left(m: SyncModel) -> nat {
    let rest = (m.pending.len() - m.done) as nat;
    match m.phase {
        SyncPhase::AwaitLog => 0,
        SyncPhase::AwaitConfirm => 4 * rest + 2,
        SyncPhase::AwaitUpdate => 4 * rest + 1,
        SyncPhase::AwaitStatus => 4 * rest,
        SyncPhase::AwaitStage => (4 * rest - 1) as nat,
        SyncPhase::AwaitCommit => (4 * rest - 2) as nat,
        SyncPhase::AwaitSave => 1,
        SyncPhase::Finished => 0,
    }
}

/// What a finished run says about the state it ended in.
pub open spec fn settled(m: SyncModel, action: ActionModel) -> bool {
    &&& (action is Finish <==> m.phase is Finished)
    &&& match action {
        ActionModel::Finish(Ok(SyncOutcome::NothingToSync)) => m.pending.len() == 0,
        ActionModel::Finish(Ok(SyncOutcome::Previewed)) => m.dry_run && m.pending.len() > 0
            && m.done == 0,
        ActionModel::Finish(Ok(SyncOutcome::Declined)) => !m.dry_run && m.pending.len() > 0
            && m.done == 0,
        ActionModel::Finish(Ok(SyncOutcome::Synced)) => !m.dry_run && m.pending.len() > 0
            && m.done == m.pending.len(),
        ActionModel::Finish(Err(_)) => true,
        ActionModel::FetchLog => m.phase is AwaitLog,
        ActionModel::Confirm => m.phase is AwaitConfirm,
        ActionModel::Update { step, revision } => m.phase is AwaitUpdate && step == m.done + 1
            && revision == m.pending[m.done as int].version@,
        ActionModel::CheckStatus { step } => m.phase is AwaitStatus && step == m.done + 1,
        ActionModel::StageAll { step } => m.phase is AwaitStage && step == m.done + 1,
        ActionModel::Commit { step, message } => m.phase is AwaitCommit && step == m.done + 1
            && message == commit_message(m.pending[m.done as int].message@),
        ActionModel::SaveHistory => m.phase is AwaitSave,
    }
}

/// Every transition leads to a state the machine can be in, names an action
/// that fits that state, never goes back to waiting for the log, and uses up
/// one of the remaining steps.
pub proof fn lemma_next_well_formed(m: SyncModel, event: SyncEvent)
    requires
        well_formed(m),
    ensures
        well_formed(next(m, event).0),
        m.phase !is Finished ==> settled(next(m, event).0, next(m, event).1),
        next(m, event).0.phase !is AwaitLog,
        next(m, event).0.dry_run == m.dry_run,
        next(m, event).0.limit == m.limit,
        m.phase !is AwaitLog ==> next(m, event).0.pending == m.pending,
        m.phase !is AwaitLog && m.phase !is Finished ==> steps_left(next(m, event).0) < steps_left(
            m,
        ),
{
    if let SyncEvent::LogFetched(Ok(logs)) = event {
        assert(logs@.len() == logs.len());
    }
}

/// The orchestration state machine.
pub struct SyncMachine {
    dry_run: bool,
    limit: Option<usize>,
    pending: Vec<SvnLog>,
    done: usize,
    phase: SyncPhase,
}

impl View for SyncMachine {
    type V = SyncModel;

    closed spec fn view(&self) -> SyncModel {
        SyncModel {
            dry_run: self.dry_run,
            limit: self.limit,
            pending: self.pending@,
            done: self.done as nat,
            phase: self.phase,
        }
    }
}

/// Builds the commit message for an entry.
pub fn make_commit_message(message: &str) -> (r: String)
    ensures
        r@ == commit_message(message@),
{
    let mut s = String::from_str("SVN: ");
    s.append(message);
    s
}

impl SyncMachine {
    #[verifier::type_invariant]
    closed spec fn valid(self) -> bool {
        well_formed(self@)
    }

    /// A machine for one run, and the first thing to do: fetch the log.
    pub fn start(options: &SyncRunOptions) -> (r: (SyncMachine, SyncAction))
        ensures
            r.0@ == initial(*options),
            r.1@ == ActionModel::FetchLog,
            well_formed(r.0@),
    {
        let machine = SyncMachine {
            dry_run: options.dry_run,
            limit: options.limit,
            pending: Vec::new(),
            done: 0,
            phase: SyncPhase::AwaitLog,
        };
        assert(machine@.pending =~= Seq::<SvnLog>::empty());
        (machine, SyncAction::FetchLog)
    }

    /// The entries selected for this run, oldest first.
    pub fn pending(&self) -> (r: &Vec<SvnLog>)
        ensures
            r@ == self@.pending,
    {
        &self.pending
    }

    /// How many entries have been committed.
    pub fn applied(&self) -> (r: usize)
        ensures
            r == self@.done,
    {
        self.done
    }

    /// What the machine is waiting for. Every machine is in a state that
    /// the transitions can reach.
    pub fn phase(&self) -> (r: SyncPhase)
        ensures
            r == self@.phase,
            well_formed(self@),
    {
        proof {
            use_type_invariant(self);
        }
        self.phase
    }

    /// Whether the run is over.
    pub fn is_finished(&self) -> (r: bool)
        ensures
            r == (self@.phase is Finished),
    {
        self.phase == SyncPhase::Finished
    }

    fn halt(self, result: Result<SyncOutcome, SyncError>) -> (r: (SyncMachine, SyncAction))
        ensures
            r.0@ == stopped(self@),
            r.1@ == ActionModel::Finish(result),
    {
        proof {
            use_type_invariant(&self);
        }
        let machine = SyncMachine {
            dry_run: self.dry_run,
            limit: self.limit,
            pending: self.pending,
            done: self.done,
            phase: SyncPhase::Finished,
        };
        (machine, SyncAction::Finish(result))
    }

    fn wait(self, phase: SyncPhase) -> (r: SyncMachine)
        requires
            well_formed(waiting(self@, phase)),
        ensures
            r@ == waiting(self@, phase),
    {
        SyncMachine {
            dry_run: self.dry_run,
            limit: self.limit,
            pending: self.pending,
            done: self.done,
            phase,
        }
    }

    fn fail_step(self, cause: SyncError) -> (r: (SyncMachine, SyncAction))
        requires
            self@.done < self@.pending.len(),
        ensures
            r.0@ == stopped(self@),
            r.1@ == ActionModel::Finish(Err(step_failure(self@, cause))),
    {
        proof {
            use_type_invariant(&self);
        }
        let e = SyncError::at_step(self.done + 1, &self.pending[self.done].version, cause);
        self.halt(Err(e))
    }

    fn request_update(self) -> (r: (SyncMachine, SyncAction))
        requires
            self@.done < self@.pending.len(),
            !self@.dry_run,
        ensures
            r.0@ == waiting(self@, SyncPhase::AwaitUpdate),
            r.1@ == update_action(self@),
    {
        proof {
            use_type_invariant(&self);
        }
        let revision = self.pending[self.done].version.clone();
        let step = self.done + 1;
        (self.wait(SyncPhase::AwaitUpdate), SyncAction::Update { step, revision })
    }

    /// Takes one event and names the next action.
    pub fn step(self, event: SyncEvent) -> (r: (SyncMachine, SyncAction))
        ensures
            r.0@ == next(self@, event).0,
            r.1@ == next(self@, event).1,
            well_formed(self@),
            well_formed(r.0@),
    {
        proof {
            use_type_invariant(&self);
            lemma_next_well_formed(self@, event);
        }
        match self.phase {
            SyncPhase::AwaitLog => match event {
                SyncEvent::LogFetched(Ok(logs)) => {
                    let mut logs = logs;
                    match self.limit {
                        Some(n) => {
                            if n < logs.len() {
                                logs.truncate(n);
                            }
                        },
                        None => {},
                    }
                    assert(logs@ =~= truncated(event->LogFetched_0->Ok_0@, self@.limit));
                    let count = logs.len();
                    let dry_run = self.dry_run;
                    let selected = SyncMachine {
                        dry_run: self.dry_run,
                        limit: self.limit,
                        pending: logs,
                        done: 0,
                        phase: SyncPhase::Finished,
                    };
                    if count == 0 {
                        selected.halt(Ok(SyncOutcome::NothingToSync))
                    } else if dry_run {
                        selected.halt(Ok(SyncOutcome::Previewed))
                    } else {
                        (selected.wait(SyncPhase::AwaitConfirm), SyncAction::Confirm)
                    }
                },
                SyncEvent::LogFetched(Err(cause)) => self.halt(Err(cause)),
                _ => self.halt(Err(SyncError::UnexpectedEvent)),
            },
            SyncPhase::AwaitConfirm => match event {
                SyncEvent::Confirmed(true) => self.request_update(),
                SyncEvent::Confirmed(false) => self.halt(Ok(SyncOutcome::Declined)),
                _ => self.halt(Err(SyncError::UnexpectedEvent)),
            },
            SyncPhase::AwaitUpdate => match event {
                SyncEvent::Updated(Ok(_)) => {
                    let step = self.done + 1;
                    (self.wait(SyncPhase::AwaitStatus), SyncAction::CheckStatus { step })
                },
                SyncEvent::Updated(Err(cause)) => self.fail_step(cause),
                _ => self.halt(Err(SyncError::UnexpectedEvent)),
            },
            SyncPhase::AwaitStatus => match event {
                SyncEvent::StatusRead(Ok(status)) => {
                    if status_has_conflict(status.as_str()) {
                        let revision = self.pending[self.done].version.clone();
                        let e = SyncError::Conflict { step: self.done + 1, revision, status };
                        self.halt(Err(e))
                    } else {
                        let step = self.done + 1;
                        (self.wait(SyncPhase::AwaitStage), SyncAction::StageAll { step })
                    }
                },
                SyncEvent::StatusRead(Err(cause)) => self.fail_step(cause),
                _ => self.halt(Err(SyncError::UnexpectedEvent)),
            },
            SyncPhase::AwaitStage => match event {
                SyncEvent::Staged(Ok(_)) => {
                    let step = self.done + 1;
                    let message = make_commit_message(self.pending[self.done].message.as_str());
                    (self.wait(SyncPhase::AwaitCommit), SyncAction::Commit { step, message })
                },
                SyncEvent::Staged(Err(cause)) => self.fail_step(cause),
                _ => self.halt(Err(SyncError::UnexpectedEvent)),
            },
            SyncPhase::AwaitCommit => match event {
                SyncEvent::Committed(Ok(_)) => {
                    let total = self.pending.len();
                    let advanced = SyncMachine {
                        dry_run: self.dry_run,
                        limit: self.limit,
                        pending: self.pending,
                        done: self.done + 1,
                        phase: SyncPhase::Finished,
                    };
                    if advanced.done < total {
                        advanced.request_update()
                    } else {
                        (advanced.wait(SyncPhase::AwaitSave), SyncAction::SaveHistory)
                    }
                },
                SyncEvent::Committed(Err(cause)) => self.fail_step(cause),
                _ => self.halt(Err(SyncError::UnexpectedEvent)),
            },
            SyncPhase::AwaitSave => match event {
                SyncEvent::HistorySaved(Ok(_)) => self.halt(Ok(SyncOutcome::Synced)),
                SyncEvent::HistorySaved(Err(cause)) => self.halt(Err(cause)),
                _ => self.halt(Err(SyncError::UnexpectedEvent)),
            },
            SyncPhase::Finished => self.halt(Err(SyncError::UnexpectedEvent)),
        }
    }
}

} // verus!
