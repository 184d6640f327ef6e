//! Running the orchestration against a set of backends.

use vstd::prelude::*;
use vstd::string::*;

use crate::config::manager::{FileStorage, HistoryManager};
use crate::config::record::{RecordView, SyncConfig};
use crate::error::SyncError;
use crate::interactor::user::{Question, Reply, UserInteractor};
use crate::ops::git_operations::{GitAnswer, GitCall, GitOperations};
use crate::ops::process::CommandRunner;
use crate::ops::real_git::RealGitOperations;
use crate::ops::svn::{RealSvnOperations, SvnAnswer, SvnCall, SvnLog, SvnOperations};
use crate::sync::laws::{
    action_at, all_commits, all_updates, answers, commits_in, journal_of, lemma_journal_in_order,
    lemma_on_track, lemma_selection_is_fixed, lemma_started_with_log, state_after, updates_in,
};
use crate::sync::machine::{
    action_views, commit_message, initial, lemma_next_well_formed, next, settled, steps_left,
    truncated, well_formed, ActionModel, SyncAction, SyncEvent, SyncMachine, SyncModel, SyncOutcome,
    SyncRunOptions,
};

verus! {

/// What a run did.
#[derive(Debug, PartialEq, Eq)]
pub struct SyncReport {
    /// How the run ended.
    pub outcome: SyncOutcome,
    /// The entries selected for the run, oldest first.
    pub entries: Vec<SvnLog>,
    /// How many of them were committed.
    pub applied: usize,
    /// One line per entry that a dry run would have applied.
    pub preview: Vec<String>,
}

/// The line by which a dry run announces an entry.
pub open spec fn preview_text(entry: SvnLog) -> Seq<char> {
    "[dry-run] r"@ + entry.version@ + " -> "@ + commit_message(entry.message@)
}

/// The lines by which a dry run announces its entries.
pub open spec fn preview_ok(entries: Seq<SvnLog>, lines: Seq<String>) -> bool {
    lines.len() == entries.len() && forall|i: int|
        0 <= i < entries.len() ==> (#[trigger] lines[i])@ == preview_text(entries[i])
}

/// What a report says, given the options of the run.
pub open spec fn report_ok(options: SyncRunOptions, report: SyncReport) -> bool {
    &&& (options.limit matches Some(n) ==> report.entries@.len() <= n)
    &&& report.applied <= report.entries@.len()
    &&& match report.outcome {
        SyncOutcome::NothingToSync => report.entries@.len() == 0 && report.preview@.len() == 0,
        SyncOutcome::Previewed => options.dry_run && report.entries@.len() > 0 && report.applied
            == 0 && preview_ok(report.entries@, report.preview@),
        SyncOutcome::Declined => !options.dry_run && report.entries@.len() > 0 && report.applied
            == 0 && report.preview@.len() == 0,
        SyncOutcome::Synced => !options.dry_run && report.entries@.len() > 0 && report.applied
            == report.entries@.len() && report.preview@.len() == 0,
    }
}

/// What a run reports as its end.
pub open spec fn outcome_of(r: Result<SyncReport, SyncError>) -> Result<SyncOutcome, SyncError> {
    match r {
        Ok(report) => Ok(report.outcome),
        Err(e) => Err(e),
    }
}

/// Nothing but the source backend changed.
pub open spec fn source_only<S: FileStorage, V: SvnOperations, G: GitOperations, I: UserInteractor>(
    before: SyncTool<S, V, G, I>,
    after: SyncTool<S, V, G, I>,
) -> bool {
    &&& after.settings() == before.settings()
    &&& after.remembered() == before.remembered()
    &&& after.destination() == before.destination()
    &&& after.operator() == before.operator()
    &&& after.archive() == before.archive()
}

/// Nothing but the destination backend changed.
pub open spec fn destination_only<
    S: FileStorage,
    V: SvnOperations,
    G: GitOperations,
    I: UserInteractor,
>(before: SyncTool<S, V, G, I>, after: SyncTool<S, V, G, I>) -> bool {
    &&& after.settings() == before.settings()
    &&& after.remembered() == before.remembered()
    &&& after.source() == before.source()
    &&& after.operator() == before.operator()
    &&& after.archive() == before.archive()
}

/// Nothing but the operator changed.
pub open spec fn operator_only<
    S: FileStorage,
    V: SvnOperations,
    G: GitOperations,
    I: UserInteractor,
>(before: SyncTool<S, V, G, I>, after: SyncTool<S, V, G, I>) -> bool {
    &&& after.settings() == before.settings()
    &&& after.remembered() == before.remembered()
    &&& after.source() == before.source()
    &&& after.destination() == before.destination()
    &&& after.archive() == before.archive()
}

/// Nothing but the store of the history changed.
pub open spec fn archive_only<
    S: FileStorage,
    V: SvnOperations,
    G: GitOperations,
    I: UserInteractor,
>(before: SyncTool<S, V, G, I>, after: SyncTool<S, V, G, I>) -> bool {
    &&& after.settings() == before.settings()
    &&& after.remembered() == before.remembered()
    &&& after.source() == before.source()
    &&& after.destination() == before.destination()
    &&& after.operator() == before.operator()
}

/// `action` was carried out on `before` and went as `event` says, leaving
/// `after`: the backend concerned was asked exactly what the action names,
/// on the directory of the configuration, and nothing else was touched.
/// `pending` is what the operator is shown when asked to confirm.
pub open spec fn carried_out<
    S: FileStorage,
    V: SvnOperations,
    G: GitOperations,
    I: UserInteractor,
>(
    before: SyncTool<S, V, G, I>,
    action: ActionModel,
    pending: Seq<SvnLog>,
    after: SyncTool<S, V, G, I>,
    event: SyncEvent,
) -> bool {
    let svn_dir = before.settings().svn_dir@;
    let git_dir = before.settings().git_dir@;
    match action {
        ActionModel::FetchLog => {
            &&& source_only(before, after)
            &&& event matches SyncEvent::LogFetched(r)
            &&& V::answered(
                before.source(),
                SvnCall::FetchLog(svn_dir),
                after.source(),
                SvnAnswer::Log(r),
            )
        },
        ActionModel::Confirm => {
            &&& operator_only(before, after)
            &&& event matches SyncEvent::Confirmed(consent)
            &&& I::answered(
                before.operator(),
                Question::Confirm(pending),
                after.operator(),
                Reply::Consent(consent),
            )
        },
        ActionModel::Update { step, revision } => {
            &&& source_only(before, after)
            &&& event matches SyncEvent::Updated(r)
            &&& V::answered(
                before.source(),
                SvnCall::Update(svn_dir, revision),
                after.source(),
                SvnAnswer::Done(r),
            )
        },
        ActionModel::CheckStatus { step } => {
            &&& destination_only(before, after)
            &&& event matches SyncEvent::StatusRead(r)
            &&& G::answered(
                before.destination(),
                GitCall::Status(git_dir),
                after.destination(),
                GitAnswer::Text(r),
            )
        },
        ActionModel::StageAll { step } => {
            &&& destination_only(before, after)
            &&& event matches SyncEvent::Staged(r)
            &&& G::answered(
                before.destination(),
                GitCall::AddAll(git_dir),
                after.destination(),
                GitAnswer::Done(r),
            )
        },
        ActionModel::Commit { step, message } => {
            &&& destination_only(before, after)
            &&& event matches SyncEvent::Committed(r)
            &&& G::answered(
                before.destination(),
                GitCall::Commit(git_dir, message),
                after.destination(),
                GitAnswer::Done(r),
            )
        },
        ActionModel::SaveHistory => {
            &&& archive_only(before, after)
            &&& event matches SyncEvent::HistorySaved(r)
            &&& S::saved(before.archive(), before.remembered(), after.archive(), r)
        },
        ActionModel::Finish(_) => false,
    }
}

/// The operation at position `i` of the journal led from state `i` to the
/// next and went as event `i` says.
pub open spec fn carried_at<
    S: FileStorage,
    V: SvnOperations,
    G: GitOperations,
    I: UserInteractor,
>(
    options: SyncRunOptions,
    events: Seq<SyncEvent>,
    states: Seq<SyncTool<S, V, G, I>>,
    journal: Seq<ActionModel>,
    i: int,
) -> bool {
    carried_out(
        states[i],
        journal[i],
        state_after(initial(options), events.take(i)).pending,
        states[i + 1],
        events[i],
    )
}

/// The run went through `states`: it began in the first, ended in the last,
/// and each operation of the journal led from one to the next, answered as
/// `events` say.
pub open spec fn run_through<
    S: FileStorage,
    V: SvnOperations,
    G: GitOperations,
    I: UserInteractor,
>(
    options: SyncRunOptions,
    events: Seq<SyncEvent>,
    states: Seq<SyncTool<S, V, G, I>>,
    journal: Seq<ActionModel>,
    r: Result<SyncReport, SyncError>,
) -> bool {
    &&& run_of(options, events, journal, r)
    &&& states.len() == journal.len() + 1
    &&& forall|i: int|
        0 <= i < journal.len() ==> #[trigger] carried_at(options, events, states, journal, i)
}

/// `journal` and `r` are the journal and the result of a run in which the
/// operations went as `events` say: the journal is the machine's, the
/// result is the machine's last word, and a report shows the entries the
/// machine selected and the number it saw committed.
pub open spec fn run_of(
    options: SyncRunOptions,
    events: Seq<SyncEvent>,
    journal: Seq<ActionModel>,
    r: Result<SyncReport, SyncError>,
) -> bool {
    &&& journal_of(options, events, journal, outcome_of(r))
    &&& r matches Ok(report) ==> report.entries@ == state_after(initial(options), events).pending
        && report.applied == state_after(initial(options), events).done
}

/// A completed run has applied the first `min(limit, total)` entries of the
/// log that the source reported, each once and in the order of the log: its
/// journal shows exactly one update and one commit per selected entry, and
/// the selection is the log cut to the limit.
pub proof fn lemma_completed_run(
    options: SyncRunOptions,
    events: Seq<SyncEvent>,
    journal: Seq<ActionModel>,
    r: Result<SyncReport, SyncError>,
)
    requires
        run_of(options, events, journal, r),
        r matches Ok(report) && report.outcome == SyncOutcome::Synced,
    ensures
        ({
            let report = r->Ok_0;
            &&& updates_in(journal) == all_updates(report.entries@)
            &&& commits_in(journal) == all_commits(report.entries@)
            &&& report.applied == report.entries@.len()
            &&& events[0] matches SyncEvent::LogFetched(Ok(logs)) && report.entries@ == truncated(
                logs@,
                options.limit,
            )
        }),
{
    lemma_journal_in_order(options, events, journal, outcome_of(r));
    let n = events.len() as int;
    assert(events.take(n - 1) =~= events.drop_last());
    lemma_on_track(options, events.drop_last());
    lemma_next_well_formed(state_after(initial(options), events.drop_last()), events.last());
    lemma_started_with_log(options, events);
    if let SyncEvent::LogFetched(Ok(logs)) = events[0] {
        lemma_selection_is_fixed(options, logs, events);
    }
}

/// Builds the line by which a dry run announces an entry.
pub fn preview_line(entry: &SvnLog) -> (r: String)
    ensures
        r@ == preview_text(*entry),
{
    let mut s = String::from_str("[dry-run] r");
    s.append(entry.version.as_str());
    s.append(" -> ");
    s.append("SVN: ");
    s.append(entry.message.as_str());
    assert(s@ =~= preview_text(*entry));
    s
}

/// Builds the lines by which a dry run announces its entries.
pub fn preview_lines(entries: &Vec<SvnLog>) -> (r: Vec<String>)
    ensures
        preview_ok(entries@, r@),
{
    let mut lines: Vec<String> = Vec::new();
    let mut i: usize = 0;
    while i < entries.len()
        invariant
            i <= entries.len(),
            lines.len() == i,
            forall|k: int| 0 <= k < i ==> (#[trigger] lines@[k])@ == preview_text(entries@[k]),
        decreases entries.len() - i,
    {
        lines.push(preview_line(&entries[i]));
        i = i + 1;
    }
    lines
}

/// A copy of the entries, in order.
pub fn copy_entries(entries: &Vec<SvnLog>) -> (r: Vec<SvnLog>)
    ensures
        r@ == entries@,
{
    let mut out: Vec<SvnLog> = Vec::new();
    let mut i: usize = 0;
    while i < entries.len()
        invariant
            i <= entries.len(),
            out@ == entries@.take(i as int),
        decreases entries.len() - i,
    {
        out.push(entries[i].clone());
        assert(out@ =~= entries@.take(i + 1));
        i = i + 1;
    }
    assert(entries@.take(entries.len() as int) =~= entries@);
    out
}

/// The synchronisation of one source with one destination.
pub struct SyncTool<S: FileStorage, V: SvnOperations, G: GitOperations, I: UserInteractor> {
    config: SyncConfig,
    history: HistoryManager<S>,
    svn_operations: V,
    interactor: I,
    git_operations: G,
}

impl<S: FileStorage, V: SvnOperations, G: GitOperations, I: UserInteractor> SyncTool<S, V, G, I> {
    /// The configuration, as a specification sees it.
    pub closed spec fn settings(&self) -> SyncConfig {
        self.config
    }

    /// The remembered pairings, as a specification sees them.
    pub closed spec fn remembered(&self) -> Seq<RecordView> {
        self.history@
    }

    /// A synchronisation that works through the given backends.
    pub fn new(
        config: SyncConfig,
        history: HistoryManager<S>,
        svn_operations: V,
        interactor: I,
        git_operations: G,
    ) -> (r: Self)
        ensures
            r.settings() == config,
            r.remembered() == history@,
            r.source() == svn_operations,
            r.destination() == git_operations,
            r.operator() == interactor,
            r.archive() == history.store(),
    {
        SyncTool { config, history, svn_operations, interactor, git_operations }
    }

    /// The configuration of the run.
    pub fn config(&self) -> (r: &SyncConfig)
        ensures
            *r == self.settings(),
    {
        &self.config
    }

    /// The history that is saved at the end of a run.
    pub fn history(&self) -> (r: &HistoryManager<S>)
        ensures
            r@ == self.remembered(),
    {
        &self.history
    }

    /// The source backend, as a specification sees it.
    pub closed spec fn source(&self) -> V {
        self.svn_operations
    }

    /// The destination backend, as a specification sees it.
    pub closed spec fn destination(&self) -> G {
        self.git_operations
    }

    /// The operator, as a specification sees them.
    pub closed spec fn operator(&self) -> I {
        self.interactor
    }

    /// The store of the history, as a specification sees it.
    pub closed spec fn archive(&self) -> S {
        self.history.store()
    }

    /// The source backend.
    pub fn svn_operations(&self) -> (r: &V)
        ensures
            *r == self.source(),
    {
        &self.svn_operations
    }

    /// The destination backend.
    pub fn git_operations(&self) -> (r: &G)
        ensures
            *r == self.destination(),
    {
        &self.git_operations
    }

    /// The operator.
    pub fn interactor(&self) -> (r: &I)
        ensures
            *r == self.operator(),
    {
        &self.interactor
    }

    /// Carries out one action and reports how it went.
    fn perform(&mut self, machine: &SyncMachine, action: &SyncAction) -> (event: SyncEvent)
        requires
            action@ !is Finish,
        ensures
            carried_out(*old(self), action@, machine@.pending, *final(self), event),
    {
        match action {
            SyncAction::FetchLog => SyncEvent::LogFetched(
                self.svn_operations.fetch_log(self.config.svn_dir.as_str()),
            ),
            SyncAction::Confirm => SyncEvent::Confirmed(
                self.interactor.confirm_sync(machine.pending()),
            ),
            SyncAction::Update { step, revision } => SyncEvent::Updated(
                self.svn_operations.update_to_revision(
                    self.config.svn_dir.as_str(),
                    revision.as_str(),
                ),
            ),
            SyncAction::CheckStatus { step } => SyncEvent::StatusRead(
                self.git_operations.status(self.config.git_dir.as_str()),
            ),
            SyncAction::StageAll { step } => SyncEvent::Staged(
                self.git_operations.add_all(self.config.git_dir.as_str()),
            ),
            SyncAction::Commit { step, message } => SyncEvent::Committed(
                self.git_operations.commit(self.config.git_dir.as_str(), message.as_str()),
            ),
            SyncAction::SaveHistory => SyncEvent::HistorySaved(self.history.save()),
            SyncAction::Finish(_) => SyncEvent::Confirmed(false),
        }
    }

    /// Replays the pending revisions of the source as commits in the destination.
    ///
    /// The log is fetched and cut to the limit. An empty selection ends the
    /// run at once; a dry run lists the selection and ends; otherwise the
    /// operator is asked, and on their consent each entry is applied in turn:
    /// the source is moved to the revision, the destination is checked for
    /// conflicts, and everything pending is staged and committed under the
    /// entry's message. The first failure ends the run; what was committed
    /// before stays committed. After the last entry the history is saved.
    pub fn run(&mut self, options: &SyncRunOptions) -> (r: Result<SyncReport, SyncError>)
        ensures
            r matches Ok(report) ==> report_ok(*options, report),
            exists|events: Seq<SyncEvent>, states: Seq<Self>, journal: Seq<ActionModel>|
                #[trigger] run_through(*options, events, states, journal, r) && states[0] == *old(
                    self,
                ) && states.last() == *final(self),
            final(self).settings() == old(self).settings(),
            final(self).remembered() == old(self).remembered(),
    {
        let (r, journal) = self.run_with_journal(options);
        proof {
            let (events, states) = choose|events: Seq<SyncEvent>, states: Seq<Self>|
                #[trigger] run_through(*options, events, states, action_views(journal@), r)
                    && states[0] == *old(self) && states.last() == *self;
            assert(run_through(*options, events, states, action_views(journal@), r));
        }
        r
    }

    /// Runs like [`SyncTool::run`] and also hands out the journal of the run:
    /// the operations that were carried out, in order.
    ///
    /// The journal is a run of the state machine: there is a sequence of
    /// events, one per operation, such that each operation after the first is
    /// the machine's response to the event before it, and the result is the
    /// machine's response to the last event. The laws of the machine
    /// therefore hold of every journal. Each event is what the backend
    /// concerned answered when it was asked what the operation names.
    pub fn run_with_journal(&mut self, options: &SyncRunOptions) -> (r: (
        Result<SyncReport, SyncError>,
        Vec<SyncAction>,
    ))
        ensures
            r.0 matches Ok(report) ==> report_ok(*options, report),
            exists|events: Seq<SyncEvent>, states: Seq<Self>|
                #[trigger] run_through(*options, events, states, action_views(r.1@), r.0)
                    && states[0] == *old(self) && states.last() == *final(self),
            options.dry_run ==> r.1@.len() == 1,
            final(self).settings() == old(self).settings(),
            final(self).remembered() == old(self).remembered(),
    {
        let (mut machine, mut action) = SyncMachine::start(options);
        let mut journal: Vec<SyncAction> = Vec::new();
        let ghost mut events: Seq<SyncEvent> = Seq::empty();
        let ghost mut states: Seq<Self> = seq![*self];
        proof {
            lemma_progress_begins(*options, *self);
            assert(action_views(journal@) =~= Seq::<ActionModel>::empty());
        }
        loop
            invariant
                self.settings() == old(self).settings(),
                self.remembered() == old(self).remembered(),
                well_formed(machine@),
                settled(machine@, action@),
                machine@.dry_run == options.dry_run,
                machine@.limit == options.limit,
                progress(
                    *options,
                    events,
                    states,
                    action_views(journal@),
                    action@,
                    machine@,
                ),
                states.len() > 0,
                states[0] == *old(self),
                states.last() == *self,
                options.dry_run ==> (journal.len() == 0 && machine@.phase is AwaitLog) || (
                journal.len() == 1 && action@ is Finish),
            decreases
                    (if machine@.phase is AwaitLog {
                        1int
                    } else {
                        0int
                    }),
                    steps_left(machine@),
        {
            if let SyncAction::Finish(result) = action {
                let outcome = match result {
                    Err(e) => Err(e),
                    Ok(outcome) => {
                        let entries = copy_entries(machine.pending());
                        let preview = match outcome {
                            SyncOutcome::Previewed => preview_lines(&entries),
                            _ => Vec::new(),
                        };
                        Ok(SyncReport { outcome, entries, applied: machine.applied(), preview })
                    },
                };
                let ghost jv = action_views(journal@);
                let ghost res = outcome;
                let r = (outcome, journal);
                proof {
                    assert(action_views(r.1@) == jv);
                    assert(r.0 == res);
                    lemma_progress_ends(*options, events, states, jv, action@, machine@, res);
                    assert(run_through(*options, events, states, action_views(r.1@), r.0));
                }
                return r;
            }
            let event = self.perform(&machine, &action);
            proof {
                lemma_next_well_formed(machine@, event);
                lemma_progress_goes_on(
                    *options,
                    events,
                    states,
                    action_views(journal@),
                    action@,
                    machine@,
                    *self,
                    event,
                );
                states = states.push(*self);
                events = events.push(event);
            }
            let ghost listed = action_views(journal@);
            let ghost performed = action@;
            journal.push(action);
            assert(action_views(journal@) =~= listed.push(performed));
            let (next_machine, next_action) = machine.step(event);
            machine = next_machine;
            action = next_action;
        }
    }
}

/// How far a run has come: `journal` lists the operations carried out so
/// far, `events` how they went and `states` what they led through; the
/// machine is in state `machine` and has named `action` as the next thing
/// to do.
pub open spec fn progress<S: FileStorage, V: SvnOperations, G: GitOperations, I: UserInteractor>(
    options: SyncRunOptions,
    events: Seq<SyncEvent>,
    states: Seq<SyncTool<S, V, G, I>>,
    journal: Seq<ActionModel>,
    action: ActionModel,
    machine: SyncModel,
) -> bool {
    let start = initial(options);
    &&& events.len() == journal.len()
    &&& states.len() == journal.len() + 1
    &&& machine == state_after(start, events)
    &&& journal.len() == 0 ==> action == ActionModel::FetchLog
    &&& journal.len() > 0 ==> journal[0] == ActionModel::FetchLog && action == action_at(
        start,
        events,
        events.len() - 1,
    )
    &&& forall|i: int|
        1 <= i < journal.len() ==> #[trigger] journal[i] == action_at(start, events, i - 1)
    &&& forall|i: int| 0 <= i < journal.len() ==> answers(#[trigger] journal[i], events[i])
    &&& forall|i: int|
        0 <= i < journal.len() ==> #[trigger] carried_at(options, events, states, journal, i)
}

proof fn lemma_progress_begins<
    S: FileStorage,
    V: SvnOperations,
    G: GitOperations,
    I: UserInteractor,
>(options: SyncRunOptions, tool: SyncTool<S, V, G, I>)
    ensures
        progress(
            options,
            Seq::<SyncEvent>::empty(),
            seq![tool],
            Seq::<ActionModel>::empty(),
            ActionModel::FetchLog,
            initial(options),
        ),
{
}

proof fn lemma_progress_goes_on<
    S: FileStorage,
    V: SvnOperations,
    G: GitOperations,
    I: UserInteractor,
>(
    options: SyncRunOptions,
    events: Seq<SyncEvent>,
    states: Seq<SyncTool<S, V, G, I>>,
    journal: Seq<ActionModel>,
    action: ActionModel,
    machine: SyncModel,
    reached: SyncTool<S, V, G, I>,
    event: SyncEvent,
)
    requires
        progress(options, events, states, journal, action, machine),
        carried_out(states.last(), action, machine.pending, reached, event),
    ensures
        progress(
            options,
            events.push(event),
            states.push(reached),
            journal.push(action),
            next(machine, event).1,
            next(machine, event).0,
        ),
{
    let start = initial(options);
    let n = journal.len() as int;
    let events2 = events.push(event);
    let states2 = states.push(reached);
    let journal2 = journal.push(action);
    assert(events2.drop_last() =~= events);
    assert(events2.take(n) =~= events);
    assert forall|i: int| 0 <= i <= n implies #[trigger] events2.take(i) == events.take(i) by {
        assert(events2.take(i) =~= events.take(i));
    }
    assert(events.take(n) =~= events);
    assert(next(machine, event).1 == action_at(start, events2, n));
    assert forall|i: int| 1 <= i < journal2.len() implies #[trigger] journal2[i] == action_at(
        start,
        events2,
        i - 1,
    ) by {
        assert(events2.take(i - 1) == events.take(i - 1));
        if i < n {
            assert(events2[i - 1] == events[i - 1]);
        } else {
            assert(events2[i - 1] == events[i - 1]);
        }
    }
    assert forall|i: int| 0 <= i < journal2.len() implies answers(
        #[trigger] journal2[i],
        events2[i],
    ) by {
        if i < n {
            assert(journal2[i] == journal[i]);
            assert(events2[i] == events[i]);
        }
    }
    assert forall|i: int| 0 <= i < journal2.len() implies #[trigger] carried_at(
        options,
        events2,
        states2,
        journal2,
        i,
    ) by {
        assert(events2.take(i) == events.take(i));
        if i < n {
            assert(carried_at(options, events, states, journal, i));
            assert(states2[i] == states[i]);
            assert(states2[i + 1] == states[i + 1]);
            assert(journal2[i] == journal[i]);
            assert(events2[i] == events[i]);
        }
    }
}

proof fn lemma_progress_ends<
    S: FileStorage,
    V: SvnOperations,
    G: GitOperations,
    I: UserInteractor,
>(
    options: SyncRunOptions,
    events: Seq<SyncEvent>,
    states: Seq<SyncTool<S, V, G, I>>,
    journal: Seq<ActionModel>,
    action: ActionModel,
    machine: SyncModel,
    r: Result<SyncReport, SyncError>,
)
    requires
        progress(options, events, states, journal, action, machine),
        action == ActionModel::Finish(outcome_of(r)),
        r matches Ok(report) ==> report.entries@ == machine.pending && report.applied
            == machine.done,
    ensures
        run_through(options, events, states, journal, r),
{
}

impl<S: FileStorage, I: UserInteractor, R: CommandRunner> SyncTool<
    S,
    RealSvnOperations<R>,
    RealGitOperations<R>,
    I,
> {
    /// A synchronisation that works through the `svn` and `git` executables.
    pub fn with_real_git(
        config: SyncConfig,
        history: HistoryManager<S>,
        interactor: I,
        svn_runner: R,
        git_runner: R,
    ) -> (r: Self)
        ensures
            r.settings() == config,
            r.remembered() == history@,
            r.source().tools() == svn_runner,
            r.destination().tools() == git_runner,
            r.operator() == interactor,
            r.archive() == history.store(),
    {
        SyncTool::new(
            config,
            history,
            RealSvnOperations::new(svn_runner),
            interactor,
            RealGitOperations::new(git_runner),
        )
    }
}

} // verus!
