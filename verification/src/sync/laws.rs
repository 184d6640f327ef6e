//! What holds of every run of the orchestration, whatever the operations return.
//!
//! A run is the sequence of events handed to a machine started with some
//! options; the laws speak of the actions the machine names in response.

use vstd::prelude::*;

use crate::error::SyncError;
use crate::ops::conflict::has_conflict;
use crate::ops::svn::SvnLog;
use crate::sync::machine::{
    commit_message, initial, lemma_next_well_formed, next, truncated, well_formed, ActionModel,
    SyncEvent, SyncModel, SyncOutcome, SyncPhase, SyncRunOptions,
};

verus! {

/// The state of a machine that started in `m` and took `events` in order.
pub open spec fn state_after(m: SyncModel, events: Seq<SyncEvent>) -> SyncModel
    decreases events.len(),
{
    if events.len() == 0 {
        m
    } else {
        next(state_after(m, events.drop_last()), events.last()).0
    }
}

/// The action named in response to the event at position `i`.
pub open spec fn action_at(m: SyncModel, events: Seq<SyncEvent>, i: int) -> ActionModel {
    next(state_after(m, events.take(i)), events[i]).1
}

/// The updates requested during a run, in order: the number of the entry and its revision.
pub open spec fn requested_updates(m: SyncModel, events: Seq<SyncEvent>) -> Seq<
    (nat, Seq<char>),
>
    decreases events.len(),
{
    if events.len() == 0 {
        Seq::empty()
    } else {
        let before = requested_updates(m, events.drop_last());
        match next(state_after(m, events.drop_last()), events.last()).1 {
            ActionModel::Update { step, revision } => before.push((step, revision)),
            _ => before,
        }
    }
}

/// The commits requested during a run, in order: the number of the entry and the message.
pub open spec fn requested_commits(m: SyncModel, events: Seq<SyncEvent>) -> Seq<
    (nat, Seq<char>),
>
    decreases events.len(),
{
    if events.len() == 0 {
        Seq::empty()
    } else {
        let before = requested_commits(m, events.drop_last());
        match next(state_after(m, events.drop_last()), events.last()).1 {
            ActionModel::Commit { step, message } => before.push((step, message)),
            _ => before,
        }
    }
}

/// One update per pending entry, in the order of the log.
pub open spec fn all_updates(pending: Seq<SvnLog>) -> Seq<(nat, Seq<char>)> {
    Seq::new(pending.len(), |j: int| ((j + 1) as nat, pending[j].version@))
}

/// One commit per pending entry, in the order of the log.
pub open spec fn all_commits(pending: Seq<SvnLog>) -> Seq<(nat, Seq<char>)> {
    Seq::new(pending.len(), |j: int| ((j + 1) as nat, commit_message(pending[j].message@)))
}

/// How far a run has come, in terms of what it has requested: the requests
/// are those of the first entries, in order, and the phase tells how many.
pub open spec fn on_track(m: SyncModel, updates: Seq<(nat, Seq<char>)>, commits: Seq<
    (nat, Seq<char>),
>) -> bool {
    &&& well_formed(m)
    &&& commits.len() <= updates.len() <= m.pending.len()
    &&& m.done <= commits.len() <= m.done + 1
    &&& updates == all_updates(m.pending).take(updates.len() as int)
    &&& commits == all_commits(m.pending).take(commits.len() as int)
    &&& match m.phase {
        SyncPhase::AwaitLog | SyncPhase::AwaitConfirm => updates.len() == 0,
        SyncPhase::AwaitUpdate | SyncPhase::AwaitStatus | SyncPhase::AwaitStage => updates.len()
            == m.done + 1 && commits.len() == m.done,
        SyncPhase::AwaitCommit => updates.len() == m.done + 1 && commits.len() == m.done + 1,
        SyncPhase::AwaitSave => updates.len() == m.done && commits.len() == m.done,
        SyncPhase::Finished => true,
    }
}

pub proof fn lemma_on_track(options: SyncRunOptions, events: Seq<SyncEvent>)
    ensures
        on_track(
            state_after(initial(options), events),
            requested_updates(initial(options), events),
            requested_commits(initial(options), events),
        ),
        state_after(initial(options), events).dry_run == options.dry_run,
        state_after(initial(options), events).limit == options.limit,
        options.dry_run ==> state_after(initial(options), events).phase is AwaitLog
            || state_after(initial(options), events).phase is Finished,
    decreases events.len(),
{
    let m0 = initial(options);
    if events.len() == 0 {
        assert(requested_updates(m0, events) =~= all_updates(m0.pending).take(0));
        assert(requested_commits(m0, events) =~= all_commits(m0.pending).take(0));
    } else {
        let earlier = events.drop_last();
        lemma_on_track(options, earlier);
        let m = state_after(m0, earlier);
        let u = requested_updates(m0, earlier);
        let c = requested_commits(m0, earlier);
        lemma_next_well_formed(m, events.last());
        let (m2, a) = next(m, events.last());
        let u2 = requested_updates(m0, events);
        let c2 = requested_commits(m0, events);
        if m.phase is AwaitLog {
            assert(u2 =~= all_updates(m2.pending).take(0));
            assert(c2 =~= all_commits(m2.pending).take(0));
        } else {
            assert(m2.pending == m.pending);
            assert(u2 =~= all_updates(m2.pending).take(u2.len() as int));
            assert(c2 =~= all_commits(m2.pending).take(c2.len() as int));
        }
    }
}

/// The limit is a cap, not a filter: the machine selects the first
/// `min(limit, total)` entries of the log, unchanged and in their order.
pub proof fn lemma_limit_selects_prefix(options: SyncRunOptions, logs: Vec<SvnLog>)
    ensures
        ({
            let selected = next(initial(options), SyncEvent::LogFetched(Ok(logs))).0.pending;
            &&& selected == truncated(logs@, options.limit)
            &&& selected.len() == match options.limit {
                Some(n) => if n < logs@.len() {
                    n as nat
                } else {
                    logs@.len()
                },
                None => logs@.len(),
            }
            &&& forall|j: int| 0 <= j < selected.len() ==> selected[j] == logs@[j]
        }),
{
}

/// Once the log has been fetched, the selection never changes.
pub proof fn lemma_selection_is_fixed(
    options: SyncRunOptions,
    logs: Vec<SvnLog>,
    events: Seq<SyncEvent>,
)
    requires
        events.len() > 0,
        events[0] == SyncEvent::LogFetched(Ok(logs)),
    ensures
        state_after(initial(options), events).pending == truncated(logs@, options.limit),
    decreases events.len(),
{
    let m0 = initial(options);
    if events.len() == 1 {
        assert(events.drop_last() =~= Seq::<SyncEvent>::empty());
        assert(state_after(m0, events.drop_last()) == m0);
    } else {
        let earlier = events.drop_last();
        lemma_selection_is_fixed(options, logs, earlier);
        lemma_on_track(options, earlier);
        let m = state_after(m0, earlier);
        lemma_next_well_formed(m, events.last());
        lemma_past_log(options, earlier);
    }
}

/// A run that got past its first event without stopping began with a log.
pub proof fn lemma_started_with_log(options: SyncRunOptions, events: Seq<SyncEvent>)
    requires
        events.len() > 0,
        state_after(initial(options), events).pending.len() > 0,
    ensures
        events[0] matches SyncEvent::LogFetched(Ok(_)),
    decreases events.len(),
{
    let m0 = initial(options);
    if events.len() == 1 {
        assert(events.drop_last() =~= Seq::<SyncEvent>::empty());
        assert(events.last() == events[0]);
    } else {
        let earlier = events.drop_last();
        lemma_on_track(options, earlier);
        lemma_past_log(options, earlier);
        lemma_next_well_formed(state_after(m0, earlier), events.last());
        lemma_started_with_log(options, earlier);
        assert(earlier[0] == events[0]);
    }
}

proof fn lemma_past_log(options: SyncRunOptions, events: Seq<SyncEvent>)
    requires
        events.len() > 0,
    ensures
        state_after(initial(options), events).phase !is AwaitLog,
{
    lemma_on_track(options, events.drop_last());
    lemma_next_well_formed(state_after(initial(options), events.drop_last()), events.last());
}

/// Entries are processed one by one in the order of the log: at any moment
/// of any run, the updates requested so far are those of the first entries of
/// the selection, each requested once, and so are the commits, each under the
/// message of its entry.
pub proof fn lemma_entries_in_order(options: SyncRunOptions, events: Seq<SyncEvent>)
    ensures
        ({
            let pending = state_after(initial(options), events).pending;
            let updates = requested_updates(initial(options), events);
            let commits = requested_commits(initial(options), events);
            &&& updates.is_prefix_of(all_updates(pending))
            &&& commits.is_prefix_of(all_commits(pending))
            &&& commits.len() <= updates.len() <= commits.len() + 1
        }),
{
    lemma_on_track(options, events);
    let m = state_after(initial(options), events);
    let updates = requested_updates(initial(options), events);
    let commits = requested_commits(initial(options), events);
    assert(commits.len() <= updates.len() <= commits.len() + 1) by {
        lemma_updates_lead_commits(options, events);
    }
}

proof fn lemma_updates_lead_commits(options: SyncRunOptions, events: Seq<SyncEvent>)
    ensures
        requested_commits(initial(options), events).len() <= requested_updates(
            initial(options),
            events,
        ).len() <= requested_commits(initial(options), events).len() + 1,
        state_after(initial(options), events).phase is AwaitCommit || state_after(
            initial(options),
            events,
        ).phase is AwaitSave || state_after(initial(options), events).phase is AwaitLog
            || state_after(initial(options), events).phase is AwaitConfirm
            ==> requested_commits(initial(options), events).len() == requested_updates(
            initial(options),
            events,
        ).len(),
    decreases events.len(),
{
    let m0 = initial(options);
    if events.len() > 0 {
        let earlier = events.drop_last();
        lemma_updates_lead_commits(options, earlier);
        lemma_on_track(options, earlier);
        lemma_on_track(options, events);
        lemma_next_well_formed(state_after(m0, earlier), events.last());
    }
}

/// A run that ends in `Synced` has requested exactly one update and one
/// commit for every selected entry.
pub proof fn lemma_synced_is_complete(options: SyncRunOptions, events: Seq<SyncEvent>, i: int)
    requires
        0 <= i < events.len(),
        action_at(initial(options), events, i) == ActionModel::Finish(Ok(SyncOutcome::Synced)),
    ensures
        ({
            let pending = state_after(initial(options), events.take(i + 1)).pending;
            &&& requested_updates(initial(options), events.take(i + 1)) == all_updates(pending)
            &&& requested_commits(initial(options), events.take(i + 1)) == all_commits(pending)
            &&& options.limit matches Some(n) ==> pending.len() <= n
        }),
{
    let m0 = initial(options);
    let upto = events.take(i + 1);
    assert(upto.drop_last() =~= events.take(i));
    assert(upto.last() == events[i]);
    lemma_on_track(options, events.take(i));
    lemma_on_track(options, upto);
    let m = state_after(m0, events.take(i));
    lemma_next_well_formed(m, events[i]);
    assert(m.phase is AwaitSave);
    let pending = state_after(m0, upto).pending;
    assert(requested_updates(m0, upto) =~= all_updates(pending));
    assert(requested_commits(m0, upto) =~= all_commits(pending));
}

/// A dry run requests nothing but the log: every action named after the
/// first is the end of the run, so no update, status query, staging, commit,
/// confirmation or history write is ever requested.
pub proof fn lemma_dry_run_requests_nothing(options: SyncRunOptions, events: Seq<SyncEvent>, i: int)
    requires
        options.dry_run,
        0 <= i < events.len(),
    ensures
        action_at(initial(options), events, i) is Finish,
{
    lemma_on_track(options, events.take(i));
    let m = state_after(initial(options), events.take(i));
    lemma_next_well_formed(m, events[i]);
}

/// Staging is requested only in response to a status listing without conflict.
pub proof fn lemma_staging_follows_clean_status(
    options: SyncRunOptions,
    events: Seq<SyncEvent>,
    i: int,
)
    requires
        0 <= i < events.len(),
        action_at(initial(options), events, i) is StageAll,
    ensures
        events[i] matches SyncEvent::StatusRead(Ok(status)) && !has_conflict(status@),
{
    lemma_on_track(options, events.take(i));
}

/// The action ends the run with the conflict failure.
pub open spec fn ends_in_conflict(action: ActionModel) -> bool {
    action matches ActionModel::Finish(Err(e)) && e is Conflict
}

/// A status listing with a conflict ends the run: the response is the end of
/// the run, with the conflict failure if the listing was asked for, and every
/// later response is the end of the run as well. Nothing is staged or
/// committed for the entry, nor for any entry after it.
pub proof fn lemma_conflict_aborts(options: SyncRunOptions, events: Seq<SyncEvent>, i: int, j: int)
    requires
        0 <= i <= j < events.len(),
        events[i] matches SyncEvent::StatusRead(Ok(status)) && has_conflict(status@),
    ensures
        action_at(initial(options), events, j) is Finish,
        state_after(initial(options), events.take(i)).phase is AwaitStatus ==> ends_in_conflict(
            action_at(initial(options), events, i),
        ),
    decreases j - i,
{
    let m0 = initial(options);
    lemma_on_track(options, events.take(i));
    lemma_next_well_formed(state_after(m0, events.take(i)), events[i]);
    if i < j {
        lemma_finished_stays(options, events, i + 1, j);
    }
}

proof fn lemma_finished_stays(options: SyncRunOptions, events: Seq<SyncEvent>, k: int, j: int)
    requires
        0 < k <= j < events.len(),
        state_after(initial(options), events.take(k)).phase is Finished,
    ensures
        action_at(initial(options), events, j) is Finish,
        state_after(initial(options), events.take(j + 1)).phase is Finished,
    decreases j - k,
{
    let m0 = initial(options);
    if k < j {
        lemma_finished_stays(options, events, k, j - 1);
    }
    assert(events.take(j + 1).drop_last() =~= events.take(j));
    assert(events.take(j + 1).last() == events[j]);
}

/// The event answers the action: it reports on the operation that was asked for.
pub open spec fn answers(action: ActionModel, event: SyncEvent) -> bool {
    match action {
        ActionModel::FetchLog => event is LogFetched,
        ActionModel::Confirm => event is Confirmed,
        ActionModel::Update { .. } => event is Updated,
        ActionModel::CheckStatus { .. } => event is StatusRead,
        ActionModel::StageAll { .. } => event is Staged,
        ActionModel::Commit { .. } => event is Committed,
        ActionModel::SaveHistory => event is HistorySaved,
        ActionModel::Finish(_) => false,
    }
}

/// `journal` lists the operations of a run in which the operations went as
/// `events` say, and `result` is how that run ended.
pub open spec fn journal_of(
    options: SyncRunOptions,
    events: Seq<SyncEvent>,
    journal: Seq<ActionModel>,
    result: Result<SyncOutcome, SyncError>,
) -> bool {
    &&& events.len() == journal.len()
    &&& journal.len() >= 1
    &&& journal[0] == ActionModel::FetchLog
    &&& forall|i: int|
        1 <= i < journal.len() ==> #[trigger] journal[i] == action_at(
            initial(options),
            events,
            i - 1,
        )
    &&& forall|i: int| 0 <= i < journal.len() ==> answers(#[trigger] journal[i], events[i])
    &&& action_at(initial(options), events, events.len() - 1) == ActionModel::Finish(result)
}

/// The updates among the operations of a journal, in order.
pub open spec fn updates_in(journal: Seq<ActionModel>) -> Seq<(nat, Seq<char>)>
    decreases journal.len(),
{
    if journal.len() == 0 {
        Seq::empty()
    } else {
        match journal.last() {
            ActionModel::Update { step, revision } => updates_in(journal.drop_last()).push(
                (step, revision),
            ),
            _ => updates_in(journal.drop_last()),
        }
    }
}

/// The commits among the operations of a journal, in order.
pub open spec fn commits_in(journal: Seq<ActionModel>) -> Seq<(nat, Seq<char>)>
    decreases journal.len(),
{
    if journal.len() == 0 {
        Seq::empty()
    } else {
        match journal.last() {
            ActionModel::Commit { step, message } => commits_in(journal.drop_last()).push(
                (step, message),
            ),
            _ => commits_in(journal.drop_last()),
        }
    }
}

proof fn lemma_journal_requests(
    options: SyncRunOptions,
    events: Seq<SyncEvent>,
    journal: Seq<ActionModel>,
    k: int,
)
    requires
        events.len() == journal.len(),
        journal.len() >= 1,
        journal[0] == ActionModel::FetchLog,
        forall|i: int|
            1 <= i < journal.len() ==> #[trigger] journal[i] == action_at(
                initial(options),
                events,
                i - 1,
            ),
        1 <= k <= journal.len(),
    ensures
        updates_in(journal.take(k)) == requested_updates(initial(options), events.take(k - 1)),
        commits_in(journal.take(k)) == requested_commits(initial(options), events.take(k - 1)),
    decreases k,
{
    let m0 = initial(options);
    if k == 1 {
        let none = Seq::<ActionModel>::empty();
        assert(journal.take(1).drop_last() =~= none);
        assert(journal.take(1).last() == journal[0]);
        assert(events.take(0) =~= Seq::<SyncEvent>::empty());
        assert(updates_in(none) =~= Seq::empty());
        assert(commits_in(none) =~= Seq::empty());
        assert(updates_in(journal.take(1)) == updates_in(none));
        assert(commits_in(journal.take(1)) == commits_in(none));
    } else {
        lemma_journal_requests(options, events, journal, k - 1);
        assert(journal.take(k).drop_last() =~= journal.take(k - 1));
        assert(journal.take(k).last() == journal[k - 1]);
        assert(events.take(k - 1).drop_last() =~= events.take(k - 2));
        assert(events.take(k - 1).last() == events[k - 2]);
        assert(journal[k - 1] == action_at(m0, events, k - 2));
    }
}

/// The journal of a run shows the entries processed one by one in the order
/// of the log: its updates are those of the first entries of the selection,
/// each once, and so are its commits, each under the message of its entry.
/// A run that ended in `Synced` shows every entry of the selection, which
/// holds no more entries than the limit allows.
pub proof fn lemma_journal_in_order(
    options: SyncRunOptions,
    events: Seq<SyncEvent>,
    journal: Seq<ActionModel>,
    result: Result<SyncOutcome, SyncError>,
)
    requires
        journal_of(options, events, journal, result),
    ensures
        ({
            let pending = state_after(initial(options), events).pending;
            &&& updates_in(journal).is_prefix_of(all_updates(pending))
            &&& commits_in(journal).is_prefix_of(all_commits(pending))
            &&& commits_in(journal).len() <= updates_in(journal).len() <= commits_in(
                journal,
            ).len() + 1
            &&& options.limit matches Some(n) ==> pending.len() <= n
            &&& result == Ok::<SyncOutcome, SyncError>(SyncOutcome::Synced) ==> updates_in(journal)
                == all_updates(pending) && commits_in(journal) == all_commits(pending)
        }),
{
    let m0 = initial(options);
    let n = journal.len() as int;
    lemma_journal_requests(options, events, journal, n);
    assert(journal.take(n) =~= journal);
    let earlier = events.take(n - 1);
    assert(earlier =~= events.drop_last());
    lemma_entries_in_order(options, earlier);
    lemma_on_track(options, earlier);
    lemma_on_track(options, events);
    lemma_next_well_formed(state_after(m0, earlier), events.last());
    let pending = state_after(m0, events).pending;
    if state_after(m0, earlier).phase is AwaitLog {
        assert(requested_updates(m0, earlier) =~= Seq::<(nat, Seq<char>)>::empty());
        assert(requested_commits(m0, earlier) =~= Seq::<(nat, Seq<char>)>::empty());
    }
    if result == Ok::<SyncOutcome, SyncError>(SyncOutcome::Synced) {
        assert(events.take(n - 1 + 1) =~= events);
        lemma_synced_is_complete(options, events, n - 1);
        assert(requested_updates(m0, events) == requested_updates(m0, earlier));
        assert(requested_commits(m0, events) == requested_commits(m0, earlier));
    }
}

/// In the journal of a run, staging comes directly after a status query
/// whose listing showed no conflict.
pub proof fn lemma_journal_stages_after_clean_status(
    options: SyncRunOptions,
    events: Seq<SyncEvent>,
    journal: Seq<ActionModel>,
    result: Result<SyncOutcome, SyncError>,
    i: int,
)
    requires
        journal_of(options, events, journal, result),
        0 <= i < journal.len(),
        journal[i] is StageAll,
    ensures
        i >= 1,
        journal[i - 1] is CheckStatus,
        events[i - 1] matches SyncEvent::StatusRead(Ok(status)) && !has_conflict(status@),
{
    lemma_staging_follows_clean_status(options, events, i - 1);
}

/// A status listing with a conflict is the last thing in the journal of a
/// run: nothing is staged or committed after it, and the run fails with
/// the conflict.
pub proof fn lemma_journal_ends_at_conflict(
    options: SyncRunOptions,
    events: Seq<SyncEvent>,
    journal: Seq<ActionModel>,
    result: Result<SyncOutcome, SyncError>,
    i: int,
)
    requires
        journal_of(options, events, journal, result),
        0 <= i < journal.len(),
        events[i] matches SyncEvent::StatusRead(Ok(status)) && has_conflict(status@),
    ensures
        i == journal.len() - 1,
        journal[i] is CheckStatus,
        result matches Err(e) && e is Conflict,
{
    let m0 = initial(options);
    if i < journal.len() - 1 {
        lemma_conflict_aborts(options, events, i, i);
        assert(journal[i + 1] == action_at(m0, events, i));
        assert(answers(journal[i + 1], events[i + 1]));
    }
    assert(answers(journal[i], events[i]));
    lemma_conflict_aborts(options, events, i, i);
    lemma_on_track(options, events.take(i));
    if i >= 1 {
        assert(journal[i] == action_at(m0, events, i - 1));
        assert(events.take(i).drop_last() =~= events.take(i - 1));
        assert(events.take(i).last() == events[i - 1]);
        lemma_on_track(options, events.take(i - 1));
        lemma_next_well_formed(state_after(m0, events.take(i - 1)), events[i - 1]);
    }
}

/// The journal of a dry run holds the query for the log and nothing else.
pub proof fn lemma_journal_of_dry_run(
    options: SyncRunOptions,
    events: Seq<SyncEvent>,
    journal: Seq<ActionModel>,
    result: Result<SyncOutcome, SyncError>,
)
    requires
        options.dry_run,
        journal_of(options, events, journal, result),
    ensures
        journal == seq![ActionModel::FetchLog],
{
    if journal.len() > 1 {
        lemma_dry_run_requests_nothing(options, events, 0);
        assert(journal[1] == action_at(initial(options), events, 0));
        assert(answers(journal[1], events[1]));
    }
    assert(journal =~= seq![ActionModel::FetchLog]);
}

/// A log that leaves nothing to apply ends the run at once: the journal
/// holds the query for the log and nothing else, so nobody is asked and
/// nothing is touched, and the run reports success.
pub proof fn lemma_journal_of_empty_selection(
    options: SyncRunOptions,
    events: Seq<SyncEvent>,
    journal: Seq<ActionModel>,
    result: Result<SyncOutcome, SyncError>,
    logs: Vec<SvnLog>,
)
    requires
        journal_of(options, events, journal, result),
        events[0] == SyncEvent::LogFetched(Ok(logs)),
        truncated(logs@, options.limit).len() == 0,
    ensures
        journal == seq![ActionModel::FetchLog],
        result == Ok::<SyncOutcome, SyncError>(SyncOutcome::NothingToSync),
{
    let start = initial(options);
    assert(events.take(0) =~= Seq::<SyncEvent>::empty());
    assert(action_at(start, events, 0) == ActionModel::Finish(Ok(SyncOutcome::NothingToSync)));
    if journal.len() > 1 {
        assert(journal[1] == action_at(start, events, 0));
        assert(answers(journal[1], events[1]));
    }
    assert(journal =~= seq![ActionModel::FetchLog]);
}

/// A run that the operator declines ends with the prompt: the journal holds
/// the query for the log and the prompt and nothing else, so no update, no
/// staging and no commit is carried out, and the run reports success.
pub proof fn lemma_journal_of_declined_run(
    options: SyncRunOptions,
    events: Seq<SyncEvent>,
    journal: Seq<ActionModel>,
    result: Result<SyncOutcome, SyncError>,
)
    requires
        journal_of(options, events, journal, result),
        journal.len() >= 2,
        journal[1] == ActionModel::Confirm,
        events[1] == SyncEvent::Confirmed(false),
    ensures
        journal == seq![ActionModel::FetchLog, ActionModel::Confirm],
        result == Ok::<SyncOutcome, SyncError>(SyncOutcome::Declined),
{
    let start = initial(options);
    assert(events.take(0) =~= Seq::<SyncEvent>::empty());
    assert(journal[1] == action_at(start, events, 0));
    assert(events.take(1) =~= seq![events[0]]);
    assert(events.take(1).drop_last() =~= Seq::<SyncEvent>::empty());
    assert(events.take(1).last() == events[0]);
    let asked = state_after(start, events.take(1));
    assert(asked == next(start, events[0]).0);
    lemma_next_well_formed(start, events[0]);
    assert(asked.phase is AwaitConfirm);
    assert(action_at(start, events, 1) == ActionModel::Finish(Ok(SyncOutcome::Declined)));
    if journal.len() > 2 {
        assert(journal[2] == action_at(start, events, 1));
        assert(answers(journal[2], events[2]));
    }
    assert(journal =~= seq![ActionModel::FetchLog, ActionModel::Confirm]);
}

} // verus!
