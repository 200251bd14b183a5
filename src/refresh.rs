//! The fan-out refresher's decisions. Each projection (monitor or dashboard)
//! is one target; the caller drives every target concurrently through
//! `target_step`, performing the action it names and feeding back the
//! result, then reduces the outcomes with `refresh_succeeded`.
use vstd::prelude::*;

verus! {

/// How fetching a target's message turned out.
#[derive(Clone, Copy, PartialEq, Eq, Structural, Debug)]
pub enum FetchOutcome {
    Found,
    /// The message no longer exists.
    NotFound,
    /// The message can no longer be reached.
    Forbidden,
    /// Any other failure.
    Failed,
}

/// Where one target stands.
#[derive(Clone, Copy, PartialEq, Eq, Structural, Debug)]
pub enum TargetState {
    Fetching,
    Editing,
    Pruning,
    Finished(TargetOutcome),
}

/// The result of the action last asked for.
#[derive(Clone, Copy, PartialEq, Eq, Structural, Debug)]
pub enum TargetEvent {
    Fetched(FetchOutcome),
    /// Whether the edit with fresh content succeeded.
    Edited(bool),
    /// Whether deleting the stale record succeeded.
    Deleted(bool),
}

/// What the caller does next for a target.
#[derive(Clone, Copy, PartialEq, Eq, Structural, Debug)]
pub enum TargetAction {
    /// Fetch the message by its stored id.
    Fetch,
    /// Edit the message with freshly rendered content.
    Edit,
    /// Delete the projection record from the store.
    Delete,
    /// Nothing more: report the outcome.
    Report(TargetOutcome),
}

/// How a target ended.
#[derive(Clone, Copy, PartialEq, Eq, Structural, Debug)]
pub enum TargetOutcome {
    /// The message now shows the current state.
    Updated,
    /// The message was gone; its record was dropped. Counts as success.
    Pruned,
    Failed,
}

/// Whether `event` answers the action that `state` asked for.
pub open spec fn fits(state: TargetState, event: TargetEvent) -> bool {
    match (state, event) {
        (TargetState::Fetching, TargetEvent::Fetched(_)) => true,
        (TargetState::Editing, TargetEvent::Edited(_)) => true,
        (TargetState::Pruning, TargetEvent::Deleted(_)) => true,
        _ => false,
    }
}

/// One step of a target; an event that does not fit leaves it unchanged.
pub open spec fn spec_target_step(state: TargetState, event: TargetEvent) -> (TargetState, TargetAction) {
    match (state, event) {
        (TargetState::Fetching, TargetEvent::Fetched(f)) => match f {
            FetchOutcome::Found => (TargetState::Editing, TargetAction::Edit),
            FetchOutcome::NotFound => (TargetState::Pruning, TargetAction::Delete),
            FetchOutcome::Forbidden => (TargetState::Pruning, TargetAction::Delete),
            FetchOutcome::Failed => (
                TargetState::Finished(TargetOutcome::Failed),
                TargetAction::Report(TargetOutcome::Failed),
            ),
        },
        (TargetState::Editing, TargetEvent::Edited(ok)) => {
            let o = if ok { TargetOutcome::Updated } else { TargetOutcome::Failed };
            (TargetState::Finished(o), TargetAction::Report(o))
        },
        // A failed delete is only worth a warning: the stale view is gone either way.
        (TargetState::Pruning, TargetEvent::Deleted(_)) => (
            TargetState::Finished(TargetOutcome::Pruned),
            TargetAction::Report(TargetOutcome::Pruned),
        ),
        _ => (state, TargetAction::Report(TargetOutcome::Failed)),
    }
}

/// Whether a fetch result marks the target as stale.
pub open spec fn is_stale(f: FetchOutcome) -> bool {
    f == FetchOutcome::NotFound || f == FetchOutcome::Forbidden
}

/// The outcome of a whole target run: its fetch gave `f`, an edit (if asked
/// for) gave `edited`, a delete (if asked for) gave `deleted`.
pub open spec fn run_outcome(f: FetchOutcome, edited: bool, deleted: bool) -> TargetOutcome {
    let (s1, a1) = spec_target_step(TargetState::Fetching, TargetEvent::Fetched(f));
    match a1 {
        TargetAction::Edit => spec_target_step(s1, TargetEvent::Edited(edited)).1->Report_0,
        TargetAction::Delete => spec_target_step(s1, TargetEvent::Deleted(deleted)).1->Report_0,
        TargetAction::Report(o) => o,
        TargetAction::Fetch => TargetOutcome::Failed,
    }
}

/// Whether a target run whose fetch gave `f` edits its message.
pub open spec fn run_edits(f: FetchOutcome) -> bool {
    spec_target_step(TargetState::Fetching, TargetEvent::Fetched(f)).1 == TargetAction::Edit
}

/// Whether a target run whose fetch gave `f` deletes its record.
pub open spec fn run_deletes(f: FetchOutcome) -> bool {
    spec_target_step(TargetState::Fetching, TargetEvent::Fetched(f)).1 == TargetAction::Delete
}

/// The outcomes of target runs, target `i` with `fetches[i]`, `edits[i]`
/// and `deletes[i]`.
pub open spec fn run_outcomes(fetches: Seq<FetchOutcome>, edits: Seq<bool>, deletes: Seq<bool>) -> Seq<TargetOutcome> {
    Seq::new(fetches.len(), |i: int| run_outcome(fetches[i], edits[i], deletes[i]))
}

/// The number of edit calls made by target runs with these fetch results.
pub open spec fn edit_calls(fetches: Seq<FetchOutcome>) -> nat
    decreases fetches.len(),
{
    if fetches.len() == 0 {
        0
    } else {
        edit_calls(fetches.drop_last()) + if run_edits(fetches.last()) { 1nat } else { 0nat }
    }
}

/// The number of delete calls made by target runs with these fetch results.
pub open spec fn delete_calls(fetches: Seq<FetchOutcome>) -> nat
    decreases fetches.len(),
{
    if fetches.len() == 0 {
        0
    } else {
        delete_calls(fetches.drop_last()) + if run_deletes(fetches.last()) { 1nat } else { 0nat }
    }
}

/// A refresh succeeds when no target failed.
pub open spec fn all_reconciled(outcomes: Seq<TargetOutcome>) -> bool {
    forall|i: int| 0 <= i < outcomes.len() ==> outcomes[i] != TargetOutcome::Failed
}

proof fn lemma_calls_prefix(fetches: Seq<FetchOutcome>, k: int, n: nat)
    requires
        n <= fetches.len(),
        forall|i: int| 0 <= i < fetches.len() && i != k ==> fetches[i] == FetchOutcome::Found,
    ensures
        edit_calls(fetches.take(n as int)) == n - (if 0 <= k < n && !run_edits(fetches[k]) {
            1int
        } else {
            0int
        }),
        delete_calls(fetches.take(n as int)) == (if 0 <= k < n && run_deletes(fetches[k]) {
            1int
        } else {
            0int
        }),
    decreases n,
{
    if n > 0 {
        lemma_calls_prefix(fetches, k, (n - 1) as nat);
        assert(fetches.take(n as int).drop_last() =~= fetches.take(n - 1));
    }
}

/// When every target's message is found except one that is stale, and every
/// edit succeeds, the refresh succeeds, deletes exactly one record, and edits
/// every other message.
pub proof fn lemma_one_stale_target(
    fetches: Seq<FetchOutcome>,
    edits: Seq<bool>,
    deletes: Seq<bool>,
    k: int,
)
    requires
        edits.len() == fetches.len(),
        deletes.len() == fetches.len(),
        0 <= k < fetches.len(),
        is_stale(fetches[k]),
        forall|i: int|
            0 <= i < fetches.len() && i != k ==> fetches[i] == FetchOutcome::Found && edits[i],
    ensures
        all_reconciled(run_outcomes(fetches, edits, deletes)),
        run_outcomes(fetches, edits, deletes)[k] == TargetOutcome::Pruned,
        delete_calls(fetches) == 1,
        edit_calls(fetches) == fetches.len() - 1,
{
    lemma_calls_prefix(fetches, k, fetches.len());
    assert(fetches.take(fetches.len() as int) =~= fetches);
}

/// When one target's edit fails and every other target is updated, the
/// refresh fails, yet every target's message still received its edit.
pub proof fn lemma_failed_edit_isolated(
    fetches: Seq<FetchOutcome>,
    edits: Seq<bool>,
    deletes: Seq<bool>,
    k: int,
)
    requires
        edits.len() == fetches.len(),
        deletes.len() == fetches.len(),
        0 <= k < fetches.len(),
        forall|i: int| 0 <= i < fetches.len() ==> fetches[i] == FetchOutcome::Found,
        !edits[k],
        forall|i: int| 0 <= i < fetches.len() && i != k ==> edits[i],
    ensures
        !all_reconciled(run_outcomes(fetches, edits, deletes)),
        forall|i: int|
            0 <= i < fetches.len() && i != k ==> run_outcomes(fetches, edits, deletes)[i]
                == TargetOutcome::Updated,
        edit_calls(fetches) == fetches.len(),
        delete_calls(fetches) == 0,
{
    lemma_calls_prefix(fetches, k, fetches.len());
    assert(fetches.take(fetches.len() as int) =~= fetches);
    assert(run_outcomes(fetches, edits, deletes)[k] == TargetOutcome::Failed);
}

/// The first step of every target: fetch its message.
pub fn target_start() -> (r: (TargetState, TargetAction))
    ensures
        r == (TargetState::Fetching, TargetAction::Fetch),
{
    (TargetState::Fetching, TargetAction::Fetch)
}

/// Advances a target on the result of the action it asked for: a found
/// message is edited, a stale one has its record deleted, anything else
/// fails the target.
pub fn target_step(state: TargetState, event: TargetEvent) -> (r: (TargetState, TargetAction))
    requires
        fits(state, event),
    ensures
        r == spec_target_step(state, event),
        r.1 matches TargetAction::Report(o) ==> r.0 == TargetState::Finished(o),
{
    match (state, event) {
        (TargetState::Fetching, TargetEvent::Fetched(f)) => match f {
            FetchOutcome::Found => (TargetState::Editing, TargetAction::Edit),
            FetchOutcome::NotFound => (TargetState::Pruning, TargetAction::Delete),
            FetchOutcome::Forbidden => (TargetState::Pruning, TargetAction::Delete),
            FetchOutcome::Failed => (
                TargetState::Finished(TargetOutcome::Failed),
                TargetAction::Report(TargetOutcome::Failed),
            ),
        },
        (TargetState::Editing, TargetEvent::Edited(ok)) => {
            let o = if ok { TargetOutcome::Updated } else { TargetOutcome::Failed };
            (TargetState::Finished(o), TargetAction::Report(o))
        },
        (_, _) => (
            TargetState::Finished(TargetOutcome::Pruned),
            TargetAction::Report(TargetOutcome::Pruned),
        ),
    }
}

/// Whether `event` answers the action that `state` asked for.
pub fn event_fits(state: TargetState, event: TargetEvent) -> (r: bool)
    ensures
        r == fits(state, event),
{
    match (state, event) {
        (TargetState::Fetching, TargetEvent::Fetched(_)) => true,
        (TargetState::Editing, TargetEvent::Edited(_)) => true,
        (TargetState::Pruning, TargetEvent::Deleted(_)) => true,
        _ => false,
    }
}

/// The aggregate result of a refresh: success only if every target was
/// updated or pruned. Every outcome is looked at; none short-circuits
/// the others, which have all been attempted by the time this is called.
pub fn refresh_succeeded(outcomes: &Vec<TargetOutcome>) -> (r: bool)
    ensures
        r == all_reconciled(outcomes@),
{
    let mut ok = true;
    let mut i: usize = 0;
    while i < outcomes.len()
        invariant
            i <= outcomes.len(),
            ok == forall|j: int| 0 <= j < i ==> outcomes@[j] != TargetOutcome::Failed,
        decreases outcomes.len() - i,
    {
        let failed = outcomes[i] == TargetOutcome::Failed;
        ok = ok && !failed;
        i = i + 1;
    }
    ok
}

} // verus!
