use starbot::refresh::{
    event_fits, refresh_succeeded, target_start, target_step, FetchOutcome, TargetAction,
    TargetEvent, TargetOutcome, TargetState,
};

/// A channel and store stand-in that records the calls made on it.
struct MockTarget {
    fetch: FetchOutcome,
    edit_ok: bool,
    delete_ok: bool,
    edits: usize,
    deletes: usize,
}

fn target(fetch: FetchOutcome, edit_ok: bool) -> MockTarget {
    MockTarget { fetch, edit_ok, delete_ok: true, edits: 0, deletes: 0 }
}

fn drive(t: &mut MockTarget) -> TargetOutcome {
    let (mut state, mut action) = target_start();
    loop {
        let event = match action {
            TargetAction::Fetch => TargetEvent::Fetched(t.fetch),
            TargetAction::Edit => {
                t.edits += 1;
                TargetEvent::Edited(t.edit_ok)
            }
            TargetAction::Delete => {
                t.deletes += 1;
                TargetEvent::Deleted(t.delete_ok)
            }
            TargetAction::Report(o) => {
                assert_eq!(state, TargetState::Finished(o));
                return o;
            }
        };
        assert!(event_fits(state, event));
        let next = target_step(state, event);
        state = next.0;
        action = next.1;
    }
}

fn fan_out(targets: &mut Vec<MockTarget>) -> (bool, usize, usize) {
    let outcomes: Vec<TargetOutcome> = targets.iter_mut().map(drive).collect();
    let edits = targets.iter().map(|t| t.edits).sum();
    let deletes = targets.iter().map(|t| t.deletes).sum();
    (refresh_succeeded(&outcomes), edits, deletes)
}

#[test]
fn one_stale_target_is_pruned_and_others_edited() {
    let mut targets = vec![
        target(FetchOutcome::Found, true),
        target(FetchOutcome::NotFound, true),
        target(FetchOutcome::Found, true),
        target(FetchOutcome::Found, true),
    ];
    let (ok, edits, deletes) = fan_out(&mut targets);
    assert!(ok);
    assert_eq!(edits, 3);
    assert_eq!(deletes, 1);
    assert_eq!(targets[1].deletes, 1);
    assert_eq!(targets[1].edits, 0);
}

#[test]
fn forbidden_target_is_pruned_even_if_delete_fails() {
    let mut t = target(FetchOutcome::Forbidden, true);
    t.delete_ok = false;
    assert_eq!(drive(&mut t), TargetOutcome::Pruned);
    assert_eq!(t.deletes, 1);
}

#[test]
fn failed_edit_fails_aggregate_but_all_edited() {
    let mut targets = vec![
        target(FetchOutcome::Found, true),
        target(FetchOutcome::Found, false),
        target(FetchOutcome::Found, true),
    ];
    let (ok, edits, deletes) = fan_out(&mut targets);
    assert!(!ok);
    assert_eq!(edits, 3);
    assert_eq!(deletes, 0);
}

#[test]
fn other_fetch_failure_fails_target_without_calls() {
    let mut targets = vec![target(FetchOutcome::Failed, true), target(FetchOutcome::Found, true)];
    let (ok, edits, deletes) = fan_out(&mut targets);
    assert!(!ok);
    assert_eq!(edits, 1);
    assert_eq!(deletes, 0);
}

#[test]
fn empty_fan_out_succeeds() {
    assert!(refresh_succeeded(&vec![]));
    assert!(refresh_succeeded(&vec![TargetOutcome::Updated, TargetOutcome::Pruned]));
    assert!(!refresh_succeeded(&vec![TargetOutcome::Pruned, TargetOutcome::Failed]));
}

#[test]
fn mismatched_event_does_not_fit() {
    assert!(!event_fits(TargetState::Fetching, TargetEvent::Edited(true)));
    assert!(!event_fits(TargetState::Editing, TargetEvent::Deleted(true)));
    assert!(event_fits(TargetState::Pruning, TargetEvent::Deleted(false)));
}
