//! The publish protocol: creating a monitor or dashboard so that no record
//! is ever left without its message. The placeholder message is sent inside
//! the open transaction, the record naming it is inserted and committed, and
//! only then is the message filled in. A failed commit leaves at worst an
//! orphan message, which is harmless; never an orphan record.
use vstd::prelude::*;

verus! {

/// Where a publication stands.
#[derive(Clone, Copy, PartialEq, Eq, Structural, Debug)]
pub enum PublishState {
    /// Waiting for the store transaction to open (for a monitor, this
    /// includes finding or creating its train in that transaction).
    Starting,
    /// Waiting for the placeholder message to be sent.
    Sending,
    Inserting { message_id: u64 },
    Committing { message_id: u64 },
    /// The record is committed; waiting for the real content to be written.
    Editing { message_id: u64 },
    Finished(PublishOutcome),
}

/// The result of the action last asked for.
#[derive(Clone, Copy, PartialEq, Eq, Structural, Debug)]
pub enum PublishEvent {
    Begun(bool),
    /// The id of the sent placeholder, or none if sending failed.
    Sent(Option<u64>),
    Inserted(bool),
    Committed(bool),
    Edited(bool),
}

/// What the caller does next.
#[derive(Clone, Copy, PartialEq, Eq, Structural, Debug)]
pub enum PublishAction {
    /// Open a store transaction.
    Begin,
    /// Send the placeholder message to the destination.
    SendPlaceholder,
    /// Insert the projection record naming `message_id`, in the transaction.
    Insert { message_id: u64 },
    Commit,
    /// Write the rendered content into the placeholder.
    Edit { message_id: u64 },
    /// Nothing more: report the outcome.
    Report(PublishOutcome),
}

/// How a publication ended.
#[derive(Clone, Copy, PartialEq, Eq, Structural, Debug)]
pub enum PublishOutcome {
    /// Record committed and message filled in.
    Published,
    /// Record committed, but the message still shows the placeholder; the
    /// next refresh fills it in.
    ContentPending,
    /// Nothing was committed. If a placeholder was sent, it is left behind.
    Aborted { orphan_message: Option<u64> },
}

/// Whether `event` answers the action that `state` asked for.
pub open spec fn fits(state: PublishState, event: PublishEvent) -> bool {
    match (state, event) {
        (PublishState::Starting, PublishEvent::Begun(_)) => true,
        (PublishState::Sending, PublishEvent::Sent(_)) => true,
        (PublishState::Inserting { .. }, PublishEvent::Inserted(_)) => true,
        (PublishState::Committing { .. }, PublishEvent::Committed(_)) => true,
        (PublishState::Editing { .. }, PublishEvent::Edited(_)) => true,
        _ => false,
    }
}

/// One step of the protocol; an event that does not fit leaves the state
/// unchanged.
pub open spec fn spec_publish_step(state: PublishState, event: PublishEvent) -> (PublishState, PublishAction) {
    match (state, event) {
        (PublishState::Starting, PublishEvent::Begun(ok)) => if ok {
            (PublishState::Sending, PublishAction::SendPlaceholder)
        } else {
            finish(PublishOutcome::Aborted { orphan_message: None })
        },
        (PublishState::Sending, PublishEvent::Sent(sent)) => match sent {
            Some(m) => (PublishState::Inserting { message_id: m }, PublishAction::Insert { message_id: m }),
            None => finish(PublishOutcome::Aborted { orphan_message: None }),
        },
        (PublishState::Inserting { message_id }, PublishEvent::Inserted(ok)) => if ok {
            (PublishState::Committing { message_id }, PublishAction::Commit)
        } else {
            finish(PublishOutcome::Aborted { orphan_message: Some(message_id) })
        },
        (PublishState::Committing { message_id }, PublishEvent::Committed(ok)) => if ok {
            (PublishState::Editing { message_id }, PublishAction::Edit { message_id })
        } else {
            finish(PublishOutcome::Aborted { orphan_message: Some(message_id) })
        },
        (PublishState::Editing { .. }, PublishEvent::Edited(ok)) => if ok {
            finish(PublishOutcome::Published)
        } else {
            finish(PublishOutcome::ContentPending)
        },
        _ => (state, PublishAction::Report(PublishOutcome::Aborted { orphan_message: None })),
    }
}

pub open spec fn finish(o: PublishOutcome) -> (PublishState, PublishAction) {
    (PublishState::Finished(o), PublishAction::Report(o))
}

/// Whether the projection record is durably in the store in `state`.
pub open spec fn record_committed(state: PublishState) -> bool {
    match state {
        PublishState::Editing { .. } => true,
        PublishState::Finished(PublishOutcome::Published) => true,
        PublishState::Finished(PublishOutcome::ContentPending) => true,
        _ => false,
    }
}

/// The state after feeding `events`, in order, from the start.
pub open spec fn run_publish(events: Seq<PublishEvent>) -> PublishState
    decreases events.len(),
{
    if events.len() == 0 {
        PublishState::Starting
    } else {
        spec_publish_step(run_publish(events.drop_last()), events.last()).0
    }
}

/// A record becomes durable only through a successful commit, so a run in
/// which no commit succeeded (a failed commit after the placeholder was
/// sent included) leaves no projection record in the store.
pub proof fn lemma_no_record_without_commit(events: Seq<PublishEvent>)
    requires
        forall|i: int| 0 <= i < events.len() ==> events[i] != PublishEvent::Committed(true),
    ensures
        !record_committed(run_publish(events)),
    decreases events.len(),
{
    if events.len() > 0 {
        lemma_no_record_without_commit(events.drop_last());
    }
}

/// The protocol's first step: open the transaction.
pub fn publish_start() -> (r: (PublishState, PublishAction))
    ensures
        r == (PublishState::Starting, PublishAction::Begin),
{
    (PublishState::Starting, PublishAction::Begin)
}

/// Whether `event` answers the action that `state` asked for.
pub fn publish_event_fits(state: PublishState, event: PublishEvent) -> (r: bool)
    ensures
        r == fits(state, event),
{
    match (state, event) {
        (PublishState::Starting, PublishEvent::Begun(_)) => true,
        (PublishState::Sending, PublishEvent::Sent(_)) => true,
        (PublishState::Inserting { .. }, PublishEvent::Inserted(_)) => true,
        (PublishState::Committing { .. }, PublishEvent::Committed(_)) => true,
        (PublishState::Editing { .. }, PublishEvent::Edited(_)) => true,
        _ => false,
    }
}

/// Advances the protocol on the result of the action it asked for. Any
/// failure before the commit aborts (the transaction rolls back); a failed
/// edit after the commit keeps the record and reports pending content.
pub fn publish_step(state: PublishState, event: PublishEvent) -> (r: (PublishState, PublishAction))
    requires
        fits(state, event),
    ensures
        r == spec_publish_step(state, event),
        r.1 matches PublishAction::Report(o) ==> r.0 == PublishState::Finished(o),
        record_committed(r.0) ==> record_committed(state) || event == PublishEvent::Committed(true),
{
    match (state, event) {
        (PublishState::Starting, PublishEvent::Begun(ok)) => if ok {
            (PublishState::Sending, PublishAction::SendPlaceholder)
        } else {
            let o = PublishOutcome::Aborted { orphan_message: None };
            (PublishState::Finished(o), PublishAction::Report(o))
        },
        (PublishState::Sending, PublishEvent::Sent(sent)) => match sent {
            Some(m) => (PublishState::Inserting { message_id: m }, PublishAction::Insert { message_id: m }),
            None => {
                let o = PublishOutcome::Aborted { orphan_message: None };
                (PublishState::Finished(o), PublishAction::Report(o))
            },
        },
        (PublishState::Inserting { message_id }, PublishEvent::Inserted(ok)) => if ok {
            (PublishState::Committing { message_id }, PublishAction::Commit)
        } else {
            let o = PublishOutcome::Aborted { orphan_message: Some(message_id) };
            (PublishState::Finished(o), PublishAction::Report(o))
        },
        (PublishState::Committing { message_id }, PublishEvent::Committed(ok)) => if ok {
            (PublishState::Editing { message_id }, PublishAction::Edit { message_id })
        } else {
            let o = PublishOutcome::Aborted { orphan_message: Some(message_id) };
            (PublishState::Finished(o), PublishAction::Report(o))
        },
        (_, _) => {
            let o = if event == PublishEvent::Edited(true) {
                PublishOutcome::Published
            } else {
                PublishOutcome::ContentPending
            };
            (PublishState::Finished(o), PublishAction::Report(o))
        },
    }
}

} // verus!
