use starbot::publish::{
    publish_event_fits, publish_start, publish_step, PublishAction, PublishEvent, PublishOutcome,
    PublishState,
};

/// Store and channel stand-in: which steps fail, and what ended up durable.
struct Mock {
    begin_ok: bool,
    send_ok: bool,
    insert_ok: bool,
    commit_ok: bool,
    edit_ok: bool,
    pending_record: Option<u64>,
    committed_records: Vec<u64>,
    sent_messages: Vec<u64>,
    edits: usize,
}

fn mock() -> Mock {
    Mock {
        begin_ok: true,
        send_ok: true,
        insert_ok: true,
        commit_ok: true,
        edit_ok: true,
        pending_record: None,
        committed_records: Vec::new(),
        sent_messages: Vec::new(),
        edits: 0,
    }
}

fn publish(m: &mut Mock) -> PublishOutcome {
    let (mut state, mut action) = publish_start();
    loop {
        let event = match action {
            PublishAction::Begin => PublishEvent::Begun(m.begin_ok),
            PublishAction::SendPlaceholder => {
                if m.send_ok {
                    m.sent_messages.push(42);
                    PublishEvent::Sent(Some(42))
                } else {
                    PublishEvent::Sent(None)
                }
            }
            PublishAction::Insert { message_id } => {
                if m.insert_ok {
                    m.pending_record = Some(message_id);
                }
                PublishEvent::Inserted(m.insert_ok)
            }
            PublishAction::Commit => {
                if m.commit_ok {
                    m.committed_records.extend(m.pending_record.take());
                } else {
                    m.pending_record = None;
                }
                PublishEvent::Committed(m.commit_ok)
            }
            PublishAction::Edit { message_id } => {
                assert_eq!(message_id, 42);
                m.edits += 1;
                PublishEvent::Edited(m.edit_ok)
            }
            PublishAction::Report(o) => {
                assert_eq!(state, PublishState::Finished(o));
                return o;
            }
        };
        assert!(publish_event_fits(state, event));
        let next = publish_step(state, event);
        state = next.0;
        action = next.1;
    }
}

#[test]
fn publish_happy_path() {
    let mut m = mock();
    assert_eq!(publish(&mut m), PublishOutcome::Published);
    assert_eq!(m.committed_records, vec![42]);
    assert_eq!(m.edits, 1);
}

#[test]
fn failed_commit_leaves_no_record() {
    let mut m = mock();
    m.commit_ok = false;
    assert_eq!(
        publish(&mut m),
        PublishOutcome::Aborted { orphan_message: Some(42) }
    );
    assert!(m.committed_records.is_empty());
    assert_eq!(m.sent_messages, vec![42]);
    assert_eq!(m.edits, 0);
}

#[test]
fn failed_edit_keeps_record() {
    let mut m = mock();
    m.edit_ok = false;
    assert_eq!(publish(&mut m), PublishOutcome::ContentPending);
    assert_eq!(m.committed_records, vec![42]);
}

#[test]
fn failed_send_sends_nothing_and_commits_nothing() {
    let mut m = mock();
    m.send_ok = false;
    assert_eq!(publish(&mut m), PublishOutcome::Aborted { orphan_message: None });
    assert!(m.committed_records.is_empty());
}

#[test]
fn failed_begin_or_insert_aborts() {
    let mut m = mock();
    m.begin_ok = false;
    assert_eq!(publish(&mut m), PublishOutcome::Aborted { orphan_message: None });
    assert!(m.sent_messages.is_empty());
    let mut m = mock();
    m.insert_ok = false;
    assert_eq!(publish(&mut m), PublishOutcome::Aborted { orphan_message: Some(42) });
    assert!(m.committed_records.is_empty());
}

#[test]
fn publish_event_must_answer_action() {
    assert!(!publish_event_fits(PublishState::Starting, PublishEvent::Committed(true)));
    assert!(publish_event_fits(PublishState::Committing { message_id: 1 }, PublishEvent::Committed(false)));
}
