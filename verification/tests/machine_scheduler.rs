use notify_relay::errors::StoreError;
use notify_relay::fetch::{fetch_step, PAGE_SIZE};
use notify_relay::machine::{CycleAction, CycleEvent, CycleMachine};
use notify_relay::notification::Notification;
use notify_relay::scheduler::{Scheduler, SchedulerState};

fn item(id: &str, unread: bool, updated_at: i64) -> Notification {
    Notification {
        id: id.to_string(),
        unread,
        updated_at,
        repository: None,
        subject_type: "PullRequest".to_string(),
        subject_title: "t".to_string(),
        reason: "mention".to_string(),
    }
}

#[test]
fn machine_drives_one_batch() {
    // "b" is older, so it is handled first; "c" is read and skipped
    let batch = vec![item("a", true, 20), item("c", false, 5), item("b", true, 10)];
    let mut m = CycleMachine::new(batch);

    match m.next_action() {
        CycleAction::QueryMembership { id } => assert_eq!(id, "b"),
        _ => panic!("expected a membership query"),
    }
    m.step(CycleEvent::Membership(false));
    match m.next_action() {
        CycleAction::Send { id, message } => {
            assert_eq!(id, "b");
            assert!(message.contains("Reason: mention"));
        },
        _ => panic!("expected a send"),
    }
    m.step(CycleEvent::SendSucceeded);
    match m.next_action() {
        CycleAction::RecordSent { id } => assert_eq!(id, "b"),
        _ => panic!("expected a record"),
    }
    m.step(CycleEvent::RecordSucceeded);

    // "a": already recorded, so it is skipped without a send
    match m.next_action() {
        CycleAction::QueryMembership { id } => assert_eq!(id, "a"),
        _ => panic!("expected a membership query"),
    }
    m.step(CycleEvent::Membership(true));

    match m.next_action() {
        CycleAction::Report { forwarded, max_updated, error } => {
            assert_eq!(forwarded, 1);
            assert_eq!(max_updated, Some(20));
            assert_eq!(error, None);
        },
        _ => panic!("expected the report"),
    }
}

#[test]
fn machine_continues_after_send_failure() {
    let batch = vec![item("a", true, 1), item("b", true, 2)];
    let mut m = CycleMachine::new(batch);
    m.step(CycleEvent::Membership(false));
    m.step(CycleEvent::SendFailed);
    // the failed item is skipped, the next one is still attempted
    match m.next_action() {
        CycleAction::QueryMembership { id } => assert_eq!(id, "b"),
        _ => panic!("expected a membership query"),
    }
    m.step(CycleEvent::Membership(false));
    m.step(CycleEvent::SendSucceeded);
    m.step(CycleEvent::RecordSucceeded);
    match m.next_action() {
        CycleAction::Report { forwarded, error, .. } => {
            assert_eq!(forwarded, 1);
            assert_eq!(error, None);
        },
        _ => panic!("expected the report"),
    }
}

#[test]
fn machine_aborts_on_store_failures() {
    let mut m = CycleMachine::new(vec![item("a", true, 1)]);
    m.step(CycleEvent::MembershipFailed);
    match m.next_action() {
        CycleAction::Report { error, .. } => assert_eq!(error, Some(StoreError::StoreQueryError)),
        _ => panic!("expected the report"),
    }

    let mut m2 = CycleMachine::new(vec![item("a", true, 1)]);
    m2.step(CycleEvent::Membership(false));
    m2.step(CycleEvent::SendSucceeded);
    m2.step(CycleEvent::RecordFailed);
    match m2.next_action() {
        CycleAction::Report { forwarded, error, .. } => {
            assert_eq!(forwarded, 0);
            assert_eq!(error, Some(StoreError::StoreWriteError));
        },
        _ => panic!("expected the report"),
    }
}

#[test]
fn fetch_pagination_stops_on_short_page() {
    let mut all: Vec<Notification> = Vec::new();
    let full_page: Vec<Notification> =
        (0..PAGE_SIZE).map(|i| item(&format!("n{i}"), true, i as i64)).collect();
    assert_eq!(fetch_step(&mut all, full_page, 1), Some(2));
    assert_eq!(all.len(), PAGE_SIZE);
    let short_page = vec![item("last", true, 99)];
    assert_eq!(fetch_step(&mut all, short_page, 2), None);
    assert_eq!(all.len(), PAGE_SIZE + 1);
    assert_eq!(all[PAGE_SIZE].id, "last");
}

#[test]
fn fetch_pagination_hits_hard_cap() {
    let mut all: Vec<Notification> = Vec::new();
    let full_page: Vec<Notification> =
        (0..PAGE_SIZE).map(|i| item(&format!("p{i}"), true, i as i64)).collect();
    assert_eq!(fetch_step(&mut all, full_page, u8::MAX), None);
}

#[test]
fn scheduler_walks_its_states() {
    let mut s = Scheduler::new();
    assert_eq!(s.state, SchedulerState::Idle);
    assert_eq!(s.watermark, None);
    s.on_started();
    assert_eq!(s.state, SchedulerState::Polling);
    // success with items: the watermark backs off one second
    s.on_cycle_finished(Some(100), false);
    assert_eq!(s.state, SchedulerState::Sleeping);
    assert_eq!(s.watermark, Some(99));
    s.on_interval_elapsed();
    assert_eq!(s.state, SchedulerState::Polling);
    // a failed cycle leaves the watermark alone
    s.on_cycle_finished(Some(500), true);
    assert_eq!(s.watermark, Some(99));
    s.on_interval_elapsed();
    // an empty batch leaves the watermark alone
    s.on_cycle_finished(None, false);
    assert_eq!(s.watermark, Some(99));
    s.on_shutdown();
    assert_eq!(s.state, SchedulerState::Stopped);
}
