use notify_relay::cycle::process_cycle;
use notify_relay::dispatch::{max_updated_at, sort_by_updated};
use notify_relay::notification::{format_message, Notification};
use notify_relay::store::{MemoryStore, NotificationStore};

fn note(id: &str, unread: bool, updated_at: i64) -> Notification {
    Notification {
        id: id.to_string(),
        unread,
        updated_at,
        repository: Some("octo/repo".to_string()),
        subject_type: "Issue".to_string(),
        subject_title: "A title".to_string(),
        reason: "subscribed".to_string(),
    }
}

#[test]
fn mark_sent_makes_membership_and_is_idempotent() {
    let mut store = MemoryStore::new();
    store.init().unwrap();
    assert_eq!(store.is_sent("42").unwrap(), false);
    store.mark_sent("42").unwrap();
    assert_eq!(store.is_sent("42").unwrap(), true);
    // marking again is a no-op, never an error
    store.mark_sent("42").unwrap();
    assert_eq!(store.is_sent("42").unwrap(), true);
    assert_eq!(store.is_sent("43").unwrap(), false);
}

#[test]
fn max_updated_covers_whole_batch() {
    let batch = vec![note("a", true, 10), note("b", false, 30), note("c", true, 20)];
    // the read item "b" still determines the maximum
    assert_eq!(max_updated_at(&batch), Some(30));
    assert_eq!(max_updated_at(&Vec::new()), None);
}

#[test]
fn sort_is_ascending_and_stable_on_ties() {
    let batch = vec![
        note("late", true, 30),
        note("tie1", true, 10),
        note("tie2", false, 10),
        note("early", true, 5),
    ];
    let sorted = sort_by_updated(batch);
    let ids: Vec<&str> = sorted.iter().map(|n| n.id.as_str()).collect();
    assert_eq!(ids, vec!["early", "tie1", "tie2", "late"]);
}

#[test]
fn read_item_never_forwarded() {
    let mut store = MemoryStore::new();
    let batch = vec![note("1", false, 10)];
    let out = process_cycle(&mut store, batch, &vec![true]).unwrap();
    assert_eq!(out.forwarded, 0);
    assert_eq!(store.is_sent("1").unwrap(), false);
    // the read item still seeds the cursor
    assert_eq!(out.max_updated, Some(10));
}

#[test]
fn already_sent_item_never_forwarded() {
    let mut store = MemoryStore::new();
    store.mark_sent("1").unwrap();
    let batch = vec![note("1", true, 10)];
    let out = process_cycle(&mut store, batch, &vec![true]).unwrap();
    assert_eq!(out.forwarded, 0);
}

#[test]
fn later_success_survives_earlier_failure() {
    let mut store = MemoryStore::new();
    let batch = vec![note("a", true, 10), note("b", true, 20)];
    // the sink fails item "a", accepts item "b"
    let out = process_cycle(&mut store, batch, &vec![false, true]).unwrap();
    assert_eq!(out.forwarded, 1);
    assert_eq!(store.is_sent("a").unwrap(), false);
    assert_eq!(store.is_sent("b").unwrap(), true);
}

#[test]
fn first_cycle_forwards_only_unread() {
    let mut store = MemoryStore::new();
    let t1 = 100;
    let t2 = 200;
    let batch = vec![note("1", true, t1), note("2", false, t2)];
    let out = process_cycle(&mut store, batch, &vec![true, true]).unwrap();
    assert_eq!(out.forwarded, 1);
    assert_eq!(store.is_sent("1").unwrap(), true);
    assert_eq!(store.is_sent("2").unwrap(), false);
    assert_eq!(out.max_updated, Some(t2));
}

#[test]
fn overlapping_cycles_forward_once() {
    let mut store = MemoryStore::new();
    let out1 = process_cycle(&mut store, vec![note("7", true, 50)], &vec![true]).unwrap();
    assert_eq!(out1.forwarded, 1);
    // the watermark backoff refetches the same item next cycle
    let out2 = process_cycle(&mut store, vec![note("7", true, 50)], &vec![true]).unwrap();
    assert_eq!(out2.forwarded, 0);
    assert_eq!(store.is_sent("7").unwrap(), true);
}

#[test]
fn sink_failure_skips_only_that_item() {
    let mut store = MemoryStore::new();
    let batch = vec![note("a", true, 1), note("b", true, 2), note("c", true, 3)];
    let out = process_cycle(&mut store, batch, &vec![true, false, true]).unwrap();
    assert_eq!(out.forwarded, 2);
    assert_eq!(store.is_sent("a").unwrap(), true);
    assert_eq!(store.is_sent("b").unwrap(), false);
    assert_eq!(store.is_sent("c").unwrap(), true);
    assert_eq!(out.max_updated, Some(3));
}

#[test]
fn message_block_is_exact() {
    let n = note("123", true, 0);
    let msg = format_message(&n);
    assert_eq!(
        msg,
        "GitHub Notification\n\
         Repo: octo/repo\n\
         Type: Issue\n\
         Reason: subscribed\n\
         Title: A title\n\
         Updated: 1970-01-01T00:00:00+00:00\n\
         Thread: https://github.com/notifications/threads/123\n\
         Inbox: https://github.com/notifications"
    );
}

#[test]
fn message_block_uses_placeholder_without_repository() {
    let mut n = note("9", true, 86400);
    n.repository = None;
    let msg = format_message(&n);
    assert!(msg.contains("Repo: unknown/unknown\n"));
    assert!(msg.contains("Updated: 1970-01-02T00:00:00+00:00\n"));
}
