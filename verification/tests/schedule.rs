use queuepeek::schedule::{Scheduler, StoredMessage};

fn sched_three() -> Scheduler {
    let mut s = Scheduler::new();
    s.schedule("/", "orders", "rk", "application/json", "{}", 30, 1000);
    s.schedule("/", "", "fallback", "text/plain", "b", 60, 1000);
    s.schedule("/", "orders", "rk", "text/plain", "c", 10, 1005);
    s
}

#[test]
fn schedule_assigns_increasing_ids_and_due_times() {
    let s = sched_three();
    assert_eq!(s.next_id, 3);
    let ids: Vec<u64> = s.messages.iter().map(|m| m.id).collect();
    assert_eq!(ids, vec![0, 1, 2]);
    assert_eq!(s.messages[0].publish_at, 1030);
    assert_eq!(s.messages[0].queue, "orders");
    assert_eq!(s.messages[1].queue, "fallback");
    assert_eq!(s.messages[2].publish_at, 1015);
    assert_eq!(s.messages[2].scheduled_at, 1005);
}

#[test]
fn take_due_partitions_in_order() {
    let mut s = sched_three();
    let due = s.take_due(1020);
    let due_ids: Vec<u64> = due.iter().map(|m| m.id).collect();
    assert_eq!(due_ids, vec![2]);
    let left: Vec<u64> = s.messages.iter().map(|m| m.id).collect();
    assert_eq!(left, vec![0, 1]);
    let due = s.take_due(1030);
    assert_eq!(due.len(), 1);
    assert_eq!(due[0].id, 0);
    assert_eq!(s.messages.len(), 1);
    assert!(s.take_due(0).is_empty());
}

#[test]
fn cancel_removes_only_that_id() {
    let mut s = sched_three();
    s.cancel(1);
    let left: Vec<u64> = s.messages.iter().map(|m| m.id).collect();
    assert_eq!(left, vec![0, 2]);
    s.cancel(42);
    assert_eq!(s.messages.len(), 2);
    assert_eq!(s.next_id, 3);
}

#[test]
fn store_and_restore_keep_due_times() {
    let s = sched_three();
    let stored = s.stored(1020);
    assert_eq!(stored.len(), 3);
    assert_eq!(stored[0].publish_epoch_secs, 1030);
    assert_eq!(stored[2].publish_epoch_secs, 1020);
    let mut back = Scheduler::new();
    for m in stored {
        back.restore(m, 1020);
    }
    let due: Vec<u64> = back.messages.iter().map(|m| m.publish_at).collect();
    assert_eq!(due, vec![1030, 1060, 1020]);
    assert_eq!(back.next_id, 3);
    assert_eq!(back.messages[1].body, "b");
}

#[test]
fn restore_keeps_next_id_above_ids() {
    let mut s = Scheduler::new();
    s.restore(
        StoredMessage {
            id: 41,
            namespace: "/".to_string(),
            queue: "q".to_string(),
            routing_key: "q".to_string(),
            content_type: String::new(),
            body: String::new(),
            publish_epoch_secs: 10,
            delay_secs: 5,
        },
        100,
    );
    assert_eq!(s.next_id, 42);
    assert_eq!(s.messages[0].publish_at, 100);
    assert_eq!(s.messages[0].scheduled_at, 100);
}
