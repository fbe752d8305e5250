use queuepeek::model::MessageInfo;
use queuepeek::sending::{SendAction, SendEvent, SendJob, SendPhase, SendPurpose};
use queuepeek::session::QueueOperation;

fn message(body: &str, key: &str, headers: Vec<(&str, &str)>) -> MessageInfo {
    MessageInfo {
        index: 0,
        routing_key: key.to_string(),
        exchange: "ex".to_string(),
        redelivered: false,
        timestamp: None,
        content_type: "application/json".to_string(),
        headers: headers.into_iter().map(|(k, v)| (k.to_string(), v.to_string())).collect(),
        body: body.to_string(),
    }
}

fn transfer(op: QueueOperation) -> SendPurpose {
    SendPurpose::Transfer { source: "a".to_string(), dest: "b".to_string(), op, count: 10 }
}

fn finish(a: SendAction) -> (Option<(usize, usize)>, Result<String, String>) {
    match a {
        SendAction::Finish { progress, outcome } => (progress, outcome),
        _ => panic!("expected the end"),
    }
}

#[test]
fn transfer_fetches_then_sends_each_message() {
    let (mut job, first) = SendJob::start(transfer(QueueOperation::Move), vec![]).unwrap();
    match first {
        SendAction::Fetch { queue, count, consume } => {
            assert_eq!(queue, "a");
            assert_eq!(count, 10);
            assert!(consume);
        }
        _ => panic!("expected a fetch"),
    }
    let fetched = vec![message("one", "k1", vec![("h", "v")]), message("two", "k2", vec![])];
    match job.step(SendEvent::Fetched(Ok(fetched))) {
        SendAction::Send { to, exchange, body, routing_key, headers, completed, total, .. } => {
            assert_eq!(to, "b");
            assert!(!exchange);
            assert_eq!(body, "one");
            assert_eq!(routing_key, "k1");
            assert_eq!(headers, vec![("h".to_string(), "v".to_string())]);
            assert_eq!((completed, total), (0, 2));
        }
        _ => panic!("expected a send"),
    }
    match job.step(SendEvent::Sent(Ok(()))) {
        SendAction::Send { body, completed, total, .. } => {
            assert_eq!(body, "two");
            assert_eq!((completed, total), (1, 2));
        }
        _ => panic!("expected a send"),
    }
    let (progress, outcome) = finish(job.step(SendEvent::Sent(Ok(()))));
    assert_eq!(progress, Some((2, 2)));
    assert_eq!(outcome, Ok("Moved 2 messages from a to b".to_string()));
    assert_eq!(job.phase, SendPhase::Finished);
    assert!(matches!(job.step(SendEvent::Sent(Ok(()))), SendAction::Ignore));
}

#[test]
fn copy_transfer_peeks_and_reports_empty_queue() {
    let (mut job, first) = SendJob::start(transfer(QueueOperation::Copy), vec![]).unwrap();
    assert!(matches!(first, SendAction::Fetch { consume: false, .. }));
    assert!(matches!(job.step(SendEvent::Cancelled), SendAction::Ignore));
    let (progress, outcome) = finish(job.step(SendEvent::Fetched(Ok(vec![]))));
    assert_eq!(progress, Some((0, 0)));
    assert_eq!(outcome, Ok("Copied 0 messages from a to b".to_string()));
}

#[test]
fn transfer_fetch_error_is_reported() {
    let (mut job, _) = SendJob::start(transfer(QueueOperation::Copy), vec![]).unwrap();
    let (progress, outcome) = finish(job.step(SendEvent::Fetched(Err("no such queue".to_string()))));
    assert_eq!(progress, None);
    assert_eq!(outcome, Err("no such queue".to_string()));
}

#[test]
fn cancel_and_failure_texts() {
    let msgs = || vec![message("x", "k", vec![]), message("y", "k", vec![]), message("z", "k", vec![])];
    let (mut job, _) = SendJob::start(SendPurpose::Selected { dest: "d".to_string() }, msgs()).unwrap();
    let _ = job.step(SendEvent::Sent(Ok(())));
    let (_, outcome) = finish(job.step(SendEvent::Cancelled));
    assert_eq!(outcome, Ok("Cancelled after 1/3 messages".to_string()));

    let (mut job, _) = SendJob::start(SendPurpose::Selected { dest: "d".to_string() }, msgs()).unwrap();
    let _ = job.step(SendEvent::Sent(Ok(())));
    let (_, outcome) = finish(job.step(SendEvent::Sent(Err("closed".to_string()))));
    assert_eq!(outcome, Err("Failed at message 2/3: closed".to_string()));
}

#[test]
fn selected_copy_reports_destination() {
    let (mut job, _) =
        SendJob::start(SendPurpose::Selected { dest: "d".to_string() }, vec![message("x", "k", vec![])]).unwrap();
    let (progress, outcome) = finish(job.step(SendEvent::Sent(Ok(()))));
    assert_eq!(progress, Some((1, 1)));
    assert_eq!(outcome, Ok("Copied 1 messages to d".to_string()));
}

#[test]
fn selected_without_messages_does_not_start() {
    assert!(SendJob::start(SendPurpose::Selected { dest: "d".to_string() }, vec![]).is_none());
    assert!(SendJob::start(
        SendPurpose::Reroute { exchange: "e".to_string(), routing_key: "r".to_string() },
        vec![]
    )
    .is_none());
}

#[test]
fn reroute_drops_dead_letter_headers_and_uses_the_key() {
    let m = message(
        "payload",
        "old-key",
        vec![
            ("x-death", "[...]"),
            ("trace", "t1"),
            ("x-first-death-exchange", "orders"),
            ("x-first-death-queue", "q"),
            ("x-first-death-reason", "rejected"),
        ],
    );
    let purpose = SendPurpose::Reroute { exchange: "orders".to_string(), routing_key: "new-key".to_string() };
    let (mut job, first) = SendJob::start(purpose, vec![m]).unwrap();
    match first {
        SendAction::Send { to, exchange, body, routing_key, headers, .. } => {
            assert_eq!(to, "orders");
            assert!(exchange);
            assert_eq!(body, "payload");
            assert_eq!(routing_key, "new-key");
            assert_eq!(headers, vec![("trace".to_string(), "t1".to_string())]);
        }
        _ => panic!("expected a send"),
    }
    let (_, outcome) = finish(job.step(SendEvent::Sent(Ok(()))));
    assert_eq!(outcome, Ok("Re-routed 1 messages to exchange 'orders' with key 'new-key'".to_string()));
}

#[test]
fn reroute_cancel_and_failure_texts() {
    let purpose = || SendPurpose::Reroute { exchange: "e".to_string(), routing_key: "r".to_string() };
    let msgs = || vec![message("a", "k", vec![]), message("b", "k", vec![])];
    let (mut job, _) = SendJob::start(purpose(), msgs()).unwrap();
    let (_, outcome) = finish(job.step(SendEvent::Cancelled));
    assert_eq!(outcome, Ok("Re-route cancelled after 0/2 messages".to_string()));
    let (mut job, _) = SendJob::start(purpose(), msgs()).unwrap();
    let (_, outcome) = finish(job.step(SendEvent::Sent(Err("nack".to_string()))));
    assert_eq!(outcome, Err("Re-route failed at message 1/2: nack".to_string()));
}
