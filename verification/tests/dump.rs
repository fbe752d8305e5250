use queuepeek::dump::{
    dump_file_name, dump_kind, republish_line, DumpAction, DumpEvent, DumpJob, DumpKind,
};

fn outcome(a: DumpAction) -> (Option<(usize, usize)>, bool, Result<String, String>) {
    match a {
        DumpAction::Finish { progress, republish, outcome } => (progress, republish, outcome),
        _ => panic!("expected the end"),
    }
}

#[test]
fn dump_kinds_and_names() {
    assert_eq!(dump_kind("rabbitmq"), DumpKind::Consume);
    assert_eq!(dump_kind("kafka"), DumpKind::Peek);
    assert_eq!(dump_kind("mqtt"), DumpKind::Once);
    assert_eq!(dump_file_name("orders", "1700000000"), "queuepeek-dump-orders-1700000000.jsonl");
}

#[test]
fn consume_dump_reads_batches_then_republishes() {
    let mut j = DumpJob::new(DumpKind::Consume, "d.jsonl".to_string());
    assert!(matches!(j.step(DumpEvent::Created(Ok(false))), DumpAction::Read { count: 100, consume: true }));
    assert!(matches!(
        j.step(DumpEvent::Read(Ok(100))),
        DumpAction::ReportAndRead { completed: 100, count: 100, consume: true }
    ));
    let (progress, republish, out) = outcome(j.step(DumpEvent::Read(Ok(5))));
    assert_eq!(progress, Some((105, 0)));
    assert!(republish);
    assert_eq!(out, Ok("Dumped 105 messages to d.jsonl".to_string()));
}

#[test]
fn consume_dump_failures() {
    let mut j = DumpJob::new(DumpKind::Consume, "d".to_string());
    j.step(DumpEvent::Created(Ok(false)));
    let (_, republish, out) = outcome(j.step(DumpEvent::Read(Err("down".to_string()))));
    assert!(!republish);
    assert_eq!(out, Err("Consume failed: down".to_string()));
    let mut j = DumpJob::new(DumpKind::Consume, "d".to_string());
    j.step(DumpEvent::Created(Ok(false)));
    j.step(DumpEvent::Read(Ok(100)));
    let (progress, republish, out) = outcome(j.step(DumpEvent::Read(Err("down".to_string()))));
    assert_eq!(progress, Some((100, 0)));
    assert!(republish);
    assert_eq!(out, Ok("Dumped 100 messages to d (consume stopped: down)".to_string()));
    let mut j = DumpJob::new(DumpKind::Consume, "d".to_string());
    j.step(DumpEvent::Created(Ok(false)));
    let (_, _, out) = outcome(j.step(DumpEvent::Cancelled));
    assert_eq!(out, Ok("Dump cancelled after 0 messages — saved to d".to_string()));
    let mut j = DumpJob::new(DumpKind::Consume, "d".to_string());
    let (_, _, out) = outcome(j.step(DumpEvent::Created(Err("denied".to_string()))));
    assert_eq!(out, Err("Creating file: denied".to_string()));
    let mut j = DumpJob::new(DumpKind::Consume, "d".to_string());
    j.step(DumpEvent::Created(Ok(false)));
    let (_, _, out) = outcome(j.step(DumpEvent::WriteFailed("full".to_string())));
    assert_eq!(out, Err("Writing: full — partial dump at d".to_string()));
}

#[test]
fn peek_dump_stops_after_a_batch_or_two_empty_polls() {
    let mut j = DumpJob::new(DumpKind::Peek, "k".to_string());
    assert!(matches!(j.step(DumpEvent::Created(Ok(false))), DumpAction::Read { count: 500, consume: false }));
    assert!(matches!(j.step(DumpEvent::Read(Ok(0))), DumpAction::Read { count: 500, consume: false }));
    let (_, _, out) = outcome(j.step(DumpEvent::Read(Ok(0))));
    assert_eq!(out, Ok("Dumped 0 messages to k".to_string()));
    let mut j = DumpJob::new(DumpKind::Peek, "k".to_string());
    j.step(DumpEvent::Created(Ok(false)));
    j.step(DumpEvent::Read(Ok(0)));
    let (progress, republish, out) = outcome(j.step(DumpEvent::Read(Ok(7))));
    assert_eq!(progress, Some((7, 0)));
    assert!(!republish);
    assert_eq!(out, Ok("Dumped 7 messages to k".to_string()));
    let mut j = DumpJob::new(DumpKind::Peek, "k".to_string());
    j.step(DumpEvent::Created(Ok(false)));
    let (_, _, out) = outcome(j.step(DumpEvent::Read(Err("x".to_string()))));
    assert_eq!(out, Err("Peek failed: x".to_string()));
}

#[test]
fn single_peek_dump() {
    let mut j = DumpJob::new(DumpKind::Once, "m".to_string());
    let (_, _, out) = outcome(j.step(DumpEvent::Created(Ok(true))));
    assert_eq!(out, Ok("Dump cancelled".to_string()));
    let mut j = DumpJob::new(DumpKind::Once, "m".to_string());
    j.step(DumpEvent::Created(Ok(false)));
    assert!(matches!(j.step(DumpEvent::Cancelled), DumpAction::Ignore));
    let (progress, _, out) = outcome(j.step(DumpEvent::Read(Ok(3))));
    assert_eq!(progress, Some((3, 3)));
    assert_eq!(out, Ok("Dumped 3 messages to m".to_string()));
}

#[test]
fn republishing_reads_message_lines() {
    let (body, rk, ct, headers) = republish_line("{\"body\":\"b\",\"routing_key\":\"r\",\"content_type\":\"c\"}").unwrap();
    assert_eq!((body.as_str(), rk.as_str(), ct.as_str()), ("b", "r", "c"));
    assert!(headers.is_empty());
    assert!(republish_line("not json").is_none());
}
