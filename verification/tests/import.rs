use queuepeek::import::{
    array_messages, is_json_array, jsonl_messages, ImportAction, ImportEvent, ImportJob,
};

#[test]
fn json_arrays_are_told_from_json_lines() {
    assert!(is_json_array(b"  \n[{\"body\":\"x\"}]"));
    assert!(!is_json_array(b"{\"body\":\"x\"}\n"));
    assert!(!is_json_array(b""));
    assert!(!is_json_array(b"   "));
    // an invalid byte reads as a replacement character, not as white space
    assert!(!is_json_array(b"\xff["));
}

#[test]
fn array_files_parse_or_report() {
    let v = array_messages("[{\"body\":\"a\"}, {\"body\":\"b\"}]").unwrap();
    assert_eq!(v.len(), 2);
    let e = array_messages("{\"body\":\"a\"}").unwrap_err();
    assert!(e.starts_with("Parsing JSON array: "), "{}", e);
    assert!(array_messages("[1, 2").is_err());
}

#[test]
fn json_lines_skip_blank_unreadable_and_invalid_lines() {
    let lines = vec![
        Some("{\"body\":\"a\"}".to_string()),
        Some("   ".to_string()),
        None,
        Some("not json".to_string()),
        Some("{\"body\":\"b\"}".to_string()),
    ];
    let v = jsonl_messages(&lines);
    assert_eq!(v.len(), 2);
    assert_eq!(v[1].compact, "{\"body\":\"b\"}");
}

#[test]
fn import_publishes_in_order_then_reports() {
    assert_eq!(ImportJob::new(Vec::new(), "f".to_string()).err().unwrap(), "No messages found in file");
    let msgs = jsonl_messages(&vec![
        Some("{\"body\":\"a\",\"routing_key\":\"k\"}".to_string()),
        Some("{\"body\":\"b\",\"headers\":{\"x\":\"y\"}}".to_string()),
    ]);
    let mut job = ImportJob::new(msgs, "in.jsonl".to_string()).unwrap();
    assert!(matches!(job.step(ImportEvent::Cancelled), ImportAction::Ignore));
    match job.step(ImportEvent::Started) {
        ImportAction::Publish { body, routing_key, completed, total, .. } => {
            assert_eq!(body, "a");
            assert_eq!(routing_key, "k");
            assert_eq!((completed, total), (0, 2));
        }
        _ => panic!("expected the first message"),
    }
    match job.step(ImportEvent::Published(Ok(()))) {
        ImportAction::Publish { body, headers, completed, .. } => {
            assert_eq!(body, "b");
            assert_eq!(headers, vec![("x".to_string(), "y".to_string())]);
            assert_eq!(completed, 1);
        }
        _ => panic!("expected the second message"),
    }
    match job.step(ImportEvent::Published(Ok(()))) {
        ImportAction::Finish { progress, outcome } => {
            assert_eq!(progress, Some((2, 2)));
            assert_eq!(outcome, Ok("Imported 2 messages from in.jsonl".to_string()));
        }
        _ => panic!("expected the end"),
    }
}

#[test]
fn import_stops_on_cancel_or_failure() {
    let msgs = jsonl_messages(&vec![Some("{}".to_string()), Some("{}".to_string())]);
    let mut job = ImportJob::new(msgs, "f".to_string()).unwrap();
    job.step(ImportEvent::Started);
    job.step(ImportEvent::Published(Ok(())));
    match job.step(ImportEvent::Cancelled) {
        ImportAction::Finish { outcome, .. } => {
            assert_eq!(outcome, Ok("Import cancelled after 1/2 messages".to_string()))
        }
        _ => panic!("expected the end"),
    }
    let msgs = jsonl_messages(&vec![Some("{}".to_string())]);
    let mut job = ImportJob::new(msgs, "f".to_string()).unwrap();
    job.step(ImportEvent::Started);
    match job.step(ImportEvent::Published(Err("refused".to_string()))) {
        ImportAction::Finish { outcome, .. } => {
            assert_eq!(outcome, Err("Import failed at message 1/1: refused".to_string()))
        }
        _ => panic!("expected the end"),
    }
}
