use queuepeek::diff::{message_diff, ChangeKind};
use queuepeek::model::MessageInfo;

fn msg(index: usize, body: &str, routing_key: &str) -> MessageInfo {
    MessageInfo {
        index,
        routing_key: routing_key.to_string(),
        exchange: String::new(),
        redelivered: false,
        timestamp: None,
        content_type: "text/plain".to_string(),
        headers: Vec::new(),
        body: body.to_string(),
    }
}

#[test]
fn diff_lists_changed_headers() {
    let d = message_diff(&msg(1, "a", "k1"), &msg(2, "a", "k2"));
    assert_eq!(d.headers, vec![("routing_key".to_string(), "k1".to_string(), "k2".to_string())]);
    let d = message_diff(&msg(1, "a", "k"), &msg(2, "a", "k"));
    assert!(d.headers.is_empty());
}

#[test]
fn diff_compares_bodies_line_by_line() {
    let d = message_diff(&msg(1, "a\nb\nc", "k"), &msg(2, "a\nb\nC", "k"));
    let rows: Vec<(ChangeKind, &str)> = d.rows.iter().map(|r| (r.kind, r.text.as_str())).collect();
    assert_eq!(
        rows,
        vec![
            (ChangeKind::Equal, "a"),
            (ChangeKind::Equal, "b"),
            (ChangeKind::Delete, "c"),
            (ChangeKind::Insert, "C"),
        ]
    );
}

#[test]
fn diff_indents_json_bodies_first() {
    let d = message_diff(&msg(1, "{\"a\":1,\"b\":2}", "k"), &msg(2, "{\"a\":1,\"b\":3}", "k"));
    let rows: Vec<(ChangeKind, &str)> = d.rows.iter().map(|r| (r.kind, r.text.as_str())).collect();
    assert_eq!(
        rows,
        vec![
            (ChangeKind::Equal, "{"),
            (ChangeKind::Equal, "  \"a\": 1,"),
            (ChangeKind::Delete, "  \"b\": 2"),
            (ChangeKind::Insert, "  \"b\": 3"),
            (ChangeKind::Equal, "}"),
        ]
    );
}
