use queuepeek::comparison::{comparison_lines, compute_comparison, ComparisonTab};
use queuepeek::model::MessageInfo;

fn msg(body: &str) -> MessageInfo {
    MessageInfo {
        index: 1,
        routing_key: "k".to_string(),
        exchange: String::new(),
        redelivered: false,
        timestamp: None,
        content_type: String::new(),
        headers: Vec::new(),
        body: body.to_string(),
    }
}

#[test]
fn comparison_is_multiset_difference() {
    let a = vec![msg("x"), msg("y"), msg("x"), msg("z")];
    let b = vec![msg("x"), msg("w"), msg("z")];
    let r = compute_comparison("qa", "qb", a, b);
    assert_eq!(r.queue_a, "qa");
    assert_eq!(r.queue_b, "qb");
    assert_eq!(r.in_both, 2);
    let only_a: Vec<&str> = r.only_in_a.iter().map(|m| m.body.as_str()).collect();
    let only_b: Vec<&str> = r.only_in_b.iter().map(|m| m.body.as_str()).collect();
    assert_eq!(only_a, vec!["y", "x"]);
    assert_eq!(only_b, vec!["w"]);
}

#[test]
fn comparison_of_empty_queues() {
    let r = compute_comparison("a", "b", vec![], vec![msg("m")]);
    assert_eq!(r.in_both, 0);
    assert!(r.only_in_a.is_empty());
    assert_eq!(r.only_in_b.len(), 1);
    assert_eq!(ComparisonTab::Summary, ComparisonTab::Summary);
    assert_ne!(ComparisonTab::OnlyInA, ComparisonTab::OnlyInB);
}

fn keyed(body: &str, routing_key: &str) -> MessageInfo {
    MessageInfo { routing_key: routing_key.to_string(), ..msg(body) }
}

#[test]
fn comparison_view_lines() {
    let r = compute_comparison(
        "a",
        "b",
        vec![keyed("same", "k"), keyed("line one\nline two", "only.a")],
        vec![keyed("same", "k")],
    );
    let summary = comparison_lines(&r, ComparisonTab::Summary);
    assert_eq!(
        summary,
        vec![
            " [Summary] [Only in A (1)] [Only in B (0)]",
            "",
            "  Queue A: a",
            "  Queue B: b",
            "",
            "  In both:    1",
            "  Only in A:  1",
            "  Only in B:  0",
            "",
            "  tab:switch tab  j/k:scroll  esc:close",
        ]
    );
    let only_a = comparison_lines(&r, ComparisonTab::OnlyInA);
    assert_eq!(only_a[2], "  1. only.a line one line two");
    let only_b = comparison_lines(&r, ComparisonTab::OnlyInB);
    assert_eq!(only_b[2], "  No unique messages in this queue");
    let same = compute_comparison("a", "b", vec![keyed("x", "k")], vec![keyed("x", "k")]);
    let lines = comparison_lines(&same, ComparisonTab::Summary);
    assert_eq!(lines[9], "  Queues are identical (by message body)");
    let long = "y".repeat(100);
    let r = compute_comparison("a", "b", vec![keyed(&long, "k")], vec![]);
    let lines = comparison_lines(&r, ComparisonTab::OnlyInA);
    assert_eq!(lines[2], format!("  1. k {}", "y".repeat(80)));
}
