use queuepeek::model::MessageInfo;
use queuepeek::session::{
    backend_types, choose_namespace, comparison_outcome, cursor_down, cursor_up, fetch_less,
    fetch_more, fetch_preset_index, fetch_presets, schedule_presets, update_filtered_messages,
    update_filtered_queues, MessageBrowser, NamespaceChoice, Popup, QueueBrowser,
};

fn msg(body: &str, routing_key: &str) -> MessageInfo {
    MessageInfo {
        index: 1,
        routing_key: routing_key.to_string(),
        exchange: String::new(),
        redelivered: false,
        timestamp: None,
        content_type: String::new(),
        headers: Vec::new(),
        body: body.to_string(),
    }
}

fn names(v: &[&str]) -> Vec<String> {
    v.iter().map(|s| s.to_string()).collect()
}

#[test]
fn presets_are_listed_in_order() {
    assert_eq!(fetch_presets(), vec![10, 25, 50, 100, 250, 500]);
    let s = schedule_presets();
    assert_eq!(s.len(), 6);
    assert_eq!(s[0], (30, "30 seconds"));
    assert_eq!(s[5], (3600, "1 hour"));
    assert_eq!(backend_types(), vec!["rabbitmq", "kafka", "mqtt"]);
}

#[test]
fn fetch_preset_index_finds_preset_or_defaults_to_third() {
    assert_eq!(fetch_preset_index(25), 1);
    assert_eq!(fetch_preset_index(500), 5);
    assert_eq!(fetch_preset_index(33), 2);
}

#[test]
fn fetch_count_steps() {
    assert_eq!(fetch_more(50), 60);
    assert_eq!(fetch_more(495), 505);
    assert_eq!(fetch_more(500), 500);
    assert_eq!(fetch_less(50), 40);
    assert_eq!(fetch_less(11), 1);
    assert_eq!(fetch_less(5), 1);
}

#[test]
fn cursor_moves_stay_in_list() {
    assert_eq!(cursor_down(None, 3), Some(1));
    assert_eq!(cursor_down(Some(1), 3), Some(2));
    assert_eq!(cursor_down(Some(2), 3), Some(2));
    assert_eq!(cursor_down(None, 0), None);
    assert_eq!(cursor_up(Some(2)), Some(1));
    assert_eq!(cursor_up(Some(0)), Some(0));
    assert_eq!(cursor_up(None), None);
}

#[test]
fn queue_filter_ignores_case() {
    let q = names(&["Orders", "payments", "orders-dlq"]);
    assert_eq!(update_filtered_queues(&q, "ORD"), vec![0, 2]);
    assert_eq!(update_filtered_queues(&q, ""), vec![0, 1, 2]);
    assert_eq!(update_filtered_queues(&q, "zzz"), Vec::<usize>::new());
}

#[test]
fn message_filter_plain_and_advanced() {
    let ms = vec![msg("Hello world", "a.b"), msg("other", "Hello.key"), msg("x", "y")];
    assert_eq!(update_filtered_messages(&ms, "hello", false), vec![0, 1]);
    assert_eq!(update_filtered_messages(&ms, "", false), vec![0, 1, 2]);
    assert_eq!(update_filtered_messages(&ms, "routing_key = \"y\"", true), vec![2]);
}

#[test]
fn queue_reload_keeps_cursor_on_same_queue() {
    let mut b = QueueBrowser::new();
    b.load(names(&["a", "b", "c"]));
    assert_eq!(b.cursor, Some(0));
    b.cursor = Some(1);
    assert_eq!(b.current_queue_name_for_groups(), "b");
    b.load(names(&["x", "b"]));
    assert_eq!(b.cursor, Some(1));
    assert_eq!(b.selected_queue(), Some(1));
    b.load(names(&["y", "z"]));
    assert_eq!(b.cursor, Some(0));
}

#[test]
fn queue_reload_with_filter() {
    let mut b = QueueBrowser::new();
    b.filter = "o".to_string();
    b.load(names(&["one", "two", "abc"]));
    assert_eq!(b.filtered, vec![0, 1]);
    assert_eq!(b.cursor, Some(0));
    b.cursor = Some(1);
    b.load(names(&["abc", "two"]));
    assert_eq!(b.filtered, vec![1]);
    assert_eq!(b.cursor, Some(0));
    assert_eq!(b.current_queue_name_for_groups(), "two");
}

#[test]
fn empty_queue_browser_has_no_selection() {
    let b = QueueBrowser::new();
    assert_eq!(b.selected_queue(), None);
    assert_eq!(b.current_queue_name_for_groups(), "");
}

#[test]
fn toggling_twice_restores_selection() {
    let mut b = MessageBrowser::new();
    b.load(vec![msg("a", "k"), msg("b", "k"), msg("c", "k")]);
    assert_eq!(b.cursor(), Some(0));
    b.cursor_down();
    b.toggle_message_selection();
    assert_eq!(b.selected(), &vec![1]);
    assert_eq!(b.selection_count(), 1);
    b.toggle_message_selection();
    assert!(b.selected().is_empty());
}

#[test]
fn select_all_twice_clears() {
    let mut b = MessageBrowser::new();
    b.load(vec![msg("a", "k"), msg("b", "k"), msg("c", "k")]);
    b.select_all_messages();
    assert_eq!(b.selected(), &vec![0, 1, 2]);
    assert_eq!(b.selection_count(), 3);
    b.select_all_messages();
    assert!(b.selected().is_empty());
    assert_eq!(b.selection_count(), 1);
}

#[test]
fn target_messages_follow_selection_or_cursor() {
    let mut b = MessageBrowser::new();
    b.load(vec![msg("a", "k"), msg("b", "k"), msg("c", "k")]);
    let t = b.get_target_messages();
    assert_eq!(t.len(), 1);
    assert_eq!(t[0].body, "a");
    b.cursor_down();
    b.cursor_down();
    b.toggle_message_selection();
    b.cursor_up();
    b.cursor_up();
    b.toggle_message_selection();
    let t = b.get_target_messages();
    let bodies: Vec<&str> = t.iter().map(|m| m.body.as_str()).collect();
    assert_eq!(bodies, vec!["a", "c"]);
    assert_eq!(b.selected_message().unwrap().body, "a");
}

#[test]
fn filter_restricts_shown_and_selectable() {
    let mut b = MessageBrowser::new();
    b.load(vec![msg("apple", "k"), msg("banana", "k"), msg("apricot", "k")]);
    b.set_filter("ap".to_string(), false);
    assert_eq!(b.filtered(), &vec![0, 2]);
    b.select_all_messages();
    assert_eq!(b.selected(), &vec![0, 2]);
    b.clear();
    assert!(b.messages().is_empty());
    assert!(b.filtered().is_empty());
    assert_eq!(b.cursor(), None);
    assert_eq!(b.filter(), "ap");
    assert_eq!(b.selection_count(), 0);
}

#[test]
fn dead_letter_info_from_first_target() {
    let mut b = MessageBrowser::new();
    let mut m = msg("payload", "k");
    m.headers = vec![(
        "x-death".to_string(),
        "[{\"exchange\": \"orders-x\", \"routing-keys\": [\"orders.new\"]}]".to_string(),
    )];
    b.load(vec![m, msg("plain", "k")]);
    assert_eq!(
        b.parse_dlq_info(),
        Some(("orders-x".to_string(), "orders.new".to_string()))
    );
    b.cursor_down();
    assert_eq!(b.parse_dlq_info(), None);
}

#[test]
fn namespace_choice() {
    assert!(matches!(choose_namespace(&vec![], None), NamespaceChoice::Unavailable));
    assert!(matches!(choose_namespace(&names(&["/"]), Some("other")), NamespaceChoice::Use(n) if n == "/"));
    let many = names(&["/", "prod", "dev"]);
    assert!(matches!(choose_namespace(&many, Some("dev")), NamespaceChoice::Use(n) if n == "dev"));
    assert!(matches!(choose_namespace(&many, Some("qa")), NamespaceChoice::Use(n) if n == "/"));
    assert!(matches!(choose_namespace(&many, Some("")), NamespaceChoice::Pick(n) if n == "/"));
    assert!(matches!(choose_namespace(&many, None), NamespaceChoice::Pick(n) if n == "/"));
}

#[test]
fn comparison_outcome_reports_first_failure() {
    let r = comparison_outcome("a", "b", Err("boom".to_string()), Err("bang".to_string()));
    assert!(matches!(r, Err(e) if e == "Failed to load a: boom"));
    let r = comparison_outcome("a", "b", Ok(vec![]), Err("bang".to_string()));
    assert!(matches!(r, Err(e) if e == "Failed to load b: bang"));
    let r = comparison_outcome("a", "b", Ok(vec![msg("x", "k"), msg("y", "k")]), Ok(vec![msg("y", "k")]));
    let c = r.ok().unwrap();
    assert_eq!(c.in_both, 1);
    assert_eq!(c.only_in_a.len(), 1);
    assert_eq!(c.only_in_a[0].body, "x");
    assert!(c.only_in_b.is_empty());
}

#[test]
fn popup_closed_is_none() {
    assert!(Popup::Closed.is_none());
    assert!(!Popup::Help.is_none());
}

#[test]
fn select_all_clears_only_when_every_shown_message_is_selected() {
    let mut b = MessageBrowser::new();
    b.load(vec![msg("apple", "k"), msg("banana", "k"), msg("apricot", "k")]);
    b.cursor_down();
    b.toggle_message_selection();
    b.set_filter("ap".to_string(), false);
    assert_eq!(b.filtered(), &vec![0, 2]);
    b.select_all_messages();
    assert_eq!(b.selected(), &vec![0, 2]);
    b.toggle_message_selection();
    b.select_all_messages();
    assert_eq!(b.selected(), &vec![0, 2]);
    b.set_filter(String::new(), false);
    b.toggle_message_selection();
    assert_eq!(b.selected(), &vec![0, 1, 2]);
    b.set_filter("ap".to_string(), false);
    b.select_all_messages();
    assert!(b.selected().is_empty());
}
