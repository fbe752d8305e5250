use queuepeek::exchanges::{
    handle_exchange_list_key, toggle_expanded, ExchangeAction, ExchangeListState, TopologyItem,
};
use queuepeek::keys::Key;
use queuepeek::model::BindingInfo;

fn rows() -> Vec<TopologyItem> {
    vec![
        TopologyItem::Exchange("orders".to_string()),
        TopologyItem::Binding(BindingInfo {
            source: "orders".to_string(),
            destination: "orders.q".to_string(),
            routing_key: "#".to_string(),
            destination_type: "queue".to_string(),
            properties_key: "%23".to_string(),
        }),
        TopologyItem::Exchange("events".to_string()),
    ]
}

fn state(selected: usize) -> ExchangeListState {
    ExchangeListState { filter_active: false, filter_focused: false, filter_empty: true, selected, connected: true }
}

#[test]
fn exchange_list_keys() {
    let r = rows();
    assert!(matches!(handle_exchange_list_key(Key::Down, &state(1), &r), ExchangeAction::Select(2)));
    assert!(matches!(handle_exchange_list_key(Key::Down, &state(2), &r), ExchangeAction::Nothing));
    assert!(matches!(handle_exchange_list_key(Key::Up, &state(0), &r), ExchangeAction::Select(0)));
    match handle_exchange_list_key(Key::Enter, &state(0), &r) {
        ExchangeAction::ToggleExpanded(n) => assert_eq!(n, "orders"),
        a => panic!("unexpected {:?}", a),
    }
    assert!(matches!(handle_exchange_list_key(Key::Enter, &state(1), &r), ExchangeAction::Nothing));
    match handle_exchange_list_key(Key::Char('b'), &state(1), &r) {
        ExchangeAction::AddBinding(n) => assert_eq!(n, "orders"),
        a => panic!("unexpected {:?}", a),
    }
    match handle_exchange_list_key(Key::Char('d'), &state(1), &r) {
        ExchangeAction::DeleteBinding { source, destination, properties_key } => {
            assert_eq!(source, "orders");
            assert_eq!(destination, "orders.q");
            assert_eq!(properties_key, "%23");
        }
        a => panic!("unexpected {:?}", a),
    }
    let offline = ExchangeListState { connected: false, ..state(1) };
    assert!(matches!(handle_exchange_list_key(Key::Char('d'), &offline, &r), ExchangeAction::Nothing));
    match handle_exchange_list_key(Key::Char('i'), &state(2), &r) {
        ExchangeAction::ExchangeInfo(n) => assert_eq!(n, "events"),
        a => panic!("unexpected {:?}", a),
    }
    assert!(matches!(handle_exchange_list_key(Key::Esc, &state(0), &r), ExchangeAction::Back));
}

#[test]
fn exchange_filter_keys() {
    let r = rows();
    let typing = ExchangeListState { filter_active: true, filter_focused: true, filter_empty: false, ..state(0) };
    assert!(matches!(handle_exchange_list_key(Key::Char('x'), &typing, &r), ExchangeAction::FilterPush('x')));
    assert!(matches!(handle_exchange_list_key(Key::Esc, &typing, &r), ExchangeAction::ClearFilter));
    let empty = ExchangeListState { filter_empty: true, ..typing };
    assert!(matches!(handle_exchange_list_key(Key::Esc, &empty, &r), ExchangeAction::CloseFilter));
    assert!(matches!(handle_exchange_list_key(Key::Enter, &typing, &r), ExchangeAction::LeaveFilter));
    let open = ExchangeListState { filter_focused: false, ..typing };
    assert!(matches!(handle_exchange_list_key(Key::BackTab, &open, &r), ExchangeAction::FocusFilter));
    assert!(matches!(handle_exchange_list_key(Key::Esc, &open, &r), ExchangeAction::DropFilter));
    assert!(matches!(handle_exchange_list_key(Key::Char('/'), &state(0), &r), ExchangeAction::OpenFilter));
}

#[test]
fn expanding_twice_folds_again() {
    let mut e: Vec<String> = vec!["a".to_string()];
    toggle_expanded(&mut e, "b");
    assert_eq!(e, vec!["a", "b"]);
    toggle_expanded(&mut e, "a");
    assert_eq!(e, vec!["b"]);
    toggle_expanded(&mut e, "b");
    assert!(e.is_empty());
}
