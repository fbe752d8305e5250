use queuepeek::comparison::ComparisonTab;
use queuepeek::keys::{route_key, KeyRoute};
use queuepeek::session::Screen;
use queuepeek::updater::UpdateChecker;
use queuepeek::keys::{
    handle_list_popup_key, handle_message_list_key, handle_queue_list_key,
    handle_reset_input_key, handle_reset_picker_key, handle_scroll_keys, is_confirmation,
    next_tab, previous_tab, Key, ListAction, MessageListAction, MessageListState,
    QueueListAction, QueueListState, ResetInput, ResetPick,
};
use queuepeek::model::OffsetResetStrategy;
use queuepeek::session::QueueOperation;

fn queues() -> QueueListState {
    QueueListState {
        filter_active: false,
        filter_focused: false,
        filter_empty: true,
        cursor: Some(1),
        shown: 3,
        selected: Some(4),
        has_namespaces: true,
        namespace_row: 2,
        fetch_count: 50,
        has_scheduled: false,
        connected: true,
        mqtt: false,
    }
}

fn messages() -> MessageListState {
    MessageListState {
        filter_active: false,
        filter_focused: false,
        filter_empty: true,
        cursor: Some(0),
        loaded: 5,
        shown: 2,
        highlighted: Some(3),
        selected: 0,
        targets: 1,
        has_queue: true,
        fetch_count: 100,
        has_scheduled: true,
        auto_refresh: false,
        connected: true,
        kafka: true,
        has_saved_filters: false,
        ctrl: false,
    }
}

#[test]
fn queue_list_keys() {
    let s = queues();
    assert_eq!(handle_queue_list_key(Key::Char('q'), &s), QueueListAction::Quit);
    assert_eq!(handle_queue_list_key(Key::Down, &s), QueueListAction::MoveCursor(Some(2)));
    assert_eq!(handle_queue_list_key(Key::Char('k'), &s), QueueListAction::MoveCursor(Some(0)));
    assert_eq!(
        handle_queue_list_key(Key::Enter, &s),
        QueueListAction::OpenQueue { queue: 4, close_filter: false }
    );
    assert_eq!(handle_queue_list_key(Key::Char('v'), &s), QueueListAction::PickNamespace(2));
    assert_eq!(handle_queue_list_key(Key::Char('f'), &s), QueueListAction::PickFetchCount(2));
    assert_eq!(handle_queue_list_key(Key::Char('+'), &s), QueueListAction::SetFetchCount(60));
    assert_eq!(handle_queue_list_key(Key::Char('-'), &s), QueueListAction::SetFetchCount(40));
    assert_eq!(
        handle_queue_list_key(Key::Char('m'), &s),
        QueueListAction::PickTarget(4, QueueOperation::Move)
    );
    assert_eq!(handle_queue_list_key(Key::Char('S'), &s), QueueListAction::NoScheduled);
    assert_eq!(handle_queue_list_key(Key::Char('H'), &s), QueueListAction::RetainedNeedsMqtt);
    assert_eq!(handle_queue_list_key(Key::F(5), &s), QueueListAction::Benchmark(4));
    assert_eq!(handle_queue_list_key(Key::Esc, &s), QueueListAction::Disconnect);
    assert_eq!(handle_queue_list_key(Key::Char('z'), &s), QueueListAction::Nothing);
}

#[test]
fn queue_keys_without_selection_do_nothing() {
    let mut s = queues();
    s.selected = None;
    s.cursor = None;
    assert_eq!(handle_queue_list_key(Key::Char('x'), &s), QueueListAction::Nothing);
    assert_eq!(handle_queue_list_key(Key::Enter, &s), QueueListAction::Nothing);
    assert_eq!(handle_queue_list_key(Key::Down, &s), QueueListAction::MoveCursor(Some(1)));
}

#[test]
fn queue_filter_keys() {
    let mut s = queues();
    s.filter_active = true;
    s.filter_focused = true;
    assert_eq!(handle_queue_list_key(Key::Char('q'), &s), QueueListAction::FilterPush('q'));
    assert_eq!(handle_queue_list_key(Key::Backspace, &s), QueueListAction::FilterPop);
    assert_eq!(handle_queue_list_key(Key::Down, &s), QueueListAction::LeaveFilter(Some(2)));
    assert_eq!(handle_queue_list_key(Key::Tab, &s), QueueListAction::LeaveFilter(Some(1)));
    assert_eq!(
        handle_queue_list_key(Key::Enter, &s),
        QueueListAction::OpenQueue { queue: 4, close_filter: true }
    );
    assert_eq!(handle_queue_list_key(Key::Esc, &s), QueueListAction::CloseFilter { clear: false });
    s.filter_empty = false;
    assert_eq!(handle_queue_list_key(Key::Esc, &s), QueueListAction::LeaveFilter(Some(1)));
    s.filter_focused = false;
    assert_eq!(handle_queue_list_key(Key::BackTab, &s), QueueListAction::FocusFilter);
    assert_eq!(handle_queue_list_key(Key::Esc, &s), QueueListAction::CloseFilter { clear: true });
}

#[test]
fn list_popups() {
    assert_eq!(handle_list_popup_key(Key::Esc, Some(1), 3, 0), ListAction::Close);
    assert_eq!(handle_list_popup_key(Key::Char('j'), Some(2), 3, 0), ListAction::MoveCursor(Some(2)));
    assert_eq!(handle_list_popup_key(Key::Up, Some(2), 3, 0), ListAction::MoveCursor(Some(1)));
    assert_eq!(handle_list_popup_key(Key::Enter, None, 6, 2), ListAction::Pick(2));
    assert_eq!(handle_list_popup_key(Key::Enter, Some(7), 6, 2), ListAction::Nothing);
    assert!(is_confirmation(Key::Char('Y')));
    assert!(!is_confirmation(Key::Char('n')));
}

#[test]
fn scrolling_saturates() {
    assert_eq!(handle_scroll_keys(Key::Down, 3), 4);
    assert_eq!(handle_scroll_keys(Key::Char('k'), 0), 0);
    assert_eq!(handle_scroll_keys(Key::PageDown, u16::MAX - 3), u16::MAX);
    assert_eq!(handle_scroll_keys(Key::PageUp, 7), 0);
    assert_eq!(handle_scroll_keys(Key::Other, 7), 7);
}

#[test]
fn comparison_tabs_cycle() {
    for t in [ComparisonTab::Summary, ComparisonTab::OnlyInA, ComparisonTab::OnlyInB] {
        assert_eq!(previous_tab(next_tab(t)), t);
        assert_eq!(next_tab(next_tab(next_tab(t))), t);
    }
    assert_eq!(next_tab(ComparisonTab::Summary), ComparisonTab::OnlyInA);
}

#[test]
fn offset_reset_keys() {
    assert_eq!(handle_reset_picker_key(Key::Enter, Some(1)), ResetPick::Confirm(OffsetResetStrategy::Latest));
    assert_eq!(handle_reset_picker_key(Key::Enter, None), ResetPick::Confirm(OffsetResetStrategy::Earliest));
    assert_eq!(handle_reset_picker_key(Key::Enter, Some(3)), ResetPick::AskNumber);
    assert_eq!(handle_reset_picker_key(Key::Down, Some(3)), ResetPick::MoveCursor(Some(3)));
    assert_eq!(handle_reset_picker_key(Key::Esc, Some(0)), ResetPick::Back);
    assert_eq!(handle_reset_input_key(Key::Char('7'), "", Some(2)), ResetInput::Type('7'));
    assert_eq!(handle_reset_input_key(Key::Char('x'), "", Some(2)), ResetInput::Nothing);
    assert_eq!(
        handle_reset_input_key(Key::Enter, "1700000000000", Some(2)),
        ResetInput::Confirm(OffsetResetStrategy::ToTimestamp(1700000000000))
    );
    assert_eq!(
        handle_reset_input_key(Key::Enter, "-5", Some(3)),
        ResetInput::Confirm(OffsetResetStrategy::ToOffset(-5))
    );
    assert_eq!(handle_reset_input_key(Key::Enter, "--", Some(3)), ResetInput::Invalid);
}

#[test]
fn message_list_keys() {
    let s = messages();
    assert_eq!(handle_message_list_key(Key::Down, &s), MessageListAction::MoveCursor(Some(1)));
    assert_eq!(
        handle_message_list_key(Key::Enter, &s),
        MessageListAction::OpenMessage { message: 3, close_filter: false }
    );
    assert_eq!(handle_message_list_key(Key::Char(' '), &s), MessageListAction::ToggleSelection(Some(1)));
    assert_eq!(handle_message_list_key(Key::Char('='), &s), MessageListAction::SetFetchCount(110));
    assert_eq!(handle_message_list_key(Key::Char('d'), &s), MessageListAction::Nothing);
    assert_eq!(handle_message_list_key(Key::Char('T'), &s), MessageListAction::SetAutoRefresh(true));
    assert_eq!(handle_message_list_key(Key::Char('Y'), &s), MessageListAction::Replay);
    assert_eq!(handle_message_list_key(Key::Char('B'), &s), MessageListAction::NoSavedFilters);
    assert_eq!(handle_message_list_key(Key::Char('b'), &s), MessageListAction::Nothing);
    assert_eq!(handle_message_list_key(Key::Esc, &s), MessageListAction::Leave);
    let mut t = messages();
    t.selected = 2;
    t.ctrl = true;
    assert_eq!(handle_message_list_key(Key::Char('d'), &t), MessageListAction::Diff);
    assert_eq!(handle_message_list_key(Key::Char('b'), &t), MessageListAction::NoFilterToSave);
    assert_eq!(handle_message_list_key(Key::Esc, &t), MessageListAction::ClearSelection);
    t.selected = 3;
    assert_eq!(handle_message_list_key(Key::Char('d'), &t), MessageListAction::DiffNeedsTwo);
}

#[test]
fn message_filter_keys() {
    let mut s = messages();
    s.filter_active = true;
    s.filter_focused = true;
    assert_eq!(handle_message_list_key(Key::Tab, &s), MessageListAction::ToggleAdvanced);
    assert_eq!(handle_message_list_key(Key::Char('x'), &s), MessageListAction::FilterPush('x'));
    assert_eq!(handle_message_list_key(Key::Up, &s), MessageListAction::LeaveFilter(Some(0)));
    assert_eq!(
        handle_message_list_key(Key::Enter, &s),
        MessageListAction::OpenMessage { message: 3, close_filter: true }
    );
}

#[test]
fn keys_are_routed_before_the_screens() {
    let mut checker = UpdateChecker::new();
    assert!(matches!(route_key(Key::Char('c'), true, true, &checker, Screen::QueueList), KeyRoute::Quit));
    assert!(matches!(
        route_key(Key::Char('c'), false, false, &checker, Screen::QueueList),
        KeyRoute::Screen(Screen::QueueList)
    ));
    assert!(matches!(
        route_key(Key::Char('U'), false, false, &checker, Screen::MessageList),
        KeyRoute::Screen(Screen::MessageList)
    ));
    checker.update_available = true;
    checker.latest_version = Some("1.4.0".to_string());
    match route_key(Key::Char('U'), false, false, &checker, Screen::MessageList) {
        KeyRoute::OfferUpdate(t) => assert_eq!(t, "v1.4.0 available"),
        _ => panic!("expected an update offer"),
    }
    checker.latest_version = None;
    match route_key(Key::Char('U'), false, false, &checker, Screen::MessageList) {
        KeyRoute::OfferUpdate(t) => assert_eq!(t, "vnew available"),
        _ => panic!("expected an update offer"),
    }
    assert!(matches!(
        route_key(Key::Char('U'), false, true, &checker, Screen::MessageDetail),
        KeyRoute::Screen(Screen::MessageDetail)
    ));
}
