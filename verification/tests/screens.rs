use queuepeek::comparison::ComparisonTab;
use queuepeek::keys::{Key, MessageListAction, QueueListAction};
use queuepeek::model::MessageInfo;
use queuepeek::popup::PopupStep;
use queuepeek::screens::{
    apply_message_action, apply_popup_step, apply_queue_action, message_list_key, MessageListContext,
    MessageScreen, PopupScreen, QueueScreen,
};
use queuepeek::session::{MessageBrowser, Popup, QueueBrowser, QueueOperation, Screen};

fn msg(body: &str) -> MessageInfo {
    MessageInfo {
        index: 0,
        routing_key: "k".to_string(),
        exchange: String::new(),
        redelivered: false,
        timestamp: None,
        content_type: String::new(),
        headers: vec![],
        body: body.to_string(),
    }
}

fn message_screen() -> MessageScreen {
    let mut browser = MessageBrowser::new();
    browser.load(vec![msg("apple"), msg("banana"), msg("apricot")]);
    MessageScreen {
        browser,
        screen: Screen::MessageList,
        filter_active: false,
        filter_focused: false,
        auto_refresh: true,
        fetch_count: 50,
        detail: 0,
    }
}

fn context() -> MessageListContext {
    MessageListContext {
        has_queue: true,
        has_scheduled: false,
        connected: true,
        kafka: false,
        has_saved_filters: false,
        ctrl: false,
    }
}

#[test]
fn escape_clears_the_selection_then_leaves() {
    let mut s = message_screen();
    let c = context();
    assert!(matches!(message_list_key(&mut s, Key::Char(' '), &c), MessageListAction::Nothing));
    assert_eq!(s.browser.selected(), &vec![0]);
    assert_eq!(s.browser.cursor(), Some(1));
    assert!(matches!(message_list_key(&mut s, Key::Esc, &c), MessageListAction::Nothing));
    assert!(s.browser.selected().is_empty());
    assert_eq!(s.screen, Screen::MessageList);
    assert_eq!(s.browser.messages().len(), 3);
    assert!(matches!(message_list_key(&mut s, Key::Esc, &c), MessageListAction::Nothing));
    assert_eq!(s.screen, Screen::QueueList);
    assert!(s.browser.messages().is_empty());
    assert_eq!(s.browser.filter(), "");
    assert!(!s.auto_refresh);
}

#[test]
fn filter_keys_refilter_and_move_the_cursor() {
    let mut s = message_screen();
    let c = context();
    message_list_key(&mut s, Key::Char('/'), &c);
    assert!(s.filter_active && s.filter_focused);
    message_list_key(&mut s, Key::Char('a'), &c);
    message_list_key(&mut s, Key::Char('p'), &c);
    assert_eq!(s.browser.filter(), "ap");
    assert_eq!(s.browser.filtered(), &vec![0, 2]);
    assert_eq!(s.browser.cursor(), Some(0));
    message_list_key(&mut s, Key::Char('z'), &c);
    assert!(s.browser.filtered().is_empty());
    assert_eq!(s.browser.cursor(), None);
    message_list_key(&mut s, Key::Backspace, &c);
    assert_eq!(s.browser.filtered(), &vec![0, 2]);
    message_list_key(&mut s, Key::Esc, &c);
    assert!(s.filter_active && !s.filter_focused);
    message_list_key(&mut s, Key::Char('a'), &c);
    assert_eq!(s.browser.selected(), &vec![0, 2]);
    message_list_key(&mut s, Key::Esc, &c);
    assert!(!s.filter_active);
    assert_eq!(s.browser.filter(), "");
    assert_eq!(s.browser.filtered(), &vec![0, 1, 2]);
}

#[test]
fn message_actions_left_for_the_caller() {
    let mut s = message_screen();
    assert!(matches!(apply_message_action(&mut s, MessageListAction::SetFetchCount(60)), MessageListAction::SetFetchCount(60)));
    assert_eq!(s.fetch_count, 60);
    assert!(matches!(apply_message_action(&mut s, MessageListAction::Reload), MessageListAction::Reload));
    assert!(matches!(
        apply_message_action(&mut s, MessageListAction::OpenMessage { message: 2, close_filter: true }),
        MessageListAction::OpenMessage { message: 2, .. }
    ));
    assert_eq!(s.screen, Screen::MessageDetail);
    assert_eq!(s.detail, 2);
}

#[test]
fn queue_actions_open_and_disconnect() {
    let mut qb = QueueBrowser::new();
    qb.load(vec!["orders".to_string(), "payments".to_string()]);
    let mut q = QueueScreen {
        browser: qb,
        screen: Screen::QueueList,
        filter_active: false,
        filter_focused: false,
        fetch_count: 50,
        current_queue: String::new(),
        connected: true,
    };
    let mut m = message_screen().browser;
    apply_queue_action(&mut q, &mut m, QueueListAction::FilterPush('p'));
    assert_eq!(q.browser.filter, "p");
    assert_eq!(q.browser.filtered, vec![1]);
    assert_eq!(q.browser.cursor, Some(0));
    assert_eq!(m.messages().len(), 3);
    let left = apply_queue_action(&mut q, &mut m, QueueListAction::OpenQueue { queue: 1, close_filter: true });
    assert!(matches!(left, QueueListAction::OpenQueue { queue: 1, .. }));
    assert_eq!(q.current_queue, "payments");
    assert_eq!(q.screen, Screen::MessageList);
    assert!(!q.filter_active);
    assert!(m.messages().is_empty());
    apply_queue_action(&mut q, &mut m, QueueListAction::Disconnect);
    assert_eq!(q.screen, Screen::ProfileSelect);
    assert!(!q.connected && q.browser.names.is_empty() && q.current_queue.is_empty());
    assert!(matches!(
        apply_queue_action(&mut q, &mut m, QueueListAction::PickTarget(0, QueueOperation::Copy)),
        QueueListAction::PickTarget(0, QueueOperation::Copy)
    ));
}

#[test]
fn popup_steps_change_the_popup_state() {
    let mut p = PopupScreen {
        popup: Popup::CompareResults,
        cursor: None,
        scroll: 7,
        tab: ComparisonTab::Summary,
        theme: 0,
        fetch_count: 50,
    };
    assert!(matches!(apply_popup_step(&mut p, PopupStep::ShowTab(ComparisonTab::OnlyInA)).step, PopupStep::Nothing));
    assert_eq!((p.scroll, p.tab), (0, ComparisonTab::OnlyInA));
    apply_popup_step(&mut p, PopupStep::PreviewTheme { cursor: Some(3), theme: Some(3) });
    assert_eq!((p.cursor, p.theme), (Some(3), 3));
    assert!(matches!(apply_popup_step(&mut p, PopupStep::ApplyTheme(2)).step, PopupStep::ApplyTheme(2)));
    assert!(p.popup.is_none());
    assert_eq!(p.theme, 2);
    p.popup = Popup::FetchCount;
    apply_popup_step(&mut p, PopupStep::SetFetchCount(100));
    assert_eq!(p.fetch_count, 100);
    assert!(p.popup.is_none());
    p.popup = Popup::ResetOffsetPicker;
    apply_popup_step(&mut p, PopupStep::BackToGroups);
    assert!(matches!(p.popup, Popup::ConsumerGroups));
    p.popup = Popup::ConfirmReroute { exchange: "orders".to_string(), routing_key: "eu".to_string(), count: 2 };
    let out = apply_popup_step(&mut p, PopupStep::Reroute);
    assert!(matches!(out.step, PopupStep::Reroute));
    assert_eq!(out.reroute, Some(("orders".to_string(), "eu".to_string())));
    assert!(p.popup.is_none());
    p.popup = Popup::ConfirmReroute { exchange: "orders".to_string(), routing_key: "eu".to_string(), count: 2 };
    let out = apply_popup_step(&mut p, PopupStep::Close);
    assert!(matches!(out.step, PopupStep::Nothing));
    assert_eq!(out.reroute, None);
    assert!(p.popup.is_none());
}
