use queuepeek::comparison::ComparisonTab;
use queuepeek::forms::PublishForm;
use queuepeek::keys::{Key, ResetPick};
use queuepeek::model::ConsumerGroupInfo;
use queuepeek::popup::{
    after_removal, handle_bench_key, handle_consumer_groups_key, handle_popup_key,
    handle_publish_key, handle_queue_picker_key, handle_replay_key, handle_stored_list_key,
    handle_text_input_key, picker_rows_of, AfterRemoval, BenchForm, BenchStep, GroupsStep,
    PickerAction, PickerKind, PopupContext, PopupStep, PublishKey, QueuePicker, ReplayForm,
    ReplayStep, StoredStep, TextStep,
};
use queuepeek::session::{Popup, QueueOperation};

fn ctx() -> PopupContext {
    PopupContext {
        cursor: None,
        profiles: 2,
        namespaces: 3,
        has_queue: true,
        scroll: 4,
        tab: ComparisonTab::Summary,
        bench_done: false,
    }
}

fn names(v: &[&str]) -> Vec<String> {
    v.iter().map(|s| s.to_string()).collect()
}

#[test]
fn dispatcher_answers_simple_popups() {
    let c = ctx();
    assert_eq!(handle_popup_key(&Popup::Help, Key::Char('?'), "", &c), PopupStep::Close);
    assert_eq!(handle_popup_key(&Popup::Help, Key::Char('x'), "", &c), PopupStep::Nothing);
    assert_eq!(handle_popup_key(&Popup::ProfileSwitch, Key::Enter, "", &c), PopupStep::ConnectProfile(0));
    assert_eq!(
        handle_popup_key(&Popup::NamespacePicker, Key::Down, "", &c),
        PopupStep::MoveCursor(Some(1))
    );
    // without a cursor the fetch count picker picks its third preset
    assert_eq!(handle_popup_key(&Popup::FetchCount, Key::Enter, "", &c), PopupStep::SetFetchCount(50));
    assert_eq!(handle_popup_key(&Popup::ScheduleDelay, Key::Esc, "", &c), PopupStep::BackToPublish);
    assert_eq!(handle_popup_key(&Popup::ConfirmPurge, Key::Char('y'), "", &c), PopupStep::Purge);
    assert_eq!(handle_popup_key(&Popup::ConfirmPurge, Key::Char('n'), "", &c), PopupStep::Close);
    let no_queue = PopupContext { has_queue: false, ..c };
    assert_eq!(handle_popup_key(&Popup::ConfirmDelete, Key::Char('Y'), "", &no_queue), PopupStep::Nothing);
    assert_eq!(
        handle_popup_key(&Popup::ConfirmResetOffset, Key::Esc, "", &c),
        PopupStep::BackToGroups
    );
    assert_eq!(handle_popup_key(&Popup::QueueInfo, Key::PageDown, "", &c), PopupStep::Scroll(14));
    assert_eq!(handle_popup_key(&Popup::QueueInfo, Key::Char('i'), "", &c), PopupStep::Close);
    assert_eq!(
        handle_popup_key(&Popup::CompareResults, Key::BackTab, "", &c),
        PopupStep::ShowTab(ComparisonTab::OnlyInB)
    );
    assert_eq!(
        handle_popup_key(&Popup::BenchmarkRunning, Key::Esc, "", &PopupContext { bench_done: true, ..c }),
        PopupStep::Benchmark { cancel: true, close: true }
    );
    assert_eq!(handle_popup_key(&Popup::ExportMessages, Key::Char('z'), "", &c), PopupStep::Close);
    assert_eq!(
        handle_popup_key(&Popup::ResetOffsetPicker, Key::Esc, "", &c),
        PopupStep::Strategy(ResetPick::Back)
    );
    assert_eq!(handle_popup_key(&Popup::SaveFilter, Key::Enter, "", &c), PopupStep::Delegate);
}

#[test]
fn theme_picker_previews_while_moving() {
    let c = PopupContext { cursor: Some(3), ..ctx() };
    assert_eq!(
        handle_popup_key(&Popup::ThemePicker, Key::Down, "", &c),
        PopupStep::PreviewTheme { cursor: Some(4), theme: Some(4) }
    );
    assert_eq!(handle_popup_key(&Popup::ThemePicker, Key::Enter, "", &c), PopupStep::ApplyTheme(3));
    let none = PopupContext { cursor: None, ..ctx() };
    assert_eq!(handle_popup_key(&Popup::ThemePicker, Key::Enter, "", &none), PopupStep::Nothing);
}

#[test]
fn publish_form_keys() {
    let mut f = PublishForm::new_for_queue("orders");
    assert_eq!(handle_publish_key(&mut f, Key::Enter, false, false), PublishKey::Nothing);
    assert_eq!(f.body, "\n");
    f.body.clear();
    f.focused_field = 0;
    assert_eq!(handle_publish_key(&mut f, Key::Enter, false, false), PublishKey::Nothing);
    assert_eq!(f.error, "Body is required");
    handle_publish_key(&mut f, Key::Tab, false, false);
    handle_publish_key(&mut f, Key::Tab, false, false);
    assert_eq!(f.focused_field, 2);
    handle_publish_key(&mut f, Key::Char('x'), false, false);
    assert_eq!(f.body, "x");
    assert_eq!(handle_publish_key(&mut f, Key::Char('s'), true, false), PublishKey::PickDelay);
    assert_eq!(f.error, "");
    assert_eq!(handle_publish_key(&mut f, Key::Char('t'), true, false), PublishKey::Nothing);
    assert_eq!(f.error, "No templates saved yet");
    assert_eq!(handle_publish_key(&mut f, Key::Char('t'), true, true), PublishKey::PickTemplate);
    assert_eq!(handle_publish_key(&mut f, Key::Char('w'), true, true), PublishKey::NameTemplate);
    handle_publish_key(&mut f, Key::Up, false, false);
    assert_eq!(f.focused_field, 1);
    assert_eq!(handle_publish_key(&mut f, Key::Enter, false, false), PublishKey::Publish);
    handle_publish_key(&mut f, Key::Backspace, false, false);
    assert_eq!(f.content_type, "application/jso");
    assert_eq!(handle_publish_key(&mut f, Key::Esc, false, false), PublishKey::Close);
}

#[test]
fn picker_offers_matching_queues() {
    let q = names(&["Orders", "orders.dlq", "payments"]);
    assert_eq!(picker_rows_of(&q, "ORD", None), vec![0, 1]);
    assert_eq!(picker_rows_of(&q, "", Some("orders.dlq")), vec![0, 2]);
}

#[test]
fn picker_transfers_and_compares() {
    let q = names(&["a", "b", "c"]);
    let mut p = QueuePicker { filter: String::new(), filter_active: false, cursor: None };
    let kind = PickerKind::Queues(QueueOperation::Move);
    // Enter without a cursor picks the first row, which is the source here
    let r = handle_queue_picker_key(&mut p, kind, Key::Enter, &q, Some("a"), "");
    assert!(matches!(r, PickerAction::SameQueue));
    handle_queue_picker_key(&mut p, kind, Key::Char('/'), &q, Some("a"), "");
    assert!(p.filter_active);
    handle_queue_picker_key(&mut p, kind, Key::Char('c'), &q, Some("a"), "");
    assert_eq!(p.cursor, Some(0));
    handle_queue_picker_key(&mut p, kind, Key::Enter, &q, Some("a"), "");
    assert!(!p.filter_active);
    match handle_queue_picker_key(&mut p, kind, Key::Enter, &q, Some("a"), "") {
        PickerAction::Transfer { source, dest, op } => {
            assert_eq!(source, "a");
            assert_eq!(dest, "c");
            assert_eq!(op, QueueOperation::Move);
        }
        _ => panic!("expected a transfer"),
    }
    assert!(p.filter.is_empty());
    // a comparison leaves the first queue out
    let mut p = QueuePicker { filter: String::new(), filter_active: false, cursor: None };
    match handle_queue_picker_key(&mut p, PickerKind::Compare, Key::Enter, &q, None, "a") {
        PickerAction::Compare { first, second } => {
            assert_eq!(first, "a");
            assert_eq!(second, "b");
        }
        _ => panic!("expected a comparison"),
    }
    let mut p = QueuePicker { filter: "x".to_string(), filter_active: false, cursor: Some(1) };
    let kind = PickerKind::Messages(QueueOperation::Copy);
    assert!(matches!(handle_queue_picker_key(&mut p, kind, Key::Esc, &q, None, ""), PickerAction::Close));
    assert!(p.filter.is_empty());
    let mut p = QueuePicker { filter: String::new(), filter_active: false, cursor: Some(2) };
    match handle_queue_picker_key(&mut p, kind, Key::Enter, &q, None, "") {
        PickerAction::SendSelected { dest, op } => {
            assert_eq!(dest, "c");
            assert_eq!(op, QueueOperation::Copy);
        }
        _ => panic!("expected sending the selection"),
    }
}

fn group(name: &str, state: &str) -> ConsumerGroupInfo {
    ConsumerGroupInfo {
        name: name.to_string(),
        state: state.to_string(),
        members: 0,
        total_lag: 0,
        partitions: Vec::new(),
    }
}

#[test]
fn consumer_group_keys() {
    let g: Vec<ConsumerGroupInfo> = (0..8).map(|i| group(&format!("g{}", i), "Empty")).collect();
    assert_eq!(handle_consumer_groups_key(Key::Down, None, &g, Some(true)), GroupsStep::Select(1));
    assert_eq!(handle_consumer_groups_key(Key::PageDown, Some(5), &g, Some(true)), GroupsStep::Select(7));
    assert_eq!(handle_consumer_groups_key(Key::PageDown, Some(1), &g, Some(true)), GroupsStep::Select(6));
    assert_eq!(handle_consumer_groups_key(Key::PageUp, Some(3), &g, Some(true)), GroupsStep::Select(0));
    assert_eq!(handle_consumer_groups_key(Key::Up, None, &g, Some(true)), GroupsStep::Nothing);
    assert_eq!(handle_consumer_groups_key(Key::Char('R'), Some(2), &g, Some(false)), GroupsStep::NotKafka);
    assert_eq!(handle_consumer_groups_key(Key::Char('R'), Some(2), &g, None), GroupsStep::Nothing);
    assert_eq!(handle_consumer_groups_key(Key::Char('R'), Some(2), &g, Some(true)), GroupsStep::PickStrategy(2));
    let active = vec![group("live", "Stable")];
    assert_eq!(
        handle_consumer_groups_key(Key::Char('R'), Some(0), &active, Some(true)),
        GroupsStep::GroupActive
    );
    assert_eq!(handle_consumer_groups_key(Key::Char('G'), None, &g, None), GroupsStep::Close);
    assert_eq!(handle_consumer_groups_key(Key::Down, None, &Vec::new(), None), GroupsStep::Nothing);
}

#[test]
fn stored_lists_use_and_remove() {
    assert_eq!(handle_stored_list_key(Key::Enter, Some(1), 2, true), StoredStep::Use(1));
    assert_eq!(handle_stored_list_key(Key::Enter, Some(1), 2, false), StoredStep::Nothing);
    assert_eq!(handle_stored_list_key(Key::Enter, None, 2, true), StoredStep::Nothing);
    assert_eq!(handle_stored_list_key(Key::Delete, Some(0), 2, false), StoredStep::Remove(0));
    assert_eq!(handle_stored_list_key(Key::Char('d'), Some(2), 2, false), StoredStep::Nothing);
    assert_eq!(handle_stored_list_key(Key::Down, None, 2, true), StoredStep::MoveCursor(Some(1)));
    assert_eq!(after_removal(0, 0), AfterRemoval::Close);
    assert_eq!(after_removal(3, 3), AfterRemoval::Select(2));
    assert_eq!(after_removal(1, 3), AfterRemoval::Keep);
}

#[test]
fn text_inputs_submit_and_cancel() {
    let mut t = String::new();
    assert_eq!(handle_text_input_key(&mut t, Key::Enter, false, false), TextStep::Nothing);
    assert_eq!(handle_text_input_key(&mut t, Key::Enter, true, true), TextStep::Submit);
    handle_text_input_key(&mut t, Key::Char('a'), false, false);
    handle_text_input_key(&mut t, Key::Char('b'), false, false);
    handle_text_input_key(&mut t, Key::Backspace, false, false);
    assert_eq!(t, "a");
    assert_eq!(handle_text_input_key(&mut t, Key::Enter, false, false), TextStep::Submit);
    assert_eq!(handle_text_input_key(&mut t, Key::Esc, false, false), TextStep::Cancel);
    assert_eq!(t, "a");
    assert_eq!(handle_text_input_key(&mut t, Key::Esc, true, true), TextStep::Cancel);
    assert_eq!(t, "");
}

#[test]
fn replay_form_needs_a_destination() {
    let mut f = ReplayForm { start: String::new(), end: String::new(), dest: String::new(), focused: 0 };
    handle_replay_key(&mut f, Key::Char('1'), );
    assert_eq!(f.start, "1");
    handle_replay_key(&mut f, Key::BackTab);
    assert_eq!(f.focused, 2);
    assert_eq!(handle_replay_key(&mut f, Key::Enter), ReplayStep::NeedsDestination);
    handle_replay_key(&mut f, Key::Char('t'));
    assert_eq!(f.dest, "t");
    assert_eq!(handle_replay_key(&mut f, Key::Enter), ReplayStep::Replay);
    handle_replay_key(&mut f, Key::Tab);
    assert_eq!(f.focused, 0);
    handle_replay_key(&mut f, Key::Backspace);
    assert_eq!(f.start, "");
    assert_eq!(handle_replay_key(&mut f, Key::Esc), ReplayStep::Close);
}

#[test]
fn bench_form_takes_digits_only() {
    let mut f = BenchForm { count: "1".to_string(), concurrency: String::new(), focused: 0 };
    handle_bench_key(&mut f, Key::Char('0'));
    handle_bench_key(&mut f, Key::Char('x'));
    assert_eq!(f.count, "10");
    handle_bench_key(&mut f, Key::Up);
    assert_eq!(f.focused, 1);
    handle_bench_key(&mut f, Key::Char('4'));
    assert_eq!(f.concurrency, "4");
    handle_bench_key(&mut f, Key::Backspace);
    assert_eq!(f.concurrency, "");
    assert_eq!(handle_bench_key(&mut f, Key::Enter), BenchStep::Run);
    assert_eq!(handle_bench_key(&mut f, Key::Esc), BenchStep::Close);
}
