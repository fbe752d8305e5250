use queuepeek::results::{bg_outcome, BgEvent, PopupChange, Reload};
use queuepeek::session::Screen;

fn status(e: BgEvent, screen: Screen) -> (Option<(String, bool)>, PopupChange, Option<bool>, Reload, bool) {
    let o = bg_outcome(e, screen, "/", "orders", "orders");
    (o.status, o.popup, o.loading, o.reload, o.stale)
}

#[test]
fn loads_report_counts_or_errors() {
    let (s, _, l, _, stale) = status(BgEvent::Queues { namespace: "/".to_string(), result: Ok(3) }, Screen::QueueList);
    assert_eq!(s, Some(("3 queues loaded".to_string(), false)));
    assert_eq!(l, Some(false));
    assert!(!stale);
    let (_, _, _, _, stale) = status(BgEvent::Queues { namespace: "other".to_string(), result: Ok(3) }, Screen::QueueList);
    assert!(stale);
    let (s, _, _, _, _) = status(BgEvent::Messages { queue: "orders".to_string(), result: Ok(2) }, Screen::MessageList);
    assert_eq!(s, Some(("2 messages from orders".to_string(), false)));
    let (s, _, _, _, _) = status(BgEvent::Messages { queue: "orders".to_string(), result: Err("timeout".to_string()) }, Screen::MessageList);
    assert_eq!(s, Some(("Error: timeout".to_string(), true)));
    let (s, _, l, _, _) = status(BgEvent::NamespacesFailed("401".to_string()), Screen::ProfileSelect);
    assert_eq!(s, Some(("Error loading namespaces: 401".to_string(), true)));
    assert_eq!(l, Some(false));
}

#[test]
fn publishing_reloads_open_queue() {
    let (s, p, l, r, _) = status(BgEvent::Published(Ok(())), Screen::MessageList);
    assert_eq!(s, Some(("Message published".to_string(), false)));
    assert_eq!(p, PopupChange::Close);
    assert_eq!(l, Some(true));
    assert_eq!(r, Reload::Messages);
    let (_, _, l, r, _) = status(BgEvent::Published(Ok(())), Screen::QueueList);
    assert_eq!(l, None);
    assert_eq!(r, Reload::Nothing);
    let o = bg_outcome(BgEvent::Published(Err("nack".to_string())), Screen::QueueList, "/", "q", "q");
    assert_eq!(o.publish_error, Some("Publish failed: nack".to_string()));
    assert_eq!(o.status, None);
}

#[test]
fn queue_operations() {
    let (s, _, l, r, _) = status(BgEvent::Purged(Ok(())), Screen::QueueList);
    assert_eq!(s, Some(("Queue purged".to_string(), false)));
    assert_eq!((l, r), (Some(true), Reload::Queues));
    let (s, _, _, r, _) = status(BgEvent::Deleted(Err("busy".to_string())), Screen::QueueList);
    assert_eq!(s, Some(("Delete failed: busy".to_string(), true)));
    assert_eq!(r, Reload::Nothing);
    let (s, p, _, _, _) = status(BgEvent::OperationComplete(Ok("Moved 3 messages".to_string())), Screen::QueueList);
    assert_eq!(s, Some(("Moved 3 messages".to_string(), false)));
    assert_eq!(p, PopupChange::Close);
    let (s, _, _, _, _) = status(BgEvent::ReplayComplete(Ok(12)), Screen::MessageList);
    assert_eq!(s, Some(("Replayed 12 messages".to_string(), false)));
}

#[test]
fn empty_listings_close_their_popup() {
    let (s, p, _, _, _) = status(BgEvent::RetainedMessages(Ok(0)), Screen::QueueList);
    assert_eq!(s, Some(("No retained messages found".to_string(), false)));
    assert_eq!(p, PopupChange::Close);
    let (s, p, _, _, _) = status(BgEvent::Permissions(Ok(4)), Screen::QueueList);
    assert_eq!(s, Some(("4 permission(s) loaded".to_string(), false)));
    assert_eq!(p, PopupChange::Keep);
    let (s, p, _, _, _) = status(BgEvent::Topology(Err("x".to_string())), Screen::QueueList);
    assert_eq!(s, Some(("Topology: x".to_string(), true)));
    assert_eq!(p, PopupChange::Close);
}

#[test]
fn offset_reset_returns_to_groups() {
    let (s, p, _, r, _) = status(BgEvent::OffsetReset(Ok("done".to_string())), Screen::QueueList);
    assert_eq!(s, Some(("done".to_string(), false)));
    assert_eq!(p, PopupChange::ConsumerGroups);
    assert_eq!(r, Reload::ConsumerGroups);
    let o = bg_outcome(BgEvent::OffsetReset(Ok("done".to_string())), Screen::QueueList, "/", "q", "");
    assert_eq!(o.reload, Reload::Nothing);
}
