//! What the browser does when a background task reports back: which popup
//! stays, whether it keeps loading, the status line it shows, and what it
//! loads next.

use vstd::prelude::*;
use crate::session::Screen;
use crate::text::{decimal, owned, push_decimal, push_str, same_text};

verus! {

/// A report of a background task, with the counts the decisions need.
#[derive(Debug)]
pub enum BgEvent {
    /// Listing the namespaces failed.
    NamespacesFailed(String),
    /// The queues of `namespace` loaded (how many), or failed.
    Queues { namespace: String, result: Result<usize, String> },
    /// The messages of `queue` loaded (how many), or failed.
    Messages { queue: String, result: Result<usize, String> },
    Published(Result<(), String>),
    Purged(Result<(), String>),
    Deleted(Result<(), String>),
    /// A copy, move or dump finished, with its report.
    OperationComplete(Result<String, String>),
    ConsumerGroups(Result<(), String>),
    /// A replay finished, with the number of messages replayed.
    ReplayComplete(Result<u64, String>),
    Topology(Result<(), String>),
    ScheduledPublished(Result<(), String>),
    OffsetReset(Result<String, String>),
    QueueDetail(Result<(), String>),
    /// The retained messages loaded (how many), or failed.
    RetainedMessages(Result<usize, String>),
    RetainedCleared(Result<String, String>),
    /// The permissions loaded (how many), or failed.
    Permissions(Result<usize, String>),
}

/// What happens to the open popup.
#[derive(Debug, Clone, Copy, PartialEq, Eq, Structural)]
pub enum PopupChange {
    Keep,
    Close,
    /// Back to the consumer groups popup.
    ConsumerGroups,
}

/// What to load next.
#[derive(Debug, Clone, Copy, PartialEq, Eq, Structural)]
pub enum Reload {
    Nothing,
    Queues,
    Messages,
    ConsumerGroups,
    Retained,
}

/// The decisions taken on a report.
#[derive(Debug)]
pub struct BgOutcome {
    /// The report is for a namespace or queue no longer shown: ignore it.
    pub stale: bool,
    pub popup: PopupChange,
    /// The new loading flag, if it changes.
    pub loading: Option<bool>,
    /// The new status line and whether it is an error.
    pub status: Option<(String, bool)>,
    /// The error shown in the publish form.
    pub publish_error: Option<String>,
    pub reload: Reload,
}

/// `prefix` followed by `text`.
fn prefixed(prefix: &str, text: &str) -> (r: String)
    ensures
        r@ == prefix@ + text@,
{
    let mut s = owned(prefix);
    push_str(&mut s, text);
    s
}

/// `n` in decimal followed by `suffix`.
fn counted(n: u64, suffix: &str) -> (r: String)
    ensures
        r@ == decimal(n as nat) + suffix@,
{
    let mut s = String::new();
    push_decimal(&mut s, n);
    push_str(&mut s, suffix);
    s
}

/// An outcome that changes nothing but what is given.
pub open spec fn plain(o: BgOutcome) -> bool {
    !o.stale && o.publish_error is None
}

/// Whether the status is this text, as an error or not.
pub open spec fn shows(o: BgOutcome, text: Seq<char>, error: bool) -> bool {
    o.status matches Some(p) && p.0@ == text && p.1 == error
}

/// Decides what a report changes. `screen` is the screen shown,
/// `namespace` the namespace browsed, `queue` the queue whose messages are
/// shown, and `groups_queue` the queue whose consumer groups are shown.
pub fn bg_outcome(event: BgEvent, screen: Screen, namespace: &str, queue: &str, groups_queue: &str) -> (r:
    BgOutcome)
    ensures
        event matches BgEvent::NamespacesFailed(e) ==> plain(r) && r.popup == PopupChange::Keep
            && r.loading == Some(false) && shows(r, "Error loading namespaces: "@ + e@, true)
            && r.reload == Reload::Nothing,
        event matches BgEvent::Queues { namespace: n, result } ==> if n@ != namespace@ {
            r.stale
        } else {
            &&& plain(r)
            &&& r.popup == PopupChange::Keep
            &&& r.loading == Some(false)
            &&& r.reload == Reload::Nothing
            &&& match result {
                Ok(count) => shows(r, decimal(count as nat) + " queues loaded"@, false),
                Err(e) => shows(r, "Error: "@ + e@, true),
            }
        },
        event matches BgEvent::Messages { queue: q, result } ==> if q@ != queue@ {
            r.stale
        } else {
            &&& plain(r)
            &&& r.popup == PopupChange::Keep
            &&& r.loading == Some(false)
            &&& r.reload == Reload::Nothing
            &&& match result {
                Ok(count) => shows(r, decimal(count as nat) + " messages from "@ + q@, false),
                Err(e) => shows(r, "Error: "@ + e@, true),
            }
        },
        event matches BgEvent::Published(res) ==> !r.stale && match res {
            Ok(_) => {
                &&& r.publish_error is None
                &&& r.popup == PopupChange::Close
                &&& shows(r, "Message published"@, false)
                &&& if screen == Screen::MessageList {
                    r.loading == Some(true) && r.reload == Reload::Messages
                } else {
                    r.loading is None && r.reload == Reload::Nothing
                }
            },
            Err(e) => {
                &&& r.publish_error matches Some(t) && t@ == "Publish failed: "@ + e@
                &&& r.popup == PopupChange::Keep
                &&& r.status is None
                &&& r.loading is None
                &&& r.reload == Reload::Nothing
            },
        },
        event matches BgEvent::Purged(res) ==> plain(r) && r.popup == PopupChange::Keep && match res {
            Ok(_) => shows(r, "Queue purged"@, false) && r.loading == Some(true) && r.reload
                == Reload::Queues,
            Err(e) => shows(r, "Purge failed: "@ + e@, true) && r.loading is None && r.reload
                == Reload::Nothing,
        },
        event matches BgEvent::Deleted(res) ==> plain(r) && r.popup == PopupChange::Keep && match res {
            Ok(_) => shows(r, "Queue deleted"@, false) && r.loading == Some(true) && r.reload
                == Reload::Queues,
            Err(e) => shows(r, "Delete failed: "@ + e@, true) && r.loading is None && r.reload
                == Reload::Nothing,
        },
        event matches BgEvent::OperationComplete(res) ==> plain(r) && r.popup == PopupChange::Close
            && match res {
            Ok(m) => shows(r, m@, false) && r.loading == Some(true) && r.reload == Reload::Queues,
            Err(e) => shows(r, e@, true) && r.loading is None && r.reload == Reload::Nothing,
        },
        event matches BgEvent::ConsumerGroups(res) ==> plain(r) && r.loading == Some(false)
            && r.reload == Reload::Nothing && match res {
            Ok(_) => r.popup == PopupChange::Keep && r.status is None,
            Err(e) => r.popup == PopupChange::Close && shows(r, "Consumer groups: "@ + e@, true),
        },
        event matches BgEvent::ReplayComplete(res) ==> plain(r) && r.popup == PopupChange::Close
            && r.loading is None && r.reload == Reload::Nothing && match res {
            Ok(n) => shows(r, "Replayed "@ + decimal(n as nat) + " messages"@, false),
            Err(e) => shows(r, "Replay failed: "@ + e@, true),
        },
        event matches BgEvent::Topology(res) ==> plain(r) && r.loading == Some(false) && r.reload
            == Reload::Nothing && match res {
            Ok(_) => r.popup == PopupChange::Keep && r.status is None,
            Err(e) => r.popup == PopupChange::Close && shows(r, "Topology: "@ + e@, true),
        },
        event matches BgEvent::ScheduledPublished(res) ==> plain(r) && r.popup == PopupChange::Keep
            && r.loading is None && match res {
            Ok(_) => shows(r, "Scheduled message published"@, false) && r.reload == (if screen
                == Screen::MessageList {
                Reload::Messages
            } else {
                Reload::Nothing
            }),
            Err(e) => shows(r, "Scheduled publish failed: "@ + e@, true) && r.reload
                == Reload::Nothing,
        },
        event matches BgEvent::OffsetReset(res) ==> plain(r) && r.popup == PopupChange::ConsumerGroups
            && r.loading is None && match res {
            Ok(m) => shows(r, m@, false) && r.reload == (if groups_queue@.len() > 0 {
                Reload::ConsumerGroups
            } else {
                Reload::Nothing
            }),
            Err(e) => shows(r, "Offset reset failed: "@ + e@, true) && r.reload == Reload::Nothing,
        },
        event matches BgEvent::QueueDetail(res) ==> plain(r) && r.loading == Some(false) && r.reload
            == Reload::Nothing && match res {
            Ok(_) => r.popup == PopupChange::Keep && r.status is None,
            Err(e) => r.popup == PopupChange::Close && shows(r, "Queue detail: "@ + e@, true),
        },
        event matches BgEvent::RetainedMessages(res) ==> plain(r) && r.loading == Some(false)
            && r.reload == Reload::Nothing && match res {
            Ok(n) => if n == 0 {
                r.popup == PopupChange::Close && shows(r, "No retained messages found"@, false)
            } else {
                r.popup == PopupChange::Keep && shows(
                    r,
                    decimal(n as nat) + " retained message(s) found"@,
                    false,
                )
            },
            Err(e) => r.popup == PopupChange::Close && shows(r, "Retained messages: "@ + e@, true),
        },
        event matches BgEvent::RetainedCleared(res) ==> plain(r) && r.popup == PopupChange::Keep
            && r.loading is None && match res {
            Ok(m) => shows(r, m@, false) && r.reload == Reload::Retained,
            Err(e) => shows(r, "Clear retained: "@ + e@, true) && r.reload == Reload::Nothing,
        },
        event matches BgEvent::Permissions(res) ==> plain(r) && r.loading == Some(false) && r.reload
            == Reload::Nothing && match res {
            Ok(n) => if n == 0 {
                r.popup == PopupChange::Close && shows(r, "No permissions found"@, false)
            } else {
                r.popup == PopupChange::Keep && shows(
                    r,
                    decimal(n as nat) + " permission(s) loaded"@,
                    false,
                )
            },
            Err(e) => r.popup == PopupChange::Close && shows(r, "Permissions: "@ + e@, true),
        },
{
    let mut out = BgOutcome {
        stale: false,
        popup: PopupChange::Keep,
        loading: None,
        status: None,
        publish_error: None,
        reload: Reload::Nothing,
    };
    match event {
        BgEvent::NamespacesFailed(e) => {
            out.loading = Some(false);
            out.status = Some((prefixed("Error loading namespaces: ", e.as_str()), true));
        },
        BgEvent::Queues { namespace: n, result } => {
            if !same_text(n.as_str(), namespace) {
                out.stale = true;
                return out;
            }
            out.loading = Some(false);
            match result {
                Ok(count) => {
                    out.status = Some((counted(count as u64, " queues loaded"), false));
                },
                Err(e) => {
                    out.status = Some((prefixed("Error: ", e.as_str()), true));
                },
            }
        },
        BgEvent::Messages { queue: q, result } => {
            if !same_text(q.as_str(), queue) {
                out.stale = true;
                return out;
            }
            out.loading = Some(false);
            match result {
                Ok(count) => {
                    let mut s = counted(count as u64, " messages from ");
                    push_str(&mut s, q.as_str());
                    out.status = Some((s, false));
                },
                Err(e) => {
                    out.status = Some((prefixed("Error: ", e.as_str()), true));
                },
            }
        },
        BgEvent::Published(res) => match res {
            Ok(_) => {
                out.popup = PopupChange::Close;
                out.status = Some((owned("Message published"), false));
                if screen == Screen::MessageList {
                    out.loading = Some(true);
                    out.reload = Reload::Messages;
                }
            },
            Err(e) => {
                out.publish_error = Some(prefixed("Publish failed: ", e.as_str()));
            },
        },
        BgEvent::Purged(res) => match res {
            Ok(_) => {
                out.status = Some((owned("Queue purged"), false));
                out.loading = Some(true);
                out.reload = Reload::Queues;
            },
            Err(e) => {
                out.status = Some((prefixed("Purge failed: ", e.as_str()), true));
            },
        },
        BgEvent::Deleted(res) => match res {
            Ok(_) => {
                out.status = Some((owned("Queue deleted"), false));
                out.loading = Some(true);
                out.reload = Reload::Queues;
            },
            Err(e) => {
                out.status = Some((prefixed("Delete failed: ", e.as_str()), true));
            },
        },
        BgEvent::OperationComplete(res) => {
            out.popup = PopupChange::Close;
            match res {
                Ok(m) => {
                    out.status = Some((m, false));
                    out.loading = Some(true);
                    out.reload = Reload::Queues;
                },
                Err(e) => {
                    out.status = Some((e, true));
                },
            }
        },
        BgEvent::ConsumerGroups(res) => {
            out.loading = Some(false);
            match res {
                Ok(_) => {},
                Err(e) => {
                    out.popup = PopupChange::Close;
                    out.status = Some((prefixed("Consumer groups: ", e.as_str()), true));
                },
            }
        },
        BgEvent::ReplayComplete(res) => {
            out.popup = PopupChange::Close;
            match res {
                Ok(n) => {
                    let mut s = owned("Replayed ");
                    push_decimal(&mut s, n);
                    push_str(&mut s, " messages");
                    out.status = Some((s, false));
                },
                Err(e) => {
                    out.status = Some((prefixed("Replay failed: ", e.as_str()), true));
                },
            }
        },
        BgEvent::Topology(res) => {
            out.loading = Some(false);
            match res {
                Ok(_) => {},
                Err(e) => {
                    out.popup = PopupChange::Close;
                    out.status = Some((prefixed("Topology: ", e.as_str()), true));
                },
            }
        },
        BgEvent::ScheduledPublished(res) => match res {
            Ok(_) => {
                out.status = Some((owned("Scheduled message published"), false));
                if screen == Screen::MessageList {
                    out.reload = Reload::Messages;
                }
            },
            Err(e) => {
                out.status = Some((prefixed("Scheduled publish failed: ", e.as_str()), true));
            },
        },
        BgEvent::OffsetReset(res) => {
            out.popup = PopupChange::ConsumerGroups;
            match res {
                Ok(m) => {
                    out.status = Some((m, false));
                    if !groups_queue.is_empty() {
                        out.reload = Reload::ConsumerGroups;
                    }
                },
                Err(e) => {
                    out.status = Some((prefixed("Offset reset failed: ", e.as_str()), true));
                },
            }
        },
        BgEvent::QueueDetail(res) => {
            out.loading = Some(false);
            match res {
                Ok(_) => {},
                Err(e) => {
                    out.popup = PopupChange::Close;
                    out.status = Some((prefixed("Queue detail: ", e.as_str()), true));
                },
            }
        },
        BgEvent::RetainedMessages(res) => {
            out.loading = Some(false);
            match res {
                Ok(n) => {
                    if n == 0 {
                        out.popup = PopupChange::Close;
                        out.status = Some((owned("No retained messages found"), false));
                    } else {
                        out.status = Some((counted(n as u64, " retained message(s) found"), false));
                    }
                },
                Err(e) => {
                    out.popup = PopupChange::Close;
                    out.status = Some((prefixed("Retained messages: ", e.as_str()), true));
                },
            }
        },
        BgEvent::RetainedCleared(res) => match res {
            Ok(m) => {
                out.status = Some((m, false));
                out.reload = Reload::Retained;
            },
            Err(e) => {
                out.status = Some((prefixed("Clear retained: ", e.as_str()), true));
            },
        },
        BgEvent::Permissions(res) => {
            out.loading = Some(false);
            match res {
                Ok(n) => {
                    if n == 0 {
                        out.popup = PopupChange::Close;
                        out.status = Some((owned("No permissions found"), false));
                    } else {
                        out.status = Some((counted(n as u64, " permission(s) loaded"), false));
                    }
                },
                Err(e) => {
                    out.popup = PopupChange::Close;
                    out.status = Some((prefixed("Permissions: ", e.as_str()), true));
                },
            }
        },
    }
    out
}

} // verus!
